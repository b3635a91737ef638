//! Character-level helpers shared by the parsers and page builders.
//!
//! Texts are modelled as `Seq<char>`. Scanning functions are written with
//! an explicit position so that loops can follow them step by step.

use vstd::prelude::*;

verus! {

/// `String::push` appends one character.
pub assume_specification[ String::push ](s: &mut String, c: char)
    ensures
        final(s)@ == old(s)@.push(c),
;

/// Copies the characters of `s` into a vector.
pub fn chars_of(s: &str) -> (out: Vec<char>)
    ensures
        out@ == s@,
{
    let mut out: Vec<char> = Vec::new();
    for c in it: s.chars()
        invariant
            it.seq() == s@,
            out@ == it.seq().take(it.index()),
    {
        out.push(c);
    }
    assert(s@.take(s@.len() as int) == s@);
    out
}

/// Builds a string from a slice of characters.
pub fn string_of(v: &[char]) -> (out: String)
    ensures
        out@ == v@,
{
    let mut out = String::new();
    let mut i: usize = 0;
    while i < v.len()
        invariant
            i <= v.len(),
            out@ == v@.take(i as int),
        decreases v.len() - i,
    {
        out.push(v[i]);
        i += 1;
    }
    assert(v@.take(v.len() as int) == v@);
    out
}

/// Copies `v[from..to]`.
pub fn slice_of(v: &[char], from: usize, to: usize) -> (out: Vec<char>)
    requires
        from <= to <= v.len(),
    ensures
        out@ == v@.subrange(from as int, to as int),
{
    let mut out: Vec<char> = Vec::new();
    let mut i: usize = from;
    while i < to
        invariant
            from <= i <= to <= v.len(),
            out@ == v@.subrange(from as int, i as int),
        decreases to - i,
    {
        out.push(v[i]);
        i += 1;
    }
    out
}

/// The characters with the Unicode property White_Space.
pub open spec fn is_space(c: char) -> bool {
    let n = c as u32;
    ||| 0x09 <= n <= 0x0d
    ||| n == 0x20
    ||| n == 0x85
    ||| n == 0xa0
    ||| n == 0x1680
    ||| 0x2000 <= n <= 0x200a
    ||| n == 0x2028
    ||| n == 0x2029
    ||| n == 0x202f
    ||| n == 0x205f
    ||| n == 0x3000
}

/// Tells whether `c` is white space.
pub fn is_whitespace(c: char) -> (r: bool)
    ensures
        r == is_space(c),
{
    let n: u32 = c as u32;
    (0x09 <= n && n <= 0x0d) || n == 0x20 || n == 0x85 || n == 0xa0 || n == 0x1680 || (0x2000 <= n
        && n <= 0x200a) || n == 0x2028 || n == 0x2029 || n == 0x202f || n == 0x205f || n == 0x3000
}

/// The first position at or after `i` that holds no white space
/// (the length of `s` if there is none).
pub open spec fn skip_spaces(s: Seq<char>, i: int) -> int
    decreases s.len() - i,
{
    if 0 <= i < s.len() && is_space(s[i]) {
        skip_spaces(s, i + 1)
    } else {
        i
    }
}

/// The end of `s[..j]` once its trailing white space is cut off.
pub open spec fn skip_spaces_back(s: Seq<char>, j: int) -> int
    decreases j,
{
    if 0 < j <= s.len() && is_space(s[j - 1]) {
        skip_spaces_back(s, j - 1)
    } else {
        j
    }
}

/// `s` without leading and trailing white space.
pub open spec fn trimmed(s: Seq<char>) -> Seq<char> {
    let a = skip_spaces(s, 0);
    let b = skip_spaces_back(s, s.len() as int);
    if a < b {
        s.subrange(a, b)
    } else {
        Seq::empty()
    }
}

/// Skipping white space stays within the text.
pub proof fn lemma_skip_spaces_bounds(s: Seq<char>, i: int)
    requires
        0 <= i <= s.len(),
    ensures
        i <= skip_spaces(s, i) <= s.len(),
    decreases s.len() - i,
{
    if i < s.len() && is_space(s[i]) {
        lemma_skip_spaces_bounds(s, i + 1);
    }
}

/// Scans forward over white space.
pub fn scan_spaces(v: &[char], from: usize) -> (to: usize)
    requires
        from <= v.len(),
    ensures
        to == skip_spaces(v@, from as int),
        from <= to <= v.len(),
{
    let mut i: usize = from;
    while i < v.len() && is_whitespace(v[i])
        invariant
            from <= i <= v.len(),
            skip_spaces(v@, from as int) == skip_spaces(v@, i as int),
        decreases v.len() - i,
    {
        i += 1;
    }
    i
}

/// Scans backward over white space.
pub fn scan_spaces_back(v: &[char], end: usize) -> (to: usize)
    requires
        end <= v.len(),
    ensures
        to == skip_spaces_back(v@, end as int),
        to <= end,
{
    let mut j: usize = end;
    while j > 0 && is_whitespace(v[j - 1])
        invariant
            j <= end <= v.len(),
            skip_spaces_back(v@, end as int) == skip_spaces_back(v@, j as int),
        decreases j,
    {
        j -= 1;
    }
    j
}

/// Removes leading and trailing white space.
pub fn trim(v: &[char]) -> (out: Vec<char>)
    ensures
        out@ == trimmed(v@),
{
    let a = scan_spaces(v, 0);
    let b = scan_spaces_back(v, v.len());
    if a < b {
        slice_of(v, a, b)
    } else {
        Vec::new()
    }
}

/// Whether `s` holds `p` at position `i`.
pub open spec fn has_at(s: Seq<char>, i: int, p: Seq<char>) -> bool {
    &&& 0 <= i
    &&& i + p.len() <= s.len()
    &&& s.subrange(i, i + p.len()) == p
}

/// The first position at or after `i` that does not hold `c`.
pub open spec fn skip_char(s: Seq<char>, i: int, c: char) -> int
    decreases s.len() - i,
{
    if 0 <= i < s.len() && s[i] == c {
        skip_char(s, i + 1, c)
    } else {
        i
    }
}

/// The first position at or after `i` that holds white space
/// (the length of `s` if there is none).
pub open spec fn skip_non_spaces(s: Seq<char>, i: int) -> int
    decreases s.len() - i,
{
    if 0 <= i < s.len() && !is_space(s[i]) {
        skip_non_spaces(s, i + 1)
    } else {
        i
    }
}

/// Scans forward over a run of `c`.
pub fn scan_char(v: &[char], from: usize, c: char) -> (to: usize)
    requires
        from <= v.len(),
    ensures
        to == skip_char(v@, from as int, c),
        from <= to <= v.len(),
{
    let mut i: usize = from;
    while i < v.len() && v[i] == c
        invariant
            from <= i <= v.len(),
            skip_char(v@, from as int, c) == skip_char(v@, i as int, c),
        decreases v.len() - i,
    {
        i += 1;
    }
    i
}

/// Scans forward over everything but white space.
pub fn scan_non_spaces(v: &[char], from: usize) -> (to: usize)
    requires
        from <= v.len(),
    ensures
        to == skip_non_spaces(v@, from as int),
        from <= to <= v.len(),
{
    let mut i: usize = from;
    while i < v.len() && !is_whitespace(v[i])
        invariant
            from <= i <= v.len(),
            skip_non_spaces(v@, from as int) == skip_non_spaces(v@, i as int),
        decreases v.len() - i,
    {
        i += 1;
    }
    i
}

/// The position of the first line feed at or after `i`
/// (the length of `s` if there is none).
pub open spec fn line_end(s: Seq<char>, i: int) -> int
    decreases s.len() - i,
{
    if 0 <= i < s.len() && s[i] != '\n' {
        line_end(s, i + 1)
    } else {
        i
    }
}

/// The line that starts at `i` and ends before `e`: a carriage return
/// just before a closing line feed belongs to the line ending.
pub open spec fn line_at(s: Seq<char>, i: int, e: int) -> Seq<char> {
    if e < s.len() && i < e && s[e - 1] == '\r' {
        s.subrange(i, e - 1)
    } else {
        s.subrange(i, e)
    }
}

/// The lines of `s` from position `i` on. Lines end at a line feed or at
/// a carriage return followed by a line feed; the last line needs no
/// ending, and an ending at the very end opens no further line.
pub open spec fn lines_from(s: Seq<char>, i: int) -> Seq<Seq<char>>
    decreases s.len() - i,
{
    if 0 <= i < s.len() {
        let e = line_end(s, i);
        if i <= e < s.len() {
            seq![line_at(s, i, e)] + lines_from(s, e + 1)
        } else {
            seq![line_at(s, i, e)]
        }
    } else {
        Seq::empty()
    }
}

/// The lines of `s`.
pub open spec fn lines_of(s: Seq<char>) -> Seq<Seq<char>> {
    lines_from(s, 0)
}

/// The views of a sequence of strings.
pub open spec fn texts(v: Seq<String>) -> Seq<Seq<char>> {
    v.map_values(|s: String| s@)
}

/// The views of a sequence of character vectors.
pub open spec fn rows(v: Seq<Vec<char>>) -> Seq<Seq<char>> {
    v.map_values(|l: Vec<char>| l@)
}

/// Splits a text into its lines.
pub fn split_lines(v: &[char]) -> (out: Vec<Vec<char>>)
    ensures
        rows(out@) == lines_of(v@),
{
    let mut out: Vec<Vec<char>> = Vec::new();
    let mut i: usize = 0;
    assert(rows(out@) == Seq::<Seq<char>>::empty());
    while i < v.len()
        invariant
            i <= v.len(),
            lines_of(v@) == rows(out@) + lines_from(v@, i as int),
        decreases v.len() - i,
    {
        let mut e: usize = i;
        while e < v.len() && v[e] != '\n'
            invariant
                i <= e <= v.len(),
                line_end(v@, i as int) == line_end(v@, e as int),
            decreases v.len() - e,
        {
            e += 1;
        }
        let stop: usize = if e < v.len() && i < e && v[e - 1] == '\r' {
            e - 1
        } else {
            e
        };
        let line = slice_of(v, i, stop);
        proof {
            let before = rows(out@);
            assert(rows(out@.push(line)) == before.push(line@));
            assert(before + (seq![line@] + lines_from(v@, e + 1)) == before.push(line@)
                + lines_from(v@, e + 1));
            assert(before + seq![line@] == before.push(line@) + Seq::<Seq<char>>::empty());
        }
        out.push(line);
        i = if e < v.len() {
            e + 1
        } else {
            e
        };
    }
    assert(lines_from(v@, i as int) == Seq::<Seq<char>>::empty());
    out
}

/// The decimal digits of `n`.
pub open spec fn decimal(n: nat) -> Seq<char>
    decreases n,
{
    if n < 10 {
        seq![digit(n)]
    } else {
        decimal(n / 10).push(digit(n % 10))
    }
}

/// The character for a digit.
pub open spec fn digit(d: nat) -> char {
    if d == 0 {
        '0'
    } else if d == 1 {
        '1'
    } else if d == 2 {
        '2'
    } else if d == 3 {
        '3'
    } else if d == 4 {
        '4'
    } else if d == 5 {
        '5'
    } else if d == 6 {
        '6'
    } else if d == 7 {
        '7'
    } else if d == 8 {
        '8'
    } else {
        '9'
    }
}

/// The character for a digit.
fn digit_char(d: u64) -> (c: char)
    requires
        d < 10,
    ensures
        c == digit(d as nat),
{
    if d == 0 {
        '0'
    } else if d == 1 {
        '1'
    } else if d == 2 {
        '2'
    } else if d == 3 {
        '3'
    } else if d == 4 {
        '4'
    } else if d == 5 {
        '5'
    } else if d == 6 {
        '6'
    } else if d == 7 {
        '7'
    } else if d == 8 {
        '8'
    } else {
        '9'
    }
}

/// Writes a number in decimal.
pub fn decimal_chars(n: u64) -> (out: Vec<char>)
    ensures
        out@ == decimal(n as nat),
    decreases n,
{
    if n < 10 {
        let mut out: Vec<char> = Vec::new();
        out.push(digit_char(n));
        out
    } else {
        let mut out = decimal_chars(n / 10);
        out.push(digit_char(n % 10));
        out
    }
}

/// `s` with every space written as `%20`.
pub open spec fn escaped_spaces(s: Seq<char>) -> Seq<char>
    decreases s.len(),
{
    if s.len() == 0 {
        Seq::empty()
    } else if s.last() == ' ' {
        escaped_spaces(s.drop_last()) + seq!['%', '2', '0']
    } else {
        escaped_spaces(s.drop_last()).push(s.last())
    }
}

/// Writes every space as `%20`.
pub fn escape_spaces(s: &str) -> (out: String)
    ensures
        out@ == escaped_spaces(s@),
{
    let chars = chars_of(s);
    let mut out = String::new();
    let mut i: usize = 0;
    while i < chars.len()
        invariant
            i <= chars.len(),
            chars@ == s@,
            out@ == escaped_spaces(chars@.take(i as int)),
        decreases chars.len() - i,
    {
        let c = chars[i];
        assert(chars@.take(i + 1).drop_last() == chars@.take(i as int));
        if c == ' ' {
            out.push('%');
            out.push('2');
            out.push('0');
            assert(out@ == escaped_spaces(chars@.take(i as int)) + seq!['%', '2', '0']);
        } else {
            out.push(c);
        }
        i += 1;
    }
    assert(chars@.take(chars.len() as int) == chars@);
    out
}

/// The value of the digit `c`, if it is one.
pub open spec fn digit_value(c: char) -> Option<nat> {
    if '0' <= c <= '9' {
        Some((c as u32 - '0' as u32) as nat)
    } else {
        None
    }
}

/// Whether all of `s[from..to]` are decimal digits.
pub open spec fn all_digits(s: Seq<char>, from: int, to: int) -> bool {
    forall|i: int| from <= i < to ==> (#[trigger] digit_value(s[i])) is Some
}

/// The number that the digits `s[from..to]` write.
pub open spec fn digits_value(s: Seq<char>, from: int, to: int) -> nat
    decreases to - from,
{
    if from < to {
        digits_value(s, from, to - 1) * 10 + match digit_value(s[to - 1]) {
            Some(d) => d,
            None => 0,
        }
    } else {
        0
    }
}

/// The number that a text writes in decimal, as `u64` reads it: digits
/// only, at least one, after at most one `+`, and no more than fits.
pub open spec fn parsed_u64(s: Seq<char>) -> Option<u64> {
    let from: int = if s.len() > 0 && s[0] == '+' {
        1
    } else {
        0
    };
    if from < s.len() && all_digits(s, from, s.len() as int) && digits_value(
        s,
        from,
        s.len() as int,
    ) <= u64::MAX {
        Some(digits_value(s, from, s.len() as int) as u64)
    } else {
        None
    }
}

/// More digits write no smaller number.
pub proof fn lemma_digits_value_grows(s: Seq<char>, from: int, mid: int, to: int)
    requires
        from <= mid <= to,
    ensures
        digits_value(s, from, mid) <= digits_value(s, from, to),
    decreases to - mid,
{
    if mid < to {
        lemma_digits_value_grows(s, from, mid, to - 1);
    }
}

/// Reads a number in decimal.
pub fn parse_u64(s: &str) -> (r: Option<u64>)
    ensures
        r == parsed_u64(s@),
{
    let chars = chars_of(s);
    let from: usize = if chars.len() > 0 && chars[0] == '+' {
        1
    } else {
        0
    };
    if from >= chars.len() {
        return None;
    }
    let mut value: u64 = 0;
    let mut i: usize = from;
    while i < chars.len()
        invariant
            from <= i <= chars.len(),
            chars@ == s@,
            from == (if chars@.len() > 0 && chars@[0] == '+' {
                1int
            } else {
                0
            }),
            all_digits(chars@, from as int, i as int),
            value == digits_value(chars@, from as int, i as int),
        decreases chars.len() - i,
    {
        let c = chars[i];
        if !('0' <= c && c <= '9') {
            assert(digit_value(chars@[i as int]) is None);
            assert(!all_digits(chars@, from as int, chars.len() as int));
            return None;
        }
        let d: u64 = (c as u32 - '0' as u32) as u64;
        assert(digit_value(chars@[i as int]) == Some(d as nat));
        assert(digits_value(chars@, from as int, i + 1) == value * 10 + d);
        if value > (u64::MAX - d) / 10 {
            proof {
                assert(value * 10 + d > u64::MAX);
                lemma_digits_value_grows(chars@, from as int, i + 1, chars.len() as int);
            }
            return None;
        }
        value = value * 10 + d;
        i += 1;
    }
    Some(value)
}

/// Whether `s` ends with `c`.
pub open spec fn ends_with_char(s: Seq<char>, c: char) -> bool {
    s.len() > 0 && s.last() == c
}

/// The position after the last `c` in `s[..j]` (0 if there is none).
pub open spec fn after_last(s: Seq<char>, j: int, c: char) -> int
    decreases j,
{
    if 0 < j <= s.len() && s[j - 1] != c {
        after_last(s, j - 1, c)
    } else {
        j
    }
}

/// What follows the last `/` of a path: its last segment.
pub open spec fn last_segment(path: Seq<char>) -> Seq<char> {
    let from = after_last(path, path.len() as int, '/');
    if 0 <= from <= path.len() {
        path.subrange(from, path.len() as int)
    } else {
        path
    }
}

/// Cuts the last segment off a path.
pub fn last_segment_of(path: &[char]) -> (out: Vec<char>)
    ensures
        out@ == last_segment(path@),
{
    let mut j: usize = path.len();
    while j > 0 && path[j - 1] != '/'
        invariant
            j <= path.len(),
            after_last(path@, path.len() as int, '/') == after_last(path@, j as int, '/'),
        decreases j,
    {
        j -= 1;
    }
    slice_of(path, j, path.len())
}

/// `s` from position `i` on, with every run of white space written as
/// one space.
pub open spec fn collapsed_from(s: Seq<char>, i: int) -> Seq<char>
    decreases s.len() - i,
{
    if 0 <= i < s.len() {
        if is_space(s[i]) {
            let next = skip_spaces(s, i);
            if i < next <= s.len() {
                seq![' '] + collapsed_from(s, next)
            } else {
                seq![' ']
            }
        } else {
            seq![s[i]] + collapsed_from(s, i + 1)
        }
    } else {
        Seq::empty()
    }
}

/// `s` with every run of white space written as one space.
pub open spec fn collapsed(s: Seq<char>) -> Seq<char> {
    collapsed_from(s, 0)
}

/// Writes every run of white space as one space.
pub fn collapse_spaces(v: &[char]) -> (out: Vec<char>)
    ensures
        out@ == collapsed(v@),
{
    let mut out: Vec<char> = Vec::new();
    let mut i: usize = 0;
    assert(out@ + collapsed_from(v@, 0) == collapsed(v@));
    while i < v.len()
        invariant
            i <= v.len(),
            collapsed(v@) == out@ + collapsed_from(v@, i as int),
        decreases v.len() - i,
    {
        let ghost before = out@;
        if is_whitespace(v[i]) {
            let next = scan_spaces(v, i);
            proof {
                lemma_skip_spaces_bounds(v@, i + 1);
            }
            out.push(' ');
            assert(before + (seq![' '] + collapsed_from(v@, next as int)) == before.push(' ')
                + collapsed_from(v@, next as int));
            assert(before + seq![' '] == before.push(' ') + Seq::<char>::empty());
            i = next;
        } else {
            out.push(v[i]);
            assert(before + (seq![v@[i as int]] + collapsed_from(v@, i + 1)) == before.push(
                v@[i as int],
            ) + collapsed_from(v@, i + 1));
            i += 1;
        }
    }
    assert(out@ + Seq::<char>::empty() == out@);
    out
}

/// `s` from position `i` on, with `rep` in place of every `pat`, found
/// from left to right. A `pat` without characters is found nowhere.
pub open spec fn replaced_from(s: Seq<char>, i: int, pat: Seq<char>, rep: Seq<char>) -> Seq<char>
    decreases s.len() - i,
{
    if 0 <= i < s.len() {
        if pat.len() > 0 && has_at(s, i, pat) {
            rep + replaced_from(s, i + pat.len(), pat, rep)
        } else {
            seq![s[i]] + replaced_from(s, i + 1, pat, rep)
        }
    } else {
        Seq::empty()
    }
}

/// `s` with `rep` in place of every `pat`.
pub open spec fn replaced(s: Seq<char>, pat: Seq<char>, rep: Seq<char>) -> Seq<char> {
    replaced_from(s, 0, pat, rep)
}

/// Tells whether `v` holds `p` at position `i`.
pub fn holds_at(v: &[char], i: usize, p: &[char]) -> (r: bool)
    requires
        i <= v.len(),
    ensures
        r == has_at(v@, i as int, p@),
{
    if p.len() > v.len() - i {
        return false;
    }
    let mut k: usize = 0;
    while k < p.len()
        invariant
            i <= v.len(),
            k <= p.len() <= v.len() - i,
            v@.subrange(i as int, i + k) == p@.subrange(0, k as int),
        decreases p.len() - k,
    {
        if v[i + k] != p[k] {
            assert(v@.subrange(i as int, i + p.len())[k as int] != p@[k as int]);
            return false;
        }
        assert(v@.subrange(i as int, i + k + 1) == v@.subrange(i as int, i + k).push(v@[i + k]));
        assert(p@.subrange(0, k + 1) == p@.subrange(0, k as int).push(p@[k as int]));
        k += 1;
    }
    assert(p@.subrange(0, p.len() as int) == p@);
    true
}

/// Tells whether `v` starts with `p`.
pub fn starts_with(v: &[char], p: &[char]) -> (r: bool)
    ensures
        r == has_at(v@, 0, p@),
{
    holds_at(v, 0, p)
}

/// Puts `rep` in place of every `pat`.
pub fn replace_all(v: &[char], pat: &[char], rep: &[char]) -> (out: Vec<char>)
    ensures
        out@ == replaced(v@, pat@, rep@),
{
    let mut out: Vec<char> = Vec::new();
    let mut i: usize = 0;
    assert(out@ + replaced_from(v@, 0, pat@, rep@) == replaced(v@, pat@, rep@));
    while i < v.len()
        invariant
            i <= v.len(),
            replaced(v@, pat@, rep@) == out@ + replaced_from(v@, i as int, pat@, rep@),
        decreases v.len() - i,
    {
        let ghost before = out@;
        if pat.len() > 0 && holds_at(v, i, pat) {
            let mut k: usize = 0;
            while k < rep.len()
                invariant
                    k <= rep.len(),
                    out@ == before + rep@.subrange(0, k as int),
                decreases rep.len() - k,
            {
                out.push(rep[k]);
                assert(rep@.subrange(0, k + 1) == rep@.subrange(0, k as int).push(rep@[k as int]));
                k += 1;
            }
            assert(rep@.subrange(0, rep.len() as int) == rep@);
            assert(before + (rep@ + replaced_from(v@, i + pat.len(), pat@, rep@)) == (before
                + rep@) + replaced_from(v@, i + pat.len(), pat@, rep@));
            i += pat.len();
        } else {
            out.push(v[i]);
            assert(before + (seq![v@[i as int]] + replaced_from(v@, i + 1, pat@, rep@))
                == before.push(v@[i as int]) + replaced_from(v@, i + 1, pat@, rep@));
            i += 1;
        }
    }
    assert(out@ + Seq::<char>::empty() == out@);
    out
}

/// The code of `c`, or that of its lower case if `c` is one of the
/// letters `A` to `Z`.
pub open spec fn lower_code(c: char) -> int {
    if 'A' <= c <= 'Z' {
        c as u32 + 32
    } else {
        c as u32 as int
    }
}

/// Whether `s` is `word` but for the case of the letters `A` to `Z` in it.
pub open spec fn is_word(s: Seq<char>, word: Seq<char>) -> bool {
    &&& s.len() == word.len()
    &&& forall|i: int| 0 <= i < s.len() ==> lower_code(#[trigger] s[i]) == word[i] as u32
}

/// Tells whether `s` is `word` but for the case of its letters.
pub fn same_word(s: &str, word: &str) -> (r: bool)
    ensures
        r == is_word(s@, word@),
{
    let a = chars_of(s);
    let b = chars_of(word);
    if a.len() != b.len() {
        return false;
    }
    let mut i: usize = 0;
    while i < a.len()
        invariant
            i <= a.len(),
            a.len() == b.len(),
            a@ == s@,
            b@ == word@,
            forall|k: int| 0 <= k < i ==> lower_code(#[trigger] a@[k]) == b@[k] as u32,
        decreases a.len() - i,
    {
        let c = a[i];
        let lower: u32 = if 'A' <= c && c <= 'Z' {
            c as u32 + 32
        } else {
            c as u32
        };
        if lower != b[i] as u32 {
            assert(lower_code(a@[i as int]) != b@[i as int] as u32);
            return false;
        }
        i += 1;
    }
    true
}

/// The end of a line is the first line feed from its start on.
pub proof fn lemma_line_end_is_first(s: Seq<char>, i: int)
    requires
        0 <= i <= s.len(),
    ensures
        i <= line_end(s, i) <= s.len(),
        forall|k: int| i <= k < line_end(s, i) ==> s[k] != '\n',
        line_end(s, i) < s.len() ==> s[line_end(s, i)] == '\n',
    decreases s.len() - i,
{
    if i < s.len() && s[i] != '\n' {
        lemma_line_end_is_first(s, i + 1);
    }
}

/// The first line feed from the start of a line on is its end.
pub proof fn lemma_first_is_line_end(s: Seq<char>, i: int, e: int)
    requires
        0 <= i <= e <= s.len(),
        forall|k: int| i <= k < e ==> s[k] != '\n',
        e < s.len() ==> s[e] == '\n',
    ensures
        line_end(s, i) == e,
    decreases e - i,
{
    if i < e {
        lemma_first_is_line_end(s, i + 1, e);
    }
}

/// A text that ends with a line feed, with one more line after it that
/// has no ending, has the lines of the text and then that line.
pub proof fn lemma_lines_with_added_line(text: Seq<char>, line: Seq<char>, i: int)
    requires
        text.len() == 0 || text.last() == '\n',
        line.len() > 0,
        forall|k: int| 0 <= k < line.len() ==> line[k] != '\n',
        0 <= i <= text.len(),
    ensures
        lines_from(text + line, i) == lines_from(text, i).push(line),
    decreases text.len() - i,
{
    let whole = text + line;
    if i == text.len() {
        lemma_first_is_line_end(whole, i, whole.len() as int);
        assert(whole.subrange(i, whole.len() as int) == line);
        assert(lines_from(text, i) == Seq::<Seq<char>>::empty());
        assert(seq![line] == Seq::<Seq<char>>::empty().push(line));
    } else {
        lemma_line_end_is_first(text, i);
        let e = line_end(text, i);
        assert(e < text.len()) by {
            if e == text.len() {
                assert(text[text.len() - 1] != '\n');
            }
        }
        lemma_first_is_line_end(whole, i, e);
        assert(line_at(whole, i, e) == line_at(text, i, e)) by {
            assert(whole.subrange(i, e) == text.subrange(i, e));
            if i < e {
                assert(whole.subrange(i, e - 1) == text.subrange(i, e - 1));
            }
        }
        lemma_lines_with_added_line(text, line, e + 1);
        let first = seq![line_at(text, i, e)];
        let rest = lines_from(text, e + 1);
        assert(first + rest.push(line) == (first + rest).push(line));
    }
}

/// A text that ends with a line feed, with one more line after it that
/// ends with a line feed too, has the lines of the text and then that
/// line.
pub proof fn lemma_lines_with_ended_line(text: Seq<char>, line: Seq<char>, i: int)
    requires
        text.len() == 0 || text.last() == '\n',
        forall|k: int| 0 <= k < line.len() ==> line[k] != '\n',
        line.len() == 0 || line.last() != '\r',
        0 <= i <= text.len(),
    ensures
        lines_from(text + line + seq!['\n'], i) == lines_from(text, i).push(line),
    decreases text.len() - i,
{
    let whole = text + line + seq!['\n'];
    if i == text.len() {
        let e: int = (text.len() + line.len()) as int;
        lemma_first_is_line_end(whole, i, e);
        assert(whole.subrange(i, e) == line);
        assert(lines_from(whole, e + 1) == Seq::<Seq<char>>::empty());
        assert(lines_from(text, i) == Seq::<Seq<char>>::empty());
        assert(seq![line] + Seq::<Seq<char>>::empty() == Seq::<Seq<char>>::empty().push(line));
    } else {
        lemma_line_end_is_first(text, i);
        let e = line_end(text, i);
        assert(e < text.len()) by {
            if e == text.len() {
                assert(text[text.len() - 1] != '\n');
            }
        }
        lemma_first_is_line_end(whole, i, e);
        assert(line_at(whole, i, e) == line_at(text, i, e)) by {
            assert(whole.subrange(i, e) == text.subrange(i, e));
            if i < e {
                assert(whole.subrange(i, e - 1) == text.subrange(i, e - 1));
            }
        }
        lemma_lines_with_ended_line(text, line, e + 1);
        let first = seq![line_at(text, i, e)];
        let rest = lines_from(text, e + 1);
        assert(first + rest.push(line) == (first + rest).push(line));
    }
}

/// Whether a text holds no white space but spaces.
pub open spec fn spaces_only(s: Seq<char>) -> bool {
    forall|i: int| 0 <= i < s.len() && is_space(#[trigger] s[i]) ==> s[i] == ' '
}

/// Whether a text holds no white space.
pub open spec fn unbroken(s: Seq<char>) -> bool {
    forall|i: int| 0 <= i < s.len() ==> !is_space(#[trigger] s[i])
}

/// The last segment of a path without white space has none either.
pub proof fn lemma_segment_of_unbroken(path: Seq<char>)
    requires
        unbroken(path),
    ensures
        unbroken(last_segment(path)),
        spaces_only(last_segment(path)),
{
    let from = after_last(path, path.len() as int, '/');
    if 0 <= from <= path.len() {
        assert forall|i: int| 0 <= i < last_segment(path).len() implies !is_space(
            #[trigger] last_segment(path)[i],
        ) by {
            assert(last_segment(path)[i] == path[from + i]);
        }
    }
}

/// Escaping spaces leaves a text without white space as it is.
pub proof fn lemma_unbroken_needs_no_escape(s: Seq<char>)
    requires
        unbroken(s),
    ensures
        escaped_spaces(s) == s,
    decreases s.len(),
{
    if s.len() > 0 {
        let front = s.drop_last();
        assert forall|i: int| 0 <= i < front.len() implies !is_space(#[trigger] front[i]) by {
            assert(front[i] == s[i]);
        }
        lemma_unbroken_needs_no_escape(front);
        assert(!is_space(s[s.len() - 1]));
        assert(front.push(s.last()) == s);
    }
}

} // verus!
