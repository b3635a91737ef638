//! Line-oriented markup: one block per line, except that quoted lines and
//! fenced code are grouped.

use vstd::prelude::*;
use vstd::string::StringExecFns;
use crate::text::{
    chars_of, is_space, is_whitespace, lemma_lines_with_added_line, lines_of, rows, scan_char,
    scan_non_spaces, scan_spaces, scan_spaces_back, skip_char, skip_non_spaces, skip_spaces,
    skip_spaces_back, slice_of, split_lines, string_of, texts, trim, trimmed,
};

verus! {

/// A parsed chunk of markup.
#[derive(Debug, PartialEq, Eq)]
pub enum Block {
    /// A heading, preceded by one or more `#`.
    Heading { level: u8, text: String },
    /// A plain line.
    Text(String),
    /// An unordered list item.
    ListItem { text: String },
    /// One or more quoted lines.
    BlockQuote { lines: Vec<Block> },
    /// Lines between two code fences, with what followed the opening fence.
    CodeFence { meta: String, lines: Vec<String> },
    /// A link line.
    Link { url: String, text: String },
}

/// What a [`Block`] stands for.
pub enum BlockView {
    Heading { level: u8, text: Seq<char> },
    Text(Seq<char>),
    ListItem { text: Seq<char> },
    BlockQuote { lines: Seq<BlockView> },
    CodeFence { meta: Seq<char>, lines: Seq<Seq<char>> },
    Link { url: Seq<char>, text: Seq<char> },
}

impl Block {
    /// The model of a block.
    pub open spec fn model(self) -> BlockView
        decreases self,
    {
        match self {
            Block::Heading { level, text } => BlockView::Heading { level, text: text@ },
            Block::Text(text) => BlockView::Text(text@),
            Block::ListItem { text } => BlockView::ListItem { text: text@ },
            Block::BlockQuote { lines } => BlockView::BlockQuote { lines: models(lines@) },
            Block::CodeFence { meta, lines } => BlockView::CodeFence {
                meta: meta@,
                lines: texts(lines@),
            },
            Block::Link { url, text } => BlockView::Link { url: url@, text: text@ },
        }
    }
}

/// The models of a sequence of blocks.
pub open spec fn models(blocks: Seq<Block>) -> Seq<BlockView>
    decreases blocks,
{
    if blocks.len() == 0 {
        Seq::empty()
    } else {
        models(blocks.drop_last()).push(blocks.last().model())
    }
}

impl View for Block {
    type V = BlockView;

    open spec fn view(&self) -> BlockView {
        self.model()
    }
}

/// A heading line: one or more `#`, one or more spaces, then the text.
/// The level is the number of `#`, kept in eight bits.
pub open spec fn heading_of(line: Seq<char>) -> Option<(u8, Seq<char>)> {
    let hashes = skip_char(line, 0, '#');
    let start = skip_char(line, hashes, ' ');
    if 0 < hashes < start <= line.len() {
        Some(((hashes % 256) as u8, line.subrange(start, line.len() as int)))
    } else {
        None
    }
}

/// A link line: `=>`, white space, a target without white space and, after
/// more white space, an optional label that runs to the last character that
/// is not white space.
pub open spec fn link_of(line: Seq<char>) -> Option<(Seq<char>, Seq<char>)> {
    let url_start = skip_spaces(line, 2);
    let url_end = skip_non_spaces(line, url_start);
    let text_start = skip_spaces(line, url_end);
    let text_end = skip_spaces_back(line, line.len() as int);
    if line.len() >= 2 && line[0] == '=' && line[1] == '>' && 2 < url_start < url_end
        <= line.len() {
        Some(
            (
                line.subrange(url_start, url_end),
                if text_start < text_end <= line.len() {
                    line.subrange(text_start, text_end)
                } else {
                    Seq::empty()
                },
            ),
        )
    } else {
        None
    }
}

/// A list item line: at most one white space character, `*`, one white
/// space character, then the text. The text is never empty: it keeps its
/// first character even if that is white space, and otherwise ends at the
/// last character that is not white space.
pub open spec fn list_item_of(line: Seq<char>) -> Option<Seq<char>> {
    let star: int = if line.len() > 0 && is_space(line[0]) {
        1
    } else {
        0
    };
    let text_end = skip_spaces_back(line, line.len() as int);
    if line.len() > star + 2 && line[star] == '*' && is_space(line[star + 1]) {
        Some(
            line.subrange(
                star + 2,
                if text_end > star + 2 {
                    text_end
                } else {
                    star + 3
                },
            ),
        )
    } else {
        None
    }
}

/// The block that a line makes by itself, outside quotes and code.
pub open spec fn line_block(line: Seq<char>) -> BlockView {
    if let Some((level, text)) = heading_of(line) {
        BlockView::Heading { level, text }
    } else if let Some((url, text)) = link_of(line) {
        BlockView::Link { url, text }
    } else if let Some(text) = list_item_of(line) {
        BlockView::ListItem { text }
    } else {
        BlockView::Text(line)
    }
}

/// A line inside a code block: up to five of its leading spaces become
/// no-break spaces, so that indentation survives where spaces collapse.
pub open spec fn code_line(line: Seq<char>) -> Seq<char> {
    let spaces = skip_char(line, 0, ' ');
    Seq::new(
        line.len(),
        |i: int|
            if i < spaces && i < 5 {
                '\u{a0}'
            } else {
                line[i]
            },
    )
}

/// Whether a line opens or closes a code block.
pub open spec fn is_fence(line: Seq<char>) -> bool {
    line.len() >= 3 && line[0] == '`' && line[1] == '`' && line[2] == '`'
}

/// Whether a line is quoted.
pub open spec fn is_quote(line: Seq<char>) -> bool {
    line.len() >= 1 && line[0] == '>'
}

/// What follows the marker at the start of a line, trimmed.
pub open spec fn after_marker(line: Seq<char>, marker: int) -> Seq<char> {
    trimmed(line.subrange(marker, line.len() as int))
}

/// The text of the error that strict parsing gives.
pub open spec fn fence_error(meta: Seq<char>) -> Seq<char> {
    "Found end code guard with meta: "@ + meta
}

/// Quoted lines as plain text blocks.
pub open spec fn quote_lines(lines: Seq<Seq<char>>) -> Seq<BlockView> {
    lines.map_values(|l: Seq<char>| BlockView::Text(l))
}

/// The quote block that holds the given lines.
pub open spec fn quote_block(lines: Seq<Seq<char>>) -> BlockView {
    BlockView::BlockQuote { lines: quote_lines(lines) }
}

/// The parser between two lines.
pub struct Scan {
    /// The open code block: what followed its fence, and its lines so far.
    pub code: Option<(Seq<char>, Seq<Seq<char>>)>,
    /// The lines of the pending quote.
    pub quote: Option<Seq<Seq<char>>>,
    /// The blocks that are complete.
    pub blocks: Seq<BlockView>,
    /// The error that stopped the parser.
    pub error: Option<Seq<char>>,
}

/// The blocks so far, the pending quote among them.
pub open spec fn with_quote(blocks: Seq<BlockView>, quote: Option<Seq<Seq<char>>>) -> Seq<
    BlockView,
> {
    match quote {
        Some(lines) => blocks.push(quote_block(lines)),
        None => blocks,
    }
}

/// One line taken in. A line that is not quoted closes the pending
/// quote, whatever else it does: so the blocks keep the order of the
/// lines.
pub open spec fn step(strict: bool, st: Scan, line: Seq<char>) -> Scan {
    if st.error is Some {
        st
    } else if is_fence(line) {
        let meta = after_marker(line, 3);
        let flushed = with_quote(st.blocks, st.quote);
        match st.code {
            Some((open_meta, lines)) => if strict && meta.len() > 0 {
                Scan { error: Some(fence_error(meta)), code: None, ..st }
            } else {
                Scan {
                    code: None,
                    quote: None,
                    blocks: flushed.push(BlockView::CodeFence { meta: open_meta, lines }),
                    ..st
                }
            },
            None => Scan { code: Some((meta, Seq::empty())), quote: None, blocks: flushed, ..st },
        }
    } else if let Some((open_meta, lines)) = st.code {
        Scan { code: Some((open_meta, lines.push(code_line(line)))), ..st }
    } else if is_quote(line) {
        let text = after_marker(line, 1);
        Scan {
            quote: Some(
                match st.quote {
                    Some(lines) => lines.push(text),
                    None => seq![text],
                },
            ),
            ..st
        }
    } else {
        Scan {
            quote: None,
            blocks: with_quote(st.blocks, st.quote).push(line_block(line)),
            ..st
        }
    }
}

/// The parser after the first `n` lines.
pub open spec fn scan(strict: bool, lines: Seq<Seq<char>>, n: int) -> Scan
    decreases n,
{
    if n <= 0 {
        Scan { code: None, quote: None, blocks: Seq::empty(), error: None }
    } else {
        step(strict, scan(strict, lines, n - 1), lines[n - 1])
    }
}

/// The blocks at the end of input: a quote or a code block that is still
/// open is closed. No more than one of them is open after any lines.
pub open spec fn finish(st: Scan) -> Result<Seq<BlockView>, Seq<char>> {
    match st.error {
        Some(e) => Err(e),
        None => Ok(
            match st.code {
                Some((meta, lines)) => with_quote(st.blocks, st.quote).push(
                    BlockView::CodeFence { meta, lines },
                ),
                None => with_quote(st.blocks, st.quote),
            },
        ),
    }
}

/// What parsing a text gives.
pub open spec fn parse_spec(strict: bool, text: Seq<char>) -> Result<Seq<BlockView>, Seq<char>> {
    let lines = lines_of(text);
    finish(scan(strict, lines, lines.len() as int))
}

/// The model of a parse result.
pub open spec fn outcome(r: Result<Vec<Block>, String>) -> Result<Seq<BlockView>, Seq<char>> {
    match r {
        Ok(blocks) => Ok(models(blocks@)),
        Err(e) => Err(e@),
    }
}

/// Options for the parser.
#[derive(Debug)]
pub struct Options {
    strict: bool,
}

impl Default for Options {
    fn default() -> (r: Self)
        ensures
            !r.is_strict(),
    {
        Options { strict: false }
    }
}

impl Options {
    /// Options with the given strictness. A strict parser rejects a closing
    /// code fence that is followed by text.
    pub fn new(strict: bool) -> (r: Self)
        ensures
            r.is_strict() == strict,
    {
        Options { strict }
    }

    /// Whether the parser is strict.
    pub closed spec fn is_strict(&self) -> bool {
        self.strict
    }
}

/// Matches a heading line.
pub fn parse_heading(line: &[char]) -> (r: Option<(u8, String)>)
    ensures
        match r {
            Some((level, text)) => heading_of(line@) == Some((level, text@)),
            None => heading_of(line@) is None,
        },
{
    let hashes = scan_char(line, 0, '#');
    let start = scan_char(line, hashes, ' ');
    if 0 < hashes && hashes < start {
        let text = slice_of(line, start, line.len());
        Some(((hashes % 256) as u8, string_of(text.as_slice())))
    } else {
        None
    }
}

/// Matches a link line.
pub fn parse_link(line: &[char]) -> (r: Option<(String, String)>)
    ensures
        match r {
            Some((url, text)) => link_of(line@) == Some((url@, text@)),
            None => link_of(line@) is None,
        },
{
    if line.len() < 2 || line[0] != '=' || line[1] != '>' {
        return None;
    }
    let url_start = scan_spaces(line, 2);
    let url_end = scan_non_spaces(line, url_start);
    if !(2 < url_start && url_start < url_end) {
        return None;
    }
    let text_start = scan_spaces(line, url_end);
    let text_end = scan_spaces_back(line, line.len());
    let url = slice_of(line, url_start, url_end);
    let text = if text_start < text_end {
        slice_of(line, text_start, text_end)
    } else {
        Vec::new()
    };
    Some((string_of(url.as_slice()), string_of(text.as_slice())))
}

/// Matches a list item line.
pub fn parse_list_item(line: &[char]) -> (r: Option<String>)
    ensures
        match r {
            Some(text) => list_item_of(line@) == Some(text@),
            None => list_item_of(line@) is None,
        },
{
    let star: usize = if line.len() > 0 && is_whitespace(line[0]) {
        1
    } else {
        0
    };
    if line.len() < 3 || line.len() - 3 < star {
        return None;
    }
    if line[star] != '*' || !is_whitespace(line[star + 1]) {
        return None;
    }
    let text_end = scan_spaces_back(line, line.len());
    let end: usize = if text_end > star + 2 {
        text_end
    } else {
        star + 3
    };
    let text = slice_of(line, star + 2, end);
    Some(string_of(text.as_slice()))
}

/// Turns a line into the block that it makes by itself.
pub fn parse_line(line: &[char]) -> (r: Block)
    ensures
        r.model() == line_block(line@),
{
    if let Some((level, text)) = parse_heading(line) {
        return Block::Heading { level, text };
    }
    if let Some((url, text)) = parse_link(line) {
        return Block::Link { url, text };
    }
    if let Some(text) = parse_list_item(line) {
        return Block::ListItem { text };
    }
    Block::Text(string_of(line))
}

/// Prepares a line of a code block.
pub fn parse_code_line(line: &[char]) -> (r: String)
    ensures
        r@ == code_line(line@),
{
    let spaces = scan_char(line, 0, ' ');
    let mut out = String::new();
    let mut i: usize = 0;
    while i < line.len()
        invariant
            i <= line.len(),
            spaces == skip_char(line@, 0, ' '),
            out@ == code_line(line@).take(i as int),
        decreases line.len() - i,
    {
        let c = if i < spaces && i < 5 {
            '\u{a0}'
        } else {
            line[i]
        };
        out.push(c);
        assert(code_line(line@).take(i + 1) == code_line(line@).take(i as int).push(c));
        i += 1;
    }
    assert(code_line(line@).take(line.len() as int) == code_line(line@));
    out
}

/// The models of blocks, block by block.
pub proof fn lemma_models(blocks: Seq<Block>)
    ensures
        models(blocks).len() == blocks.len(),
        forall|i: int|
            0 <= i < blocks.len() ==> (#[trigger] models(blocks)[i]) == blocks[i].model(),
    decreases blocks.len(),
{
    if blocks.len() > 0 {
        lemma_models(blocks.drop_last());
    }
}

/// The model of the blocks grows with the blocks.
pub proof fn lemma_models_push(blocks: Seq<Block>, b: Block)
    ensures
        models(blocks.push(b)) == models(blocks).push(b.model()),
{
    assert(blocks.push(b).drop_last() == blocks);
}

/// Once the parser has stopped on an error, further lines change nothing.
pub proof fn lemma_error_sticks(strict: bool, lines: Seq<Seq<char>>, k: int, n: int)
    requires
        0 <= k <= n,
        scan(strict, lines, k).error is Some,
    ensures
        scan(strict, lines, n) == scan(strict, lines, k),
    decreases n - k,
{
    if k < n {
        lemma_error_sticks(strict, lines, k, n - 1);
    }
}

/// Whether the executable state of the parser stands for `st`.
spec fn holds(
    code: Option<(String, Vec<String>)>,
    quote: Option<Vec<Block>>,
    blocks: Vec<Block>,
    st: Scan,
) -> bool {
    &&& st.error is None
    &&& match code {
        Some((meta, lines)) => st.code == Some((meta@, texts(lines@))),
        None => st.code is None,
    }
    &&& match quote {
        Some(lines) => st.quote is Some && models(lines@) == quote_lines(st.quote->0),
        None => st.quote is None,
    }
    &&& models(blocks@) == st.blocks
}

impl Options {
    /// Parses a text into blocks. Only a strict parser can fail, and only
    /// on a closing code fence that is followed by text.
    pub fn parse(&self, value: &str) -> (r: Result<Vec<Block>, String>)
        ensures
            outcome(r) == parse_spec(self.is_strict(), value@),
    {
        let chars = chars_of(value);
        let lines = split_lines(chars.as_slice());
        let ghost all = rows(lines@);
        let mut code: Option<(String, Vec<String>)> = None;
        let mut quote: Option<Vec<Block>> = None;
        let mut blocks: Vec<Block> = Vec::new();
        let mut i: usize = 0;
        while i < lines.len()
            invariant
                i <= lines.len(),
                all == rows(lines@),
                all == lines_of(value@),
                holds(code, quote, blocks, scan(self.is_strict(), all, i as int)),
            decreases lines.len() - i,
        {
            let line = lines[i].as_slice();
            let ghost before = scan(self.is_strict(), all, i as int);
            let ghost after = scan(self.is_strict(), all, i + 1);
            assert(all[i as int] == line@);
            assert(after == step(self.is_strict(), before, line@));
            if line.len() >= 3 && line[0] == '`' && line[1] == '`' && line[2] == '`' {
                let rest = slice_of(line, 3, line.len());
                let meta = trim(rest.as_slice());
                if self.strict && meta.len() > 0 && code.is_some() {
                    let mut message = String::from_str("Found end code guard with meta: ");
                    let meta_text = string_of(meta.as_slice());
                    message.append(meta_text.as_str());
                    proof {
                        lemma_error_sticks(self.is_strict(), all, i + 1, lines.len() as int);
                    }
                    return Err(message);
                }
                if let Some(pending) = quote.take() {
                    proof {
                        lemma_models_push(blocks@, Block::BlockQuote { lines: pending });
                    }
                    blocks.push(Block::BlockQuote { lines: pending });
                }
                match code.take() {
                    Some((open_meta, open_lines)) => {
                        proof {
                            lemma_models_push(
                                blocks@,
                                Block::CodeFence { meta: open_meta, lines: open_lines },
                            );
                        }
                        blocks.push(Block::CodeFence { meta: open_meta, lines: open_lines });
                    },
                    None => {
                        code = Some((string_of(meta.as_slice()), Vec::new()));
                        assert(texts(Seq::<String>::empty()) == Seq::<Seq<char>>::empty());
                    },
                }
            } else if code.is_some() {
                let (open_meta, mut open_lines) = code.take().unwrap();
                let text = parse_code_line(line);
                assert(texts(open_lines@.push(text)) == texts(open_lines@).push(text@));
                open_lines.push(text);
                code = Some((open_meta, open_lines));
            } else if line.len() >= 1 && line[0] == '>' {
                let rest = slice_of(line, 1, line.len());
                let text = trim(rest.as_slice());
                let block = Block::Text(string_of(text.as_slice()));
                let mut pending = match quote.take() {
                    Some(pending) => pending,
                    None => Vec::new(),
                };
                proof {
                    lemma_models_push(pending@, block);
                    match before.quote {
                        Some(q) => {
                            assert(quote_lines(q.push(text@)) == quote_lines(q).push(
                                BlockView::Text(text@),
                            ));
                        },
                        None => {
                            assert(quote_lines(seq![text@]) == seq![BlockView::Text(text@)]);
                            assert(models(pending@) == Seq::<BlockView>::empty());
                        },
                    }
                }
                pending.push(block);
                quote = Some(pending);
            } else {
                if let Some(pending) = quote.take() {
                    proof {
                        lemma_models_push(blocks@, Block::BlockQuote { lines: pending });
                    }
                    blocks.push(Block::BlockQuote { lines: pending });
                }
                let block = parse_line(line);
                proof {
                    lemma_models_push(blocks@, block);
                }
                blocks.push(block);
            }
            i += 1;
        }
        if let Some(pending) = quote {
            proof {
                lemma_models_push(blocks@, Block::BlockQuote { lines: pending });
            }
            blocks.push(Block::BlockQuote { lines: pending });
        }
        if let Some((meta, open_lines)) = code {
            proof {
                lemma_models_push(blocks@, Block::CodeFence { meta, lines: open_lines });
            }
            blocks.push(Block::CodeFence { meta, lines: open_lines });
        }
        Ok(blocks)
    }
}

/// A parser that is not strict never stops on an error.
pub proof fn lemma_lenient_scan_has_no_error(lines: Seq<Seq<char>>, n: int)
    ensures
        scan(false, lines, n).error is None,
    decreases n,
{
    if n > 0 {
        lemma_lenient_scan_has_no_error(lines, n - 1);
    }
}

/// Every text parses when the parser is not strict.
pub proof fn lemma_lenient_parse_succeeds(text: Seq<char>)
    ensures
        parse_spec(false, text) is Ok,
{
    let lines = lines_of(text);
    lemma_lenient_scan_has_no_error(lines, lines.len() as int);
}

/// No quote is pending while a code block is open: the fence that opens
/// the block closes the quote.
pub proof fn lemma_one_block_is_open(strict: bool, lines: Seq<Seq<char>>, n: int)
    ensures
        scan(strict, lines, n).code is Some ==> scan(strict, lines, n).quote is None,
    decreases n,
{
    if n > 0 {
        lemma_one_block_is_open(strict, lines, n - 1);
    }
}

/// A code block that is still open at the end of the input is emitted
/// last, with all its lines, and so is a pending quote.
pub proof fn lemma_open_blocks_are_emitted(strict: bool, text: Seq<char>)
    requires
        parse_spec(strict, text) is Ok,
    ensures
        ({
            let lines = lines_of(text);
            let st = scan(strict, lines, lines.len() as int);
            let blocks = parse_spec(strict, text)->Ok_0;
            &&& st.code matches Some((meta, code_lines)) ==> blocks == st.blocks.push(
                BlockView::CodeFence { meta, lines: code_lines },
            )
            &&& st.quote matches Some(quoted) ==> blocks == st.blocks.push(quote_block(quoted))
            &&& st.code is None && st.quote is None ==> blocks == st.blocks
        }),
{
    let lines = lines_of(text);
    lemma_one_block_is_open(strict, lines, lines.len() as int);
}

/// Closing an open code block with a bare fence at the end of the input
/// gives the blocks that the input gives without it.
pub proof fn lemma_closing_fence_is_optional(strict: bool, st: Scan, fence: Seq<char>)
    requires
        st.error is None,
        st.code is Some,
        is_fence(fence),
        after_marker(fence, 3).len() == 0,
    ensures
        finish(step(strict, st, fence)) == finish(st),
{
}

/// The text that a link is shown by: its label or, without one, its
/// address.
pub fn link_label<'a>(url: &'a str, text: &'a str) -> (r: &'a str)
    ensures
        r@ == (if text@.len() == 0 {
            url@
        } else {
            text@
        }),
{
    if text.unicode_len() == 0 {
        url
    } else {
        text
    }
}

/// The parser reads its lines in order: what it is after `n` lines rests
/// on those lines alone.
pub proof fn lemma_scan_reads_in_order(
    strict: bool,
    lines: Seq<Seq<char>>,
    more: Seq<Seq<char>>,
    n: int,
)
    requires
        0 <= n <= lines.len() <= more.len(),
        forall|k: int| 0 <= k < n ==> lines[k] == more[k],
    ensures
        scan(strict, lines, n) == scan(strict, more, n),
    decreases n,
{
    if n > 0 {
        lemma_scan_reads_in_order(strict, lines, more, n - 1);
    }
}

/// A fence at the end of a text, on a line of its own, that closes a code
/// block changes nothing: the text parses to the same blocks without it.
pub proof fn lemma_unterminated_fence_is_closed(strict: bool, text: Seq<char>)
    requires
        text.len() == 0 || text.last() == '\n',
        parse_spec(strict, text) is Ok,
        scan(strict, lines_of(text), lines_of(text).len() as int).code is Some,
    ensures
        parse_spec(strict, text + seq!['`', '`', '`']) == parse_spec(strict, text),
{
    let fence = seq!['`', '`', '`'];
    let lines = lines_of(text);
    let more = lines_of(text + fence);
    lemma_lines_with_added_line(text, fence, 0);
    assert(more == lines.push(fence));
    lemma_scan_reads_in_order(strict, lines, more, lines.len() as int);
    let before = scan(strict, lines, lines.len() as int);
    assert(scan(strict, more, more.len() as int) == step(strict, before, fence));
    assert(fence.subrange(3, 3) == Seq::<char>::empty());
    lemma_closing_fence_is_optional(strict, before, fence);
}

/// How many of the first `n` lines are fences.
pub open spec fn fence_count(lines: Seq<Seq<char>>, n: int) -> nat
    decreases n,
{
    if n <= 0 {
        0
    } else {
        fence_count(lines, n - 1) + (if is_fence(lines[n - 1]) {
            1nat
        } else {
            0nat
        })
    }
}

/// The lines of a code block, as they are kept.
pub open spec fn code_lines(lines: Seq<Seq<char>>) -> Seq<Seq<char>> {
    lines.map_values(|l: Seq<char>| code_line(l))
}

/// The texts of quoted lines: what follows the marker, trimmed.
pub open spec fn quoted_texts(lines: Seq<Seq<char>>) -> Seq<Seq<char>> {
    lines.map_values(|l: Seq<char>| after_marker(l, 1))
}

/// Fences open and close code blocks in turn: a code block is open after
/// an odd number of fences.
pub proof fn lemma_code_is_open_after_odd_fences(lines: Seq<Seq<char>>, n: int)
    requires
        0 <= n <= lines.len(),
    ensures
        scan(false, lines, n).error is None,
        scan(false, lines, n).code is Some <==> fence_count(lines, n) % 2 == 1,
    decreases n,
{
    if n > 0 {
        lemma_code_is_open_after_odd_fences(lines, n - 1);
    }
}

/// Lines that are no fences leave the number of fences as it is.
pub proof fn lemma_fence_count_stays(lines: Seq<Seq<char>>, k: int, n: int)
    requires
        0 <= k <= n,
        forall|j: int| k <= j < n ==> !is_fence(#[trigger] lines[j]),
    ensures
        fence_count(lines, n) == fence_count(lines, k),
    decreases n - k,
{
    if k < n {
        lemma_fence_count_stays(lines, k, n - 1);
    }
}

/// After a fence that opens a code block, every line up to the next fence
/// goes into the block, in order, and nothing else changes.
pub proof fn lemma_open_fence_takes_lines(lines: Seq<Seq<char>>, k: int, n: int)
    requires
        0 <= k < n <= lines.len(),
        is_fence(lines[k]),
        scan(false, lines, k).code is None,
        forall|j: int| k < j < n ==> !is_fence(#[trigger] lines[j]),
    ensures
        scan(false, lines, n) == (Scan {
            code: Some((after_marker(lines[k], 3), code_lines(lines.subrange(k + 1, n)))),
            quote: None,
            blocks: with_quote(scan(false, lines, k).blocks, scan(false, lines, k).quote),
            error: None,
        }),
    decreases n - k,
{
    lemma_lenient_scan_has_no_error(lines, k);
    if n == k + 1 {
        assert(code_lines(lines.subrange(k + 1, n)) =~= Seq::<Seq<char>>::empty());
    } else {
        lemma_open_fence_takes_lines(lines, k, n - 1);
        assert(code_lines(lines.subrange(k + 1, n)) =~= code_lines(
            lines.subrange(k + 1, n - 1),
        ).push(code_line(lines[n - 1])));
    }
}

/// A fence that is never closed still gives a code block: where an odd
/// number of lines are fences, the last of them opens a block that takes
/// all the lines after it, in order, and that is the last block. The
/// blocks before it are those of the lines before the fence.
pub proof fn lemma_unterminated_fence_keeps_its_lines(text: Seq<char>, k: int)
    requires
        0 <= k < lines_of(text).len(),
        is_fence(lines_of(text)[k]),
        forall|j: int| k < j < lines_of(text).len() ==> !is_fence(#[trigger] lines_of(text)[j]),
        fence_count(lines_of(text), lines_of(text).len() as int) % 2 == 1,
    ensures
        ({
            let lines = lines_of(text);
            let before = scan(false, lines, k);
            parse_spec(false, text) == Ok::<Seq<BlockView>, Seq<char>>(
                with_quote(before.blocks, before.quote).push(
                    BlockView::CodeFence {
                        meta: after_marker(lines[k], 3),
                        lines: code_lines(lines.subrange(k + 1, lines.len() as int)),
                    },
                ),
            )
        }),
{
    let lines = lines_of(text);
    let n = lines.len() as int;
    lemma_fence_count_stays(lines, k + 1, n);
    lemma_code_is_open_after_odd_fences(lines, k);
    lemma_open_fence_takes_lines(lines, k, n);
}

/// Without fences no code block opens.
pub proof fn lemma_no_fence_no_code(lines: Seq<Seq<char>>, n: int)
    requires
        0 <= n <= lines.len(),
        forall|j: int| 0 <= j < n ==> !is_fence(#[trigger] lines[j]),
    ensures
        scan(false, lines, n).code is None,
        scan(false, lines, n).error is None,
    decreases n,
{
    if n > 0 {
        lemma_no_fence_no_code(lines, n - 1);
    }
}

/// Quoted lines in a row gather in one pending quote, and nothing else
/// changes.
pub proof fn lemma_quoted_lines_gather(lines: Seq<Seq<char>>, m: int, n: int)
    requires
        0 <= m < n <= lines.len(),
        forall|j: int| 0 <= j < n ==> !is_fence(#[trigger] lines[j]),
        forall|j: int| m <= j < n ==> is_quote(#[trigger] lines[j]),
        m > 0 ==> !is_quote(lines[m - 1]),
    ensures
        scan(false, lines, n) == (Scan {
            quote: Some(quoted_texts(lines.subrange(m, n))),
            ..scan(false, lines, m)
        }),
        scan(false, lines, m).quote is None,
    decreases n - m,
{
    lemma_no_fence_no_code(lines, m);
    if m > 0 {
        lemma_no_fence_no_code(lines, m - 1);
    }
    assert(scan(false, lines, m).quote is None);
    if n == m + 1 {
        assert(quoted_texts(lines.subrange(m, n)) =~= seq![after_marker(lines[m], 1)]);
    } else {
        lemma_quoted_lines_gather(lines, m, n - 1);
        lemma_no_fence_no_code(lines, n - 1);
        assert(quoted_texts(lines.subrange(m, n)) =~= quoted_texts(lines.subrange(m, n - 1)).push(
            after_marker(lines[n - 1], 1),
        ));
    }
}

/// A quote that is never closed still gives a block: where no line is a
/// fence and the last `n` lines are quoted, those lines make the last
/// block, one plain text for each line, in order. A quoted line is never
/// a heading, a link or a list item.
pub proof fn lemma_unterminated_quote_keeps_its_lines(text: Seq<char>, n: int)
    requires
        1 <= n <= lines_of(text).len(),
        forall|j: int| 0 <= j < lines_of(text).len() ==> !is_fence(#[trigger] lines_of(text)[j]),
        forall|j: int|
            lines_of(text).len() - n <= j < lines_of(text).len() ==> is_quote(
                #[trigger] lines_of(text)[j],
            ),
        lines_of(text).len() > n ==> !is_quote(lines_of(text)[lines_of(text).len() - n - 1]),
    ensures
        ({
            let lines = lines_of(text);
            let m = lines.len() - n;
            let quoted = quoted_texts(lines.subrange(m, lines.len() as int));
            &&& parse_spec(false, text) == Ok::<Seq<BlockView>, Seq<char>>(
                scan(false, lines, m).blocks.push(quote_block(quoted)),
            )
            &&& quoted.len() == n
            &&& quote_lines(quoted).len() == n
            &&& forall|i: int|
                0 <= i < n ==> (#[trigger] quote_lines(quoted)[i]) == BlockView::Text(
                    after_marker(lines[m + i], 1),
                )
        }),
{
    let lines = lines_of(text);
    let m = lines.len() - n;
    lemma_quoted_lines_gather(lines, m, lines.len() as int);
    lemma_no_fence_no_code(lines, lines.len() as int);
}

} // verus!
