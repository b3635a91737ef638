//! Loading from the local file system: what to do with a path, and the
//! pages that stand for a missing file and for a directory.

use vstd::prelude::*;
use vstd::string::StringExecFns;
use crate::browser::network::{
    bare_media_type, text_gemini, text_plain, Body, BodyView, Error, ErrorView, LoadedResource,
    LoadedResourceView, MediaType, MediaTypeView, ParsedUrl, ParsedUrlView, Status,
};
use crate::browser::network::same_text;
use crate::gemtext::{
    is_fence, is_quote, line_block, link_of, parse_spec, scan, step, BlockView, Scan,
};
use crate::text::{
    is_space, lemma_lines_with_added_line, lemma_lines_with_ended_line,
    lemma_segment_of_unbroken, lemma_unbroken_needs_no_escape, lines_from, lines_of, skip_char,
    skip_non_spaces, spaces_only, unbroken,
};
use crate::text::{
    chars_of, decimal, decimal_chars, ends_with_char, escape_spaces, escaped_spaces,
    last_segment, last_segment_of, string_of, texts,
};

verus! {

/// What became of a path.
#[derive(Debug, Clone, Copy, PartialEq, Eq)]
pub enum FileStatus {
    /// The file was found.
    Found,
    /// A directory was found, but the URL has no trailing slash.
    DirNeedsSlash,
    NotFound,
    TooBig { bytes: u64 },
}

impl FileStatus {
    /// The status as text.
    pub open spec fn text(self) -> Seq<char> {
        match self {
            FileStatus::Found => "Ok"@,
            FileStatus::DirNeedsSlash => "DirNeedsSlash"@,
            FileStatus::NotFound => "NotFound"@,
            FileStatus::TooBig { bytes } => "TooBig { bytes: "@ + decimal(bytes as nat) + " }"@,
        }
    }

    /// The status as text.
    pub fn to_text(&self) -> (r: String)
        ensures
            r@ == self.text(),
    {
        match self {
            FileStatus::Found => String::from_str("Ok"),
            FileStatus::DirNeedsSlash => String::from_str("DirNeedsSlash"),
            FileStatus::NotFound => String::from_str("NotFound"),
            FileStatus::TooBig { bytes } => {
                let mut out = String::from_str("TooBig { bytes: ");
                let digits = decimal_chars(*bytes);
                out.append(string_of(digits.as_slice()).as_str());
                out.append(" }");
                out
            },
        }
    }
}

/// The most that a file may hold to be read: 30 MiB.
pub const MAX_FILE_BYTES: u64 = 31457280;

/// Knows what to make of a path on the local file system.
#[derive(Debug, Default)]
pub struct FileLoader;

/// What the file system says of the path of a URL.
#[derive(Debug, Clone, PartialEq, Eq)]
pub enum Found {
    /// The URL names no local path.
    NoPath,
    /// Nothing is there.
    Missing,
    /// The file system failed, with its description.
    Failed { error: String },
    /// A directory is there.
    Dir,
    /// A regular file is there, of so many bytes, at this path.
    File { bytes: u64, path: String },
    /// Something else is there, such as a symbolic link.
    Other,
}

/// What a [`Found`] stands for.
pub enum FoundView {
    NoPath,
    Missing,
    Failed { error: Seq<char> },
    Dir,
    File { bytes: u64, path: Seq<char> },
    Other,
}

impl View for Found {
    type V = FoundView;

    open spec fn view(&self) -> FoundView {
        match *self {
            Found::NoPath => FoundView::NoPath,
            Found::Missing => FoundView::Missing,
            Found::Failed { error } => FoundView::Failed { error: error@ },
            Found::Dir => FoundView::Dir,
            Found::File { bytes, path } => FoundView::File { bytes, path: path@ },
            Found::Other => FoundView::Other,
        }
    }
}

/// What the file loader does next.
#[derive(Debug, PartialEq, Eq)]
pub enum FileStep {
    /// The load is over.
    Done(Result<LoadedResource, Error>),
    /// The entries of the directory are to be listed.
    ListDir,
    /// The file is to be read as text of this type.
    ReadFile(MediaType),
}

/// What a [`FileStep`] stands for.
pub enum FileStepView {
    Done(Result<LoadedResourceView, ErrorView>),
    ListDir,
    ReadFile(MediaTypeView),
}

impl View for FileStep {
    type V = FileStepView;

    open spec fn view(&self) -> FileStepView {
        match *self {
            FileStep::Done(r) => FileStepView::Done(crate::browser::network::loaded(r)),
            FileStep::ListDir => FileStepView::ListDir,
            FileStep::ReadFile(m) => FileStepView::ReadFile(m@),
        }
    }
}

/// The media type that the `mime_guess` crate gives for the extension of
/// a path: nothing if it knows none.
pub uninterp spec fn guessed_media_type(path: Seq<char>) -> Option<MediaTypeView>;

/// Asks `mime_guess::from_path` for the first media type that it knows
/// for a path, and takes from it its type, its subtype, its essence and
/// its own text. The claim: the answer depends on the path alone.
#[verifier::external_body]
pub(crate) fn guess_media_type(path: &str) -> (r: Option<MediaType>)
    ensures
        match r {
            Some(m) => guessed_media_type(path@) == Some(m@),
            None => guessed_media_type(path@) is None,
        },
{
    let m = mime_guess::from_path(path).first()?;
    Some(MediaType {
        type_: m.type_().as_str().to_string(),
        subtype: m.subtype().as_str().to_string(),
        essence: m.essence_str().to_string(),
        text: m.to_string(),
    })
}

/// Whether `a` comes before `b`, or is `b`, in the order of strings:
/// character by character, by code point, a prefix first.
pub open spec fn text_le(a: Seq<char>, b: Seq<char>) -> bool
    decreases a.len(),
{
    if a.len() == 0 {
        true
    } else if b.len() == 0 {
        false
    } else if a[0] != b[0] {
        (a[0] as u32) < (b[0] as u32)
    } else {
        text_le(a.drop_first(), b.drop_first())
    }
}

/// Whether `sorted` holds the texts of `names`, each as often as there,
/// in ascending order.
pub open spec fn sorting_of(sorted: Seq<Seq<char>>, names: Seq<Seq<char>>) -> bool {
    &&& sorted.to_multiset() == names.to_multiset()
    &&& forall|i: int, j: int|
        0 <= i < j < sorted.len() ==> text_le(#[trigger] sorted[i], #[trigger] sorted[j])
}

/// Sorts names with `sort` of slices. The claim: the names stay the same,
/// and they come out in the order of strings.
#[verifier::external_body]
pub(crate) fn sort_names(names: &mut Vec<String>)
    ensures
        sorting_of(texts(final(names)@), texts(old(names)@)),
{
    names.sort()
}

/// The page for a path where nothing is.
pub open spec fn not_found_page(url: Seq<char>) -> LoadedResourceView {
    LoadedResourceView {
        url,
        status: Status::FileStatus(FileStatus::NotFound),
        length: None,
        content_type: Some(bare_media_type("text"@, "plain"@)),
        body: BodyView::Text("No such file"@),
    }
}

/// The link line that leads from a directory without a trailing slash to
/// the same directory with one, relative to the URL.
pub open spec fn needs_slash_link(path: Seq<char>) -> Seq<char> {
    "=> "@ + escaped_spaces(last_segment(path)) + "/"@
}

/// The text that points from a directory without a trailing slash to the
/// same directory with one: a heading, a hint and the link line, with an
/// empty line between each two of them.
pub open spec fn needs_slash_text(path: Seq<char>) -> Seq<char> {
    "# File Not Found"@ + "\n"@ + "\n"@ + "... but we found a directory. Did you mean:"@ + "\n"@
        + "\n"@ + needs_slash_link(path)
}

/// The page for a directory whose URL has no trailing slash.
pub open spec fn needs_slash_page(url: ParsedUrlView) -> LoadedResourceView {
    LoadedResourceView {
        url: url.text,
        status: Status::FileStatus(FileStatus::DirNeedsSlash),
        length: None,
        content_type: Some(bare_media_type("text"@, "gemini"@)),
        body: BodyView::Text(needs_slash_text(url.path)),
    }
}

/// One link line for each name: the name with its spaces escaped, then
/// `tail`.
pub open spec fn link_lines(names: Seq<Seq<char>>, tail: Seq<char>) -> Seq<char>
    decreases names.len(),
{
    if names.len() == 0 {
        Seq::empty()
    } else {
        link_lines(names.drop_last(), tail) + "=> "@ + escaped_spaces(names.last()) + tail
    }
}

/// The listing of a directory: a link to the parent if there is one, the
/// directories with a trailing slash, an empty line if there are any,
/// then the files.
pub open spec fn listing_text(has_parent: bool, dirs: Seq<Seq<char>>, files: Seq<Seq<char>>) -> Seq<
    char,
> {
    (if has_parent {
        "=> ../\n"@
    } else {
        Seq::empty()
    }) + link_lines(dirs, "/\n"@) + (if dirs.len() > 0 {
        "\n"@
    } else {
        Seq::empty()
    }) + link_lines(files, "\n"@)
}

/// The page that lists a directory.
pub open spec fn listing_page(
    url: Seq<char>,
    has_parent: bool,
    dirs: Seq<Seq<char>>,
    files: Seq<Seq<char>>,
) -> LoadedResourceView {
    LoadedResourceView {
        url,
        status: Status::FileStatus(FileStatus::Found),
        length: None,
        content_type: Some(bare_media_type("text"@, "gemini"@)),
        body: BodyView::Text(listing_text(has_parent, dirs, files)),
    }
}

/// The page for a file that was read.
pub open spec fn file_page(
    url: Seq<char>,
    content_type: MediaTypeView,
    text: Seq<char>,
) -> LoadedResourceView {
    LoadedResourceView {
        url,
        status: Status::FileStatus(FileStatus::Found),
        length: None,
        content_type: Some(content_type),
        body: BodyView::Text(text),
    }
}

/// The text of the error for a file that is too large.
pub open spec fn too_large_text(bytes: u64) -> Seq<char> {
    "File too large: "@ + decimal(bytes as nat) + " bytes"@
}

/// What the loader does with a URL, given what the file system says of
/// its path. A missing path gives a page, no error, and so does a
/// directory whose URL lacks the trailing slash. Only text is read, and
/// no more than 30 MiB of it. What is neither file nor directory counts
/// as missing.
pub open spec fn file_step(url: ParsedUrlView, found: FoundView) -> FileStepView {
    if url.scheme != "file"@ {
        FileStepView::Done(Err(ErrorView::InvalidUrl(url.text)))
    } else {
        match found {
            FoundView::NoPath => FileStepView::Done(Err(ErrorView::InvalidUrl(url.text))),
            FoundView::Missing => FileStepView::Done(Ok(not_found_page(url.text))),
            FoundView::Failed { error } => FileStepView::Done(Err(ErrorView::IoError(error))),
            FoundView::Dir => if ends_with_char(url.path, '/') {
                FileStepView::ListDir
            } else {
                FileStepView::Done(Ok(needs_slash_page(url)))
            },
            FoundView::File { bytes, path } => if bytes > MAX_FILE_BYTES {
                FileStepView::Done(Err(ErrorView::Unknown(too_large_text(bytes))))
            } else {
                match guessed_media_type(path) {
                    None => FileStepView::Done(Err(ErrorView::MissingContentType)),
                    Some(content_type) => if content_type.type_ == "text"@ {
                        FileStepView::ReadFile(content_type)
                    } else {
                        FileStepView::Done(Err(ErrorView::UnsupportedContentType(content_type)))
                    },
                }
            },
            FoundView::Other => FileStepView::Done(Ok(not_found_page(url.text))),
        }
    }
}

impl FileLoader {
    /// Decides what to do with a URL, given what the file system says of
    /// its path.
    pub fn fetch(&self, url: &ParsedUrl, found: Found) -> (r: FileStep)
        ensures
            r@ == file_step(url@, found@),
    {
        if !same_text(url.scheme.as_str(), "file") {
            return FileStep::Done(Err(Error::InvalidUrl(url.text.clone())));
        }
        match found {
            Found::NoPath => FileStep::Done(Err(Error::InvalidUrl(url.text.clone()))),
            Found::Missing => FileStep::Done(Ok(not_found(url))),
            Found::Failed { error } => FileStep::Done(Err(Error::IoError(error))),
            Found::Dir => {
                let path = chars_of(url.path.as_str());
                if path.len() > 0 && path[path.len() - 1] == '/' {
                    FileStep::ListDir
                } else {
                    FileStep::Done(Ok(dir_needs_slash(url)))
                }
            },
            Found::File { bytes, path } => {
                if bytes > MAX_FILE_BYTES {
                    let mut message = String::from_str("File too large: ");
                    let digits = decimal_chars(bytes);
                    message.append(string_of(digits.as_slice()).as_str());
                    message.append(" bytes");
                    return FileStep::Done(Err(Error::Unknown(message)));
                }
                match guess_media_type(path.as_str()) {
                    None => FileStep::Done(Err(Error::MissingContentType)),
                    Some(content_type) => {
                        if same_text(content_type.type_.as_str(), "text") {
                            FileStep::ReadFile(content_type)
                        } else {
                            FileStep::Done(Err(Error::UnsupportedContentType(content_type)))
                        }
                    },
                }
            },
            Found::Other => FileStep::Done(Ok(not_found(url))),
        }
    }
}

/// The page for a file that was read.
pub fn load_file(url: &ParsedUrl, content_type: MediaType, text: String) -> (r: LoadedResource)
    ensures
        r@ == file_page(url.text@, content_type@, text@),
{
    LoadedResource {
        body: Body::Text(text),
        content_type: Some(content_type),
        length: None,
        status: Status::FileStatus(FileStatus::Found),
        url: url.text.clone(),
    }
}

/// Adds one link line for each name.
fn push_link_lines(out: &mut String, names: &Vec<String>, tail: &str)
    ensures
        final(out)@ == old(out)@ + link_lines(texts(names@), tail@),
{
    let ghost start = out@;
    let mut i: usize = 0;
    assert(texts(names@).take(0) =~= Seq::<Seq<char>>::empty());
    while i < names.len()
        invariant
            i <= names.len(),
            out@ == start + link_lines(texts(names@).take(i as int), tail@),
        decreases names.len() - i,
    {
        proof {
            let next = texts(names@).take(i + 1);
            assert(next.drop_last() == texts(names@).take(i as int));
            assert(next.last() == names[i as int]@);
        }
        out.append("=> ");
        out.append(escape_spaces(names[i].as_str()).as_str());
        out.append(tail);
        i += 1;
    }
    assert(texts(names@).take(names.len() as int) == texts(names@));
}

/// The page that lists a directory, given the names of the directories
/// and of the files in it, in any order, and whether it has a parent.
pub fn gemtext_dir_list(
    url: &ParsedUrl,
    has_parent: bool,
    dirs: Vec<String>,
    files: Vec<String>,
) -> (r: LoadedResource)
    ensures
        exists|d: Seq<Seq<char>>, f: Seq<Seq<char>>|
            #![trigger listing_page(url.text@, has_parent, d, f)]
            sorting_of(d, texts(dirs@)) && sorting_of(f, texts(files@)) && r@ == listing_page(
                url.text@,
                has_parent,
                d,
                f,
            ),
{
    let mut dirs = dirs;
    let mut files = files;
    sort_names(&mut dirs);
    sort_names(&mut files);
    let mut out = String::new();
    if has_parent {
        out.append("=> ../\n");
    }
    push_link_lines(&mut out, &dirs, "/\n");
    if dirs.len() > 0 {
        out.append("\n");
    }
    push_link_lines(&mut out, &files, "\n");
    let r = LoadedResource {
        body: Body::Text(out),
        content_type: Some(text_gemini()),
        length: None,
        status: Status::FileStatus(FileStatus::Found),
        url: url.text.clone(),
    };
    proof {
        assert(out@ =~= listing_text(has_parent, texts(dirs@), texts(files@)));
        assert(r@ == listing_page(url.text@, has_parent, texts(dirs@), texts(files@)));
    }
    r
}

/// The page for a path where nothing is.
pub fn not_found(url: &ParsedUrl) -> (r: LoadedResource)
    ensures
        r@ == not_found_page(url.text@),
{
    LoadedResource {
        body: Body::Text(String::from_str("No such file")),
        content_type: Some(text_plain()),
        length: None,
        status: Status::FileStatus(FileStatus::NotFound),
        url: url.text.clone(),
    }
}

/// The page for a directory whose URL has no trailing slash.
pub fn dir_needs_slash(url: &ParsedUrl) -> (r: LoadedResource)
    ensures
        r@ == needs_slash_page(url@),
{
    let path = chars_of(url.path.as_str());
    let last = last_segment_of(path.as_slice());
    let mut out = String::new();
    out.append("# File Not Found");
    out.append("\n");
    out.append("\n");
    out.append("... but we found a directory. Did you mean:");
    out.append("\n");
    out.append("\n");
    out.append("=> ");
    out.append(escape_spaces(string_of(last.as_slice()).as_str()).as_str());
    out.append("/");
    assert(out@ =~= needs_slash_text(url.path@));
    LoadedResource {
        body: Body::Text(out),
        content_type: Some(text_gemini()),
        length: None,
        status: Status::FileStatus(FileStatus::DirNeedsSlash),
        url: url.text.clone(),
    }
}

/// A text whose only white space is spaces holds none once its spaces are
/// escaped.
pub proof fn lemma_escaped_is_unbroken(s: Seq<char>)
    requires
        spaces_only(s),
    ensures
        unbroken(escaped_spaces(s)),
    decreases s.len(),
{
    if s.len() > 0 {
        let front = s.drop_last();
        assert forall|i: int| 0 <= i < front.len() && is_space(#[trigger] front[i]) implies front[i]
            == ' ' by {
            assert(front[i] == s[i]);
        }
        lemma_escaped_is_unbroken(front);
        assert(s.last() == s[s.len() - 1]);
    }
}

/// Nothing stops a scan over a text without white space.
pub proof fn lemma_unbroken_is_skipped(s: Seq<char>, i: int)
    requires
        0 <= i <= s.len(),
        forall|k: int| i <= k < s.len() ==> !is_space(#[trigger] s[k]),
    ensures
        skip_non_spaces(s, i) == s.len(),
    decreases s.len() - i,
{
    if i < s.len() {
        lemma_unbroken_is_skipped(s, i + 1);
    }
}

/// The link line of the page for a directory without a trailing slash
/// leads to the directory with the slash: its target is the last segment
/// of the path, escaped, and the slash. This holds where the segment has
/// no white space but spaces, as in every URL that parses.
pub proof fn lemma_needs_slash_text_links_to_slash(path: Seq<char>)
    requires
        spaces_only(last_segment(path)),
    ensures
        link_of(needs_slash_link(path)) == Some(
            (escaped_spaces(last_segment(path)) + "/"@, Seq::<char>::empty()),
        ),
        unbroken(escaped_spaces(last_segment(path)) + "/"@),
{
    reveal_strlit("=> ");
    reveal_strlit("/");
    let target = escaped_spaces(last_segment(path)) + "/"@;
    let line = needs_slash_link(path);
    lemma_escaped_is_unbroken(last_segment(path));
    assert(line == "=> "@ + target);
    assert(line.len() == 3 + target.len());
    assert(line[0] == '=' && line[1] == '>' && line[2] == ' ');
    assert forall|k: int| 3 <= k < line.len() implies !is_space(#[trigger] line[k]) by {
        if k < line.len() - 1 {
            assert(line[k] == escaped_spaces(last_segment(path))[k - 3]);
        } else {
            assert(line[k] == '/');
        }
    }
    assert forall|k: int| 0 <= k < target.len() implies !is_space(#[trigger] target[k]) by {
        assert(target[k] == line[k + 3]);
    }
    lemma_unbroken_is_skipped(line, 3);
    assert(crate::text::skip_spaces(line, 2) == 3) by {
        assert(crate::text::skip_spaces(line, 3) == 3);
    }
    assert(crate::text::skip_spaces(line, line.len() as int) == line.len());
    assert(crate::text::skip_spaces_back(line, line.len() as int) == line.len());
    assert(line.subrange(3, line.len() as int) == target);
}

/// The lines of the page for a directory without a trailing slash.
pub proof fn lemma_needs_slash_text_has_five_lines(path: Seq<char>)
    requires
        spaces_only(last_segment(path)),
    ensures
        lines_of(needs_slash_text(path)) == seq![
            "# File Not Found"@,
            Seq::<char>::empty(),
            "... but we found a directory. Did you mean:"@,
            Seq::<char>::empty(),
            needs_slash_link(path),
        ],
{
    reveal_strlit("# File Not Found");
    reveal_strlit("... but we found a directory. Did you mean:");
    reveal_strlit("\n");
    reveal_strlit("=> ");
    reveal_strlit("/");
    let title = "# File Not Found"@;
    let hint = "... but we found a directory. Did you mean:"@;
    let link = needs_slash_link(path);
    let none = Seq::<char>::empty();
    let nl = seq!['\n'];
    assert("\n"@ == nl);
    lemma_escaped_is_unbroken(last_segment(path));
    assert forall|k: int| 0 <= k < link.len() implies link[k] != '\n' by {
        if k < 3 {
        } else if k < link.len() - 1 {
            assert(link[k] == escaped_spaces(last_segment(path))[k - 3]);
            assert(!is_space(link[k]));
        } else {
            assert(link[k] == '/');
        }
    }
    let t1 = none + title + nl;
    lemma_lines_with_ended_line(none, title, 0);
    assert(lines_of(t1) == seq![title]) by {
        assert(lines_from(none, 0) == Seq::<Seq<char>>::empty());
        assert(Seq::<Seq<char>>::empty().push(title) == seq![title]);
    }
    let t2 = t1 + none + nl;
    lemma_lines_with_ended_line(t1, none, 0);
    assert(seq![title].push(none) == seq![title, none]);
    let t3 = t2 + hint + nl;
    lemma_lines_with_ended_line(t2, hint, 0);
    assert(seq![title, none].push(hint) == seq![title, none, hint]);
    let t4 = t3 + none + nl;
    lemma_lines_with_ended_line(t3, none, 0);
    assert(seq![title, none, hint].push(none) == seq![title, none, hint, none]);
    let t5 = t4 + link;
    lemma_lines_with_added_line(t4, link, 0);
    assert(seq![title, none, hint, none].push(link) == seq![title, none, hint, none, link]);
    assert(needs_slash_text(path) =~= t5);
}

/// The page for a directory without a trailing slash parses to a
/// heading, a hint and exactly one link, which leads to the directory
/// with the slash.
pub proof fn lemma_needs_slash_text_parses_to_one_link(path: Seq<char>)
    requires
        spaces_only(last_segment(path)),
    ensures
        parse_spec(false, needs_slash_text(path)) == Ok::<Seq<BlockView>, Seq<char>>(
            seq![
                BlockView::Heading { level: 1, text: "File Not Found"@ },
                BlockView::Text(Seq::empty()),
                BlockView::Text("... but we found a directory. Did you mean:"@),
                BlockView::Text(Seq::empty()),
                BlockView::Link {
                    url: escaped_spaces(last_segment(path)) + "/"@,
                    text: Seq::empty(),
                },
            ],
        ),
{
    reveal_strlit("# File Not Found");
    reveal_strlit("File Not Found");
    reveal_strlit("... but we found a directory. Did you mean:");
    reveal_strlit("=> ");
    let title = "# File Not Found"@;
    let hint = "... but we found a directory. Did you mean:"@;
    let link = needs_slash_link(path);
    let none = Seq::<char>::empty();
    let lines = seq![title, none, hint, none, link];
    lemma_needs_slash_text_has_five_lines(path);
    lemma_needs_slash_text_links_to_slash(path);
    assert(link[0] == '=');
    // What each line makes by itself.
    assert(line_block(title) == (BlockView::Heading { level: 1, text: "File Not Found"@ })) by {
        assert(skip_char(title, 1, '#') == 1);
        assert(skip_char(title, 0, '#') == 1);
        assert(skip_char(title, 2, ' ') == 2);
        assert(skip_char(title, 1, ' ') == 2);
        assert(title.subrange(2, 16) =~= "File Not Found"@);
    }
    assert(line_block(none) == BlockView::Text(none)) by {
        assert(skip_char(none, 0, '#') == 0);
    }
    assert(line_block(hint) == BlockView::Text(hint)) by {
        assert(skip_char(hint, 0, '#') == 0);
    }
    assert(line_block(link) == (BlockView::Link {
        url: escaped_spaces(last_segment(path)) + "/"@,
        text: Seq::empty(),
    })) by {
        assert(skip_char(link, 0, '#') == 0);
    }
    // No line opens a code block or a quote.
    assert(!is_fence(title) && !is_quote(title));
    assert(!is_fence(none) && !is_quote(none));
    assert(!is_fence(hint) && !is_quote(hint));
    assert(!is_fence(link) && !is_quote(link));
    let s0 = scan(false, lines, 0);
    let s1 = scan(false, lines, 1);
    let s2 = scan(false, lines, 2);
    let s3 = scan(false, lines, 3);
    let s4 = scan(false, lines, 4);
    let s5 = scan(false, lines, 5);
    let b1 = seq![line_block(title)];
    let b2 = b1.push(line_block(none));
    let b3 = b2.push(line_block(hint));
    let b4 = b3.push(line_block(none));
    let b5 = b4.push(line_block(link));
    assert(s1 == Scan { code: None, quote: None, blocks: b1, error: None }) by {
        assert(s1 == step(false, s0, lines[0]));
        assert(Seq::<BlockView>::empty().push(line_block(title)) == b1);
    }
    assert(s2 == Scan { code: None, quote: None, blocks: b2, error: None }) by {
        assert(s2 == step(false, s1, lines[1]));
    }
    assert(s3 == Scan { code: None, quote: None, blocks: b3, error: None }) by {
        assert(s3 == step(false, s2, lines[2]));
    }
    assert(s4 == Scan { code: None, quote: None, blocks: b4, error: None }) by {
        assert(s4 == step(false, s3, lines[3]));
    }
    assert(s5 == Scan { code: None, quote: None, blocks: b5, error: None }) by {
        assert(s5 == step(false, s4, lines[4]));
    }
    assert(b5 =~= seq![
        line_block(title),
        line_block(none),
        line_block(hint),
        line_block(none),
        line_block(link),
    ]);
}

/// A directory whose URL lacks the trailing slash gives a page, not an
/// error, and the page says so by its status.
pub proof fn lemma_dir_without_slash_gives_a_page(url: ParsedUrlView)
    requires
        url.scheme == "file"@,
        !ends_with_char(url.path, '/'),
    ensures
        file_step(url, FoundView::Dir) == FileStepView::Done(Ok(needs_slash_page(url))),
        needs_slash_page(url).status == Status::FileStatus(FileStatus::DirNeedsSlash),
        !needs_slash_page(url).status.is_success(),
{
}

/// For a path without white space, as every file URL that parses has it,
/// the page for a directory without a trailing slash parses to a heading,
/// a hint and exactly one link, and the link leads to the last segment of
/// the path with a slash after it.
pub proof fn lemma_needs_slash_page_of_parsed_url(path: Seq<char>)
    requires
        unbroken(path),
    ensures
        parse_spec(false, needs_slash_text(path)) == Ok::<Seq<BlockView>, Seq<char>>(
            seq![
                BlockView::Heading { level: 1, text: "File Not Found"@ },
                BlockView::Text(Seq::empty()),
                BlockView::Text("... but we found a directory. Did you mean:"@),
                BlockView::Text(Seq::empty()),
                BlockView::Link { url: last_segment(path) + "/"@, text: Seq::empty() },
            ],
        ),
{
    lemma_segment_of_unbroken(path);
    lemma_unbroken_needs_no_escape(last_segment(path));
    lemma_needs_slash_text_parses_to_one_link(path);
}

} // verus!
