//! What a load gives, and the choice of a loader for a URL.

pub mod file;
pub mod gemini;
pub mod http;

use vstd::prelude::*;
use vstd::string::StringExecFns;
use crate::browser::network::file::{FileLoader, FileStatus};
use crate::browser::network::gemini::GeminiLoader;
use crate::browser::network::http::HttpLoader;
use crate::text::{decimal, decimal_chars, string_of, unbroken};

verus! {

/// A media type, as the `mime` crate reads it.
#[derive(Debug, Clone, PartialEq, Eq)]
pub struct MediaType {
    /// The whole text, parameters included.
    pub text: String,
    /// The top-level type, such as `text`.
    pub type_: String,
    /// The subtype, without a suffix.
    pub subtype: String,
    /// Type and subtype, without parameters.
    pub essence: String,
}

/// What a [`MediaType`] stands for.
pub struct MediaTypeView {
    pub text: Seq<char>,
    pub type_: Seq<char>,
    pub subtype: Seq<char>,
    pub essence: Seq<char>,
}

impl View for MediaType {
    type V = MediaTypeView;

    open spec fn view(&self) -> MediaTypeView {
        MediaTypeView {
            text: self.text@,
            type_: self.type_@,
            subtype: self.subtype@,
            essence: self.essence@,
        }
    }
}

impl MediaType {
    /// A copy of the media type.
    pub fn copy(&self) -> (r: Self)
        ensures
            r@ == self@,
    {
        MediaType {
            text: self.text.clone(),
            type_: self.type_.clone(),
            subtype: self.subtype.clone(),
            essence: self.essence.clone(),
        }
    }

    /// A media type without parameters.
    pub fn plain(type_: &str, subtype: &str) -> (r: Self)
        ensures
            r@ == bare_media_type(type_@, subtype@),
    {
        let mut essence = String::from_str(type_);
        essence.append("/");
        essence.append(subtype);
        MediaType {
            text: essence.clone(),
            type_: String::from_str(type_),
            subtype: String::from_str(subtype),
            essence,
        }
    }
}

/// The media type `type_/subtype`, without parameters.
pub open spec fn bare_media_type(type_: Seq<char>, subtype: Seq<char>) -> MediaTypeView {
    MediaTypeView {
        text: type_ + "/"@ + subtype,
        type_,
        subtype,
        essence: type_ + "/"@ + subtype,
    }
}

/// The media type of line-oriented markup.
pub fn text_gemini() -> (r: MediaType)
    ensures
        r@ == bare_media_type("text"@, "gemini"@),
{
    MediaType::plain("text", "gemini")
}

/// The media type of plain text.
pub fn text_plain() -> (r: MediaType)
    ensures
        r@ == bare_media_type("text"@, "plain"@),
{
    MediaType::plain("text", "plain")
}

/// Like an HTTP status, but also for what is not HTTP.
#[derive(Debug, Clone, Copy, PartialEq, Eq)]
pub enum Status {
    HttpStatus { code: u16 },
    FileStatus(FileStatus),
}

impl Status {
    /// Whether the load succeeded.
    pub open spec fn is_success(self) -> bool {
        match self {
            Status::HttpStatus { code } => 200 <= code < 300,
            Status::FileStatus(status) => status is Found,
        }
    }

    /// Whether the load succeeded.
    pub fn ok(&self) -> (r: bool)
        ensures
            r == self.is_success(),
    {
        match self {
            Status::HttpStatus { code } => 200 <= *code && *code < 300,
            Status::FileStatus(status) => matches!(status, FileStatus::Found),
        }
    }

    /// The status as text.
    pub open spec fn text(self) -> Seq<char> {
        match self {
            Status::HttpStatus { code } => "HTTP "@ + decimal(code as nat),
            Status::FileStatus(status) => status.text(),
        }
    }

    /// The status as text.
    pub fn to_text(&self) -> (r: String)
        ensures
            r@ == self.text(),
    {
        match self {
            Status::HttpStatus { code } => {
                let mut out = String::from_str("HTTP ");
                let digits = decimal_chars(*code as u64);
                out.append(string_of(digits.as_slice()).as_str());
                out
            },
            Status::FileStatus(status) => status.to_text(),
        }
    }
}

/// What was loaded.
#[derive(Debug, Clone, PartialEq, Eq)]
pub enum Body {
    Bytes(Vec<u8>),
    Text(String),
}

/// What a [`Body`] stands for.
pub enum BodyView {
    Bytes(Seq<u8>),
    Text(Seq<char>),
}

impl View for Body {
    type V = BodyView;

    open spec fn view(&self) -> BodyView {
        match *self {
            Body::Bytes(bytes) => BodyView::Bytes(bytes@),
            Body::Text(text) => BodyView::Text(text@),
        }
    }
}

/// A resource that is loaded completely.
#[derive(Debug, Clone, PartialEq, Eq)]
pub struct LoadedResource {
    pub url: String,
    pub status: Status,
    pub length: Option<u64>,
    pub content_type: Option<MediaType>,
    pub body: Body,
}

/// What a [`LoadedResource`] stands for.
pub struct LoadedResourceView {
    pub url: Seq<char>,
    pub status: Status,
    pub length: Option<u64>,
    pub content_type: Option<MediaTypeView>,
    pub body: BodyView,
}

impl View for LoadedResource {
    type V = LoadedResourceView;

    open spec fn view(&self) -> LoadedResourceView {
        LoadedResourceView {
            url: self.url@,
            status: self.status,
            length: self.length,
            content_type: match self.content_type {
                Some(m) => Some(m@),
                None => None,
            },
            body: self.body@,
        }
    }
}

/// Why a load failed. Every error ends the load that it belongs to.
#[derive(Debug, Clone, PartialEq, Eq)]
pub enum Error {
    /// A failure of the transport, with its description.
    Unknown(String),
    /// The URL has a scheme that no loader serves.
    UnsupportedUrlScheme(String),
    /// The server answered with a content type that was not asked for.
    UnrequestedContentType(MediaType),
    /// The content is of a type that cannot be shown.
    UnsupportedContentType(MediaType),
    MissingContentType,
    /// The text is no URL.
    InvalidUrl(String),
    /// A text is no media type, with what the `mime` crate says of it.
    MimeParseError(String),
    /// A failure of the file system, with its description.
    IoError(String),
    /// The server announced more than the loader accepts.
    ResponseTooBig { content_length: u64, max_length: u64 },
}

/// What an [`Error`] stands for.
pub enum ErrorView {
    Unknown(Seq<char>),
    UnsupportedUrlScheme(Seq<char>),
    UnrequestedContentType(MediaTypeView),
    UnsupportedContentType(MediaTypeView),
    MissingContentType,
    InvalidUrl(Seq<char>),
    MimeParseError(Seq<char>),
    IoError(Seq<char>),
    ResponseTooBig { content_length: u64, max_length: u64 },
}

impl View for Error {
    type V = ErrorView;

    open spec fn view(&self) -> ErrorView {
        match *self {
            Error::Unknown(text) => ErrorView::Unknown(text@),
            Error::UnsupportedUrlScheme(url) => ErrorView::UnsupportedUrlScheme(url@),
            Error::UnrequestedContentType(m) => ErrorView::UnrequestedContentType(m@),
            Error::UnsupportedContentType(m) => ErrorView::UnsupportedContentType(m@),
            Error::MissingContentType => ErrorView::MissingContentType,
            Error::InvalidUrl(url) => ErrorView::InvalidUrl(url@),
            Error::MimeParseError(text) => ErrorView::MimeParseError(text@),
            Error::IoError(text) => ErrorView::IoError(text@),
            Error::ResponseTooBig { content_length, max_length } => ErrorView::ResponseTooBig {
                content_length,
                max_length,
            },
        }
    }
}

/// The model of the outcome of a load.
pub open spec fn loaded(r: Result<LoadedResource, Error>) -> Result<LoadedResourceView, ErrorView> {
    match r {
        Ok(resource) => Ok(resource@),
        Err(e) => Err(e@),
    }
}

/// `url::ParseError`, which says why a text is no URL. Nothing is read
/// from it.
#[verifier::external_type_specification]
#[verifier::external_body]
pub struct ExUrlParseError(url::ParseError);

/// `mime::FromStrError`, which says why a text is no media type. Its
/// message is read from it.
#[verifier::external_type_specification]
#[verifier::external_body]
pub struct ExMimeFromStrError(mime::FromStrError);

/// A URL that parses, with the parts of it that loading reads.
#[derive(Debug, Clone, PartialEq, Eq)]
pub struct ParsedUrl {
    /// The URL as the `url` crate writes it.
    pub text: String,
    pub scheme: String,
    pub path: String,
}

/// What a [`ParsedUrl`] stands for.
pub struct ParsedUrlView {
    pub text: Seq<char>,
    pub scheme: Seq<char>,
    pub path: Seq<char>,
}

impl View for ParsedUrl {
    type V = ParsedUrlView;

    open spec fn view(&self) -> ParsedUrlView {
        ParsedUrlView { text: self.text@, scheme: self.scheme@, path: self.path@ }
    }
}

/// What the `url` crate reads from a text: nothing if the text is no URL.
pub uninterp spec fn url_parts(input: Seq<char>) -> Option<ParsedUrlView>;

/// What holds of the path of every file URL that parses: it has no white
/// space.
pub open spec fn file_path_is_unbroken(url: ParsedUrlView) -> bool {
    url.scheme == "file"@ ==> unbroken(url.path)
}

/// What the `url` crate gives for a reference `input` that is resolved
/// against the URL `base`: nothing if either does not parse.
pub uninterp spec fn joined_url(base: Seq<char>, input: Seq<char>) -> Option<Seq<char>>;

/// What the `mime` crate reads from a text: the media type, or the
/// message of its error if the text is none.
pub uninterp spec fn media_type_of(text: Seq<char>) -> Result<MediaTypeView, Seq<char>>;

/// The message of an error of the `mime` crate.
pub uninterp spec fn mime_error_text(e: mime::FromStrError) -> Seq<char>;

/// Parses a text with `url::Url::parse` and takes from the URL its
/// scheme, its path and its own text. The claims: whether the text
/// parses, and these three, depend on the text alone; and the path of a
/// file URL holds no white space, because the crate writes every path
/// segment percent-encoded, white space included.
#[verifier::external_body]
pub(crate) fn parse_url(input: &str) -> (r: Result<ParsedUrl, url::ParseError>)
    ensures
        match r {
            Ok(url) => url_parts(input@) == Some(url@) && file_path_is_unbroken(url@),
            Err(_) => url_parts(input@) is None,
        },
{
    let url = url::Url::parse(input)?;
    Ok(ParsedUrl {
        scheme: url.scheme().to_string(),
        path: url.path().to_string(),
        text: url.into(),
    })
}

/// Parses `base` with `url::Url::parse`, resolves `input` against it with
/// `url::Url::join` and gives the text of the result. The claim: the
/// result depends on the two texts alone.
#[verifier::external_body]
pub(crate) fn join_url(base: &str, input: &str) -> (r: Option<String>)
    ensures
        match r {
            Some(url) => joined_url(base@, input@) == Some(url@),
            None => joined_url(base@, input@) is None,
        },
{
    url::Url::parse(base).ok()?.join(input).ok().map(String::from)
}

/// Parses a text as a `mime::Mime` and takes from it its type, its
/// subtype, its essence and its own text. The claim: whether the text
/// parses, these four, and the error otherwise, depend on the text alone.
#[verifier::external_body]
pub(crate) fn parse_media_type(text: &str) -> (r: Result<MediaType, mime::FromStrError>)
    ensures
        match r {
            Ok(m) => media_type_of(text@) is Ok && media_type_of(text@)->Ok_0 == m@,
            Err(e) => media_type_of(text@) is Err && media_type_of(text@)->Err_0
                == mime_error_text(e),
        },
{
    let m = text.parse::<mime::Mime>()?;
    Ok(MediaType {
        type_: m.type_().as_str().to_string(),
        subtype: m.subtype().as_str().to_string(),
        essence: m.essence_str().to_string(),
        text: m.to_string(),
    })
}

/// Tells whether a text is a URL.
pub fn is_url(input: &str) -> (r: bool)
    ensures
        r == url_parts(input@) is Some,
{
    parse_url(input).is_ok()
}

/// Writes out an error of the `mime` crate as its `Display` does.
#[verifier::external_body]
pub(crate) fn media_type_error(e: &mime::FromStrError) -> (r: String)
    ensures
        r@ == mime_error_text(*e),
{
    e.to_string()
}

/// Which loader a URL goes to.
#[derive(Debug, Clone, PartialEq, Eq)]
pub enum Fetch {
    /// The line protocol loader takes the URL.
    Gemini(ParsedUrl),
    /// The hypertext loader takes the URL, as it was given.
    Http(String),
    /// The file loader takes the URL.
    File(ParsedUrl),
    /// The load is over before any loader ran.
    Failed(Error),
}

/// What a [`Fetch`] stands for.
pub enum FetchView {
    Gemini(ParsedUrlView),
    Http(Seq<char>),
    File(ParsedUrlView),
    Failed(ErrorView),
}

impl View for Fetch {
    type V = FetchView;

    open spec fn view(&self) -> FetchView {
        match *self {
            Fetch::Gemini(url) => FetchView::Gemini(url@),
            Fetch::Http(url) => FetchView::Http(url@),
            Fetch::File(url) => FetchView::File(url@),
            Fetch::Failed(e) => FetchView::Failed(e@),
        }
    }
}

/// The loader for a text, given what the text parses to: a text that is
/// no URL fails at once, and so does a URL whose scheme no loader serves.
pub open spec fn dispatch(url: Seq<char>, parts: Option<ParsedUrlView>) -> FetchView {
    match parts {
        None => FetchView::Failed(ErrorView::InvalidUrl(url)),
        Some(parsed) => if parsed.scheme == "gemini"@ {
            FetchView::Gemini(parsed)
        } else if parsed.scheme == "http"@ || parsed.scheme == "https"@ {
            FetchView::Http(url)
        } else if parsed.scheme == "file"@ {
            FetchView::File(parsed)
        } else {
            FetchView::Failed(ErrorView::UnsupportedUrlScheme(parsed.text))
        },
    }
}

/// A text that is no URL fails at once, with the text in the error.
pub proof fn lemma_no_url_fails_at_once(url: Seq<char>)
    ensures
        dispatch(url, None) == FetchView::Failed(ErrorView::InvalidUrl(url)),
{
}

/// A URL goes to a loader only if its scheme is one of `gemini`, `http`,
/// `https` and `file`.
pub proof fn lemma_dispatch_goes_by_scheme(url: Seq<char>, parsed: ParsedUrlView)
    ensures
        dispatch(url, Some(parsed)) is Failed <==> !(parsed.scheme == "gemini"@ || parsed.scheme
            == "http"@ || parsed.scheme == "https"@ || parsed.scheme == "file"@),
{
}

/// Tells whether two texts are equal.
pub fn same_text(a: &str, b: &str) -> (r: bool)
    ensures
        r == (a@ == b@),
{
    String::from_str(a) == String::from_str(b)
}

/// The loaders, one for each scheme.
#[derive(Debug)]
pub struct MultiLoader {
    pub http: HttpLoader,
    pub gemini: GeminiLoader,
    pub file: FileLoader,
}

impl Default for MultiLoader {
    fn default() -> (r: Self)
        ensures
            r.http@ == HttpLoader::standard(),
    {
        MultiLoader { http: HttpLoader::default(), gemini: GeminiLoader {  }, file: FileLoader }
    }
}

impl MultiLoader {
    /// Chooses the loader for a parsed URL.
    pub fn route(url: String, parsed: Option<ParsedUrl>) -> (r: Fetch)
        ensures
            r@ == dispatch(
                url@,
                match parsed {
                    Some(p) => Some(p@),
                    None => None,
                },
            ),
    {
        match parsed {
            None => Fetch::Failed(Error::InvalidUrl(url)),
            Some(parsed) => {
                if same_text(parsed.scheme.as_str(), "gemini") {
                    Fetch::Gemini(parsed)
                } else if same_text(parsed.scheme.as_str(), "http") || same_text(
                    parsed.scheme.as_str(),
                    "https",
                ) {
                    Fetch::Http(url)
                } else if same_text(parsed.scheme.as_str(), "file") {
                    Fetch::File(parsed)
                } else {
                    Fetch::Failed(Error::UnsupportedUrlScheme(parsed.text))
                }
            },
        }
    }

    /// Chooses the loader for a URL. Nothing is loaded here: the choice
    /// is made at once, and a URL that no loader can take fails at once.
    pub fn fetch(&self, url: String) -> (r: Fetch)
        ensures
            r@ == dispatch(url@, url_parts(url@)),
            r matches Fetch::File(parsed) ==> unbroken(parsed.path@),
    {
        let parsed = match parse_url(url.as_str()) {
            Ok(parsed) => Some(parsed),
            Err(_) => None,
        };
        MultiLoader::route(url, parsed)
    }
}

/// The description of an error.
pub open spec fn description(e: ErrorView) -> Seq<char> {
    match e {
        ErrorView::Unknown(text) => "Unknown error "@ + text,
        ErrorView::UnsupportedUrlScheme(url) => "Unsupported URL scheme: "@ + url,
        ErrorView::UnrequestedContentType(m) => "Unrequested Content-Type: "@ + m.text,
        ErrorView::UnsupportedContentType(m) => "Unsupported Content-Type: "@ + m.text,
        ErrorView::MissingContentType => "Missing Content-Type"@,
        ErrorView::InvalidUrl(url) => "Invalid URL: "@ + url,
        ErrorView::MimeParseError(text) => "Error parsing mime type "@ + text,
        ErrorView::IoError(text) => "I/O Error: "@ + text,
        ErrorView::ResponseTooBig { content_length, max_length } => {
            "ResponseTooBig { content_length: "@ + decimal(content_length as nat)
                + ", max_length: "@ + decimal(max_length as nat) + " }"@
        },
    }
}

/// `before`, then `text`.
fn prefixed(before: &str, text: &str) -> (r: String)
    ensures
        r@ == before@ + text@,
{
    let mut out = String::from_str(before);
    out.append(text);
    out
}

impl Error {
    /// The description of the error.
    pub fn to_text(&self) -> (r: String)
        ensures
            r@ == description(self@),
    {
        match self {
            Error::Unknown(text) => prefixed("Unknown error ", text.as_str()),
            Error::UnsupportedUrlScheme(url) => prefixed("Unsupported URL scheme: ", url.as_str()),
            Error::UnrequestedContentType(m) => prefixed(
                "Unrequested Content-Type: ",
                m.text.as_str(),
            ),
            Error::UnsupportedContentType(m) => prefixed(
                "Unsupported Content-Type: ",
                m.text.as_str(),
            ),
            Error::MissingContentType => String::from_str("Missing Content-Type"),
            Error::InvalidUrl(url) => prefixed("Invalid URL: ", url.as_str()),
            Error::MimeParseError(text) => prefixed("Error parsing mime type ", text.as_str()),
            Error::IoError(text) => prefixed("I/O Error: ", text.as_str()),
            Error::ResponseTooBig { content_length, max_length } => {
                let mut out = String::from_str("ResponseTooBig { content_length: ");
                let digits = decimal_chars(*content_length);
                out.append(string_of(digits.as_slice()).as_str());
                out.append(", max_length: ");
                let digits = decimal_chars(*max_length);
                out.append(string_of(digits.as_slice()).as_str());
                out.append(" }");
                out
            },
        }
    }
}

} // verus!
