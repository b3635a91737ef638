//! Loading over HTTP: what to ask for, and what to make of the head of a
//! response before its body is read.

use vstd::prelude::*;
use vstd::string::StringExecFns;
use crate::browser::network::{
    Body, BodyView, Error, ErrorView, LoadedResource, LoadedResourceView, media_type_error,
    media_type_of, MediaType, MediaTypeView, parse_media_type, same_text, Status,
};
use crate::text::{parse_u64, parsed_u64};
use crate::util::{joined, DisplayJoin};

verus! {

/// The most that a response may announce by default: 100 MiB.
pub const DEFAULT_MAX_SIZE: u64 = 104857600;

/// Knows what to ask of a server and what to accept from it.
#[derive(Debug)]
pub struct HttpLoader {
    /// The most that a response may announce.
    pub max_size: Option<u64>,
    /// The content types to ask for, the most wanted first. A success
    /// with another type is refused before its body is read.
    pub accept_content_types: Vec<MediaType>,
}

/// What an [`HttpLoader`] stands for.
pub struct HttpLoaderView {
    pub max_size: Option<u64>,
    pub accept: Seq<MediaTypeView>,
}

/// The views of a sequence of media types.
pub open spec fn media_views(types: Seq<MediaType>) -> Seq<MediaTypeView> {
    types.map_values(|m: MediaType| m@)
}

impl View for HttpLoader {
    type V = HttpLoaderView;

    open spec fn view(&self) -> HttpLoaderView {
        HttpLoaderView {
            max_size: self.max_size,
            accept: media_views(self.accept_content_types@),
        }
    }
}

/// A media type with a weight.
pub open spec fn weighted(
    type_: Seq<char>,
    subtype: Seq<char>,
    weight: Seq<char>,
) -> MediaTypeView {
    MediaTypeView {
        text: type_ + "/"@ + subtype + "; q="@ + weight,
        type_,
        subtype,
        essence: type_ + "/"@ + subtype,
    }
}

/// Whether the entry `wanted` of an accept list covers the type `given`:
/// by type and subtype, whatever the parameters, with `*` for any.
pub open spec fn covers(wanted: MediaTypeView, given: MediaTypeView) -> bool {
    ||| wanted.essence == given.essence
    ||| wanted.subtype == "*"@ && wanted.type_ == given.type_
    ||| wanted.subtype == "*"@ && wanted.type_ == "*"@
}

/// Whether one of the first `n` entries of `accept` covers `given`.
pub open spec fn accepted_by(accept: Seq<MediaTypeView>, n: int, given: MediaTypeView) -> bool {
    exists|i: int| 0 <= i < n && i < accept.len() && covers(#[trigger] accept[i], given)
}

/// Whether `accept` holds an entry that covers `given`.
pub open spec fn accepts(accept: Seq<MediaTypeView>, given: MediaTypeView) -> bool {
    accepted_by(accept, accept.len() as int, given)
}

/// The head of a response that may be read on.
#[derive(Debug, Clone, PartialEq, Eq)]
pub struct Accepted {
    pub url: String,
    pub status: Status,
    pub content_type: Option<MediaType>,
    pub length: Option<u64>,
}

/// What an [`Accepted`] stands for.
pub struct AcceptedView {
    pub url: Seq<char>,
    pub status: Status,
    pub content_type: Option<MediaTypeView>,
    pub length: Option<u64>,
}

impl View for Accepted {
    type V = AcceptedView;

    open spec fn view(&self) -> AcceptedView {
        AcceptedView {
            url: self.url@,
            status: self.status,
            content_type: match self.content_type {
                Some(m) => Some(m@),
                None => None,
            },
            length: self.length,
        }
    }
}

/// The length that a content-length header announces, if it is a number.
pub open spec fn announced(content_length: Option<Seq<char>>) -> Option<u64> {
    match content_length {
        Some(text) => parsed_u64(text),
        None => None,
    }
}

/// What the head of a response comes to. The head is checked in this
/// order, and the first failure is the error: a content type that does
/// not parse, with what the `mime` crate says of it; an announced length
/// over the limit; a success (200 to 299) that names no content type; a
/// success whose content type the accept list does not cover. Any other
/// status passes with whatever type it names.
pub open spec fn head_outcome(
    loader: HttpLoaderView,
    url: Seq<char>,
    code: u16,
    content_type: Option<Seq<char>>,
    content_length: Option<Seq<char>>,
) -> Result<AcceptedView, ErrorView> {
    let length = announced(content_length);
    let status = Status::HttpStatus { code };
    let parsed = match content_type {
        Some(text) => match media_type_of(text) {
            Ok(m) => Some(m),
            Err(_) => None,
        },
        None => None,
    };
    if content_type is Some && parsed is None {
        Err(ErrorView::MimeParseError(media_type_of(content_type->0)->Err_0))
    } else if length is Some && loader.max_size is Some && length->0 > loader.max_size->0 {
        Err(ErrorView::ResponseTooBig { content_length: length->0, max_length: loader.max_size->0 })
    } else if status.is_success() && parsed is None {
        Err(ErrorView::MissingContentType)
    } else if status.is_success() && !accepts(loader.accept, parsed->0) {
        Err(ErrorView::UnrequestedContentType(parsed->0))
    } else {
        Ok(AcceptedView { url, status, content_type: parsed, length })
    }
}

/// The model of what a head comes to.
pub open spec fn head_view(r: Result<Accepted, Error>) -> Result<AcceptedView, ErrorView> {
    match r {
        Ok(head) => Ok(head@),
        Err(e) => Err(e@),
    }
}

impl Default for HttpLoader {
    fn default() -> (r: Self)
        ensures
            r@ == HttpLoader::standard(),
    {
        let mut accept: Vec<MediaType> = Vec::new();
        accept.push(HttpLoader::entry("text", "gemini", "1"));
        accept.push(HttpLoader::entry("text", "markdown", "0.9"));
        accept.push(HttpLoader::entry("text", "plain", "0.8"));
        accept.push(HttpLoader::entry("text", "*", "0.7"));
        accept.push(HttpLoader::entry("*", "*", "0.1"));
        let r = HttpLoader { max_size: Some(DEFAULT_MAX_SIZE), accept_content_types: accept };
        assert(r@.accept =~= HttpLoader::standard().accept);
        r
    }
}

impl HttpLoader {
    /// The loader that is used where nothing else is asked for: at most
    /// 100 MiB, and line markup before markdown before plain text before
    /// any text before anything.
    pub open spec fn standard() -> HttpLoaderView {
        HttpLoaderView {
            max_size: Some(DEFAULT_MAX_SIZE),
            accept: seq![
                weighted("text"@, "gemini"@, "1"@),
                weighted("text"@, "markdown"@, "0.9"@),
                weighted("text"@, "plain"@, "0.8"@),
                weighted("text"@, "*"@, "0.7"@),
                weighted("*"@, "*"@, "0.1"@),
            ],
        }
    }

    /// A loader with the given limit and accept list.
    pub fn new(max_size: Option<u64>, accept_content_types: Vec<MediaType>) -> (r: Self)
        ensures
            r@.max_size == max_size,
            r@.accept == media_views(accept_content_types@),
    {
        HttpLoader { max_size, accept_content_types }
    }

    /// An entry of an accept list.
    pub fn entry(type_: &str, subtype: &str, weight: &str) -> (r: MediaType)
        ensures
            r@ == weighted(type_@, subtype@, weight@),
    {
        let mut essence = String::from_str(type_);
        essence.append("/");
        essence.append(subtype);
        let mut text = essence.clone();
        text.append("; q=");
        text.append(weight);
        MediaType {
            text,
            type_: String::from_str(type_),
            subtype: String::from_str(subtype),
            essence,
        }
    }

    /// The texts of the accept list.
    pub open spec fn accept_texts(accept: Seq<MediaTypeView>) -> Seq<Seq<char>> {
        accept.map_values(|m: MediaTypeView| m.text)
    }

    /// The value of the `Accept` header: the accept list, joined by commas.
    pub fn accept_header(&self) -> (r: String)
        ensures
            r@ == joined(HttpLoader::accept_texts(self@.accept), ","@),
    {
        let mut texts: Vec<String> = Vec::new();
        let mut i: usize = 0;
        while i < self.accept_content_types.len()
            invariant
                i <= self.accept_content_types.len(),
                texts.parts() == HttpLoader::accept_texts(self@.accept).take(i as int),
            decreases self.accept_content_types.len() - i,
        {
            let text = self.accept_content_types[i].text.clone();
            let ghost before = texts.parts();
            texts.push(text);
            proof {
                let all = HttpLoader::accept_texts(self@.accept);
                assert(texts.parts() =~= before.push(text@));
                assert(all[i as int] == self.accept_content_types[i as int]@.text);
                assert(all.take(i + 1) =~= all.take(i as int).push(text@));
            }
            i += 1;
        }
        assert(HttpLoader::accept_texts(self@.accept).take(self.accept_content_types.len() as int)
            == HttpLoader::accept_texts(self@.accept));
        texts.join(",")
    }

    /// Tells whether the accept list covers a content type.
    pub fn accepts(&self, given: &MediaType) -> (r: bool)
        ensures
            r == accepts(self@.accept, given@),
    {
        let mut i: usize = 0;
        while i < self.accept_content_types.len()
            invariant
                i <= self.accept_content_types.len(),
                !accepted_by(self@.accept, i as int, given@),
            decreases self.accept_content_types.len() - i,
        {
            let wanted = &self.accept_content_types[i];
            assert(self@.accept[i as int] == wanted@);
            let any_subtype = same_text(wanted.subtype.as_str(), "*");
            if same_text(wanted.essence.as_str(), given.essence.as_str()) || (any_subtype
                && same_text(wanted.type_.as_str(), given.type_.as_str())) || (any_subtype
                && same_text(wanted.type_.as_str(), "*")) {
                assert(covers(self@.accept[i as int], given@));
                return true;
            }
            i += 1;
        }
        false
    }

    /// Decides on the head of a response, before its body is read: the
    /// status code and the values of the content-type and content-length
    /// headers, where the response has them.
    pub fn fetch(
        &self,
        url: &str,
        code: u16,
        content_type: Option<&str>,
        content_length: Option<&str>,
    ) -> (r: Result<Accepted, Error>)
        ensures
            head_view(r) == head_outcome(
                self@,
                url@,
                code,
                match content_type {
                    Some(text) => Some(text@),
                    None => None,
                },
                match content_length {
                    Some(text) => Some(text@),
                    None => None,
                },
            ),
    {
        let parsed = match content_type {
            Some(text) => match parse_media_type(text) {
                Ok(m) => Some(m),
                Err(e) => {
                    return Err(Error::MimeParseError(media_type_error(&e)));
                },
            },
            None => None,
        };
        let length = match content_length {
            Some(text) => parse_u64(text),
            None => None,
        };
        if let (Some(length), Some(max_length)) = (length, self.max_size) {
            if length > max_length {
                return Err(Error::ResponseTooBig { content_length: length, max_length });
            }
        }
        let status = Status::HttpStatus { code };
        if status.ok() {
            match &parsed {
                None => {
                    return Err(Error::MissingContentType);
                },
                Some(given) => {
                    if !self.accepts(given) {
                        return Err(Error::UnrequestedContentType(given.copy()));
                    }
                },
            }
        }
        Ok(Accepted { url: url.to_owned(), status, content_type: parsed, length })
    }
}

impl Accepted {
    /// The resource that the head makes with the body that was read.
    pub fn with_body(self, text: String) -> (r: LoadedResource)
        ensures
            r@ == (LoadedResourceView {
                url: self@.url,
                status: self@.status,
                length: self@.length,
                content_type: self@.content_type,
                body: BodyView::Text(text@),
            }),
    {
        LoadedResource {
            url: self.url,
            status: self.status,
            length: self.length,
            content_type: self.content_type,
            body: Body::Text(text),
        }
    }
}

/// A success with a content type that the accept list does not cover is
/// refused, whatever else the head holds, unless it announces too much.
pub proof fn lemma_unrequested_success_is_refused(
    loader: HttpLoaderView,
    url: Seq<char>,
    code: u16,
    content_type: Seq<char>,
    content_length: Option<Seq<char>>,
)
    requires
        200 <= code < 300,
        media_type_of(content_type) is Ok,
        !accepts(loader.accept, media_type_of(content_type)->Ok_0),
    ensures
        head_outcome(loader, url, code, Some(content_type), content_length) is Err,
        !(head_outcome(loader, url, code, Some(content_type), content_length)->Err_0
            is ResponseTooBig) ==> head_outcome(
            loader,
            url,
            code,
            Some(content_type),
            content_length,
        ) == Err::<AcceptedView, ErrorView>(
            ErrorView::UnrequestedContentType(media_type_of(content_type)->Ok_0),
        ),
{
}

/// A status that is no success passes with its status and with whatever
/// content type it names, unless it announces too much.
pub proof fn lemma_failure_status_passes(
    loader: HttpLoaderView,
    url: Seq<char>,
    code: u16,
    content_type: Seq<char>,
    content_length: Option<Seq<char>>,
)
    requires
        !(200 <= code < 300),
        media_type_of(content_type) is Ok,
        announced(content_length) is Some && loader.max_size is Some ==> announced(
            content_length,
        )->0 <= loader.max_size->0,
    ensures
        head_outcome(loader, url, code, Some(content_type), content_length) == Ok::<
            AcceptedView,
            ErrorView,
        >(
            AcceptedView {
                url,
                status: Status::HttpStatus { code },
                content_type: Some(media_type_of(content_type)->Ok_0),
                length: announced(content_length),
            },
        ),
{
}

/// A content type that does not parse is the error, whatever else the
/// head holds.
pub proof fn lemma_bad_content_type_comes_first(
    loader: HttpLoaderView,
    url: Seq<char>,
    code: u16,
    content_type: Seq<char>,
    content_length: Option<Seq<char>>,
)
    requires
        media_type_of(content_type) is Err,
    ensures
        head_outcome(loader, url, code, Some(content_type), content_length) == Err::<
            AcceptedView,
            ErrorView,
        >(ErrorView::MimeParseError(media_type_of(content_type)->Err_0)),
{
}

/// An announced length over the limit is refused with both numbers,
/// whatever the status, where the content type parses or is missing.
pub proof fn lemma_too_big_is_refused(
    loader: HttpLoaderView,
    url: Seq<char>,
    code: u16,
    content_type: Option<Seq<char>>,
    content_length: Option<Seq<char>>,
)
    requires
        content_type matches Some(text) ==> media_type_of(text) is Ok,
        announced(content_length) is Some,
        loader.max_size is Some,
        announced(content_length)->0 > loader.max_size->0,
    ensures
        head_outcome(loader, url, code, content_type, content_length) == Err::<
            AcceptedView,
            ErrorView,
        >(
            ErrorView::ResponseTooBig {
                content_length: announced(content_length)->0,
                max_length: loader.max_size->0,
            },
        ),
{
}

/// A success that names no content type is an error, where it does not
/// announce too much.
pub proof fn lemma_success_needs_a_content_type(
    loader: HttpLoaderView,
    url: Seq<char>,
    code: u16,
    content_length: Option<Seq<char>>,
)
    requires
        200 <= code < 300,
        announced(content_length) is Some && loader.max_size is Some ==> announced(
            content_length,
        )->0 <= loader.max_size->0,
    ensures
        head_outcome(loader, url, code, None, content_length) == Err::<AcceptedView, ErrorView>(
            ErrorView::MissingContentType,
        ),
{
}

} // verus!
