//! Loading over the line protocol: what its answer becomes.

use vstd::prelude::*;
use crate::browser::network::{
    Body, BodyView, Error, ErrorView, LoadedResource, LoadedResourceView, media_type_error,
    media_type_of, parse_media_type, ParsedUrl, Status,
};

verus! {

/// Knows what to make of an answer of the line protocol.
#[derive(Default, Debug)]
pub struct GeminiLoader {}

/// The resource that an answer makes. Success becomes status 200, and
/// anything else status 500; the meta line must be a media type.
pub open spec fn answer(
    url: Seq<char>,
    success: bool,
    meta: Seq<char>,
    content: Option<Seq<char>>,
    size: u64,
) -> Result<LoadedResourceView, ErrorView> {
    match media_type_of(meta) {
        Err(message) => Err(ErrorView::MimeParseError(message)),
        Ok(content_type) => Ok(
            LoadedResourceView {
                url,
                status: Status::HttpStatus {
                    code: if success {
                        200
                    } else {
                        500
                    },
                },
                length: Some(size),
                content_type: Some(content_type),
                body: BodyView::Text(
                    match content {
                        Some(text) => text,
                        None => Seq::empty(),
                    },
                ),
            },
        ),
    }
}

impl GeminiLoader {
    /// Makes a resource of an answer: whether the protocol reported
    /// success, its meta line, its content and the size of the content.
    pub fn fetch(
        &self,
        url: &ParsedUrl,
        success: bool,
        meta: &str,
        content: Option<String>,
        size: u64,
    ) -> (r: Result<LoadedResource, Error>)
        ensures
            crate::browser::network::loaded(r) == answer(
                url.text@,
                success,
                meta@,
                match content {
                    Some(text) => Some(text@),
                    None => None,
                },
                size,
            ),
    {
        let content_type = match parse_media_type(meta) {
            Ok(m) => m,
            Err(e) => {
                return Err(Error::MimeParseError(media_type_error(&e)));
            },
        };
        let code: u16 = if success {
            200
        } else {
            500
        };
        let text = match content {
            Some(text) => text,
            None => String::new(),
        };
        Ok(
            LoadedResource {
                url: url.text.clone(),
                status: Status::HttpStatus { code },
                length: Some(size),
                content_type: Some(content_type),
                body: Body::Text(text),
            },
        )
    }
}

} // verus!
