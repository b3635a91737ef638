use egemi::browser::network::file::{
    dir_needs_slash, gemtext_dir_list, load_file, not_found, FileLoader, FileStatus, FileStep,
    Found, MAX_FILE_BYTES,
};
use egemi::browser::network::gemini::GeminiLoader;
use egemi::gemtext::{Block, Options};
use egemi::browser::network::http::{Accepted, HttpLoader, DEFAULT_MAX_SIZE};
use egemi::browser::network::{
    text_gemini, text_plain, Body, Error, Fetch, LoadedResource, MediaType, MultiLoader,
    ParsedUrl, Status,
};

fn media(text: &str, type_: &str, subtype: &str, essence: &str) -> MediaType {
    MediaType {
        text: text.to_string(),
        type_: type_.to_string(),
        subtype: subtype.to_string(),
        essence: essence.to_string(),
    }
}

/// What the `mime` crate says of a text that is no media type.
fn mime_message(text: &str) -> String {
    text.parse::<mime::Mime>().expect_err("no media type").to_string()
}

/// A media type as the `mime` crate reads it from a text.
fn mime_reads(text: &str) -> MediaType {
    let m = text.parse::<mime::Mime>().expect("a media type");
    media(&m.to_string(), m.type_().as_str(), m.subtype().as_str(), m.essence_str())
}

fn file_url(text: &str, path: &str) -> ParsedUrl {
    ParsedUrl { text: text.to_string(), scheme: "file".to_string(), path: path.to_string() }
}

#[test]
fn status_ok_is_the_range_of_successes() {
    assert!(!Status::HttpStatus { code: 199 }.ok());
    assert!(Status::HttpStatus { code: 200 }.ok());
    assert!(Status::HttpStatus { code: 299 }.ok());
    assert!(!Status::HttpStatus { code: 300 }.ok());
    assert!(!Status::HttpStatus { code: 404 }.ok());
    assert!(Status::FileStatus(FileStatus::Found).ok());
    assert!(!Status::FileStatus(FileStatus::NotFound).ok());
    assert!(!Status::FileStatus(FileStatus::DirNeedsSlash).ok());
    assert!(!Status::FileStatus(FileStatus::TooBig { bytes: 1 }).ok());
}

#[test]
fn status_as_text() {
    assert_eq!(Status::HttpStatus { code: 404 }.to_text(), "HTTP 404");
    assert_eq!(Status::HttpStatus { code: 0 }.to_text(), "HTTP 0");
    assert_eq!(Status::FileStatus(FileStatus::NotFound).to_text(), "NotFound");
    assert_eq!(Status::FileStatus(FileStatus::DirNeedsSlash).to_text(), "DirNeedsSlash");
    assert_eq!(
        Status::FileStatus(FileStatus::TooBig { bytes: 31457281 }).to_text(),
        "TooBig { bytes: 31457281 }"
    );
}

#[test]
fn constant_media_types() {
    assert_eq!(text_gemini(), media("text/gemini", "text", "gemini", "text/gemini"));
    assert_eq!(text_plain(), media("text/plain", "text", "plain", "text/plain"));
}

#[test]
fn fetch_sends_each_scheme_to_its_loader() {
    let loader = MultiLoader::default();
    assert_eq!(
        loader.fetch("gemini://example.org/a b".to_string()),
        Fetch::Gemini(ParsedUrl {
            text: "gemini://example.org/a%20b".to_string(),
            scheme: "gemini".to_string(),
            path: "/a%20b".to_string(),
        })
    );
    assert_eq!(
        loader.fetch("HTTP://Example.org".to_string()),
        Fetch::Http("HTTP://Example.org".to_string())
    );
    assert_eq!(
        loader.fetch("https://example.org/x".to_string()),
        Fetch::Http("https://example.org/x".to_string())
    );
    assert_eq!(
        loader.fetch("file:///tmp/dir/".to_string()),
        Fetch::File(file_url("file:///tmp/dir/", "/tmp/dir/"))
    );
}

#[test]
fn fetch_fails_at_once_on_what_is_no_url() {
    let loader = MultiLoader::default();
    for input in ["", "no scheme here", "://missing", "1http://x.example", "/just/a/path"] {
        assert_eq!(
            loader.fetch(input.to_string()),
            Fetch::Failed(Error::InvalidUrl(input.to_string()))
        );
    }
}

#[test]
fn fetch_fails_at_once_on_a_scheme_without_loader() {
    let loader = MultiLoader::default();
    assert_eq!(
        loader.fetch("ftp://example.org/f".to_string()),
        Fetch::Failed(Error::UnsupportedUrlScheme("ftp://example.org/f".to_string()))
    );
    assert_eq!(
        loader.fetch("about:egemi".to_string()),
        Fetch::Failed(Error::UnsupportedUrlScheme("about:egemi".to_string()))
    );
}

#[test]
fn route_goes_by_the_scheme_alone() {
    let parsed = ParsedUrl {
        text: "t".to_string(),
        scheme: "https".to_string(),
        path: "p".to_string(),
    };
    assert_eq!(MultiLoader::route("u".to_string(), Some(parsed)), Fetch::Http("u".to_string()));
    assert_eq!(
        MultiLoader::route("u".to_string(), None),
        Fetch::Failed(Error::InvalidUrl("u".to_string()))
    );
}

#[test]
fn default_accept_header() {
    let loader = HttpLoader::default();
    assert_eq!(loader.max_size, Some(100 * 1024 * 1024));
    assert_eq!(DEFAULT_MAX_SIZE, 100 * 1024 * 1024);
    assert_eq!(
        loader.accept_header(),
        "text/gemini; q=1,text/markdown; q=0.9,text/plain; q=0.8,text/*; q=0.7,*/*; q=0.1"
    );
    assert_eq!(
        loader.accept_content_types[3],
        media("text/*; q=0.7", "text", "*", "text/*")
    );
    assert_eq!(HttpLoader::new(None, vec![]).accept_header(), "");
    assert_eq!(HttpLoader::new(None, vec![text_plain()]).accept_header(), "text/plain");
}

fn strict_loader() -> HttpLoader {
    HttpLoader::new(
        Some(1000),
        vec![HttpLoader::entry("text", "gemini", "1"), HttpLoader::entry("image", "*", "0.5")],
    )
}

#[test]
fn success_with_unrequested_type_is_refused() {
    let loader = strict_loader();
    assert_eq!(
        loader.fetch("http://x.example/", 200, Some("text/html; charset=utf-8"), None),
        Err(Error::UnrequestedContentType(media(
            "text/html; charset=utf-8",
            "text",
            "html",
            "text/html"
        )))
    );
    assert_eq!(
        loader.fetch("http://x.example/", 299, Some("application/json"), Some("10")),
        Err(Error::UnrequestedContentType(media(
            "application/json",
            "application",
            "json",
            "application/json"
        )))
    );
}

#[test]
fn failure_status_passes_with_any_type() {
    let loader = strict_loader();
    assert_eq!(
        loader.fetch("http://x.example/", 404, Some("application/json"), Some("12")),
        Ok(Accepted {
            url: "http://x.example/".to_string(),
            status: Status::HttpStatus { code: 404 },
            content_type: Some(media("application/json", "application", "json", "application/json")),
            length: Some(12),
        })
    );
    assert_eq!(
        loader.fetch("http://x.example/", 301, None, None),
        Ok(Accepted {
            url: "http://x.example/".to_string(),
            status: Status::HttpStatus { code: 301 },
            content_type: None,
            length: None,
        })
    );
}

#[test]
fn success_with_requested_type_passes() {
    let loader = strict_loader();
    let accepted = loader
        .fetch("http://x.example/", 200, Some("Text/Gemini; lang=en"), Some("1000"))
        .expect("accepted");
    assert_eq!(accepted.status, Status::HttpStatus { code: 200 });
    assert_eq!(accepted.length, Some(1000));
    assert_eq!(
        accepted.content_type,
        Some(media("text/gemini; lang=en", "text", "gemini", "text/gemini"))
    );
    assert!(loader.fetch("http://x.example/", 200, Some("image/png"), None).is_ok());
    assert!(loader.fetch("http://x.example/", 200, Some("image/svg+xml"), None).is_ok());
    assert!(HttpLoader::default().fetch("u", 200, Some("application/pdf"), None).is_ok());
    assert!(HttpLoader::default().fetch("u", 200, Some("text/html"), None).is_ok());
}

#[test]
fn accept_list_covers_by_type_and_subtype() {
    let loader = strict_loader();
    assert!(loader.accepts(&text_gemini()));
    assert!(loader.accepts(&media("image/png", "image", "png", "image/png")));
    assert!(!loader.accepts(&text_plain()));
    assert!(!HttpLoader::new(None, vec![]).accepts(&text_plain()));
    assert!(HttpLoader::new(None, vec![HttpLoader::entry("*", "*", "0.1")]).accepts(&text_plain()));
}

#[test]
fn success_without_content_type_is_an_error() {
    assert_eq!(
        strict_loader().fetch("http://x.example/", 200, None, None),
        Err(Error::MissingContentType)
    );
}

#[test]
fn content_type_that_does_not_parse_is_an_error() {
    assert_eq!(
        strict_loader().fetch("http://x.example/", 404, Some("not a type"), None),
        Err(Error::MimeParseError(mime_message("not a type")))
    );
}

#[test]
fn announced_length_over_the_limit_is_refused() {
    let loader = strict_loader();
    assert_eq!(
        loader.fetch("http://x.example/", 200, Some("text/gemini"), Some("1001")),
        Err(Error::ResponseTooBig { content_length: 1001, max_length: 1000 })
    );
    assert_eq!(
        loader.fetch("http://x.example/", 500, None, Some("18446744073709551615")),
        Err(Error::ResponseTooBig { content_length: u64::MAX, max_length: 1000 })
    );
    for length in ["18446744073709551616", "12a", "", " 5", "-1"] {
        let accepted = loader
            .fetch("http://x.example/", 200, Some("text/gemini"), Some(length))
            .expect("a length that is no number is none");
        assert_eq!(accepted.length, None);
    }
    let unlimited = HttpLoader::new(None, vec![text_gemini()]);
    assert!(unlimited
        .fetch("http://x.example/", 200, Some("text/gemini"), Some("18446744073709551615"))
        .is_ok());
}

#[test]
fn accepted_head_takes_the_body() {
    let accepted = Accepted {
        url: "u".to_string(),
        status: Status::HttpStatus { code: 200 },
        content_type: Some(text_plain()),
        length: Some(2),
    };
    assert_eq!(
        accepted.with_body("hi".to_string()),
        LoadedResource {
            url: "u".to_string(),
            status: Status::HttpStatus { code: 200 },
            length: Some(2),
            content_type: Some(text_plain()),
            body: Body::Text("hi".to_string()),
        }
    );
}

#[test]
fn gemini_answer() {
    let url = ParsedUrl {
        text: "gemini://example.org/".to_string(),
        scheme: "gemini".to_string(),
        path: "/".to_string(),
    };
    let loader = GeminiLoader::default();
    assert_eq!(
        loader.fetch(&url, true, "text/gemini; lang=en", Some("# hi".to_string()), 4),
        Ok(LoadedResource {
            url: "gemini://example.org/".to_string(),
            status: Status::HttpStatus { code: 200 },
            length: Some(4),
            content_type: Some(media("text/gemini; lang=en", "text", "gemini", "text/gemini")),
            body: Body::Text("# hi".to_string()),
        })
    );
    assert_eq!(
        loader.fetch(&url, false, "text/plain", None, 0),
        Ok(LoadedResource {
            url: "gemini://example.org/".to_string(),
            status: Status::HttpStatus { code: 500 },
            length: Some(0),
            content_type: Some(text_plain()),
            body: Body::Text(String::new()),
        })
    );
    assert_eq!(
        loader.fetch(&url, false, "Not found", None, 0),
        Err(Error::MimeParseError(mime_message("Not found")))
    );
}

#[test]
fn directory_without_slash_points_to_the_slash() {
    let url = file_url("file:///home/me/My%20Docs", "/home/me/My%20Docs");
    let step = FileLoader.fetch(&url, Found::Dir);
    let expected = LoadedResource {
        url: "file:///home/me/My%20Docs".to_string(),
        status: Status::FileStatus(FileStatus::DirNeedsSlash),
        length: None,
        content_type: Some(text_gemini()),
        body: Body::Text(
            "# File Not Found\n\n... but we found a directory. Did you mean:\n\n=> My%20Docs/"
                .to_string(),
        ),
    };
    assert_eq!(step, FileStep::Done(Ok(expected)));
    let spaced = file_url("file:///a b", "/a b");
    match dir_needs_slash(&spaced).body {
        Body::Text(text) => assert!(text.ends_with("=> a%20b/")),
        Body::Bytes(_) => panic!("text expected"),
    }
}

#[test]
fn directory_with_slash_is_listed() {
    let url = file_url("file:///home/me/", "/home/me/");
    assert_eq!(FileLoader.fetch(&url, Found::Dir), FileStep::ListDir);
}

#[test]
fn listing_sorts_and_escapes() {
    let url = file_url("file:///d/", "/d/");
    let listing = gemtext_dir_list(
        &url,
        true,
        vec!["zeta".to_string(), "Alpha".to_string(), "my dir".to_string()],
        vec!["b.txt".to_string(), "a b.txt".to_string(), "B.txt".to_string(), "a".to_string()],
    );
    assert_eq!(
        listing,
        LoadedResource {
            url: "file:///d/".to_string(),
            status: Status::FileStatus(FileStatus::Found),
            length: None,
            content_type: Some(text_gemini()),
            body: Body::Text(
                "=> ../\n=> Alpha/\n=> my%20dir/\n=> zeta/\n\n=> B.txt\n=> a\n=> a%20b.txt\n=> b.txt\n"
                    .to_string()
            ),
        }
    );
}

#[test]
fn listing_without_parent_or_directories() {
    let url = file_url("file:///", "/");
    let listing = gemtext_dir_list(&url, false, vec![], vec!["f".to_string()]);
    assert_eq!(listing.body, Body::Text("=> f\n".to_string()));
    let empty = gemtext_dir_list(&url, false, vec![], vec![]);
    assert_eq!(empty.body, Body::Text(String::new()));
    let dirs_only = gemtext_dir_list(&url, true, vec!["d".to_string()], vec![]);
    assert_eq!(dirs_only.body, Body::Text("=> ../\n=> d/\n\n".to_string()));
}

#[test]
fn missing_path_is_a_page() {
    let url = file_url("file:///nowhere", "/nowhere");
    let expected = LoadedResource {
        url: "file:///nowhere".to_string(),
        status: Status::FileStatus(FileStatus::NotFound),
        length: None,
        content_type: Some(text_plain()),
        body: Body::Text("No such file".to_string()),
    };
    assert_eq!(not_found(&url), expected);
    assert_eq!(FileLoader.fetch(&url, Found::Missing), FileStep::Done(Ok(expected.clone())));
    assert_eq!(FileLoader.fetch(&url, Found::Other), FileStep::Done(Ok(expected)));
}

#[test]
fn file_errors() {
    let url = file_url("file:///f.txt", "/f.txt");
    assert_eq!(
        FileLoader.fetch(&url, Found::NoPath),
        FileStep::Done(Err(Error::InvalidUrl("file:///f.txt".to_string())))
    );
    assert_eq!(
        FileLoader.fetch(&url, Found::Failed { error: "denied".to_string() }),
        FileStep::Done(Err(Error::IoError("denied".to_string())))
    );
    let other = ParsedUrl {
        text: "http://x.example/f.txt".to_string(),
        scheme: "http".to_string(),
        path: "/f.txt".to_string(),
    };
    assert_eq!(
        FileLoader.fetch(&other, Found::Missing),
        FileStep::Done(Err(Error::InvalidUrl("http://x.example/f.txt".to_string())))
    );
}

#[test]
fn files_are_read_by_their_guessed_type() {
    let url = file_url("file:///f.txt", "/f.txt");
    assert_eq!(
        FileLoader.fetch(&url, Found::File { bytes: 10, path: "/f.txt".to_string() }),
        FileStep::ReadFile(text_plain())
    );
    assert_eq!(
        FileLoader.fetch(&url, Found::File { bytes: MAX_FILE_BYTES, path: "/a/b.HTML".to_string() }),
        FileStep::ReadFile(media("text/html", "text", "html", "text/html"))
    );
    assert_eq!(
        FileLoader.fetch(&url, Found::File { bytes: 10, path: "/f.png".to_string() }),
        FileStep::Done(Err(Error::UnsupportedContentType(media(
            "image/png",
            "image",
            "png",
            "image/png"
        ))))
    );
    assert_eq!(
        FileLoader.fetch(&url, Found::File { bytes: 10, path: "/no_extension".to_string() }),
        FileStep::Done(Err(Error::MissingContentType))
    );
}

#[test]
fn files_over_thirty_mebibytes_are_not_read() {
    assert_eq!(MAX_FILE_BYTES, 30 * 1024 * 1024);
    let url = file_url("file:///f.txt", "/f.txt");
    assert_eq!(
        FileLoader.fetch(&url, Found::File { bytes: 31457281, path: "/f.txt".to_string() }),
        FileStep::Done(Err(Error::Unknown("File too large: 31457281 bytes".to_string())))
    );
}

#[test]
fn loaded_file() {
    let url = file_url("file:///f.txt", "/f.txt");
    assert_eq!(
        load_file(&url, text_plain(), "hello".to_string()),
        LoadedResource {
            url: "file:///f.txt".to_string(),
            status: Status::FileStatus(FileStatus::Found),
            length: None,
            content_type: Some(text_plain()),
            body: Body::Text("hello".to_string()),
        }
    );
}

#[test]
fn error_descriptions() {
    assert_eq!(Error::Unknown("x".to_string()).to_text(), "Unknown error x");
    assert_eq!(
        Error::UnsupportedUrlScheme("ftp://x/".to_string()).to_text(),
        "Unsupported URL scheme: ftp://x/"
    );
    assert_eq!(
        Error::UnrequestedContentType(text_plain()).to_text(),
        "Unrequested Content-Type: text/plain"
    );
    assert_eq!(
        Error::UnsupportedContentType(text_plain()).to_text(),
        "Unsupported Content-Type: text/plain"
    );
    assert_eq!(Error::MissingContentType.to_text(), "Missing Content-Type");
    assert_eq!(Error::InvalidUrl("u".to_string()).to_text(), "Invalid URL: u");
    assert_eq!(Error::MimeParseError("m".to_string()).to_text(), "Error parsing mime type m");
    assert_eq!(Error::IoError("e".to_string()).to_text(), "I/O Error: e");
    assert_eq!(
        Error::ResponseTooBig { content_length: 7, max_length: 5 }.to_text(),
        "ResponseTooBig { content_length: 7, max_length: 5 }"
    );
}

#[test]
fn directory_hint_parses_to_one_link() {
    let url = file_url("file:///home/me/My%20Docs", "/home/me/My Docs");
    let body = match dir_needs_slash(&url).body {
        Body::Text(text) => text,
        Body::Bytes(_) => panic!("text expected"),
    };
    assert_eq!(
        Options::default().parse(&body),
        Ok(vec![
            Block::Heading { level: 1, text: "File Not Found".to_string() },
            Block::Text(String::new()),
            Block::Text("... but we found a directory. Did you mean:".to_string()),
            Block::Text(String::new()),
            Block::Link { url: "My%20Docs/".to_string(), text: String::new() },
        ])
    );
}

#[test]
fn head_is_checked_in_order() {
    let loader = strict_loader();
    assert_eq!(
        loader.fetch("u", 200, Some("no type"), Some("5000")),
        Err(Error::MimeParseError(mime_message("no type")))
    );
    assert_eq!(
        loader.fetch("u", 200, None, Some("5000")),
        Err(Error::ResponseTooBig { content_length: 5000, max_length: 1000 })
    );
    assert_eq!(
        loader.fetch("u", 200, Some("text/html"), Some("5000")),
        Err(Error::ResponseTooBig { content_length: 5000, max_length: 1000 })
    );
    assert_eq!(loader.fetch("u", 204, None, Some("1000")), Err(Error::MissingContentType));
}

#[test]
fn media_types_built_here_are_what_mime_reads() {
    assert_eq!(text_gemini(), mime_reads("text/gemini"));
    assert_eq!(text_plain(), mime_reads("text/plain"));
    assert_eq!(text_plain(), mime_reads(mime::TEXT_PLAIN.as_ref()));
    assert_eq!(MediaType::plain("image", "png"), mime_reads("image/png"));
    let texts = ["text/gemini; q=1", "text/markdown; q=0.9", "text/plain; q=0.8", "text/*; q=0.7", "*/*; q=0.1"];
    let loader = HttpLoader::default();
    assert_eq!(loader.accept_content_types.len(), texts.len());
    for (entry, text) in loader.accept_content_types.iter().zip(texts) {
        assert_eq!(entry, &mime_reads(text));
    }
    assert_eq!(HttpLoader::entry("text", "gemini", "1"), mime_reads("text/gemini; q=1"));
    let parsed: Vec<String> =
        texts.iter().map(|text| text.parse::<mime::Mime>().unwrap().to_string()).collect();
    assert_eq!(loader.accept_header(), parsed.join(","));
}

#[test]
fn mime_errors_keep_their_message() {
    let message = mime_message("not a type");
    assert!(message.starts_with("mime parse error: "), "{}", message);
    assert_eq!(
        Error::MimeParseError(message.clone()).to_text(),
        format!("Error parsing mime type {}", message)
    );
    assert_ne!(mime_message(""), mime_message("a b"));
}

#[test]
fn paths_of_file_urls_hold_no_white_space() {
    let loader = MultiLoader::default();
    let mut spaces: Vec<char> = (0..=0x3100u32)
        .filter_map(char::from_u32)
        .filter(|c| c.is_whitespace())
        .collect();
    spaces.push('\u{7f}');
    assert!(spaces.len() > 20);
    for c in spaces {
        for text in [
            format!("file:///a{c}b/c{c}"),
            format!("file:///{c}"),
            format!("file://host/x{c}{c}y"),
            format!("file:/a/../{c}b"),
            format!("file:a{c}b"),
            format!("FILE:///C:/d{c}e"),
        ] {
            match loader.fetch(text.clone()) {
                Fetch::File(url) => {
                    assert_eq!(url.scheme, "file");
                    assert!(!url.path.chars().any(char::is_whitespace), "{:?}", url);
                    assert!(url.path.starts_with('/'), "{:?}", url);
                }
                other => panic!("{:?} gives {:?}", text, other),
            }
        }
    }
}

#[test]
fn directory_hint_leads_to_the_url_with_a_slash() {
    let loader = MultiLoader::default();
    for text in ["file:///home/me/My Docs", "file:///a", "file:///x/y.d/z%20z", "file:///\u{e9}t\u{e9}/\u{3000}b"] {
        let url = match loader.fetch(text.to_string()) {
            Fetch::File(url) => url,
            other => panic!("{:?}", other),
        };
        let page = match FileLoader.fetch(&url, Found::Dir) {
            FileStep::Done(Ok(page)) => page,
            other => panic!("{:?}", other),
        };
        assert_eq!(page.status, Status::FileStatus(FileStatus::DirNeedsSlash));
        let body = match page.body {
            Body::Text(body) => body,
            Body::Bytes(_) => panic!("text expected"),
        };
        let blocks = Options::default().parse(&body).unwrap();
        let links: Vec<&String> = blocks
            .iter()
            .filter_map(|block| match block {
                Block::Link { url, .. } => Some(url),
                _ => None,
            })
            .collect();
        assert_eq!(links.len(), 1, "{:?}", blocks);
        let joined = url::Url::parse(&url.text).unwrap().join(links[0]).unwrap();
        assert_eq!(joined.as_str(), format!("{}/", url.text));
    }
}
