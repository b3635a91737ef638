use egemi::gemtext::{parse_heading, parse_link, parse_list_item, Block, Options};

fn parse(text: &str) -> Vec<Block> {
    Options::default().parse(text).expect("a lenient parser does not fail")
}

fn text(s: &str) -> Block {
    Block::Text(s.to_string())
}

#[test]
fn heading_then_text() {
    assert_eq!(
        parse("# Title\ntext"),
        vec![Block::Heading { level: 1, text: "Title".to_string() }, text("text")]
    );
}

#[test]
fn link_with_text() {
    assert_eq!(
        parse("=> https://x.example Link text"),
        vec![Block::Link { url: "https://x.example".to_string(), text: "Link text".to_string() }]
    );
}

#[test]
fn link_without_text() {
    assert_eq!(
        parse("=> https://x.example"),
        vec![Block::Link { url: "https://x.example".to_string(), text: String::new() }]
    );
}

#[test]
fn link_text_is_trimmed_at_the_end() {
    assert_eq!(
        parse("=>\t gemini://a.example/b   two  words \t"),
        vec![Block::Link { url: "gemini://a.example/b".to_string(), text: "two  words".to_string() }]
    );
}

#[test]
fn link_needs_space_and_target() {
    assert_eq!(parse("=>https://x.example"), vec![text("=>https://x.example")]);
    assert_eq!(parse("=>   "), vec![text("=>   ")]);
    assert_eq!(parse("=>"), vec![text("=>")]);
}

#[test]
fn closed_code_fence() {
    assert_eq!(
        parse("```meta\ncode\n```"),
        vec![Block::CodeFence { meta: "meta".to_string(), lines: vec!["code".to_string()] }]
    );
}

#[test]
fn unterminated_code_fence() {
    assert_eq!(
        parse("```\ncode"),
        vec![Block::CodeFence { meta: String::new(), lines: vec!["code".to_string()] }]
    );
}

#[test]
fn unterminated_code_fence_equals_closed_one() {
    assert_eq!(parse("a\n```rust\nlet x;\n\n# not a heading"), parse("a\n```rust\nlet x;\n\n# not a heading\n```"));
}

#[test]
fn unterminated_quote() {
    assert_eq!(
        parse("> one\n>two  "),
        vec![Block::BlockQuote { lines: vec![text("one"), text("two")] }]
    );
}

#[test]
fn quote_is_flushed_by_the_next_line() {
    assert_eq!(
        parse(">a\n>b\nplain\n> c"),
        vec![
            Block::BlockQuote { lines: vec![text("a"), text("b")] },
            text("plain"),
            Block::BlockQuote { lines: vec![text("c")] },
        ]
    );
}

#[test]
fn quoted_heading_is_no_heading() {
    assert_eq!(parse("> # Title"), vec![Block::BlockQuote { lines: vec![text("# Title")] }]);
}

#[test]
fn fence_closes_the_pending_quote() {
    assert_eq!(
        parse("> q\n```\nc\n```\nt"),
        vec![
            Block::BlockQuote { lines: vec![text("q")] },
            Block::CodeFence { meta: String::new(), lines: vec!["c".to_string()] },
            text("t"),
        ]
    );
    assert_eq!(
        parse("> q\n```\nc\n```"),
        vec![
            Block::BlockQuote { lines: vec![text("q")] },
            Block::CodeFence { meta: String::new(), lines: vec!["c".to_string()] },
        ]
    );
    assert_eq!(
        parse("> q\n```\n> c"),
        vec![
            Block::BlockQuote { lines: vec![text("q")] },
            Block::CodeFence { meta: String::new(), lines: vec!["> c".to_string()] },
        ]
    );
    assert_eq!(
        parse("```\nc\n```\n> q\n```m"),
        vec![
            Block::CodeFence { meta: String::new(), lines: vec!["c".to_string()] },
            Block::BlockQuote { lines: vec![text("q")] },
            Block::CodeFence { meta: "m".to_string(), lines: vec![] },
        ]
    );
}

#[test]
fn strict_parser_fails_before_it_closes_anything() {
    assert_eq!(
        Options::new(true).parse("> q\n```\nc\n``` meta"),
        Err("Found end code guard with meta: meta".to_string())
    );
}

#[test]
fn code_lines_keep_markup_and_get_no_break_spaces() {
    assert_eq!(
        parse("```\n# h\n=> u\n  two\n       seven x y\n```"),
        vec![Block::CodeFence {
            meta: String::new(),
            lines: vec![
                "# h".to_string(),
                "=> u".to_string(),
                "\u{a0}\u{a0}two".to_string(),
                "\u{a0}\u{a0}\u{a0}\u{a0}\u{a0}  seven x y".to_string(),
            ],
        }]
    );
}

#[test]
fn fence_meta_is_trimmed() {
    assert_eq!(
        parse("```  rust \n```"),
        vec![Block::CodeFence { meta: "rust".to_string(), lines: vec![] }]
    );
}

#[test]
fn strict_parser_rejects_meta_on_closing_fence() {
    let strict = Options::new(true);
    assert_eq!(
        strict.parse("```a\nx\n``` b\nrest"),
        Err("Found end code guard with meta: b".to_string())
    );
    assert_eq!(
        strict.parse("```a\nx\n```\nrest"),
        Ok(vec![Block::CodeFence { meta: "a".to_string(), lines: vec!["x".to_string()] }, text("rest")])
    );
}

#[test]
fn lenient_parser_accepts_meta_on_closing_fence() {
    assert_eq!(
        Options::new(false).parse("```a\nx\n``` b\nrest"),
        Ok(vec![Block::CodeFence { meta: "a".to_string(), lines: vec!["x".to_string()] }, text("rest")])
    );
}

#[test]
fn headings() {
    assert_eq!(parse_heading(&chars("## Two  words")), Some((2, "Two  words".to_string())));
    assert_eq!(parse_heading(&chars("#    ")), Some((1, String::new())));
    assert_eq!(parse_heading(&chars("#x")), None);
    assert_eq!(parse_heading(&chars("#")), None);
    assert_eq!(parse_heading(&chars(" # x")), None);
    assert_eq!(parse_heading(&chars("#\tx")), None);
}

#[test]
fn heading_level_is_kept_in_eight_bits() {
    let line = format!("{} t", "#".repeat(255));
    assert_eq!(parse_heading(&chars(&line)), Some((255, "t".to_string())));
    let line = format!("{} t", "#".repeat(256));
    assert_eq!(parse_heading(&chars(&line)), Some((0, "t".to_string())));
    let line = format!("{} t", "#".repeat(259));
    assert_eq!(parse_heading(&chars(&line)), Some((3, "t".to_string())));
}

#[test]
fn links() {
    assert_eq!(parse_link(&chars("=> a b")), Some(("a".to_string(), "b".to_string())));
    assert_eq!(parse_link(&chars("=> a   ")), Some(("a".to_string(), String::new())));
    assert_eq!(parse_link(&chars("=>\u{a0}a\u{3000}b c\u{2003}")), Some(("a".to_string(), "b c".to_string())));
    assert_eq!(parse_link(&chars("= > a")), None);
    assert_eq!(parse_link(&chars(" => a")), None);
}

#[test]
fn list_items() {
    assert_eq!(parse_list_item(&chars("* item")), Some("item".to_string()));
    assert_eq!(parse_list_item(&chars(" * item  ")), Some("item".to_string()));
    assert_eq!(parse_list_item(&chars("\t*\titem")), Some("item".to_string()));
    assert_eq!(parse_list_item(&chars("*  two spaces")), Some(" two spaces".to_string()));
    assert_eq!(parse_list_item(&chars("*   ")), Some(" ".to_string()));
    assert_eq!(parse_list_item(&chars("* ")), None);
    assert_eq!(parse_list_item(&chars("*item")), None);
    assert_eq!(parse_list_item(&chars("  * item")), None);
    assert_eq!(parse_list_item(&chars("*")), None);
    assert_eq!(parse_list_item(&chars("")), None);
}

#[test]
fn first_match_wins() {
    assert_eq!(
        parse("# h\n=> u t\n* i\nplain\n"),
        vec![
            Block::Heading { level: 1, text: "h".to_string() },
            Block::Link { url: "u".to_string(), text: "t".to_string() },
            Block::ListItem { text: "i".to_string() },
            text("plain"),
        ]
    );
}

#[test]
fn line_endings() {
    assert_eq!(parse("a\r\nb\n\nc\r"), vec![text("a"), text("b"), text(""), text("c\r")]);
    assert_eq!(parse(""), Vec::<Block>::new());
    assert_eq!(parse("\n"), vec![text("")]);
}

#[test]
fn every_text_parses() {
    for input in ["", "```", "```\n```\n```", ">", ">\n```meta\n>", "#\n=>\n*\n", "\r\n\r", "\u{a0}* x", "```x\n``` y"] {
        assert!(Options::default().parse(input).is_ok());
    }
}

fn chars(s: &str) -> Vec<char> {
    s.chars().collect()
}
