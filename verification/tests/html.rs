use egemi::browser::html::{
    html_to_plaintext, skip_tag, FlatNode, FlatParser, Heading, HtmlNode, ParaParts, P,
};

fn node_of(handle: &tl::NodeHandle, parser: &tl::Parser<'_>) -> Option<HtmlNode> {
    let node = handle.get(parser)?;
    Some(match node {
        tl::Node::Tag(tag) => HtmlNode::Tag {
            name: tag.name().as_utf8_str().to_string(),
            inner_text: tag.inner_text(parser).to_string(),
            children: tag.children().top().iter().filter_map(|h| node_of(h, parser)).collect(),
        },
        tl::Node::Comment(_) => HtmlNode::Comment,
        tl::Node::Raw(bytes) => HtmlNode::Raw(bytes.as_utf8_str().to_string()),
    })
}

fn nodes_of(dom: &tl::VDom<'_>) -> Vec<HtmlNode> {
    dom.children().iter().filter_map(|h| node_of(h, dom.parser())).collect()
}

fn paragraph(text: &str) -> FlatNode {
    FlatNode::P(P { parts: vec![ParaParts::Text(text.to_string())] })
}

fn heading(level: u8, text: &str) -> FlatNode {
    FlatNode::Heading(Heading { level, text: text.to_string() })
}

fn tag(name: &str, inner_text: &str, children: Vec<HtmlNode>) -> HtmlNode {
    HtmlNode::Tag { name: name.to_string(), inner_text: inner_text.to_string(), children }
}

#[test]
fn as_documented() {
    let dom = tl::parse(r#"<p id="text">Hello</p>"#, tl::ParserOptions::default()).unwrap();
    let parser = dom.parser();
    let element = dom
        .get_element_by_id("text")
        .expect("Failed to find element")
        .get(parser)
        .unwrap();

    assert_eq!(element.inner_text(parser), "Hello");
}

#[test]
fn keeps_whitespace() {
    let raw = r#"
    <blah><div>
        <p>This is a <i>paragraph</i></p>
        <p> This is 
            <b>another</b> paragraph.
    </div></blah>"#;

    let dom = tl::parse(&raw, tl::ParserOptions::default()).unwrap();
    let paragraphs: Vec<_> = dom.query_selector("p").map(|it| it.collect()).unwrap_or_default();
    let paragraphs: Vec<_> = paragraphs
        .into_iter()
        .flat_map(|p| p.get(dom.parser()))
        .map(|it| it.inner_text(dom.parser()))
        .collect();

    assert_eq!(
        paragraphs,
        &["This is a paragraph", " This is \n            another paragraph.\n    "]
    );
}

#[test]
fn simple_parse() {
    let example = r#"
        <html>
        <head>
        <title>"foo"</title>
        </head>
        <body>
        <div>
            <h1>A bit of this &amp; that</h1>
            Some text
            and some more text
            <p>This is <span>a</span> <i>paragraph</i>
            <h1>This is an H1</h1> 
            And yet more text.
            
            <p>
                Here is a paragraph with an inline
                <a href="https://www.google.com">link</a>
                and
                <img src="https://examplecat.com/cat.png"/>
                image.
            </p>
            <a href="https://examplecat.com/">A link outside of a paragraph</a>
            <h2>an h2</h2>
        </div>
        </body>
        </html>
    "#;

    let dom = tl::parse(&example, tl::ParserOptions::default()).unwrap();

    let parser = FlatParser;
    let parts = parser.parse(&nodes_of(&dom));
    println!("{parts:#?}");
    assert_eq!(parts.first(), Some(&heading(1, "A bit of this & that")));
    assert!(parts.iter().all(|part| !matches!(part, FlatNode::Pre(_))));
    assert!(parts.iter().all(|part| match part {
        FlatNode::Heading(h) => !h.text.contains("foo"),
        FlatNode::P(p) => p.parts.len() == 1,
        FlatNode::Pre(_) => false,
    }));
}

#[test]
fn flattening_keeps_paragraphs_and_headings_in_order() {
    let dom = vec![
        HtmlNode::Raw("  loose  ".to_string()),
        HtmlNode::Comment,
        tag(
            "HTML",
            "ignored",
            vec![
                tag("Head", "t", vec![tag("title", "t", vec![]), tag("p", "hidden", vec![])]),
                tag(
                    "body",
                    "ignored",
                    vec![
                        tag("H1", " One\n two ", vec![]),
                        tag("script", "alert(1)", vec![tag("p", "no", vec![])]),
                        tag(
                            "div",
                            "ignored",
                            vec![
                                tag("P", "a  &lt;b&gt; &amp;amp; c&nbsp;d", vec![tag("i", "x", vec![])]),
                                HtmlNode::Raw("between".to_string()),
                                tag("span", "s", vec![tag("h6", "deep", vec![])]),
                            ],
                        ),
                        tag("STYLE", "p {}", vec![]),
                        tag("h7", "no heading", vec![]),
                        tag("h3", "", vec![]),
                    ],
                ),
            ],
        ),
        tag("p", "last", vec![]),
    ];
    assert_eq!(
        FlatParser.parse(&dom),
        vec![
            heading(1, "One two"),
            paragraph("a <b> &amp; c d"),
            heading(6, "deep"),
            heading(3, ""),
            paragraph("last"),
        ]
    );
    assert_eq!(FlatParser.parse(&vec![]), vec![]);
}

#[test]
fn elements_that_make_a_node() {
    assert_eq!(FlatParser.parse_tag("p", " x "), Some(paragraph("x")));
    assert_eq!(FlatParser.parse_tag("h2", "x"), Some(heading(2, "x")));
    assert_eq!(FlatParser.parse_tag("H4", "x"), Some(heading(4, "x")));
    assert_eq!(FlatParser.parse_tag("h5", "x"), Some(heading(5, "x")));
    assert_eq!(FlatParser.parse_tag("h0", "x"), None);
    assert_eq!(FlatParser.parse_tag("div", "x"), None);
    assert_eq!(FlatParser.parse_tag("", "x"), None);
    assert_eq!(FlatParser.parse_tag("pre", "x"), None);
    assert_eq!(FlatParser.parse_p("a\n b"), paragraph("a b"));
}

#[test]
fn plain_text_of_elements() {
    assert_eq!(html_to_plaintext("  a \n\t b\u{a0}\u{a0}c  "), "a b c");
    assert_eq!(html_to_plaintext("&amp;&nbsp;&lt;&gt;"), "& <>");
    assert_eq!(html_to_plaintext("&amp;lt;"), "<");
    assert_eq!(html_to_plaintext("&amp;amp;"), "&amp;");
    assert_eq!(html_to_plaintext("&AMP; &amp"), "&AMP; &amp");
    assert_eq!(html_to_plaintext("a&nbsp;&nbsp;b"), "a  b");
    assert_eq!(html_to_plaintext(""), "");
    assert_eq!(html_to_plaintext(" \n "), "");
}

#[test]
fn skipped_elements() {
    for name in ["script", "SCRIPT", "Style", "head", "hEAD"] {
        assert!(skip_tag(name), "{}", name);
    }
    for name in ["header", "scripts", "p", "", "ſcript", "\u{212a}"] {
        assert!(!skip_tag(name), "{}", name);
    }
}
