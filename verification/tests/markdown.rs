use egemi::browser::widgets::markdown::events::{
    tokenize, tokenize_with, MdEvent, MdTag, MdTagEnd,
};
use egemi::browser::widgets::markdown::notes::{
    block_list_text, block_text, event_text, inline_list_text, inline_text, quote_text,
};
use egemi::browser::widgets::markdown::tree::{Block, Image, Inline, Link, Parsed, Parser, Style};
use egemi::browser::widgets::markdown::MarkdownWidget;

fn text(s: &str) -> Inline {
    Inline::Text(s.to_string())
}

fn start(tag: MdTag) -> MdEvent {
    let debug = format!("{:?}", tag);
    MdEvent::Start { tag, debug }
}

fn start_as(tag: MdTag, debug: &str) -> MdEvent {
    MdEvent::Start { tag, debug: debug.to_string() }
}

fn end(end: MdTagEnd) -> MdEvent {
    MdEvent::End { end, debug: format!("{:?}", end) }
}

fn end_as(end: MdTagEnd, debug: &str) -> MdEvent {
    MdEvent::End { end, debug: debug.to_string() }
}

fn start_image(dest_url: &str) -> MdEvent {
    start(MdTag::Image { dest_url: dest_url.to_string(), title: String::new(), id: String::new() })
}

#[test]
fn image_end_tag() {
    let md = "Here is some markdown.\n\n![img](https://examplecat.com/cat.png)\n![](https://examplecat.com/cat.png)\n\n[![img](https://examplecat.com/cat.png)](https://examplecat.com)\n";
    assert_eq!(
        event_debug(md),
        &[
            "Start(Paragraph)",
            "Text(Borrowed(\"Here is some markdown.\"))",
            "End(Paragraph)",
            "Start(Paragraph)",
            "Start(Image { link_type: Inline, dest_url: Borrowed(\"https://examplecat.com/cat.png\"), title: Borrowed(\"\"), id: Borrowed(\"\") })",
            "Text(Borrowed(\"img\"))",
            "End(Image)",
            "SoftBreak",
            "Start(Image { link_type: Inline, dest_url: Borrowed(\"https://examplecat.com/cat.png\"), title: Borrowed(\"\"), id: Borrowed(\"\") })",
            "End(Image)",
            "End(Paragraph)",
            "Start(Paragraph)",
            "Start(Link { link_type: Inline, dest_url: Borrowed(\"https://examplecat.com\"), title: Borrowed(\"\"), id: Borrowed(\"\") })",
            "Start(Image { link_type: Inline, dest_url: Borrowed(\"https://examplecat.com/cat.png\"), title: Borrowed(\"\"), id: Borrowed(\"\") })",
            "Text(Borrowed(\"img\"))",
            "End(Image)",
            "End(Link)",
            "End(Paragraph)",
        ]
    );
}

/// The events of a text as the tokenizer writes them. A text event holds
/// its text only, so it is written here as the tokenizer gives it for a
/// text that it borrows.
fn event_debug(md: &str) -> Vec<String> {
    tokenize(md)
        .iter()
        .map(|event| match event {
            MdEvent::Text(text) => format!("Text(Borrowed({text:?}))"),
            other => event_text(other),
        })
        .collect()
}

#[test]
fn events_are_written_as_the_tokenizer_writes_them() {
    let md = "# h `c`\n\n> q\n\n1. a\n\n- b\n\n*e* **s** [l](u) ![i](v \"t\")\n\n```rs\nc\n```\n\n<div>\n\n---\n";
    let written: Vec<String> = pulldown_cmark::Parser::new(md)
        .filter(|event| !matches!(event, pulldown_cmark::Event::Text(_) | pulldown_cmark::Event::Code(_)))
        .map(|event| format!("{event:?}"))
        .collect();
    let ours: Vec<String> = tokenize(md)
        .iter()
        .filter(|event| !matches!(event, MdEvent::Text(_) | MdEvent::Code(_)))
        .map(event_text)
        .collect();
    assert_eq!(ours, written);
    assert!(ours.len() > 20);
    assert_eq!(event_text(&MdEvent::Text("a\"b".to_string())), "Text(\"a\\\"b\")");
    assert_eq!(event_text(&MdEvent::Code("c".to_string())), "Code(\"c\")");
    assert_eq!(event_text(&start_as(MdTag::Unexpected, "TableHead")), "Start(TableHead)");
    assert_eq!(event_text(&end_as(MdTagEnd::Unexpected, "TableHead")), "End(TableHead)");
    assert_eq!(event_text(&MdEvent::Other { debug: "Html(x)".to_string() }), "Html(x)");
}

#[test]
fn tags_are_read_from_the_tokenizer() {
    let tags = |md: &str, options: u32| -> Vec<MdTag> {
        tokenize_with(md, options)
            .into_iter()
            .filter_map(|event| match event {
                MdEvent::Start { tag, .. } => Some(tag),
                _ => None,
            })
            .collect()
    };
    let ends = |md: &str, options: u32| -> Vec<MdTagEnd> {
        tokenize_with(md, options)
            .into_iter()
            .filter_map(|event| match event {
                MdEvent::End { end, .. } => Some(end),
                _ => None,
            })
            .collect()
    };
    let md = "## h\n\n> q\n\n3. a\n\n*e* **s** [l](u) ![i](v \"t\")\n\n```rs\nc\n```\n\n    d\n\n<div>\n";
    assert_eq!(
        tags(md, 0),
        vec![
            MdTag::Heading { level: 2 },
            MdTag::BlockQuote,
            MdTag::Paragraph,
            MdTag::List { start: Some(3) },
            MdTag::Item,
            MdTag::Paragraph,
            MdTag::Emphasis,
            MdTag::Strong,
            MdTag::Link { dest_url: "u".to_string() },
            MdTag::Image { dest_url: "v".to_string(), title: "t".to_string(), id: String::new() },
            MdTag::CodeBlock { fenced: Some("rs".to_string()) },
            MdTag::CodeBlock { fenced: None },
            MdTag::HtmlBlock,
        ]
    );
    assert_eq!(
        ends(md, 0),
        vec![
            MdTagEnd::Heading,
            MdTagEnd::Paragraph,
            MdTagEnd::BlockQuote,
            MdTagEnd::Item,
            MdTagEnd::List,
            MdTagEnd::Emphasis,
            MdTagEnd::Strong,
            MdTagEnd::Link,
            MdTagEnd::Image,
            MdTagEnd::Paragraph,
            MdTagEnd::CodeBlock,
            MdTagEnd::CodeBlock,
            MdTagEnd::Unexpected,
        ]
    );
    let strike = pulldown_cmark::Options::ENABLE_STRIKETHROUGH.bits();
    assert_eq!(tags("~~a~~", strike), vec![MdTag::Paragraph, MdTag::Strikethrough]);
    assert_eq!(tags("~~a~~", 0), vec![MdTag::Paragraph]);
    let raised = pulldown_cmark::Options::ENABLE_SUPERSCRIPT.bits();
    assert_eq!(tags("^a^", raised), vec![MdTag::Paragraph, MdTag::Superscript]);
    let lowered = pulldown_cmark::Options::ENABLE_SUBSCRIPT.bits();
    assert_eq!(tags("~a~", lowered), vec![MdTag::Paragraph, MdTag::Subscript]);
    let meta = pulldown_cmark::Options::ENABLE_YAML_STYLE_METADATA_BLOCKS.bits();
    assert_eq!(tags("---\nt: x\n---\n", meta), vec![MdTag::MetadataBlock]);
    let tables = pulldown_cmark::Options::ENABLE_TABLES.bits();
    assert_eq!(
        tags("|a|\n|-|\n|b|\n", tables),
        vec![
            MdTag::Unexpected,
            MdTag::Unexpected,
            MdTag::Unexpected,
            MdTag::Unexpected,
            MdTag::Unexpected
        ]
    );
    assert_eq!(ends("~~a~~", strike), vec![MdTagEnd::Unexpected, MdTagEnd::Paragraph]);
}

#[test]
fn tags_that_are_passed_over_leave_what_they_hold() {
    let strike = pulldown_cmark::Options::ENABLE_STRIKETHROUGH.bits();
    assert_eq!(
        Parser::from_events(tokenize_with("a ~~b~~ c", strike)).blocks,
        vec![Block::P {
            parts: vec![
                text("a "),
                text("b"),
                text("(Unimplemented top-level item: End(Strikethrough))"),
                text(" c"),
            ],
        }]
    );
    for tag in [MdTag::Strikethrough, MdTag::Superscript, MdTag::Subscript, MdTag::MetadataBlock] {
        let events = vec![start(tag), MdEvent::Text("t".to_string())];
        assert_eq!(
            Parser::from_events(events).blocks,
            vec![Block::PseudoP { parts: vec![text("t")] }]
        );
    }
}

#[test]
fn tags_that_are_not_read_leave_a_note() {
    let tables = pulldown_cmark::Options::ENABLE_TABLES.bits();
    let blocks = Parser::from_events(tokenize_with("|a|\n|-|\n|b|\n", tables)).blocks;
    assert_eq!(blocks[0], Block::P { parts: vec![text("Unexpected tag: Table([None])")] });
    assert_eq!(blocks[1], Block::P { parts: vec![text("Unexpected tag: TableHead")] });
}

#[test]
fn image_inside_link_is_a_linked_image() {
    let parsed = Parser::from_md("[![alt](img.png)](page.html)");
    assert_eq!(
        parsed.blocks,
        vec![Block::P {
            parts: vec![Inline::LinkedImage {
                link: Link { href: "page.html".to_string(), text: String::new() },
                image: Image {
                    src: "img.png".to_string(),
                    alt: "alt".to_string(),
                    title: String::new(),
                },
            }],
        }]
    );
}

#[test]
fn image_alt_falls_back_to_id_then_to_address() {
    let events = vec![
        start(MdTag::Image {
            dest_url: "a.png".to_string(),
            title: "t".to_string(),
            id: "ref".to_string(),
        }),
        end(MdTagEnd::Image),
        start_image("b.png"),
        end(MdTagEnd::Image),
    ];
    assert_eq!(
        Parser::from_events(events).blocks,
        vec![Block::PseudoP {
            parts: vec![
                Inline::Image(Image {
                    src: "a.png".to_string(),
                    alt: "ref".to_string(),
                    title: "t".to_string(),
                }),
                Inline::Image(Image {
                    src: "b.png".to_string(),
                    alt: "b.png".to_string(),
                    title: String::new(),
                }),
            ],
        }]
    );
}

#[test]
fn image_with_more_than_a_text_inside_leaves_a_note() {
    let parsed = Parser::from_md("![a *b* c](x.png)");
    assert_eq!(
        parsed.blocks,
        vec![Block::P {
            parts: vec![Inline::Image(Image {
                src: "x.png".to_string(),
                alt: "(Error: Too many inline elements: [Text(\"a \"), Styled { style: Italics, parts: [Text(\"b\")] }, Text(\" c\")])".to_string(),
                title: String::new(),
            })],
        }]
    );
    let parsed = Parser::from_md("![`code`](x.png)");
    assert_eq!(
        parsed.blocks,
        vec![Block::P {
            parts: vec![Inline::Image(Image {
                src: "x.png".to_string(),
                alt: "(Error: Unexpected inline element in image: Code(\"code\"))".to_string(),
                title: String::new(),
            })],
        }]
    );
}

#[test]
fn headings_paragraphs_and_rules() {
    let parsed = Parser::from_md("# One `two`\n\nFirst\nsecond  \nthird\n\n---\n\n## Sub\n");
    assert_eq!(
        parsed.blocks,
        vec![
            Block::Heading { level: 1, text: "One ".to_string() },
            Block::P {
                parts: vec![text("First"), text(" "), text("second"), text("\n"), text("third")],
            },
            Block::Hr,
            Block::Heading { level: 2, text: "Sub".to_string() },
        ]
    );
}

#[test]
fn styles_nest() {
    let parsed = Parser::from_md("a *b **c** `d`* e");
    assert_eq!(
        parsed.blocks,
        vec![Block::P {
            parts: vec![
                text("a "),
                Inline::Styled {
                    style: Style::Italics,
                    parts: vec![
                        text("b "),
                        Inline::Styled { style: Style::Bold, parts: vec![text("c")] },
                        text(" "),
                        Inline::Code("d".to_string()),
                    ],
                },
                text(" e"),
            ],
        }]
    );
}

#[test]
fn link_wraps_each_part() {
    let parsed = Parser::from_md("[one *two three* `four`](u)");
    let link = |t: &str| Inline::Link(Link { href: "u".to_string(), text: t.to_string() });
    assert_eq!(
        parsed.blocks,
        vec![Block::P { parts: vec![link("one "), link("two three"), link(" "), link("four")] }]
    );
}

#[test]
fn extract_text_joins_styled_parts_with_spaces() {
    let styled = Inline::Styled {
        style: Style::Bold,
        parts: vec![
            text("a"),
            Inline::Code("b".to_string()),
            Inline::Styled { style: Style::Italics, parts: vec![text("c"), text("d")] },
            Inline::Image(Image { src: "s".to_string(), alt: "x".to_string(), title: "y".to_string() }),
            Inline::Link(Link { href: "h".to_string(), text: "l".to_string() }),
        ],
    };
    assert_eq!(styled.extract_text(), "a b c d s l");
    assert_eq!(Inline::Styled { style: Style::Bold, parts: vec![] }.extract_text(), "");
    assert_eq!(
        Inline::LinkedImage {
            link: Link { href: "h".to_string(), text: String::new() },
            image: Image { src: "s".to_string(), alt: String::new(), title: String::new() },
        }
        .extract_text(),
        "s"
    );
}

#[test]
fn code_blocks() {
    let parsed = Parser::from_md("```rust\nlet a = 1;\nlet b = 2;\n```\n\n    indented\n");
    assert_eq!(
        parsed.blocks,
        vec![
            Block::CodeBlock {
                fenced: Some("rust".to_string()),
                text: "let a = 1;\nlet b = 2;\n".to_string(),
            },
            Block::CodeBlock { fenced: None, text: "indented\n".to_string() },
        ]
    );
}

#[test]
fn code_block_notes_what_is_no_text() {
    let events = vec![
        start(MdTag::CodeBlock { fenced: None }),
        MdEvent::Text("a".to_string()),
        MdEvent::SoftBreak,
        start(MdTag::Emphasis),
        MdEvent::Other { debug: "InlineHtml(Borrowed(\"<b>\"))".to_string() },
        end(MdTagEnd::CodeBlock),
        MdEvent::Text("after".to_string()),
    ];
    assert_eq!(
        Parser::from_events(events).blocks,
        vec![
            Block::CodeBlock {
                fenced: None,
                text: "a\n\nERROR: Unexpected Markdown Event in code block: SoftBreak\n\n\n\nERROR: Unexpected Markdown Event in code block: Start(Emphasis)\n\n\n\nERROR: Unexpected Markdown Event in code block: InlineHtml(Borrowed(\"<b>\"))\n\n".to_string(),
            },
            Block::PseudoP { parts: vec![text("after")] },
        ]
    );
}

#[test]
fn lists_hold_items_and_loose_text() {
    let parsed = Parser::from_md("3. a\n4. b\n   - c\n");
    assert_eq!(
        parsed.blocks,
        vec![Block::List {
            start_num: Some(3),
            blocks: vec![
                Block::ListItem { blocks: vec![Block::PseudoP { parts: vec![text("a")] }] },
                Block::ListItem {
                    blocks: vec![
                        Block::PseudoP { parts: vec![text("b")] },
                        Block::List {
                            start_num: None,
                            blocks: vec![Block::ListItem {
                                blocks: vec![Block::PseudoP { parts: vec![text("c")] }],
                            }],
                        },
                    ],
                },
            ],
        }]
    );
}

#[test]
fn block_quotes_nest() {
    let parsed = Parser::from_md("> a\n>\n> > b\n");
    assert_eq!(
        parsed.blocks,
        vec![Block::BlockQuote {
            blocks: vec![
                Block::P { parts: vec![text("a")] },
                Block::BlockQuote { blocks: vec![Block::P { parts: vec![text("b")] }] },
            ],
        }]
    );
}

#[test]
fn html_leaves_notes() {
    let parsed = Parser::from_md("a <b>c</b>\n");
    assert_eq!(
        parsed.blocks,
        vec![Block::P {
            parts: vec![
                text("a "),
                text("(Unimplemented top-level item: InlineHtml(Borrowed(\"<b>\")))"),
                text("c"),
                text("(Unimplemented top-level item: InlineHtml(Borrowed(\"</b>\")))"),
            ],
        }]
    );
    let parsed = Parser::from_md("<div>\nx\n</div>\n");
    assert_eq!(parsed.blocks.len(), 2);
    assert_eq!(parsed.blocks[0], Block::P { parts: vec![text("TODO: Start Tag HtmlBlock")] });
    match &parsed.blocks[1] {
        Block::PseudoP { parts } => {
            assert_eq!(
                parts.last(),
                Some(&text("(Unimplemented top-level item: End(HtmlBlock))"))
            );
        }
        other => panic!("not a pseudo paragraph: {:?}", other),
    }
}

#[test]
fn stray_events_are_kept() {
    let events = vec![
        end(MdTagEnd::Paragraph),
        MdEvent::Text("t".to_string()),
        start_as(MdTag::Unexpected, "TableHead"),
        end_as(MdTagEnd::Unexpected, "TableHead"),
        MdEvent::Rule,
        MdEvent::Code("c".to_string()),
    ];
    assert_eq!(
        Parser::from_events(events).blocks,
        vec![
            Block::PseudoP {
                parts: vec![text("(Unimplemented top-level item: End(Paragraph))"), text("t")],
            },
            Block::P { parts: vec![text("Unexpected tag: TableHead")] },
            Block::PseudoP { parts: vec![text("(Unimplemented top-level item: End(TableHead))")] },
            Block::Hr,
            Block::PseudoP { parts: vec![Inline::Code("c".to_string())] },
        ]
    );
}

#[test]
fn blocks_among_inline_parts_leave_notes() {
    let events = vec![
        start(MdTag::Emphasis),
        MdEvent::Text("a".to_string()),
        MdEvent::Rule,
        start(MdTag::Heading { level: 2 }),
        MdEvent::Text("h".to_string()),
        end(MdTagEnd::Heading),
        MdEvent::Text("b".to_string()),
        end(MdTagEnd::Emphasis),
    ];
    assert_eq!(
        Parser::from_events(events).blocks,
        vec![Block::PseudoP {
            parts: vec![Inline::Styled {
                style: Style::Italics,
                parts: vec![
                    text("a"),
                    text("(Unexpected Inline Block: Hr)"),
                    text("(Unexpected Inline Block: Heading { level: 2, text: \"h\" })"),
                    text("b"),
                ],
            }],
        }]
    );
}

#[test]
fn unclosed_elements_end_with_the_events() {
    let events = vec![
        start(MdTag::BlockQuote),
        start(MdTag::Paragraph),
        start(MdTag::Strong),
        MdEvent::Text("x".to_string()),
    ];
    assert_eq!(
        Parser::from_events(events).blocks,
        vec![Block::BlockQuote {
            blocks: vec![Block::P {
                parts: vec![Inline::Styled { style: Style::Bold, parts: vec![text("x")] }],
            }],
        }]
    );
    assert_eq!(Parser::from_events(vec![]), Parsed { blocks: vec![] });
}

#[test]
fn links_inside_links_leave_notes() {
    let events = vec![
        start(MdTag::Link { dest_url: "outer".to_string() }),
        start(MdTag::Link { dest_url: "inner".to_string() }),
        MdEvent::Text("t".to_string()),
        end(MdTagEnd::Link),
        end(MdTagEnd::Link),
    ];
    assert_eq!(
        Parser::from_events(events).blocks,
        vec![Block::PseudoP {
            parts: vec![Inline::Link(Link {
                href: "outer".to_string(),
                text: "Unexpected within link: Link(Link { href: \"inner\", text: \"t\" })".to_string(),
            })],
        }]
    );
}

#[test]
fn widget_holds_the_document() {
    let widget = MarkdownWidget::for_md("a\n\nb *c*\n\n- d\n");
    assert_eq!(widget.blocks(), &Parser::from_md("a\n\nb *c*\n\n- d\n").blocks);
    assert_eq!(widget.blocks().len(), 3);
    assert!(!widget.justify());
    assert!(MarkdownWidget::line_spacing(widget.blocks(), 0));
    assert!(MarkdownWidget::line_spacing(widget.blocks(), 1));
    assert!(!MarkdownWidget::line_spacing(widget.blocks(), 2));
    assert!(!MarkdownWidget::line_spacing(widget.blocks(), 3));
    let loose = Parser::from_events(vec![MdEvent::Text("t".to_string()), MdEvent::Rule]).blocks;
    assert!(!MarkdownWidget::line_spacing(&loose, 0));
}

#[test]
fn widget_hands_out_a_click_once() {
    let mut widget = MarkdownWidget::for_md("[a](b)");
    assert_eq!(widget.respond().link_clicked, None);
    widget.click("b".to_string());
    assert_eq!(widget.respond().link_clicked, Some("b".to_string()));
    assert_eq!(widget.respond().link_clicked, None);
}

#[test]
fn texts_are_quoted_as_debug_quotes_them() {
    for s in ["", "plain", "a \"b\" c", "back\\slash", "line\nfeed\r\ttab", "nul\0", "caf\u{e9} \u{65e5}\u{672c}", "it's"] {
        assert_eq!(quote_text(s), format!("{:?}", s), "{}", s);
    }
}

#[test]
fn parts_and_blocks_are_written_as_debug_writes_them() {
    let parts = vec![
        text("a \"quoted\"\n"),
        Inline::Code("c\\d".to_string()),
        Inline::Link(Link { href: "h".to_string(), text: "t".to_string() }),
        Inline::Image(Image { src: "s".to_string(), alt: "a".to_string(), title: String::new() }),
        Inline::LinkedImage {
            link: Link { href: "h".to_string(), text: String::new() },
            image: Image { src: "s".to_string(), alt: "a".to_string(), title: "t".to_string() },
        },
        Inline::Styled {
            style: Style::Bold,
            parts: vec![Inline::Styled { style: Style::Italics, parts: vec![] }, text("x")],
        },
    ];
    for part in &parts {
        assert_eq!(inline_text(part), format!("{:?}", part));
    }
    assert_eq!(inline_list_text(&parts), format!("{:?}", parts));
    assert_eq!(inline_list_text(&vec![]), "[]");
    let blocks = vec![
        Block::Heading { level: 255, text: "h".to_string() },
        Block::CodeBlock { fenced: Some("rs".to_string()), text: "c\n".to_string() },
        Block::CodeBlock { fenced: None, text: String::new() },
        Block::BlockQuote { blocks: vec![Block::Hr, Block::P { parts: vec![text("p")] }] },
        Block::P { parts: vec![] },
        Block::PseudoP { parts },
        Block::List {
            start_num: Some(7),
            blocks: vec![Block::ListItem { blocks: vec![] }, Block::List { start_num: None, blocks: vec![] }],
        },
        Block::Hr,
    ];
    for block in &blocks {
        assert_eq!(block_text(block), format!("{:?}", block));
    }
    assert_eq!(block_list_text(&blocks), format!("{:?}", blocks));
}
