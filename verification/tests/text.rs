use egemi::gemtext::Block;
use egemi::gemtext_widget::{GemtextWidget, Style, TextStyle};
use egemi::text::{
    chars_of, decimal_chars, escape_spaces, is_whitespace, last_segment_of, parse_u64, scan_char,
    scan_non_spaces, scan_spaces, scan_spaces_back, slice_of, split_lines, starts_with, string_of,
    trim,
};
use egemi::util::DisplayJoin;

fn chars(s: &str) -> Vec<char> {
    s.chars().collect()
}

#[test]
fn characters_round_trip() {
    for s in ["", "a", "héllo wörld", "日本語\n\u{a0}"] {
        assert_eq!(chars_of(s), chars(s));
        assert_eq!(string_of(&chars(s)), s);
    }
    assert_eq!(slice_of(&chars("abcdef"), 2, 4), chars("cd"));
    assert_eq!(slice_of(&chars("abc"), 3, 3), chars(""));
}

#[test]
fn white_space_is_what_std_says() {
    for n in 0..=0x3100u32 {
        if let Some(c) = char::from_u32(n) {
            assert_eq!(is_whitespace(c), c.is_whitespace(), "U+{:04X}", n);
        }
    }
    assert!(!is_whitespace('\u{feff}'));
    assert!(!is_whitespace('\u{10ffff}'));
}

#[test]
fn trimming() {
    assert_eq!(trim(&chars("  a b \t\n")), chars("a b"));
    assert_eq!(trim(&chars("\u{a0}x\u{3000}")), chars("x"));
    assert_eq!(trim(&chars(" \t ")), chars(""));
    assert_eq!(trim(&chars("")), chars(""));
    assert_eq!(trim(&chars("x")), chars("x"));
    for s in ["  a b \t\n", " ", "", "a", "\r\n x y \u{2003}"] {
        assert_eq!(string_of(&trim(&chars(s))), s.trim());
    }
}

#[test]
fn scanning() {
    let v = chars("##  ab  ");
    assert_eq!(scan_char(&v, 0, '#'), 2);
    assert_eq!(scan_char(&v, 2, '#'), 2);
    assert_eq!(scan_spaces(&v, 2), 4);
    assert_eq!(scan_non_spaces(&v, 4), 6);
    assert_eq!(scan_spaces_back(&v, 8), 6);
    assert_eq!(scan_spaces_back(&v, 6), 6);
    assert_eq!(scan_spaces(&v, 8), 8);
    assert!(starts_with(&v, &chars("##")));
    assert!(starts_with(&v, &chars("")));
    assert!(!starts_with(&v, &chars("#a")));
    assert!(!starts_with(&chars("#"), &chars("##")));
}

#[test]
fn lines_are_what_std_says() {
    for s in ["", "\n", "a", "a\n", "a\nb", "a\r\nb\r\n", "a\rb", "a\r", "\r\n\r\n", "\n\n\na", "x\r\r\ny"] {
        let lines: Vec<String> = split_lines(&chars(s)).iter().map(|l| string_of(l)).collect();
        let expected: Vec<String> = s.lines().map(|l| l.to_string()).collect();
        assert_eq!(lines, expected, "{:?}", s);
    }
}

#[test]
fn decimals() {
    assert_eq!(string_of(&decimal_chars(0)), "0");
    assert_eq!(string_of(&decimal_chars(7)), "7");
    assert_eq!(string_of(&decimal_chars(10)), "10");
    assert_eq!(string_of(&decimal_chars(404)), "404");
    assert_eq!(string_of(&decimal_chars(u64::MAX)), "18446744073709551615");
}

#[test]
fn numbers_are_read_as_std_reads_them() {
    for s in ["0", "7", "+7", "007", "18446744073709551615", "18446744073709551616", "99999999999999999999999", "", "+", "-1", "1 ", " 1", "1_000", "12a", "++1", "٣"] {
        assert_eq!(parse_u64(s), s.parse::<u64>().ok(), "{:?}", s);
    }
    assert_eq!(parse_u64("104857600"), Some(104857600));
}

#[test]
fn spaces_are_escaped() {
    assert_eq!(escape_spaces("a b  c"), "a%20b%20%20c");
    assert_eq!(escape_spaces(""), "");
    assert_eq!(escape_spaces("a\u{a0}b\tc"), "a\u{a0}b\tc");
    assert_eq!(escape_spaces(" "), "%20");
}

#[test]
fn last_segments() {
    assert_eq!(last_segment_of(&chars("/a/b/c")), chars("c"));
    assert_eq!(last_segment_of(&chars("/a/b/")), chars(""));
    assert_eq!(last_segment_of(&chars("/")), chars(""));
    assert_eq!(last_segment_of(&chars("plain")), chars("plain"));
    assert_eq!(last_segment_of(&chars("")), chars(""));
}

#[test]
fn joining() {
    let parts: Vec<String> = vec!["a".to_string(), "b".to_string(), "c".to_string()];
    assert_eq!(parts.join(", "), "a, b, c");
    assert_eq!(DisplayJoin::join(&parts, ""), "abc");
    assert_eq!(DisplayJoin::join(&vec!["only".to_string()], ","), "only");
    assert_eq!(DisplayJoin::join(&Vec::<String>::new(), ","), "");
    assert_eq!(DisplayJoin::join(&vec![String::new(), String::new()], "-"), "-");
}

#[test]
fn gemtext_widget_holds_blocks() {
    let mut widget = GemtextWidget::default();
    assert!(widget.blocks().is_empty());
    assert!(!widget.justify());
    assert!(!widget.is_title(0));
    widget.set_blocks(vec![
        Block::Heading { level: 1, text: "t".to_string() },
        Block::Heading { level: 1, text: "u".to_string() },
    ]);
    assert_eq!(widget.blocks().len(), 2);
    assert!(widget.is_title(0));
    assert!(!widget.is_title(1));
    widget.set_blocks(vec![Block::Heading { level: 2, text: "t".to_string() }]);
    assert!(!widget.is_title(0));
    widget.set_blocks(vec![Block::Text("t".to_string())]);
    assert!(!widget.is_title(0));
}

#[test]
fn gemtext_widget_hands_out_a_click_once() {
    let mut widget = GemtextWidget::default();
    assert_eq!(widget.respond().link_clicked, None);
    widget.click("gemini://x.example/".to_string());
    assert_eq!(widget.respond().link_clicked, Some("gemini://x.example/".to_string()));
    assert_eq!(widget.respond().link_clicked, None);
}

#[test]
fn heading_styles() {
    assert_eq!(Style::heading(0), TextStyle::H1);
    assert_eq!(Style::heading(1), TextStyle::H1);
    assert_eq!(Style::heading(2), TextStyle::H2);
    assert_eq!(Style::heading(3), TextStyle::H3);
    assert_eq!(Style::heading(255), TextStyle::H3);
    assert_eq!(Style::h1().named(), "H1");
    assert_eq!(Style::h2().named(), "H2");
    assert_eq!(Style::h3().named(), "H3");
    assert_eq!(Style::mono().named(), "gemtext-mono");
    assert_eq!(Style::title().named(), "Title");
}
