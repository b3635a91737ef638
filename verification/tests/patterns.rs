use egemi::browser::html::html_to_plaintext;
use egemi::gemtext::{parse_code_line, parse_heading, parse_link, parse_list_item};
use regex::Regex;

const ALPHABET: [char; 12] =
    ['#', ' ', '\t', '=', '>', '*', 'a', 'b', '\u{a0}', '`', '\r', '\u{3000}'];

/// Every text over the alphabet of up to `max` characters.
fn short_texts(max: usize) -> Vec<String> {
    let mut all = vec![String::new()];
    let mut last = vec![String::new()];
    for _ in 0..max {
        let mut next = Vec::with_capacity(last.len() * ALPHABET.len());
        for text in &last {
            for c in ALPHABET {
                let mut longer = text.clone();
                longer.push(c);
                next.push(longer);
            }
        }
        all.extend(next.iter().cloned());
        last = next;
    }
    all
}

/// Texts of up to 24 characters over the alphabet, from a fixed sequence.
fn long_texts(count: usize) -> Vec<String> {
    let mut state: u64 = 0x2545f4914f6cdd1d;
    let mut step = move || {
        state ^= state << 13;
        state ^= state >> 7;
        state ^= state << 17;
        state
    };
    (0..count)
        .map(|_| {
            let len = (step() % 25) as usize;
            (0..len).map(|_| ALPHABET[(step() % ALPHABET.len() as u64) as usize]).collect()
        })
        .collect()
}

fn texts() -> Vec<String> {
    let mut all = short_texts(4);
    all.extend(long_texts(20000));
    all
}

fn chars(s: &str) -> Vec<char> {
    s.chars().collect()
}

#[test]
fn headings_match_the_pattern() {
    let re = Regex::new("^(?P<hashes>#+)([ ]+)(?P<heading>.*)$").unwrap();
    for text in texts() {
        let expected = re
            .captures(&text)
            .map(|caps| (caps["hashes"].len() as u8, caps["heading"].to_string()));
        assert_eq!(parse_heading(&chars(&text)), expected, "{:?}", text);
    }
}

#[test]
fn links_match_the_pattern() {
    let re = Regex::new(r#"^=>\s+(?P<url>\S+)(\s+(?P<text>\S.*?))?\s*$"#).unwrap();
    for text in texts() {
        let expected = re.captures(&text).map(|caps| {
            (
                caps["url"].to_string(),
                caps.name("text").map(|it| it.as_str()).unwrap_or("").to_string(),
            )
        });
        assert_eq!(parse_link(&chars(&text)), expected, "{:?}", text);
    }
}

#[test]
fn links_match_the_pattern_after_the_marker() {
    let re = Regex::new(r#"^=>\s+(?P<url>\S+)(\s+(?P<text>\S.*?))?\s*$"#).unwrap();
    for rest in short_texts(4).into_iter().chain(long_texts(5000)) {
        let text = format!("=> {}", rest);
        let expected = re.captures(&text).map(|caps| {
            (
                caps["url"].to_string(),
                caps.name("text").map(|it| it.as_str()).unwrap_or("").to_string(),
            )
        });
        assert_eq!(parse_link(&chars(&text)), expected, "{:?}", text);
    }
}

#[test]
fn list_items_match_the_pattern() {
    let re = Regex::new(r#"^\s?\*\s(?P<text>.+?)\s*$"#).unwrap();
    for text in texts() {
        let expected = re.captures(&text).map(|caps| caps["text"].to_string());
        assert_eq!(parse_list_item(&chars(&text)), expected, "{:?}", text);
    }
}

#[test]
fn list_items_match_the_pattern_after_the_marker() {
    let re = Regex::new(r#"^\s?\*\s(?P<text>.+?)\s*$"#).unwrap();
    for rest in short_texts(4).into_iter().chain(long_texts(5000)) {
        for marker in ["* ", " * ", "\t*\u{a0}"] {
            let text = format!("{}{}", marker, rest);
            let expected = re.captures(&text).map(|caps| caps["text"].to_string());
            assert_eq!(parse_list_item(&chars(&text)), expected, "{:?}", text);
        }
    }
}

#[test]
fn code_lines_replace_leading_spaces_only() {
    for text in texts() {
        let spaces = text.chars().take_while(|c| *c == ' ').count().min(5);
        let expected: String =
            "\u{a0}".repeat(spaces) + &text.chars().skip(spaces).collect::<String>();
        assert_eq!(parse_code_line(&chars(&text)), expected, "{:?}", text);
    }
}

#[test]
fn plain_text_matches_the_replacements() {
    let white = Regex::new(r#"\s+"#).unwrap();
    let entities = ["&amp;", "&nbsp;", "&lt;", "&gt;", "&", ";", "a", " ", "\n", "\u{a0}"];
    let mut state: u64 = 0x9e3779b97f4a7c15;
    for _ in 0..20000 {
        let mut text = String::new();
        state ^= state << 13;
        state ^= state >> 7;
        state ^= state << 17;
        let mut bits = state;
        for _ in 0..(bits % 9) {
            bits /= 9;
            text.push_str(entities[(bits % entities.len() as u64) as usize]);
            bits /= entities.len() as u64;
        }
        let expected = white
            .replace_all(text.trim(), " ")
            .into_owned()
            .replace("&amp;", "&")
            .replace("&nbsp;", " ")
            .replace("&lt;", "<")
            .replace("&gt;", ">");
        assert_eq!(html_to_plaintext(&text), expected, "{:?}", text);
    }
}
