//! The codec held against the same rewriting written down as patterns.

use regex::{Captures, Regex};
use rodash::{escape, unescape};

fn escape_by_pattern(pattern: &Regex, text: &str) -> String {
    pattern
        .replace_all(text, |found: &Captures| {
            match &found[0] {
                "&" => "&amp;",
                "<" => "&lt;",
                ">" => "&gt;",
                "\"" => "&quot;",
                _ => "&#39;",
            }
            .to_owned()
        })
        .to_string()
}

fn unescape_by_pattern(pattern: &Regex, text: &str) -> String {
    pattern
        .replace_all(text, |found: &Captures| {
            match &found[0] {
                "&amp;" => "&",
                "&lt;" => "<",
                "&gt;" => ">",
                "&quot;" => "\"",
                _ => "'",
            }
            .to_owned()
        })
        .to_string()
}

fn texts_of(pieces: &[&str], longest: usize) -> Vec<String> {
    let mut texts = vec![String::new()];
    let mut from = 0;
    for _ in 0..longest {
        let until = texts.len();
        for at in from..until {
            for piece in pieces {
                let mut text = texts[at].clone();
                text.push_str(piece);
                texts.push(text);
            }
        }
        from = until;
    }
    texts
}

#[test]
fn escape_agrees_with_the_pattern_of_special_characters() {
    let pattern = Regex::new(r#"[&<>"']"#).unwrap();
    let pieces = ["&", "<", ">", "\"", "'", "/", "a", ";", "#", "\u{e9}", "\u{1f600}"];
    for text in texts_of(&pieces, 4) {
        assert_eq!(escape(&text), escape_by_pattern(&pattern, &text));
    }
}

#[test]
fn unescape_agrees_with_the_pattern_of_entities_on_characters() {
    let pattern = Regex::new(r#"&(?:amp|lt|gt|quot|#(0+)?39);"#).unwrap();
    let pieces = ["&", "#", "0", "3", "9", ";", "a"];
    for text in texts_of(&pieces, 6) {
        assert_eq!(unescape(&text), unescape_by_pattern(&pattern, &text));
    }
}

#[test]
fn unescape_agrees_with_the_pattern_of_entities_on_fragments() {
    let pattern = Regex::new(r#"&(?:amp|lt|gt|quot|#(0+)?39);"#).unwrap();
    let pieces = [
        "&amp;", "&lt;", "&gt;", "&quot;", "&#39;", "&#039;", "&#0", "&", "amp;", "lt", "39;",
        "0", ";", "#", "quot;", "\u{e9}",
    ];
    for text in texts_of(&pieces, 4) {
        assert_eq!(unescape(&text), unescape_by_pattern(&pattern, &text));
    }
}

#[test]
fn unescape_undoes_escape_on_every_short_text() {
    let pieces = ["&", "<", ">", "\"", "'", "#", "3", "9", ";", "a", "m", "p"];
    for text in texts_of(&pieces, 4) {
        assert_eq!(unescape(&escape(&text)), text);
    }
}
