use escp::ansi::{ansi_fragments, has_only_plain_sequences, print_ansi, AnsiError};
use escp::style::StyleFlags;

fn printed(text: &str) -> Result<Vec<u8>, AnsiError> {
    let mut out = Vec::new();
    print_ansi(text, &mut out).map(|_| out)
}

#[test]
fn bold_ansi_text_becomes_bold_print() {
    assert_eq!(printed("\x1b[1mfoo\x1b[0m bar"), Ok(b"\x1bEfoo\x1bF bar".to_vec()));
}

#[test]
fn ansi_italic_and_underline() {
    assert_eq!(
        printed("\x1b[3ma\x1b[4mb\x1b[23mc\x1b[24md"),
        Ok(b"\x1b4a\x1b-1b\x1b5c\x1b-0d".to_vec())
    );
}

#[test]
fn ansi_colours_are_not_printed() {
    assert_eq!(printed("\x1b[31mred\x1b[39m plain"), Ok(b"red plain".to_vec()));
    assert_eq!(printed("\x1b[38;5;196;1mx"), Ok(b"\x1bEx\x1bF".to_vec()));
}

#[test]
fn ansi_style_left_open_is_closed_at_the_end() {
    assert_eq!(printed("\x1b[1;3;4mall"), Ok(b"\x1bE\x1b4\x1b-1all\x1bF\x1b5\x1b-0".to_vec()));
}

#[test]
fn text_without_escapes_is_one_plain_block() {
    assert_eq!(printed("plain é text\n"), Ok("plain é text\n".as_bytes().to_vec()));
    assert_eq!(printed(""), Ok(Vec::new()));
}

#[test]
fn blocks_are_fragments() {
    let fragments = ansi_fragments("a\x1b[1mb\x1b[22;4mc").unwrap();
    let got: Vec<(String, StyleFlags)> =
        fragments.into_iter().map(|fragment| (fragment.text, fragment.style)).collect();
    assert_eq!(
        got,
        vec![
            ("a".to_string(), StyleFlags::new(false, false, false)),
            ("b".to_string(), StyleFlags::new(true, false, false)),
            ("c".to_string(), StyleFlags::new(false, false, true)),
        ]
    );
}

#[test]
fn foreign_escapes_are_refused() {
    for text in ["\x1b", "a\x1b", "\x1b]0;title\x07", "\x1b]\x1b", "\x1b(B", "\x1b[1", "\x1b[", "\x1b[?25h", "\x1b[1 q", "\x1b\x1b[1m"] {
        assert!(!has_only_plain_sequences(text), "{:?}", text);
        let mut out = b"kept".to_vec();
        assert_eq!(print_ansi(text, &mut out), Err(AnsiError::ForeignEscape), "{:?}", text);
        assert_eq!(out, b"kept".to_vec());
        assert!(ansi_fragments(text).is_err());
    }
}

#[test]
fn plain_sequences_are_accepted() {
    for text in ["", "abc", "\x1b[m", "\x1b[0m", "\x1b[1;31mx\x1b[0m", "\x1b[K", "\x1b[2J\x1b[10;20H", "é\x1b[40mü", "[1m", "\u{9b}1m"] {
        assert!(has_only_plain_sequences(text), "{:?}", text);
        assert!(printed(text).is_ok(), "{:?}", text);
    }
}

#[test]
fn parameter_bytes_are_limited_to_thirty() {
    let at_limit = format!("\x1b[{}mx", "1".repeat(30));
    let beyond = format!("\x1b[{}mx", "1".repeat(31));
    assert!(has_only_plain_sequences(&at_limit));
    assert!(!has_only_plain_sequences(&beyond));
    let separators = format!("\x1b[{}1mx", ";".repeat(29));
    assert_eq!(printed(&separators), Ok(b"\x1bEx\x1bF".to_vec()));
}

#[test]
fn accepted_texts_never_upset_the_parser() {
    let pieces = ["\x1b[", "1", ";", "m", "é", "\u{9b}", "a", "K", "\x07", "\u{80}", "\x7f", "\n", "\u{1F600}", "\x18", "\x1b[1;3;4m"];
    let mut texts = vec![String::new()];
    let mut last = vec![String::new()];
    for _ in 0..4 {
        let mut next = Vec::new();
        for prefix in &last {
            for piece in pieces {
                next.push(format!("{}{}", prefix, piece));
            }
        }
        texts.extend(next.iter().cloned());
        last = next;
    }
    let mut accepted = 0;
    for text in &texts {
        if printed(text).is_ok() {
            accepted += 1;
        }
    }
    assert!(accepted > 10000);
}
