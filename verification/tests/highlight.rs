use escp::highlight::{
    find_highlighter_for_extension, find_highlighter_for_path, find_nameless_class, highlight,
    line_number_text, listing, print_rows, print_string, Language, PrintError,
};
use escp::style::StyleFlags;
use escp::token::Token;

fn start(kind: &str) -> Token {
    Token::StartRegion(kind.to_string())
}

fn end(kind: &str) -> Token {
    Token::EndRegion(kind.to_string())
}

fn text(text: &str) -> Token {
    Token::Text(text.to_string())
}

fn contains(haystack: &[u8], needle: &[u8]) -> bool {
    haystack.windows(needle.len()).any(|window| window == needle)
}

#[test]
fn extensions_and_languages() {
    assert_eq!(find_highlighter_for_extension("rs"), Some(Language::Rust));
    assert_eq!(find_highlighter_for_extension("py"), Some(Language::Python));
    assert_eq!(find_highlighter_for_extension("c"), None);
    assert_eq!(find_highlighter_for_extension(""), None);
    assert_eq!(find_highlighter_for_extension("RS"), None);
    assert_eq!(find_highlighter_for_extension("rs "), None);
}

#[test]
fn extension_of_the_path_comes_first() {
    assert_eq!(find_highlighter_for_path(None, Some("rs")), Some(Language::Rust));
    assert_eq!(
        find_highlighter_for_path(Some("py".to_string()), Some("rs")),
        Some(Language::Rust)
    );
    assert_eq!(find_highlighter_for_path(Some("py".to_string()), Some("txt")), None);
    assert_eq!(find_highlighter_for_path(Some("py".to_string()), None), Some(Language::Python));
    assert_eq!(find_highlighter_for_path(Some("txt".to_string()), None), None);
    assert_eq!(find_highlighter_for_path(None, None), None);
}

#[test]
fn line_numbers_have_five_digits_or_more() {
    assert_eq!(line_number_text(0), "00000");
    assert_eq!(line_number_text(1), "00001");
    assert_eq!(line_number_text(42), "00042");
    assert_eq!(line_number_text(99999), "99999");
    assert_eq!(line_number_text(100000), "100000");
    assert_eq!(line_number_text(1234567), "1234567");
    assert_eq!(line_number_text(usize::MAX), usize::MAX.to_string());
}

#[test]
fn listing_numbers_each_row_and_ends_it() {
    let rows = vec![
        vec![start("keyword"), text("fn"), end("keyword"), text(" main")],
        vec![],
        vec![text("}")],
    ];
    let mut out = Vec::new();
    print_rows(&rows, &mut out);
    assert_eq!(out, b"00001\x1bEfn\x1bF main\n00002\n00003}\n".to_vec());
}

#[test]
fn open_region_carries_over_the_line_end() {
    let rows = vec![
        vec![text("a "), start("comment"), text("/* one")],
        vec![text("two */"), end("comment"), text(" b")],
    ];
    let mut out = Vec::new();
    print_rows(&rows, &mut out);
    assert_eq!(out, b"00001a \x1b4/* one\n00002two */\x1b5 b\n".to_vec());
}

#[test]
fn listing_fragments_carry_the_running_style() {
    let rows = vec![vec![start("string"), text("s")], vec![end("string")]];
    let got: Vec<(String, StyleFlags)> =
        listing(&rows).into_iter().map(|fragment| (fragment.text, fragment.style)).collect();
    let plain = StyleFlags::new(false, false, false);
    let underlined = StyleFlags::new(false, false, true);
    assert_eq!(
        got,
        vec![
            ("00001".to_string(), plain),
            ("s".to_string(), underlined),
            ("\n".to_string(), underlined),
            ("00002".to_string(), underlined),
            ("\n".to_string(), plain),
        ]
    );
}

#[test]
fn no_rows_no_output() {
    let mut out = b"kept".to_vec();
    print_rows(&Vec::new(), &mut out);
    assert_eq!(out, b"kept".to_vec());
}

#[test]
fn text_without_language_goes_out_as_it_is() {
    let mut out = b">".to_vec();
    assert_eq!(print_string(None, "fn main() {}\n\x1bE é", &mut out), Ok(()));
    assert_eq!(out, ">fn main() {}\n\x1bE é".as_bytes().to_vec());
}

#[test]
fn rust_source_is_highlighted() {
    let mut out = Vec::new();
    let source = "fn main() {\n    // note\n    let s = \"text\";\n}";
    assert_eq!(print_string(Some(Language::Rust), source, &mut out), Ok(()));
    assert!(out.starts_with(b"00001\x1bEfn\x1bF "));
    assert!(contains(&out, b"\n00002    \x1b4// note\x1b5\n00003    \x1bElet\x1bF s "));
    assert!(contains(&out, b"\x1b-1\"text\"\x1b-0;\n00004}\n"));
    assert!(out.ends_with(b"\n"));
}

#[test]
fn python_source_is_highlighted() {
    let mut out = Vec::new();
    let source = "class Foo:\n    def f(self): # c\n        return \"x\"";
    assert_eq!(print_string(Some(Language::Python), source, &mut out), Ok(()));
    assert!(out.starts_with(b"00001\x1bEclass\x1bF Foo:\n00002    \x1bEdef\x1bF "));
    assert!(contains(&out, b"\x1b4# c\x1b5\n00003        \x1bEreturn\x1bF \x1b-1\"x\"\x1b-0\n"));
}

#[test]
fn highlighter_gives_one_row_per_line() {
    let rows = highlight(Language::Rust, "a\nb\nc").unwrap();
    assert_eq!(rows.len(), 3);
    assert_eq!(highlight(Language::Rust, "").unwrap().len(), 1);
    assert_eq!(highlight(Language::Python, "x = 1\n").unwrap().len(), 2);
}

#[test]
fn python_class_without_name_is_refused() {
    for source in ["class (", "x\nclass :\n", "class\t\t", "class  Foo", "class\u{a0}Foo"] {
        assert!(find_nameless_class(source), "{:?}", source);
        assert!(highlight(Language::Python, source).is_none(), "{:?}", source);
        let mut out = b"kept".to_vec();
        assert_eq!(
            print_string(Some(Language::Python), source, &mut out),
            Err(PrintError::NamelessClass)
        );
        assert_eq!(out, b"kept".to_vec());
    }
}

#[test]
fn python_class_with_name_is_taken() {
    for source in ["class Foo", "class\tFoo:", "class _x", "class 9", "class", "class ", "class\n", "classes (", "a class, b", "class(", "subclass."] {
        assert!(!find_nameless_class(source), "{:?}", source);
        assert!(highlight(Language::Python, source).is_some(), "{:?}", source);
    }
}

#[test]
fn rust_takes_what_python_refuses() {
    assert!(highlight(Language::Rust, "class (").is_some());
    let mut out = Vec::new();
    assert_eq!(print_string(Some(Language::Rust), "class (", &mut out), Ok(()));
    assert!(out.starts_with(b"00001class "));
    assert_eq!(print_string(None, "class (", &mut out), Ok(()));
}

fn spelled(rows: &[Vec<Token>]) -> String {
    let lines: Vec<String> = rows
        .iter()
        .map(|row| {
            row.iter()
                .map(|token| match token {
                    Token::Text(text) => text.as_str(),
                    _ => "",
                })
                .collect()
        })
        .collect();
    lines.join("\n")
}

fn pairs_of(pieces: &[&str]) -> Vec<String> {
    let mut texts = Vec::new();
    for first in pieces {
        for second in pieces {
            texts.push(format!("{}{}", first, second));
            texts.push(format!("{}x{}\n", second, first));
        }
    }
    texts
}

#[test]
fn rust_rows_spell_the_source() {
    let source = "/* block\n comment */\nfn main() {\n    let s = \"a \\\" b\";\n    // é\n}\n";
    assert_eq!(spelled(&highlight(Language::Rust, source).unwrap()), source);
    for text in pairs_of(&["\"", "\\", "/*", "*/", "\n", "é", "'", "class ", "fn ", "// ", "#[a]"]) {
        assert_eq!(spelled(&highlight(Language::Rust, &text).unwrap()), text);
    }
}

#[test]
fn python_rows_spell_the_source() {
    let source = "class Foo:\n    \"\"\"doc\n    string\"\"\"\n    def f(self): # é\n        return \"a \\\" b\"\n";
    assert_eq!(spelled(&highlight(Language::Python, source).unwrap()), source);
    for text in pairs_of(&["\"", "\\", "\"\"\"", "#", "\n", "é", "'", "class ", "def ", "@", " / "]) {
        match highlight(Language::Python, &text) {
            Some(rows) => assert_eq!(spelled(&rows), text),
            None => assert!(find_nameless_class(&text)),
        }
    }
}

#[test]
fn highlighters_return_on_odd_source() {
    for text in pairs_of(&["\"", "\\", "/*", "*/", "\n", "é", "'", "class", " "]) {
        let rows = highlight(Language::Rust, &text).unwrap();
        assert_eq!(spelled(&rows), text);
        let refused = find_nameless_class(&text);
        match highlight(Language::Python, &text) {
            Some(rows) => {
                assert!(!refused);
                assert_eq!(spelled(&rows), text);
            }
            None => assert!(refused),
        }
    }
}
