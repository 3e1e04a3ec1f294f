use escp::fragment::Fragment;
use escp::style::{Attribute, StyleFlags};
use escp::token::{adapt_tokens, kind_attribute, render_tokens, same_text, Token};

fn start(kind: &str) -> Token {
    Token::StartRegion(kind.to_string())
}

fn end(kind: &str) -> Token {
    Token::EndRegion(kind.to_string())
}

fn text(text: &str) -> Token {
    Token::Text(text.to_string())
}

#[test]
fn keyword_region_is_bold() {
    let tokens = vec![start("keyword"), text("fn"), end("keyword"), text(" main")];
    assert_eq!(render_tokens(&tokens), b"\x1bEfn\x1bF main".to_vec());
}

#[test]
fn unknown_region_kind_changes_nothing() {
    let tokens = vec![start("punctuation"), text("()")];
    assert_eq!(render_tokens(&tokens), b"()".to_vec());
}

#[test]
fn end_of_unknown_region_changes_nothing() {
    let tokens = vec![start("comment"), end("punctuation"), text("a"), end("comment"), text("b")];
    assert_eq!(render_tokens(&tokens), b"\x1b4a\x1b5b".to_vec());
}

#[test]
fn kinds_and_their_attributes() {
    assert_eq!(kind_attribute("keyword"), Some(Attribute::Bold));
    assert_eq!(kind_attribute("comment"), Some(Attribute::Italic));
    assert_eq!(kind_attribute("string"), Some(Attribute::Underline));
    assert_eq!(kind_attribute("number"), None);
    assert_eq!(kind_attribute(""), None);
    assert_eq!(kind_attribute("Keyword"), None);
    assert_eq!(kind_attribute("keywords"), None);
}

#[test]
fn same_text_compares_characters() {
    assert!(same_text("", ""));
    assert!(same_text("é", "é"));
    assert!(!same_text("a", "b"));
    assert!(!same_text("a", "ab"));
    assert!(!same_text("ab", "a"));
}

#[test]
fn comment_and_string_regions() {
    let tokens = vec![
        start("string"),
        text("\"s\""),
        end("string"),
        text(" "),
        start("comment"),
        text("# c"),
        end("comment"),
    ];
    assert_eq!(render_tokens(&tokens), b"\x1b-1\"s\"\x1b-0 \x1b4# c\x1b5".to_vec());
}

#[test]
fn region_tokens_alone_give_no_fragment_and_no_output() {
    let tokens = vec![start("keyword"), end("keyword"), start("string")];
    assert_eq!(render_tokens(&tokens), Vec::<u8>::new());
    assert_eq!(render_tokens(&Vec::new()), Vec::<u8>::new());
}

#[test]
fn running_style_carries_over_to_the_next_call() {
    let mut running = StyleFlags::default();
    let mut fragments: Vec<Fragment> = Vec::new();
    adapt_tokens(&vec![text("a"), start("comment"), text("b")], &mut running, &mut fragments);
    assert_eq!(running, StyleFlags::new(false, true, false));
    adapt_tokens(&vec![text("c"), end("comment"), text("d")], &mut running, &mut fragments);
    assert_eq!(running, StyleFlags::default());
    let got: Vec<(String, StyleFlags)> =
        fragments.into_iter().map(|fragment| (fragment.text, fragment.style)).collect();
    let italic = StyleFlags::new(false, true, false);
    assert_eq!(
        got,
        vec![
            ("a".to_string(), StyleFlags::default()),
            ("b".to_string(), italic),
            ("c".to_string(), italic),
            ("d".to_string(), StyleFlags::default()),
        ]
    );
}

#[test]
fn nested_regions_keep_both_attributes() {
    let tokens = vec![
        start("keyword"),
        text("a"),
        start("string"),
        text("b"),
        end("keyword"),
        text("c"),
        end("string"),
        text("d"),
    ];
    assert_eq!(render_tokens(&tokens), b"\x1bEa\x1b-1b\x1bFc\x1b-0d".to_vec());
}

#[test]
fn empty_text_token_still_brings_its_style() {
    let tokens = vec![start("keyword"), text(""), end("keyword"), text("x")];
    assert_eq!(render_tokens(&tokens), b"\x1bE\x1bFx".to_vec());
}
