//! Source code on paper: numbered lines, with keywords in bold, comments in
//! italics and strings underlined.

use crate::encoder::{encode, push_text, render_into};
use crate::fragment::{fragment_views, Fragment, FragmentView};
use crate::style::StyleFlags;
use crate::token::{
    adapt_tokens, same_text, style_through, token_fragments, token_views, tokens_text, Token,
    TokenView,
};
use vstd::prelude::*;
use vstd::string::*;

verus! {

/// A language whose source can be highlighted.
#[derive(Clone, Copy, Debug, PartialEq, Eq, Structural)]
pub enum Language {
    Rust,
    Python,
}

/// The language that a file extension stands for, if it stands for one.
pub open spec fn language_of_extension(extension: Seq<char>) -> Option<Language> {
    if extension == "rs"@ {
        Some(Language::Rust)
    } else if extension == "py"@ {
        Some(Language::Python)
    } else {
        None
    }
}

/// Picks the language for a file extension: `rs` is Rust, `py` is Python,
/// and nothing else is highlighted.
pub fn find_highlighter_for_extension(ext: &str) -> (language: Option<Language>)
    ensures
        language == language_of_extension(ext@),
{
    if same_text(ext, "rs") {
        Some(Language::Rust)
    } else if same_text(ext, "py") {
        Some(Language::Python)
    } else {
        None
    }
}

/// Picks the language for a file. Where the file's path has an extension it
/// alone decides, also where it stands for no language; only a path without
/// one falls back on the extension that was given beside it.
pub fn find_highlighter_for_path(ext: Option<String>, path_extension: Option<&str>) -> (language:
    Option<Language>)
    ensures
        language == match (path_extension, ext) {
            (Some(own), _) => language_of_extension(own@),
            (None, Some(given)) => language_of_extension(given@),
            (None, None) => None,
        },
{
    if let Some(own) = path_extension {
        return find_highlighter_for_extension(own);
    }
    if let Some(given) = ext {
        find_highlighter_for_extension(given.as_str())
    } else {
        None
    }
}

/// The character for a decimal digit.
pub open spec fn digit(value: nat) -> char {
    if value == 0 {
        '0'
    } else if value == 1 {
        '1'
    } else if value == 2 {
        '2'
    } else if value == 3 {
        '3'
    } else if value == 4 {
        '4'
    } else if value == 5 {
        '5'
    } else if value == 6 {
        '6'
    } else if value == 7 {
        '7'
    } else if value == 8 {
        '8'
    } else {
        '9'
    }
}

/// A number in decimal, without leading zeros.
pub open spec fn decimal(number: nat) -> Seq<char>
    decreases number,
{
    if number < 10 {
        seq![digit(number)]
    } else {
        decimal(number / 10).push(digit(number % 10))
    }
}

/// The width to which line numbers are filled up.
pub const LINE_NUMBER_WIDTH: usize = 5;

/// A line number as it is printed: in decimal, filled up with zeros on the
/// left to five digits, and in full where it has more.
pub open spec fn line_number(number: nat) -> Seq<char> {
    let digits = decimal(number);
    if digits.len() < LINE_NUMBER_WIDTH {
        Seq::new((LINE_NUMBER_WIDTH - digits.len()) as nat, |i: int| '0') + digits
    } else {
        digits
    }
}

/// The text of one decimal digit.
fn digit_text(value: usize) -> (text: &'static str)
    requires
        value < 10,
    ensures
        text@ == seq![digit(value as nat)],
{
    proof {
        reveal_strlit("0");
        reveal_strlit("1");
        reveal_strlit("2");
        reveal_strlit("3");
        reveal_strlit("4");
        reveal_strlit("5");
        reveal_strlit("6");
        reveal_strlit("7");
        reveal_strlit("8");
        reveal_strlit("9");
    }
    let text = match value {
        0 => "0",
        1 => "1",
        2 => "2",
        3 => "3",
        4 => "4",
        5 => "5",
        6 => "6",
        7 => "7",
        8 => "8",
        _ => "9",
    };
    assert(text@ =~= seq![digit(value as nat)]);
    text
}

/// Appends `number` in decimal to `text`.
fn push_decimal(number: usize, text: &mut String)
    ensures
        final(text)@ == old(text)@ + decimal(number as nat),
    decreases number,
{
    if number >= 10 {
        push_decimal(number / 10, text);
    }
    text.append(digit_text(number % 10));
    assert(text@ =~= old(text)@ + decimal(number as nat));
}

/// How many digits `number` has in decimal.
fn decimal_width(number: usize) -> (width: usize)
    ensures
        width == decimal(number as nat).len(),
{
    let mut width: usize = 1;
    let mut rest: usize = number;
    while rest >= 10
        invariant
            1 <= width,
            width + rest <= number + 1,
            decimal(number as nat).len() == width - 1 + decimal(rest as nat).len(),
        decreases rest,
    {
        rest = rest / 10;
        width = width + 1;
    }
    width
}

/// The text of a line number: see [`line_number`].
pub fn line_number_text(number: usize) -> (text: String)
    ensures
        text@ == line_number(number as nat),
{
    let width: usize = decimal_width(number);
    let mut text = String::new();
    let mut filled: usize = width;
    while filled < LINE_NUMBER_WIDTH
        invariant
            width <= filled,
            filled <= LINE_NUMBER_WIDTH || filled == width,
            text@ == Seq::new((filled - width) as nat, |i: int| '0'),
        decreases LINE_NUMBER_WIDTH - filled,
    {
        proof {
            reveal_strlit("0");
        }
        text.append("0");
        filled = filled + 1;
        assert(text@ =~= Seq::new((filled - width) as nat, |i: int| '0'));
    }
    push_decimal(number, &mut text);
    text
}

/// The views of the rows of tokens that a highlighter gave, row by row.
pub open spec fn row_views(rows: Seq<Vec<Token>>) -> Seq<Seq<TokenView>> {
    Seq::new(rows.len(), |i: int| token_views(rows[i]@))
}

/// The running style at the head of row `index`. It is plain at the first
/// row. It is not reset between rows: a region that one row leaves open
/// carries on into the next.
pub open spec fn style_at_row(rows: Seq<Seq<TokenView>>, index: nat) -> StyleFlags
    decreases index,
{
    if index == 0 {
        StyleFlags::plain()
    } else {
        let above = rows[index - 1];
        style_through(style_at_row(rows, (index - 1) as nat), above, above.len())
    }
}

/// The fragments of one printed line: its number, the fragments of its
/// tokens, and the line end. The number and the line end are printed in the
/// running style of the place where they stand.
pub open spec fn line_fragments(running: StyleFlags, number: nat, row: Seq<TokenView>) -> Seq<
    FragmentView,
> {
    seq![FragmentView { text: line_number(number), style: running }] + token_fragments(
        running,
        row,
    ) + seq![FragmentView { text: seq!['\n'], style: style_through(running, row, row.len()) }]
}

/// The fragments of the first `count` printed lines. Lines are numbered from one.
pub open spec fn lines_through(rows: Seq<Seq<TokenView>>, count: nat) -> Seq<FragmentView>
    decreases count,
{
    if count == 0 {
        Seq::empty()
    } else {
        lines_through(rows, (count - 1) as nat) + line_fragments(
            style_at_row(rows, (count - 1) as nat),
            count,
            rows[count - 1],
        )
    }
}

/// The fragments of a whole listing.
pub open spec fn listing_fragments(rows: Seq<Seq<TokenView>>) -> Seq<FragmentView> {
    lines_through(rows, rows.len())
}

/// Lays rows of tokens out as a numbered listing, as fragments for the encoder.
pub fn listing(rows: &Vec<Vec<Token>>) -> (fragments: Vec<Fragment>)
    ensures
        fragment_views(fragments@) == listing_fragments(row_views(rows@)),
{
    let ghost views = row_views(rows@);
    let mut fragments: Vec<Fragment> = Vec::new();
    let mut running = StyleFlags::new(false, false, false);
    let mut i: usize = 0;
    assert(fragment_views(fragments@) =~= lines_through(views, 0));
    while i < rows.len()
        invariant
            i <= rows@.len(),
            views == row_views(rows@),
            running == style_at_row(views, i as nat),
            fragment_views(fragments@) == lines_through(views, i as nat),
        decreases rows@.len() - i,
    {
        let ghost done = fragment_views(fragments@);
        let ghost at_head = running;
        let ghost row = views[i as int];
        fragments.push(Fragment::new(line_number_text(i + 1), running));
        assert(fragment_views(fragments@) =~= done + seq![
            FragmentView { text: line_number((i + 1) as nat), style: at_head },
        ]);
        adapt_tokens(&rows[i], &mut running, &mut fragments);
        let ghost with_tokens = fragment_views(fragments@);
        proof {
            reveal_strlit("\n");
        }
        let line_end = "\n".to_owned();
        assert(line_end@ =~= seq!['\n']);
        fragments.push(Fragment::new(line_end, running));
        assert(fragment_views(fragments@) =~= with_tokens + seq![
            FragmentView { text: seq!['\n'], style: running },
        ]);
        i += 1;
        assert(fragment_views(fragments@) =~= lines_through(views, i as nat));
    }
    fragments
}

/// Prints rows of tokens as a numbered listing onto the end of `out`.
pub fn print_rows(rows: &Vec<Vec<Token>>, out: &mut Vec<u8>)
    ensures
        final(out)@ == old(out)@ + encode(listing_fragments(row_views(rows@))),
{
    let fragments = listing(rows);
    render_into(&fragments, out);
}

/// The text that the first `count` rows spell: the text of each row, with a
/// line break between one row and the next.
pub open spec fn rows_text(rows: Seq<Seq<TokenView>>, count: nat) -> Seq<char>
    decreases count,
{
    if count == 0 {
        Seq::empty()
    } else if count == 1 {
        tokens_text(rows[0], rows[0].len())
    } else {
        rows_text(rows, (count - 1) as nat).push('\n') + tokens_text(
            rows[count - 1],
            rows[count - 1].len(),
        )
    }
}

/// Whether rows of tokens are a highlighting of `content`: there is at least
/// one row, and the rows spell the text, so that the region tokens are all
/// that the highlighter has added.
pub open spec fn highlights(rows: Seq<Seq<TokenView>>, content: Seq<char>) -> bool {
    rows.len() > 0 && rows_text(rows, rows.len()) == content
}

/// Whether a byte can stand in a name: an ASCII letter, a digit or `_`.
pub open spec fn is_name_byte(byte: u8) -> bool {
    ||| 0x30 <= byte <= 0x39
    ||| 0x41 <= byte <= 0x5A
    ||| 0x61 <= byte <= 0x7A
    ||| byte == 0x5F
}

/// Whether a byte can belong to white space: an ASCII blank, tab or line
/// break, or any byte of a character beyond ASCII.
pub open spec fn is_blank_byte(byte: u8) -> bool {
    ||| 0x09 <= byte <= 0x0D
    ||| byte == 0x20
    ||| byte >= 0x80
}

/// Whether the word `class` stands at `at`, with a byte behind it that can
/// belong to white space and after that a byte that cannot stand in a name.
pub open spec fn nameless_class_at(bytes: Seq<u8>, at: int) -> bool {
    &&& 0 <= at
    &&& at + 6 < bytes.len()
    &&& bytes[at] == 0x63
    &&& bytes[at + 1] == 0x6C
    &&& bytes[at + 2] == 0x61
    &&& bytes[at + 3] == 0x73
    &&& bytes[at + 4] == 0x73
    &&& is_blank_byte(bytes[at + 5])
    &&& !is_name_byte(bytes[at + 6])
}

/// Whether a text holds, anywhere, a `class` that no name follows at once.
///
/// Python source of this shape cannot be highlighted. The highlighter looks
/// for `class`, white space and a name, and takes the keyword with an empty
/// name where something else than a name follows the white space; on the
/// empty name it then makes no progress. Each such place has the shape that
/// [`nameless_class_at`] describes, which is a little wider: it also covers a
/// `class` followed by two blanks and a name.
pub open spec fn has_nameless_class(bytes: Seq<u8>) -> bool {
    exists|at: int| nameless_class_at(bytes, at)
}

/// Tests a text for [`has_nameless_class`].
pub fn find_nameless_class(content: &str) -> (found: bool)
    ensures
        found == has_nameless_class(vstd::utf8::encode_utf8(content@)),
{
    let bytes = content.as_bytes();
    let mut at: usize = 0;
    while at < bytes.len() && bytes.len() - at > 6
        invariant
            at <= bytes@.len(),
            bytes@ == vstd::utf8::encode_utf8(content@),
            forall|earlier: int| 0 <= earlier < at ==> !nameless_class_at(bytes@, earlier),
        decreases bytes@.len() - at,
    {
        if bytes[at] == 0x63 && bytes[at + 1] == 0x6C && bytes[at + 2] == 0x61 && bytes[at + 3]
            == 0x73 && bytes[at + 4] == 0x73 && blank_byte(bytes[at + 5]) && !name_byte(
            bytes[at + 6],
        ) {
            assert(nameless_class_at(bytes@, at as int));
            return true;
        }
        at += 1;
    }
    assert forall|anywhere: int| !nameless_class_at(bytes@, anywhere) by {
        if 0 <= anywhere < at {
        }
    }
    false
}

/// Tests a byte for [`is_blank_byte`].
fn blank_byte(byte: u8) -> (blank: bool)
    ensures
        blank == is_blank_byte(byte),
{
    (0x09 <= byte && byte <= 0x0D) || byte == 0x20 || byte >= 0x80
}

/// Tests a byte for [`is_name_byte`].
fn name_byte(byte: u8) -> (name: bool)
    ensures
        name == is_name_byte(byte),
{
    (0x30 <= byte && byte <= 0x39) || (0x41 <= byte && byte <= 0x5A) || (0x61 <= byte && byte
        <= 0x7A) || byte == 0x5F
}

/// Whether `content` is source that the highlighter for `language` cannot take.
pub open spec fn refuses(language: Language, content: Seq<char>) -> bool {
    language == Language::Python && has_nameless_class(vstd::utf8::encode_utf8(content))
}

/// Runs the Rust highlighter of synoptic, `languages::rust()`, on `content`
/// with `Highlighter::run`, and hands its rows of tokens over one for one.
///
/// The contract claims that there is at least one row and that the text
/// tokens, row by row and with a line break between the rows, spell the text
/// that was passed: the highlighter cuts the text up and marks regions in it,
/// and neither drops nor adds a character. Which regions it marks is not
/// claimed: the highlighter walks its rules in the order of a hash map, so
/// that where two rules match the same stretch of text the kind of the
/// region can differ from one run to the next.
#[verifier::external_body]
fn rust_rows(content: &str) -> (rows: Vec<Vec<Token>>)
    ensures
        highlights(row_views(rows@), content@),
{
    let mut rows = Vec::new();
    for row in synoptic::languages::rust().run(content) {
        let mut tokens = Vec::new();
        for token in row {
            tokens.push(
                match token {
                    synoptic::Token::Text(text) => Token::Text(text),
                    synoptic::Token::Start(kind) => Token::StartRegion(kind),
                    synoptic::Token::End(kind) => Token::EndRegion(kind),
                },
            );
        }
        rows.push(tokens);
    }
    rows
}

/// Runs the Python highlighter of synoptic, `languages::python()`, on
/// `content` with `Highlighter::run`, and hands its rows of tokens over one
/// for one.
///
/// The highlighter does not return on a `class` that no name follows, so such
/// a text must not be passed. Of the tokens the contract claims what it claims
/// at [`rust_rows`], and no more, for the reason given there.
#[verifier::external_body]
fn python_rows(content: &str) -> (rows: Vec<Vec<Token>>)
    requires
        !has_nameless_class(vstd::utf8::encode_utf8(content@)),
    ensures
        highlights(row_views(rows@), content@),
{
    let mut rows = Vec::new();
    for row in synoptic::languages::python().run(content) {
        let mut tokens = Vec::new();
        for token in row {
            tokens.push(
                match token {
                    synoptic::Token::Text(text) => Token::Text(text),
                    synoptic::Token::Start(kind) => Token::StartRegion(kind),
                    synoptic::Token::End(kind) => Token::EndRegion(kind),
                },
            );
        }
        rows.push(tokens);
    }
    rows
}

/// Highlights `content` as source in `language`: one row of tokens per line.
///
/// The result is `None` exactly where the highlighter cannot take the text
/// (see [`refuses`]); it is then not run. Else the rows spell the text (see
/// [`highlights`]); which regions are marked in it is the highlighter's affair.
pub fn highlight(language: Language, content: &str) -> (rows: Option<Vec<Vec<Token>>>)
    ensures
        rows is None <==> refuses(language, content@),
        rows matches Some(found) ==> highlights(row_views(found@), content@),
{
    match language {
        Language::Rust => Some(rust_rows(content)),
        Language::Python => {
            if find_nameless_class(content) {
                None
            } else {
                Some(python_rows(content))
            }
        },
    }
}

/// Why a text was not printed.
#[derive(Clone, Copy, Debug, PartialEq, Eq, Structural)]
pub enum PrintError {
    /// The text is Python with a `class` that no name follows, which the
    /// highlighter cannot take.
    NamelessClass,
}

/// Prints `content` onto the end of `out`.
///
/// Without a language the text goes out as it is. With one it is
/// highlighted and goes out as a numbered listing; which regions the
/// highlighter marks is its own affair, so of that case the contract says
/// that the output is the listing of some rows of tokens that spell the text.
/// A text that the highlighter cannot take is refused, and nothing is written.
pub fn print_string(language: Option<Language>, content: &str, out: &mut Vec<u8>) -> (result:
    Result<(), PrintError>)
    ensures
        language is None ==> result is Ok && final(out)@ == old(out)@ + vstd::utf8::encode_utf8(
            content@,
        ),
        language matches Some(chosen) && refuses(chosen, content@) ==> result == Err::<
            (),
            PrintError,
        >(PrintError::NamelessClass) && final(out)@ == old(out)@,
        language matches Some(chosen) && !refuses(chosen, content@) ==> result is Ok && exists|
            rows: Seq<Seq<TokenView>>,
        |
            highlights(rows, content@) && final(out)@ == old(out)@ + encode(
                listing_fragments(rows),
            ),
{
    match language {
        None => {
            push_text(content, out);
            Ok(())
        },
        Some(chosen) => {
            match highlight(chosen, content) {
                None => Err(PrintError::NamelessClass),
                Some(rows) => {
                    print_rows(&rows, out);
                    assert(highlights(row_views(rows@), content@) && out@ == old(out)@ + encode(
                        listing_fragments(row_views(rows@)),
                    ));
                    Ok(())
                },
            }
        },
    }
}

} // verus!
