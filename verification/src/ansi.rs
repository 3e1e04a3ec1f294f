//! Text styled with ANSI escape sequences, as terminals take it.
//!
//! The text is cut into blocks of one style each by an ANSI parser, and the
//! blocks go through the encoder as fragments. The parser is only given text
//! whose escape sequences are all of the plain kind that sets a style or
//! moves the cursor: on other sequences it can lose count of where it is.

use crate::encoder::{encode, render_into};
use crate::fragment::{fragment_views, Fragment, FragmentView};
use crate::style::{StyleFlags, ESC};
use vstd::prelude::*;
use vstd::utf8::encode_utf8;

verus! {

/// How many parameter bytes a control sequence may have at most.
pub const MAX_PARAMETER_BYTES: usize = 30;

/// Whether a byte can stand among the parameters of a control sequence: a
/// decimal digit or a semicolon.
pub open spec fn is_parameter_byte(byte: u8) -> bool {
    0x30 <= byte <= 0x39 || byte == 0x3B
}

/// Whether a byte can end a control sequence.
pub open spec fn is_final_byte(byte: u8) -> bool {
    0x40 <= byte <= 0x7E
}

/// Whether a plain control sequence stands at `at` and ends with the byte at
/// `end`: the escape byte, `[`, at most [`MAX_PARAMETER_BYTES`] parameter
/// bytes, and a final byte.
pub open spec fn control_sequence(bytes: Seq<u8>, at: int, end: int) -> bool {
    &&& 0 <= at
    &&& at + 1 < end < bytes.len()
    &&& end <= at + 2 + MAX_PARAMETER_BYTES
    &&& bytes[at] == ESC
    &&& bytes[at + 1] == 0x5B
    &&& forall|k: int| at + 1 < k < end ==> is_parameter_byte(#[trigger] bytes[k])
    &&& is_final_byte(bytes[end])
}

/// Whether every escape byte of a text opens a plain control sequence.
pub open spec fn only_plain_sequences(bytes: Seq<u8>) -> bool {
    forall|at: int|
        0 <= at < bytes.len() && #[trigger] bytes[at] == ESC ==> exists|end: int|
            control_sequence(bytes, at, end)
}

/// Tests a text for [`only_plain_sequences`].
pub fn has_only_plain_sequences(content: &str) -> (plain: bool)
    ensures
        plain == only_plain_sequences(encode_utf8(content@)),
{
    let bytes = content.as_bytes();
    let mut at: usize = 0;
    while at < bytes.len()
        invariant
            at <= bytes@.len(),
            bytes@ == encode_utf8(content@),
            forall|earlier: int|
                0 <= earlier < at && #[trigger] bytes@[earlier] == ESC ==> exists|end: int|
                    control_sequence(bytes@, earlier, end),
        decreases bytes@.len() - at,
    {
        if bytes[at] != ESC {
            at += 1;
        } else {
            if bytes.len() - at < 2 || bytes[at + 1] != 0x5B {
                assert forall|end: int| !control_sequence(bytes@, at as int, end) by {}
                return false;
            }
            let mut end: usize = at + 2;
            while end < bytes.len() && end - at < 2 + MAX_PARAMETER_BYTES && parameter_byte(
                bytes[end],
            )
                invariant
                    at + 2 <= end <= bytes@.len(),
                    end <= at + 2 + MAX_PARAMETER_BYTES,
                    forall|k: int| at + 1 < k < end ==> is_parameter_byte(#[trigger] bytes@[k]),
                decreases bytes@.len() - end,
            {
                end += 1;
            }
            if end == bytes.len() || !final_byte(bytes[end]) {
                assert forall|other: int| !control_sequence(bytes@, at as int, other) by {
                    if control_sequence(bytes@, at as int, other) {
                        if other < end {
                            assert(is_parameter_byte(bytes@[other]));
                        } else if other > end {
                            assert(is_parameter_byte(bytes@[end as int]));
                        }
                    }
                }
                return false;
            }
            assert(control_sequence(bytes@, at as int, end as int));
            assert forall|earlier: int|
                0 <= earlier < end + 1 && #[trigger] bytes@[earlier] == ESC implies exists|
                other: int,
            |
                control_sequence(bytes@, earlier, other) by {
                if earlier > at {
                    if earlier == at + 1 {
                    } else if earlier < end {
                        assert(is_parameter_byte(bytes@[earlier]));
                    }
                }
            }
            at = end + 1;
        }
    }
    true
}

/// Tests a byte for [`is_parameter_byte`].
fn parameter_byte(byte: u8) -> (parameter: bool)
    ensures
        parameter == is_parameter_byte(byte),
{
    (0x30 <= byte && byte <= 0x39) || byte == 0x3B
}

/// Tests a byte for [`is_final_byte`].
fn final_byte(byte: u8) -> (last: bool)
    ensures
        last == is_final_byte(byte),
{
    0x40 <= byte && byte <= 0x7E
}

/// The blocks into which the ANSI parser cuts a text: runs of text that share
/// one style, with the bold, italic and underline switches of that style.
pub uninterp spec fn ansi_blocks(content: Seq<char>) -> Seq<FragmentView>;

/// Cuts `content` into blocks with `ansi_str::get_blocks` and hands each
/// block over as a fragment: its text as `AnsiBlock::text` gives it, and of
/// its style what `Style::is_bold`, `Style::is_italic` and
/// `Style::is_underline` say.
///
/// The parser panics on some texts with other escape sequences than plain
/// control sequences (an operating system command that an escape byte ends
/// at the end of the text is one), so only text without them may be passed.
/// The contract gives the result a name and claims no more than that the
/// blocks depend on the text alone.
#[verifier::external_body]
fn styled_blocks(content: &str) -> (fragments: Vec<Fragment>)
    requires
        only_plain_sequences(encode_utf8(content@)),
    ensures
        fragment_views(fragments@) == ansi_blocks(content@),
{
    let mut fragments = Vec::new();
    for block in ansi_str::get_blocks(content) {
        let style = block.style();
        fragments.push(
            Fragment {
                text: block.text().to_string(),
                style: StyleFlags {
                    bold: style.is_bold(),
                    italic: style.is_italic(),
                    underline: style.is_underline(),
                },
            },
        );
    }
    fragments
}

/// Why a text was not printed.
#[derive(Clone, Copy, Debug, PartialEq, Eq, Structural)]
pub enum AnsiError {
    /// The text holds an escape byte that does not open a plain control
    /// sequence.
    ForeignEscape,
}

/// The fragments of a text that is styled with ANSI escape sequences: one for
/// each block of the text. A text with an escape byte that does not open a
/// plain control sequence is refused.
pub fn ansi_fragments(content: &str) -> (result: Result<Vec<Fragment>, AnsiError>)
    ensures
        match result {
            Ok(fragments) => only_plain_sequences(encode_utf8(content@)) && fragment_views(
                fragments@,
            ) == ansi_blocks(content@),
            Err(error) => !only_plain_sequences(encode_utf8(content@)) && error
                == AnsiError::ForeignEscape,
        },
{
    if has_only_plain_sequences(content) {
        Ok(styled_blocks(content))
    } else {
        Err(AnsiError::ForeignEscape)
    }
}

/// Prints a text that is styled with ANSI escape sequences onto the end of
/// `out`: its blocks, as the encoder writes them. A text that is refused
/// (see [`ansi_fragments`]) leaves `out` as it was.
pub fn print_ansi(content: &str, out: &mut Vec<u8>) -> (result: Result<(), AnsiError>)
    ensures
        match result {
            Ok(_) => only_plain_sequences(encode_utf8(content@)) && final(out)@ == old(out)@
                + encode(ansi_blocks(content@)),
            Err(error) => !only_plain_sequences(encode_utf8(content@)) && error
                == AnsiError::ForeignEscape && final(out)@ == old(out)@,
        },
{
    match ansi_fragments(content) {
        Ok(fragments) => {
            render_into(&fragments, out);
            Ok(())
        },
        Err(error) => Err(error),
    }
}

} // verus!
