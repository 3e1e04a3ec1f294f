//! The styled-fragment encoder: fragments in, printer bytes out.
//!
//! The encoder starts from an unstyled stream. Before each fragment it writes
//! the codes that bring the stream to the fragment's style, then the text as
//! it is. After the last fragment it switches off whatever is still on.

use crate::fragment::{fragment_views, Fragment, FragmentView};
use crate::style::{
    bytes_of, clearing, lemma_bytes_of_concat, lemma_bytes_of_one,
    lemma_transition_to_same_is_silent, transition, Attribute, Emission, StyleFlags, StyleState,
};
use vstd::prelude::*;

verus! {

/// The style that is active on the stream when fragment `index` is reached:
/// the style of the fragment before it, and the plain style at the start.
pub open spec fn style_before(fragments: Seq<FragmentView>, index: int) -> StyleFlags {
    if 0 < index <= fragments.len() {
        fragments[index - 1].style
    } else {
        StyleFlags::plain()
    }
}

/// What is written for fragment `index`: the codes that lead from the style
/// before it to its own, then its text.
pub open spec fn fragment_emissions(fragments: Seq<FragmentView>, index: int) -> Seq<Emission> {
    transition(style_before(fragments, index), fragments[index].style).push(
        Emission::Text(fragments[index].text),
    )
}

/// What has been written once the first `count` fragments are done.
pub open spec fn emitted_through(fragments: Seq<FragmentView>, count: nat) -> Seq<Emission>
    decreases count,
{
    if count == 0 {
        Seq::empty()
    } else {
        emitted_through(fragments, (count - 1) as nat) + fragment_emissions(fragments, count - 1)
    }
}

/// Everything written for a sequence of fragments, the closing codes included.
pub open spec fn emissions(fragments: Seq<FragmentView>) -> Seq<Emission> {
    emitted_through(fragments, fragments.len()) + clearing(
        style_before(fragments, fragments.len() as int),
    )
}

/// The byte stream for a sequence of fragments.
pub open spec fn encode(fragments: Seq<FragmentView>) -> Seq<u8> {
    bytes_of(emissions(fragments))
}

/// Appends `bytes` to `out`.
pub fn push_bytes(bytes: &[u8], out: &mut Vec<u8>)
    ensures
        final(out)@ == old(out)@ + bytes@,
{
    let mut i: usize = 0;
    while i < bytes.len()
        invariant
            i <= bytes@.len(),
            out@ == old(out)@ + bytes@.take(i as int),
        decreases bytes@.len() - i,
    {
        out.push(bytes[i]);
        i += 1;
        assert(out@ =~= old(out)@ + bytes@.take(i as int));
    }
    assert(bytes@.take(i as int) =~= bytes@);
}

/// Appends `text` to `out` as it is: its UTF-8 bytes, nothing escaped.
pub fn push_text(text: &str, out: &mut Vec<u8>)
    ensures
        final(out)@ == old(out)@ + vstd::utf8::encode_utf8(text@),
{
    push_bytes(text.as_bytes(), out);
}

/// Encodes `fragments` onto the end of `out`.
///
/// The stream is taken to be unstyled where `out` ends, and is left unstyled.
pub fn render_into(fragments: &Vec<Fragment>, out: &mut Vec<u8>)
    ensures
        final(out)@ == old(out)@ + encode(fragment_views(fragments@)),
        fragments@.len() == 0 ==> final(out)@ == old(out)@,
{
    let ghost views = fragment_views(fragments@);
    let mut state = StyleState::new();
    let mut i: usize = 0;
    assert(old(out)@ + bytes_of(emitted_through(views, 0)) =~= old(out)@);
    while i < fragments.len()
        invariant
            i <= fragments@.len(),
            views == fragment_views(fragments@),
            state.active() == style_before(views, i as int),
            out@ == old(out)@ + bytes_of(emitted_through(views, i as nat)),
        decreases fragments@.len() - i,
    {
        let ghost before = out@;
        let ghost codes = transition(style_before(views, i as int), views[i as int].style);
        let ghost done = emitted_through(views, i as nat);
        state.transition_to(fragments[i].style, out);
        push_text(fragments[i].text.as_str(), out);
        proof {
            let text = Emission::Text(views[i as int].text);
            lemma_bytes_of_one(text);
            lemma_bytes_of_concat(codes, seq![text]);
            assert(codes.push(text) =~= codes + seq![text]);
            lemma_bytes_of_concat(done, fragment_emissions(views, i as int));
            assert(out@ =~= old(out)@ + bytes_of(emitted_through(views, (i + 1) as nat)));
        }
        i += 1;
    }
    let ghost body = emitted_through(views, views.len());
    let ghost tail = clearing(style_before(views, views.len() as int));
    state.clear_all(out);
    proof {
        lemma_bytes_of_concat(body, tail);
        assert(out@ =~= old(out)@ + encode(views));
        if fragments@.len() == 0 {
            lemma_encode_empty();
            assert(old(out)@ + Seq::<u8>::empty() =~= old(out)@);
        }
    }
}

/// Encodes `fragments` into a fresh byte stream.
pub fn render(fragments: &Vec<Fragment>) -> (bytes: Vec<u8>)
    ensures
        bytes@ == encode(fragment_views(fragments@)),
        fragments@.len() == 0 ==> bytes@.len() == 0,
{
    let mut bytes: Vec<u8> = Vec::new();
    render_into(fragments, &mut bytes);
    assert(Seq::<u8>::empty() + encode(fragment_views(fragments@)) =~= encode(
        fragment_views(fragments@),
    ));
    bytes
}

/// No fragments, no output: not one byte is written for an empty sequence.
pub proof fn lemma_encode_empty()
    ensures
        emissions(Seq::<FragmentView>::empty()) == Seq::<Emission>::empty(),
        encode(Seq::<FragmentView>::empty()) == Seq::<u8>::empty(),
{
    let none = Seq::<FragmentView>::empty();
    assert(emissions(none) =~= Seq::<Emission>::empty());
}

/// How often `wanted` occurs in a run of emissions.
pub open spec fn count_of(emissions: Seq<Emission>, wanted: Emission) -> nat
    decreases emissions.len(),
{
    if emissions.len() == 0 {
        0
    } else {
        count_of(emissions.drop_last(), wanted) + if emissions.last() == wanted {
            1nat
        } else {
            0nat
        }
    }
}

/// How many enable codes for `attribute` a run of emissions holds.
pub open spec fn enables(emissions: Seq<Emission>, attribute: Attribute) -> nat {
    count_of(emissions, Emission::Enable(attribute))
}

/// How many disable codes for `attribute` a run of emissions holds.
pub open spec fn disables(emissions: Seq<Emission>, attribute: Attribute) -> nat {
    count_of(emissions, Emission::Disable(attribute))
}

/// Counting over two runs is counting over each and adding up.
pub proof fn lemma_count_of_concat(first: Seq<Emission>, second: Seq<Emission>, wanted: Emission)
    ensures
        count_of(first + second, wanted) == count_of(first, wanted) + count_of(second, wanted),
    decreases second.len(),
{
    if second.len() == 0 {
        assert(first + second =~= first);
    } else {
        lemma_count_of_concat(first, second.drop_last(), wanted);
        assert((first + second).drop_last() =~= first + second.drop_last());
        assert((first + second).last() == second.last());
    }
}

/// A run of one emission counts one for that emission and nothing for any other.
proof fn lemma_count_of_one(emission: Emission, wanted: Emission)
    ensures
        count_of(seq![emission], wanted) == if emission == wanted {
            1nat
        } else {
            0nat
        },
        count_of(Seq::<Emission>::empty(), wanted) == 0,
{
    let one = seq![emission];
    assert(one.drop_last() =~= Seq::<Emission>::empty());
    assert(count_of(one.drop_last(), wanted) == 0);
    assert(one.last() == emission);
}

/// A transition enables an attribute once if it was off and is wanted on,
/// disables it once if it was on and is wanted off, and otherwise leaves it alone.
pub proof fn lemma_transition_counts(from: StyleFlags, to: StyleFlags, attribute: Attribute)
    ensures
        enables(transition(from, to), attribute) == if !from.has(attribute) && to.has(attribute) {
            1nat
        } else {
            0nat
        },
        disables(transition(from, to), attribute) == if from.has(attribute) && !to.has(attribute) {
            1nat
        } else {
            0nat
        },
{
    let on = Emission::Enable(attribute);
    let off = Emission::Disable(attribute);
    let bold = crate::style::toggle(Attribute::Bold, from.bold, to.bold);
    let italic = crate::style::toggle(Attribute::Italic, from.italic, to.italic);
    let underline = crate::style::toggle(Attribute::Underline, from.underline, to.underline);
    lemma_count_of_one(Emission::Enable(Attribute::Bold), on);
    lemma_count_of_one(Emission::Enable(Attribute::Italic), on);
    lemma_count_of_one(Emission::Enable(Attribute::Underline), on);
    lemma_count_of_one(Emission::Disable(Attribute::Bold), on);
    lemma_count_of_one(Emission::Disable(Attribute::Italic), on);
    lemma_count_of_one(Emission::Disable(Attribute::Underline), on);
    lemma_count_of_one(Emission::Enable(Attribute::Bold), off);
    lemma_count_of_one(Emission::Enable(Attribute::Italic), off);
    lemma_count_of_one(Emission::Enable(Attribute::Underline), off);
    lemma_count_of_one(Emission::Disable(Attribute::Bold), off);
    lemma_count_of_one(Emission::Disable(Attribute::Italic), off);
    lemma_count_of_one(Emission::Disable(Attribute::Underline), off);
    lemma_count_of_concat(bold, italic, on);
    lemma_count_of_concat(bold + italic, underline, on);
    lemma_count_of_concat(bold, italic, off);
    lemma_count_of_concat(bold + italic, underline, off);
}

/// While the stream is open, every attribute has been enabled as often as it
/// has been disabled, plus once more exactly if it is active right now.
pub proof fn lemma_codes_pair_up_while_open(
    fragments: Seq<FragmentView>,
    count: nat,
    attribute: Attribute,
)
    requires
        count <= fragments.len(),
    ensures
        enables(emitted_through(fragments, count), attribute) == disables(
            emitted_through(fragments, count),
            attribute,
        ) + if style_before(fragments, count as int).has(attribute) {
            1nat
        } else {
            0nat
        },
    decreases count,
{
    let on = Emission::Enable(attribute);
    let off = Emission::Disable(attribute);
    if count == 0 {
    } else {
        let done = emitted_through(fragments, (count - 1) as nat);
        let from = style_before(fragments, count - 1);
        let to = fragments[count - 1].style;
        let codes = transition(from, to);
        let text = Emission::Text(fragments[count - 1].text);
        lemma_codes_pair_up_while_open(fragments, (count - 1) as nat, attribute);
        lemma_transition_counts(from, to, attribute);
        assert(codes.push(text) =~= codes + seq![text]);
        lemma_count_of_one(text, on);
        lemma_count_of_one(text, off);
        lemma_count_of_concat(codes, seq![text], on);
        lemma_count_of_concat(codes, seq![text], off);
        lemma_count_of_concat(done, fragment_emissions(fragments, count - 1), on);
        lemma_count_of_concat(done, fragment_emissions(fragments, count - 1), off);
    }
}

/// Over a whole stream every attribute is enabled exactly as often as it is
/// disabled: the closing codes switch off whatever the last fragment left on,
/// so no attribute stays enabled.
pub proof fn lemma_codes_balanced(fragments: Seq<FragmentView>, attribute: Attribute)
    ensures
        enables(emissions(fragments), attribute) == disables(emissions(fragments), attribute),
{
    let on = Emission::Enable(attribute);
    let off = Emission::Disable(attribute);
    let body = emitted_through(fragments, fragments.len());
    let last = style_before(fragments, fragments.len() as int);
    lemma_codes_pair_up_while_open(fragments, fragments.len(), attribute);
    crate::style::lemma_clearing_is_transition_to_plain(last);
    lemma_transition_counts(last, StyleFlags::plain(), attribute);
    lemma_count_of_concat(body, clearing(last), on);
    lemma_count_of_concat(body, clearing(last), off);
}

/// Where a fragment has the style of the one before it, nothing but its text
/// is written for it: no control code stands between the two texts.
pub proof fn lemma_same_style_adds_no_codes(fragments: Seq<FragmentView>, index: int)
    requires
        0 < index < fragments.len(),
        fragments[index - 1].style == fragments[index].style,
    ensures
        fragment_emissions(fragments, index) == seq![Emission::Text(fragments[index].text)],
        emitted_through(fragments, (index + 1) as nat) == emitted_through(
            fragments,
            (index - 1) as nat,
        ) + transition(style_before(fragments, index - 1), fragments[index].style) + seq![
            Emission::Text(fragments[index - 1].text),
            Emission::Text(fragments[index].text),
        ],
        bytes_of(fragment_emissions(fragments, index)) == vstd::utf8::encode_utf8(
            fragments[index].text,
        ),
{
    let style = fragments[index].style;
    lemma_transition_to_same_is_silent(style);
    assert(fragment_emissions(fragments, index) =~= seq![Emission::Text(fragments[index].text)]);
    lemma_bytes_of_one(Emission::Text(fragments[index].text));
    assert(emitted_through(fragments, (index + 1) as nat) == emitted_through(
        fragments,
        index as nat,
    ) + fragment_emissions(fragments, index));
    assert(emitted_through(fragments, index as nat) == emitted_through(
        fragments,
        (index - 1) as nat,
    ) + fragment_emissions(fragments, index - 1));
    assert(emitted_through(fragments, (index + 1) as nat) =~= emitted_through(
        fragments,
        (index - 1) as nat,
    ) + transition(style_before(fragments, index - 1), style) + seq![
        Emission::Text(fragments[index - 1].text),
        Emission::Text(fragments[index].text),
    ]);
}

/// Encoding is repeatable: two passes over the same fragments, each from a
/// fresh tracker, give the same bytes.
pub proof fn lemma_encode_repeatable(
    fragments: Seq<FragmentView>,
    first_pass: Seq<u8>,
    second_pass: Seq<u8>,
)
    requires
        first_pass == encode(fragments),
        second_pass == encode(fragments),
    ensures
        first_pass == second_pass,
{
}

/// The text in a run of emissions: what its text emissions hold, put
/// together, with the control codes left out.
pub open spec fn text_of(emissions: Seq<Emission>) -> Seq<char>
    decreases emissions.len(),
{
    if emissions.len() == 0 {
        Seq::empty()
    } else {
        text_of(emissions.drop_last()) + match emissions.last() {
            Emission::Text(text) => text,
            _ => Seq::empty(),
        }
    }
}

/// The text of the first `count` fragments, put together.
pub open spec fn fragments_text(fragments: Seq<FragmentView>, count: nat) -> Seq<char>
    decreases count,
{
    if count == 0 {
        Seq::empty()
    } else {
        fragments_text(fragments, (count - 1) as nat) + fragments[count - 1].text
    }
}

/// The text of two runs of emissions is the text of the first, then of the second.
pub proof fn lemma_text_of_concat(first: Seq<Emission>, second: Seq<Emission>)
    ensures
        text_of(first + second) == text_of(first) + text_of(second),
    decreases second.len(),
{
    if second.len() == 0 {
        assert(first + second =~= first);
        assert(text_of(first) + text_of(second) =~= text_of(first));
    } else {
        lemma_text_of_concat(first, second.drop_last());
        assert((first + second).drop_last() =~= first + second.drop_last());
        assert((first + second).last() == second.last());
        let tail = match second.last() {
            Emission::Text(text) => text,
            _ => Seq::empty(),
        };
        assert(text_of(first + second) =~= text_of(first) + (text_of(second.drop_last()) + tail));
    }
}

/// A transition holds codes only, and so does clearing.
pub proof fn lemma_codes_hold_no_text(from: StyleFlags, to: StyleFlags)
    ensures
        text_of(transition(from, to)) == Seq::<char>::empty(),
        text_of(clearing(from)) == Seq::<char>::empty(),
{
    let bold = crate::style::toggle(Attribute::Bold, from.bold, to.bold);
    let italic = crate::style::toggle(Attribute::Italic, from.italic, to.italic);
    let underline = crate::style::toggle(Attribute::Underline, from.underline, to.underline);
    lemma_code_holds_no_text(bold);
    lemma_code_holds_no_text(italic);
    lemma_code_holds_no_text(underline);
    lemma_text_of_concat(bold, italic);
    lemma_text_of_concat(bold + italic, underline);
    assert(text_of(transition(from, to)) =~= Seq::<char>::empty());
    crate::style::lemma_clearing_is_transition_to_plain(from);
    let plain = StyleFlags::plain();
    let off_bold = crate::style::toggle(Attribute::Bold, from.bold, false);
    let off_italic = crate::style::toggle(Attribute::Italic, from.italic, false);
    let off_underline = crate::style::toggle(Attribute::Underline, from.underline, false);
    lemma_code_holds_no_text(off_bold);
    lemma_code_holds_no_text(off_italic);
    lemma_code_holds_no_text(off_underline);
    lemma_text_of_concat(off_bold, off_italic);
    lemma_text_of_concat(off_bold + off_italic, off_underline);
    assert(text_of(transition(from, plain)) =~= Seq::<char>::empty());
}

/// A run of at most one emission that is no text emission holds no text.
proof fn lemma_code_holds_no_text(codes: Seq<Emission>)
    requires
        codes.len() <= 1,
        codes.len() == 1 ==> !(codes[0] is Text),
    ensures
        text_of(codes) == Seq::<char>::empty(),
{
    if codes.len() == 1 {
        assert(codes.drop_last().len() == 0);
        assert(text_of(codes.drop_last()) =~= Seq::<char>::empty());
        assert(text_of(codes) =~= Seq::<char>::empty());
    }
}

/// Text passes through the encoder as it is: with the control codes left
/// out, what is written for a sequence of fragments is the text of the
/// fragments, in their order, with nothing dropped, added or changed.
pub proof fn lemma_text_passes_through(fragments: Seq<FragmentView>)
    ensures
        text_of(emissions(fragments)) == fragments_text(fragments, fragments.len()),
{
    lemma_text_passes_through_while_open(fragments, fragments.len());
    lemma_codes_hold_no_text(style_before(fragments, fragments.len() as int), StyleFlags::plain());
    lemma_text_of_concat(
        emitted_through(fragments, fragments.len()),
        clearing(style_before(fragments, fragments.len() as int)),
    );
    assert(text_of(emissions(fragments)) =~= fragments_text(fragments, fragments.len()));
}

/// What has been written once the first `count` fragments are done holds
/// the text of those fragments.
pub proof fn lemma_text_passes_through_while_open(fragments: Seq<FragmentView>, count: nat)
    requires
        count <= fragments.len(),
    ensures
        text_of(emitted_through(fragments, count)) == fragments_text(fragments, count),
    decreases count,
{
    if count > 0 {
        let done = emitted_through(fragments, (count - 1) as nat);
        let codes = transition(style_before(fragments, count - 1), fragments[count - 1].style);
        let text = Emission::Text(fragments[count - 1].text);
        lemma_text_passes_through_while_open(fragments, (count - 1) as nat);
        lemma_codes_hold_no_text(style_before(fragments, count - 1), fragments[count - 1].style);
        assert(codes.push(text).drop_last() =~= codes);
        assert(text_of(codes.push(text)) =~= fragments[count - 1].text);
        lemma_text_of_concat(done, fragment_emissions(fragments, count - 1));
    }
}

} // verus!
