//! The token adapter: highlighter tokens in, fragments out.
//!
//! A highlighter marks regions of the text with start and end tokens and
//! hands the text itself over in text tokens. The adapter keeps a running
//! style, which the region tokens change, and gives every text token the
//! running style of the moment.

use crate::encoder::{encode, fragments_text, render};
use crate::fragment::{fragment_views, Fragment, FragmentView};
use crate::style::{Attribute, StyleFlags};
use vstd::prelude::*;

verus! {

/// A highlighter token: text, or the start or end of a region of some kind.
pub enum Token {
    Text(String),
    StartRegion(String),
    EndRegion(String),
}

/// What a token is to the adapter.
pub enum TokenView {
    Text(Seq<char>),
    StartRegion(Seq<char>),
    EndRegion(Seq<char>),
}

impl View for Token {
    type V = TokenView;

    open spec fn view(&self) -> TokenView {
        match self {
            Token::Text(text) => TokenView::Text(text@),
            Token::StartRegion(kind) => TokenView::StartRegion(kind@),
            Token::EndRegion(kind) => TokenView::EndRegion(kind@),
        }
    }
}

/// The views of a sequence of tokens, in order.
pub open spec fn token_views(tokens: Seq<Token>) -> Seq<TokenView> {
    Seq::new(tokens.len(), |i: int| tokens[i]@)
}

/// The attribute that stands for a kind of region: keywords are bold,
/// comments italic, strings underlined. Any other kind has none.
pub open spec fn attribute_of_kind(kind: Seq<char>) -> Option<Attribute> {
    if kind == "keyword"@ {
        Some(Attribute::Bold)
    } else if kind == "comment"@ {
        Some(Attribute::Italic)
    } else if kind == "string"@ {
        Some(Attribute::Underline)
    } else {
        None
    }
}

/// The running style once `token` has been seen: a region start switches its
/// attribute on, a region end switches it off, and text or a region of an
/// unknown kind changes nothing.
pub open spec fn style_after(style: StyleFlags, token: TokenView) -> StyleFlags {
    match token {
        TokenView::Text(_) => style,
        TokenView::StartRegion(kind) => match attribute_of_kind(kind) {
            Some(attribute) => style.with(attribute, true),
            None => style,
        },
        TokenView::EndRegion(kind) => match attribute_of_kind(kind) {
            Some(attribute) => style.with(attribute, false),
            None => style,
        },
    }
}

/// The running style once the first `count` tokens have been seen.
pub open spec fn style_through(start: StyleFlags, tokens: Seq<TokenView>, count: nat) -> StyleFlags
    decreases count,
{
    if count == 0 {
        start
    } else {
        style_after(style_through(start, tokens, (count - 1) as nat), tokens[count - 1])
    }
}

/// The fragments that the first `count` tokens give: one for each text token,
/// in the running style at that token, and none for the region tokens.
pub open spec fn fragments_through(
    start: StyleFlags,
    tokens: Seq<TokenView>,
    count: nat,
) -> Seq<FragmentView>
    decreases count,
{
    if count == 0 {
        Seq::empty()
    } else {
        let earlier = fragments_through(start, tokens, (count - 1) as nat);
        match tokens[count - 1] {
            TokenView::Text(text) => earlier.push(
                FragmentView { text, style: style_through(start, tokens, (count - 1) as nat) },
            ),
            _ => earlier,
        }
    }
}

/// The fragments that a sequence of tokens gives when the running style is `start` at its head.
pub open spec fn token_fragments(start: StyleFlags, tokens: Seq<TokenView>) -> Seq<FragmentView> {
    fragments_through(start, tokens, tokens.len())
}

/// Whether two byte strings are the same.
fn same_bytes(left: &[u8], right: &[u8]) -> (same: bool)
    ensures
        same == (left@ == right@),
{
    if left.len() != right.len() {
        return false;
    }
    let mut i: usize = 0;
    while i < left.len()
        invariant
            i <= left@.len(),
            left@.len() == right@.len(),
            left@.take(i as int) == right@.take(i as int),
        decreases left@.len() - i,
    {
        if left[i] != right[i] {
            return false;
        }
        i += 1;
        assert(left@.take(i as int) =~= left@.take(i - 1).push(left@[i - 1]));
        assert(right@.take(i as int) =~= right@.take(i - 1).push(right@[i - 1]));
    }
    assert(left@.take(i as int) =~= left@);
    assert(right@.take(i as int) =~= right@);
    true
}

/// Whether two strings hold the same characters.
pub fn same_text(left: &str, right: &str) -> (same: bool)
    ensures
        same == (left@ == right@),
{
    proof {
        vstd::utf8::encode_utf8_decode_utf8(left@);
        vstd::utf8::encode_utf8_decode_utf8(right@);
    }
    same_bytes(left.as_bytes(), right.as_bytes())
}

/// Looks a region kind up in the table of attributes.
pub fn kind_attribute(kind: &str) -> (attribute: Option<Attribute>)
    ensures
        attribute == attribute_of_kind(kind@),
{
    if same_text(kind, "keyword") {
        Some(Attribute::Bold)
    } else if same_text(kind, "comment") {
        Some(Attribute::Italic)
    } else if same_text(kind, "string") {
        Some(Attribute::Underline)
    } else {
        None
    }
}

/// Turns `tokens` into fragments, which are appended to `fragments`.
///
/// `running` is the style that holds at the first token; on return it is the
/// style that holds after the last, so that a region left open carries on
/// into the tokens of the next call.
pub fn adapt_tokens(tokens: &Vec<Token>, running: &mut StyleFlags, fragments: &mut Vec<Fragment>)
    ensures
        *final(running) == style_through(*old(running), token_views(tokens@), tokens@.len()),
        fragment_views(final(fragments)@) == fragment_views(old(fragments)@) + token_fragments(
            *old(running),
            token_views(tokens@),
        ),
{
    let ghost start = *running;
    let ghost views = token_views(tokens@);
    let ghost given = fragment_views(fragments@);
    let mut i: usize = 0;
    assert(given + fragments_through(start, views, 0) =~= given);
    while i < tokens.len()
        invariant
            i <= tokens@.len(),
            views == token_views(tokens@),
            *running == style_through(start, views, i as nat),
            fragment_views(fragments@) == given + fragments_through(start, views, i as nat),
        decreases tokens@.len() - i,
    {
        let ghost before = fragments@;
        match &tokens[i] {
            Token::Text(text) => {
                fragments.push(Fragment::new(text.clone(), *running));
                assert(fragment_views(fragments@) =~= fragment_views(before).push(
                    FragmentView { text: text@, style: *running },
                ));
            },
            Token::StartRegion(kind) => {
                if let Some(attribute) = kind_attribute(kind.as_str()) {
                    running.set(attribute, true);
                }
            },
            Token::EndRegion(kind) => {
                if let Some(attribute) = kind_attribute(kind.as_str()) {
                    running.set(attribute, false);
                }
            },
        }
        i += 1;
        assert(fragment_views(fragments@) =~= given + fragments_through(start, views, i as nat));
    }
}

/// Encodes a sequence of tokens: the fragments that they give, starting from
/// the plain running style, as the encoder writes them.
pub fn render_tokens(tokens: &Vec<Token>) -> (bytes: Vec<u8>)
    ensures
        bytes@ == encode(token_fragments(StyleFlags::plain(), token_views(tokens@))),
{
    let mut running = StyleFlags::new(false, false, false);
    let mut fragments: Vec<Fragment> = Vec::new();
    assert(fragment_views(fragments@) =~= Seq::<FragmentView>::empty());
    adapt_tokens(tokens, &mut running, &mut fragments);
    assert(fragment_views(fragments@) =~= token_fragments(
        StyleFlags::plain(),
        token_views(tokens@),
    ));
    render(&fragments)
}

/// The text that the first `count` tokens spell: the text of the text
/// tokens among them, put together.
pub open spec fn tokens_text(tokens: Seq<TokenView>, count: nat) -> Seq<char>
    decreases count,
{
    if count == 0 {
        Seq::empty()
    } else {
        tokens_text(tokens, (count - 1) as nat) + match tokens[count - 1] {
            TokenView::Text(text) => text,
            _ => Seq::empty(),
        }
    }
}

/// A region of a kind that the table does not know changes nothing, neither
/// where it starts nor where it ends.
pub proof fn lemma_unknown_kinds_change_nothing(style: StyleFlags, kind: Seq<char>)
    requires
        attribute_of_kind(kind) is None,
    ensures
        style_after(style, TokenView::StartRegion(kind)) == style,
        style_after(style, TokenView::EndRegion(kind)) == style,
{
}

/// The adapter hands all text on: the fragments that tokens give spell what
/// the tokens spell, whatever regions the tokens mark.
pub proof fn lemma_fragments_spell_the_tokens(
    start: StyleFlags,
    tokens: Seq<TokenView>,
    count: nat,
)
    requires
        count <= tokens.len(),
    ensures
        ({
            let fragments = fragments_through(start, tokens, count);
            fragments_text(fragments, fragments.len()) == tokens_text(tokens, count)
        }),
    decreases count,
{
    if count > 0 {
        let earlier = fragments_through(start, tokens, (count - 1) as nat);
        lemma_fragments_spell_the_tokens(start, tokens, (count - 1) as nat);
        match tokens[count - 1] {
            TokenView::Text(text) => {
                let style = style_through(start, tokens, (count - 1) as nat);
                let fragments = earlier.push(FragmentView { text, style });
                assert(fragments == fragments_through(start, tokens, count));
                lemma_fragments_text_ignores_the_rest(fragments, earlier, earlier.len());
            },
            _ => {
                assert(tokens_text(tokens, count) =~= tokens_text(tokens, (count - 1) as nat));
            },
        }
    }
}

/// The text of the first fragments does not depend on the fragments behind them.
proof fn lemma_fragments_text_ignores_the_rest(
    longer: Seq<FragmentView>,
    shorter: Seq<FragmentView>,
    count: nat,
)
    requires
        count <= shorter.len() <= longer.len(),
        forall|i: int| 0 <= i < count ==> longer[i] == shorter[i],
    ensures
        fragments_text(longer, count) == fragments_text(shorter, count),
    decreases count,
{
    if count > 0 {
        lemma_fragments_text_ignores_the_rest(longer, shorter, (count - 1) as nat);
    }
}

} // verus!
