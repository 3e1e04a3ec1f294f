//! The three printable attributes, their control codes, and the tracker of
//! which of them are active on the output stream.

use vstd::prelude::*;

verus! {

/// The escape byte that opens every control code.
pub const ESC: u8 = 0x1B;

/// One of the attributes that the printer can switch on and off.
#[derive(Clone, Copy, Debug, PartialEq, Eq, Structural)]
pub enum Attribute {
    Bold,
    Italic,
    Underline,
}

/// The bytes that switch an attribute on.
pub open spec fn enable_code(attribute: Attribute) -> Seq<u8> {
    match attribute {
        Attribute::Bold => seq![0x1Bu8, 0x45u8],
        Attribute::Italic => seq![0x1Bu8, 0x34u8],
        Attribute::Underline => seq![0x1Bu8, 0x2Du8, 0x31u8],
    }
}

/// The bytes that switch an attribute off.
pub open spec fn disable_code(attribute: Attribute) -> Seq<u8> {
    match attribute {
        Attribute::Bold => seq![0x1Bu8, 0x46u8],
        Attribute::Italic => seq![0x1Bu8, 0x35u8],
        Attribute::Underline => seq![0x1Bu8, 0x2Du8, 0x30u8],
    }
}

/// Appends the code that switches `attribute` on.
pub fn push_enable(attribute: Attribute, out: &mut Vec<u8>)
    ensures
        final(out)@ == old(out)@ + enable_code(attribute),
{
    out.push(ESC);
    match attribute {
        Attribute::Bold => {
            out.push(0x45);
        },
        Attribute::Italic => {
            out.push(0x34);
        },
        Attribute::Underline => {
            out.push(0x2D);
            out.push(0x31);
        },
    }
}

/// Appends the code that switches `attribute` off.
pub fn push_disable(attribute: Attribute, out: &mut Vec<u8>)
    ensures
        final(out)@ == old(out)@ + disable_code(attribute),
{
    out.push(ESC);
    match attribute {
        Attribute::Bold => {
            out.push(0x46);
        },
        Attribute::Italic => {
            out.push(0x35);
        },
        Attribute::Underline => {
            out.push(0x2D);
            out.push(0x30);
        },
    }
}

/// The style wanted for a run of text: three independent switches.
#[derive(Clone, Copy, Debug, PartialEq, Eq, Structural)]
pub struct StyleFlags {
    pub bold: bool,
    pub italic: bool,
    pub underline: bool,
}

impl StyleFlags {
    /// The style with every attribute off.
    pub open spec fn plain() -> StyleFlags {
        StyleFlags { bold: false, italic: false, underline: false }
    }

    /// Whether `attribute` is on in this style.
    pub open spec fn has(self, attribute: Attribute) -> bool {
        match attribute {
            Attribute::Bold => self.bold,
            Attribute::Italic => self.italic,
            Attribute::Underline => self.underline,
        }
    }

    /// This style with `attribute` switched to `on` and the rest as it was.
    pub open spec fn with(self, attribute: Attribute, on: bool) -> StyleFlags {
        match attribute {
            Attribute::Bold => StyleFlags { bold: on, ..self },
            Attribute::Italic => StyleFlags { italic: on, ..self },
            Attribute::Underline => StyleFlags { underline: on, ..self },
        }
    }

    /// Builds a style from its three switches.
    pub fn new(bold: bool, italic: bool, underline: bool) -> (style: StyleFlags)
        ensures
            style == (StyleFlags { bold, italic, underline }),
    {
        StyleFlags { bold, italic, underline }
    }

    /// Reads one switch.
    pub fn get(&self, attribute: Attribute) -> (on: bool)
        ensures
            on == self.has(attribute),
    {
        match attribute {
            Attribute::Bold => self.bold,
            Attribute::Italic => self.italic,
            Attribute::Underline => self.underline,
        }
    }

    /// Sets one switch and leaves the other two alone.
    pub fn set(&mut self, attribute: Attribute, on: bool)
        ensures
            *final(self) == old(self).with(attribute, on),
    {
        match attribute {
            Attribute::Bold => {
                self.bold = on;
            },
            Attribute::Italic => {
                self.italic = on;
            },
            Attribute::Underline => {
                self.underline = on;
            },
        }
    }
}

impl Default for StyleFlags {
    fn default() -> (style: StyleFlags)
        ensures
            style == StyleFlags::plain(),
    {
        StyleFlags { bold: false, italic: false, underline: false }
    }
}

/// One thing written to the output stream: a control code or a run of text.
pub enum Emission {
    Enable(Attribute),
    Disable(Attribute),
    Text(Seq<char>),
}

/// The bytes of one emission. Text goes out as its UTF-8 encoding, unescaped.
pub open spec fn emission_bytes(emission: Emission) -> Seq<u8> {
    match emission {
        Emission::Enable(attribute) => enable_code(attribute),
        Emission::Disable(attribute) => disable_code(attribute),
        Emission::Text(text) => vstd::utf8::encode_utf8(text),
    }
}

/// The bytes of a sequence of emissions, in order.
pub open spec fn bytes_of(emissions: Seq<Emission>) -> Seq<u8>
    decreases emissions.len(),
{
    if emissions.len() == 0 {
        Seq::empty()
    } else {
        bytes_of(emissions.drop_last()) + emission_bytes(emissions.last())
    }
}

/// The bytes of two runs of emissions are the bytes of the first, then of the second.
pub proof fn lemma_bytes_of_concat(first: Seq<Emission>, second: Seq<Emission>)
    ensures
        bytes_of(first + second) == bytes_of(first) + bytes_of(second),
    decreases second.len(),
{
    if second.len() == 0 {
        assert(first + second =~= first);
    } else {
        lemma_bytes_of_concat(first, second.drop_last());
        assert((first + second).drop_last() =~= first + second.drop_last());
        assert((first + second).last() == second.last());
    }
}

/// A single emission yields exactly its own bytes.
pub proof fn lemma_bytes_of_one(emission: Emission)
    ensures
        bytes_of(seq![emission]) == emission_bytes(emission),
{
    assert(seq![emission].drop_last() =~= Seq::<Emission>::empty());
    assert(bytes_of(seq![emission].drop_last()) =~= Seq::<u8>::empty());
}

/// What must be written to move one attribute from `active` to `wanted`:
/// nothing when they agree, else the one code that closes the gap.
pub open spec fn toggle(attribute: Attribute, active: bool, wanted: bool) -> Seq<Emission> {
    if active == wanted {
        Seq::empty()
    } else if wanted {
        seq![Emission::Enable(attribute)]
    } else {
        seq![Emission::Disable(attribute)]
    }
}

/// What must be written to move the stream from style `from` to style `to`:
/// the toggles for bold, italic and underline, in that order.
pub open spec fn transition(from: StyleFlags, to: StyleFlags) -> Seq<Emission> {
    toggle(Attribute::Bold, from.bold, to.bold) + toggle(
        Attribute::Italic,
        from.italic,
        to.italic,
    ) + toggle(Attribute::Underline, from.underline, to.underline)
}

/// What must be written to leave the stream unstyled: a disable code for each
/// attribute that is active, in the order bold, italic, underline.
pub open spec fn clearing(active: StyleFlags) -> Seq<Emission> {
    (if active.bold {
        seq![Emission::Disable(Attribute::Bold)]
    } else {
        Seq::empty()
    }) + (if active.italic {
        seq![Emission::Disable(Attribute::Italic)]
    } else {
        Seq::empty()
    }) + (if active.underline {
        seq![Emission::Disable(Attribute::Underline)]
    } else {
        Seq::empty()
    })
}

/// Clearing is the transition to the plain style.
pub proof fn lemma_clearing_is_transition_to_plain(active: StyleFlags)
    ensures
        clearing(active) == transition(active, StyleFlags::plain()),
{
    assert(clearing(active) =~= transition(active, StyleFlags::plain()));
}

/// Between equal styles nothing is written.
pub proof fn lemma_transition_to_same_is_silent(style: StyleFlags)
    ensures
        transition(style, style) == Seq::<Emission>::empty(),
        bytes_of(transition(style, style)) == Seq::<u8>::empty(),
{
    assert(transition(style, style) =~= Seq::<Emission>::empty());
}

/// Tracks which attributes are active on the output stream.
pub struct StyleState {
    active: StyleFlags,
}

impl StyleState {
    /// The style that is active on the stream.
    pub closed spec fn active(&self) -> StyleFlags {
        self.active
    }

    /// A tracker for a stream on which nothing has been switched on yet.
    pub fn new() -> (state: StyleState)
        ensures
            state.active() == StyleFlags::plain(),
    {
        StyleState { active: StyleFlags { bold: false, italic: false, underline: false } }
    }

    /// The style that is active on the stream.
    pub fn current(&self) -> (style: StyleFlags)
        ensures
            style == self.active(),
    {
        self.active
    }

    /// Moves one attribute to `wanted`, writing its code only if that changes anything.
    fn switch(&mut self, attribute: Attribute, wanted: bool, out: &mut Vec<u8>)
        ensures
            final(self).active() == old(self).active().with(attribute, wanted),
            final(out)@ == old(out)@ + bytes_of(
                toggle(attribute, old(self).active().has(attribute), wanted),
            ),
    {
        let active = self.active.get(attribute);
        if active != wanted {
            if wanted {
                push_enable(attribute, out);
                proof {
                    lemma_bytes_of_one(Emission::Enable(attribute));
                }
            } else {
                push_disable(attribute, out);
                proof {
                    lemma_bytes_of_one(Emission::Disable(attribute));
                }
            }
            self.active.set(attribute, wanted);
        } else {
            assert(old(out)@ + Seq::<u8>::empty() =~= old(out)@);
        }
    }

    /// Brings the stream to `target`. For each attribute whose wanted value
    /// differs from the active one the enable or disable code is written, bold
    /// first, then italic, then underline; for the others nothing is written.
    pub fn transition_to(&mut self, target: StyleFlags, out: &mut Vec<u8>)
        ensures
            final(self).active() == target,
            final(out)@ == old(out)@ + bytes_of(transition(old(self).active(), target)),
            target == old(self).active() ==> final(out)@ == old(out)@,
    {
        let ghost from = self.active;
        let ghost start = out@;
        self.switch(Attribute::Bold, target.bold, out);
        self.switch(Attribute::Italic, target.italic, out);
        self.switch(Attribute::Underline, target.underline, out);
        proof {
            let bold = toggle(Attribute::Bold, from.bold, target.bold);
            let italic = toggle(Attribute::Italic, from.italic, target.italic);
            let underline = toggle(Attribute::Underline, from.underline, target.underline);
            lemma_bytes_of_concat(bold, italic);
            lemma_bytes_of_concat(bold + italic, underline);
            assert(out@ =~= start + bytes_of(transition(from, target)));
            if target == from {
                lemma_transition_to_same_is_silent(from);
                assert(start + Seq::<u8>::empty() =~= start);
            }
        }
    }

    /// Leaves the stream unstyled: writes a disable code for every attribute
    /// that is active, bold first, then italic, then underline.
    pub fn clear_all(&mut self, out: &mut Vec<u8>)
        ensures
            final(self).active() == StyleFlags::plain(),
            final(out)@ == old(out)@ + bytes_of(clearing(old(self).active())),
    {
        proof {
            lemma_clearing_is_transition_to_plain(self.active);
        }
        self.transition_to(StyleFlags { bold: false, italic: false, underline: false }, out);
    }
}

} // verus!
