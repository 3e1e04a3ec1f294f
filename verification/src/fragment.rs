//! A run of text together with the style it is to be printed in.

use crate::style::StyleFlags;
use vstd::prelude::*;

verus! {

/// A run of text and the style wanted for it.
pub struct Fragment {
    pub text: String,
    pub style: StyleFlags,
}

/// What a fragment is to the encoder: its characters and its style.
pub struct FragmentView {
    pub text: Seq<char>,
    pub style: StyleFlags,
}

impl View for Fragment {
    type V = FragmentView;

    open spec fn view(&self) -> FragmentView {
        FragmentView { text: self.text@, style: self.style }
    }
}

/// The views of a sequence of fragments, in order.
pub open spec fn fragment_views(fragments: Seq<Fragment>) -> Seq<FragmentView> {
    Seq::new(fragments.len(), |i: int| fragments[i]@)
}

impl Fragment {
    /// A fragment of `text` in `style`.
    pub fn new(text: String, style: StyleFlags) -> (fragment: Fragment)
        ensures
            fragment@ == (FragmentView { text: text@, style }),
    {
        Fragment { text, style }
    }

    /// A fragment of `text` with every attribute off.
    pub fn plain(text: String) -> (fragment: Fragment)
        ensures
            fragment@ == (FragmentView { text: text@, style: StyleFlags::plain() }),
    {
        Fragment { text, style: StyleFlags { bold: false, italic: false, underline: false } }
    }
}

} // verus!
