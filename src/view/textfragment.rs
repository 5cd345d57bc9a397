//! A single character of a plain line, with how wide it renders.
use vstd::prelude::*;

use crate::unicode::{display_width, width_of};

verus! {

#[derive(Copy, Clone, Debug, PartialEq, Eq, Structural)]
pub enum GraphemeWidth {
    Half,
    Full,
}

impl GraphemeWidth {
    pub open spec fn columns(self) -> nat {
        match self {
            GraphemeWidth::Half => 1,
            GraphemeWidth::Full => 2,
        }
    }
}

/// Zero-width text shows as a middle dot taking one column; text of two or
/// more columns counts as full width.
pub open spec fn fragment_width(g: Seq<char>) -> GraphemeWidth {
    if display_width(g) >= 2 {
        GraphemeWidth::Full
    } else {
        GraphemeWidth::Half
    }
}

pub open spec fn fragment_replacement(g: Seq<char>) -> Option<char> {
    if display_width(g) == 0 {
        Some('·')
    } else {
        None
    }
}

#[derive(Debug)]
pub struct TextFragment {
    pub grapheme: String,
    pub rendered_width: GraphemeWidth,
    pub replacement: Option<char>,
}

impl TextFragment {
    /// What the fragment shows: its replacement where it has one.
    pub open spec fn shown(&self) -> Seq<char> {
        match self.replacement {
            Some(c) => seq![c],
            None => self.grapheme@,
        }
    }

    pub open spec fn describes(&self, g: Seq<char>) -> bool {
        &&& self.grapheme@ == g
        &&& self.rendered_width == fragment_width(g)
        &&& self.replacement == fragment_replacement(g)
    }

    pub fn get_character(&self) -> (r: String)
        ensures
            r@ == self.shown(),
    {
        match self.replacement {
            Some(character) => crate::text::string_of_char(character),
            None => self.grapheme.clone(),
        }
    }

    pub fn new(grapheme: String) -> (r: TextFragment)
        ensures
            r.describes(grapheme@),
    {
        let width = width_of(grapheme.as_str());
        let mut replacement = None;
        let rendered_width = if width == 0 {
            replacement = Some('·');
            GraphemeWidth::Half
        } else if width == 1 {
            GraphemeWidth::Half
        } else {
            GraphemeWidth::Full
        };
        TextFragment { grapheme, rendered_width, replacement }
    }

    /// Columns the fragment takes.
    pub fn len(&self) -> (r: usize)
        ensures
            r == self.rendered_width.columns(),
    {
        match self.rendered_width {
            GraphemeWidth::Full => 2,
            GraphemeWidth::Half => 1,
        }
    }
}

} // verus!
