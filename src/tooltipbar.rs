//! A one-line bar a fixed number of rows above the bottom of the screen.
use vstd::prelude::*;

use crate::geometry::Size;

verus! {

/// A row to draw: where, what, and whether in reverse video.
pub struct BarRow {
    pub row: usize,
    pub text: String,
    pub inverted: bool,
}

pub struct TooltipBar {
    pub current_message: String,
    inverted: bool,
    needs_redraw: bool,
    margin_bottom: usize,
    width: usize,
    position_y: usize,
    is_visible: bool,
}

impl TooltipBar {
    pub closed spec fn message(&self) -> Seq<char> {
        self.current_message@
    }

    pub closed spec fn dirty(&self) -> bool {
        self.needs_redraw
    }

    pub closed spec fn visible(&self) -> bool {
        self.is_visible
    }

    pub closed spec fn row(&self) -> usize {
        self.position_y
    }

    pub closed spec fn width_spec(&self) -> usize {
        self.width
    }

    pub closed spec fn margin(&self) -> usize {
        self.margin_bottom
    }

    pub closed spec fn is_inverted(&self) -> bool {
        self.inverted
    }

    /// An empty bar laid out on a screen of `size`.
    pub fn new(inverted: bool, margin_bottom: usize, size: Size) -> (r: TooltipBar)
        ensures
            r.message() == Seq::<char>::empty(),
            r.is_inverted() == inverted,
            r.margin() == margin_bottom,
            r.width_spec() == size.width,
            r.visible() == (size.height > margin_bottom),
            r.visible() ==> r.row() == size.height - margin_bottom - 1,
            !r.visible() ==> r.row() == 0,
            r.dirty(),
    {
        let mut tooltip_bar = TooltipBar {
            current_message: String::new(),
            inverted,
            needs_redraw: true,
            margin_bottom,
            width: size.width,
            position_y: 0,
            is_visible: false,
        };
        tooltip_bar.resize(size);
        tooltip_bar
    }

    /// Lays the bar out on a screen of `size`: it shows only where the
    /// screen is taller than the margin.
    pub fn resize(&mut self, size: Size)
        ensures
            final(self).message() == old(self).message(),
            final(self).is_inverted() == old(self).is_inverted(),
            final(self).margin() == old(self).margin(),
            final(self).width_spec() == size.width,
            final(self).visible() == (size.height > old(self).margin()),
            final(self).visible() ==> final(self).row() == size.height - old(self).margin() - 1,
            !final(self).visible() ==> final(self).row() == 0,
            final(self).dirty(),
    {
        self.width = size.width;
        let mut position_y: usize = 0;
        let mut is_visible = false;
        if let Some(above_margin) = size.height.checked_sub(self.margin_bottom) {
            if let Some(result) = above_margin.checked_sub(1) {
                position_y = result;
                is_visible = true;
            }
        }
        self.position_y = position_y;
        self.is_visible = is_visible;
        self.needs_redraw = true;
    }

    /// The row to draw, where the bar is visible and needs redrawing.
    pub fn render(&mut self) -> (r: Option<BarRow>)
        ensures
            *final(self) == *old(self),
            !old(self).dirty() || !old(self).visible() ==> r is None,
            old(self).dirty() && old(self).visible() ==> match r {
                Some(b) => b.row == old(self).row() && b.text@ == old(self).message()
                    && b.inverted == old(self).is_inverted(),
                None => false,
            },
    {
        if !self.needs_redraw || !self.is_visible {
            return None;
        }
        Some(
            BarRow {
                row: self.position_y,
                text: self.current_message.clone(),
                inverted: self.inverted,
            },
        )
    }

    pub fn flag_dirty(&mut self)
        ensures
            final(self).dirty(),
            final(self).message() == old(self).message(),
            final(self).visible() == old(self).visible(),
            final(self).row() == old(self).row(),
            final(self).width_spec() == old(self).width_spec(),
            final(self).is_inverted() == old(self).is_inverted(),
    {
        self.needs_redraw = true;
    }
}

} // verus!
