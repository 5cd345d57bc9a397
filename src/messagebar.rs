//! The line that shows the latest message to the user.
use vstd::prelude::*;

use crate::geometry::Size;

verus! {

#[verifier::external_type_specification]
#[verifier::external_body]
pub struct ExInstant(std::time::Instant);

/// Relies on `Instant::now`: a reading of the monotonic clock, of which
/// nothing is promised here.
#[verifier::external_body]
fn now() -> std::time::Instant {
    std::time::Instant::now()
}

pub struct MessageBar {
    current_message: String,
    needs_redraw: bool,
    pub instant: std::time::Instant,
}

impl MessageBar {
    pub closed spec fn message(&self) -> Seq<char> {
        self.current_message@
    }

    pub closed spec fn dirty(&self) -> bool {
        self.needs_redraw
    }

    /// Shows `new_message`; where it differs from the current one, marks
    /// the bar for redrawing and restarts its clock.
    pub fn update_message(&mut self, new_message: String)
        ensures
            final(self).message() == new_message@,
            final(self).dirty() == (old(self).dirty() || new_message@ != old(self).message()),
    {
        if new_message != self.current_message {
            self.current_message = new_message;
            self.mark_redraw(true);
            self.instant = now();
        }
    }

    pub fn mark_redraw(&mut self, value: bool)
        ensures
            final(self).dirty() == value,
            final(self).message() == old(self).message(),
    {
        self.needs_redraw = value;
    }

    pub fn needs_redraw(&self) -> (r: bool)
        ensures
            r == self.dirty(),
    {
        self.needs_redraw
    }

    /// A message bar takes no notice of its size.
    pub fn set_size(&mut self, _size: Size)
        ensures
            *final(self) == *old(self),
    {
    }

    /// The text to draw.
    pub fn current_message(&self) -> (r: &str)
        ensures
            r@ == self.message(),
    {
        self.current_message.as_str()
    }
}

impl Default for MessageBar {
    fn default() -> (r: MessageBar)
        ensures
            r.message() == Seq::<char>::empty(),
            !r.dirty(),
    {
        MessageBar { current_message: String::new(), needs_redraw: false, instant: now() }
    }
}

} // verus!
