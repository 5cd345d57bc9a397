//! The status line: file name, line count and cursor line.
use vstd::prelude::*;
use vstd::string::StringExecFns;

use crate::documentstatus::{name_view, DocumentStatus};
use crate::geometry::Size;
use crate::text::{chars_of, decimal, decimal_spec, push_spaces, spaces};
use crate::view::sat_sub;

verus! {

broadcast use vstd::seq::group_seq_axioms;

/// The left part of the status line.
pub open spec fn left_status(status: DocumentStatus) -> Seq<char> {
    let name = match name_view(status.file_name) {
        Some(n) => n,
        None => "New Document"@,
    };
    let modified = if status.is_modified {
        "(modified)"@
    } else {
        ""@
    };
    name + " - "@ + decimal_spec(status.total_lines as nat) + " lines "@ + modified
}

/// The right part: cursor line over line count.
pub open spec fn right_status(status: DocumentStatus) -> Seq<char> {
    decimal_spec(status.current_line_index as nat) + "/"@ + decimal_spec(status.total_lines as nat)
}

/// The status line for a given width: the left part, then the right part
/// pushed to the right edge where there is room.
pub open spec fn status_line(status: DocumentStatus, width: int) -> Seq<char> {
    let left = left_status(status);
    let right = right_status(status);
    left + spaces(sat_sub(sat_sub(width, left.len() as int), right.len() as int) as nat) + right
}

pub struct StatusBar {
    current_status: DocumentStatus,
    needs_redraw: bool,
    margin_bottom: usize,
    width: usize,
    position_y: usize,
}

impl StatusBar {
    pub closed spec fn status(&self) -> DocumentStatus {
        self.current_status
    }

    pub closed spec fn dirty(&self) -> bool {
        self.needs_redraw
    }

    pub closed spec fn width_spec(&self) -> usize {
        self.width
    }

    pub closed spec fn row(&self) -> usize {
        self.position_y
    }

    pub closed spec fn margin(&self) -> usize {
        self.margin_bottom
    }

    /// A status bar `margin_bottom` rows above the bottom of a screen of
    /// `size`.
    pub fn new(margin_bottom: usize, size: Size) -> (r: StatusBar)
        ensures
            r.margin() == margin_bottom,
            r.width_spec() == size.width,
            r.row() == sat_sub(sat_sub(size.height as int, margin_bottom as int), 1),
            r.dirty(),
            r.status() == DocumentStatus::default_spec(),
    {
        StatusBar {
            current_status: DocumentStatus::default(),
            needs_redraw: true,
            margin_bottom,
            width: size.width,
            position_y: size.height.saturating_sub(margin_bottom).saturating_sub(1),
        }
    }

    pub fn resize(&mut self, size: Size)
        ensures
            final(self).margin() == old(self).margin(),
            final(self).width_spec() == size.width,
            final(self).row() == sat_sub(sat_sub(size.height as int, old(self).margin() as int), 1),
            final(self).dirty(),
            final(self).status() == old(self).status(),
    {
        self.width = size.width;
        self.position_y = size.height.saturating_sub(self.margin_bottom).saturating_sub(1);
        self.needs_redraw = true;
    }

    /// Shows `new_status`; marks the bar for redrawing when it differs.
    pub fn update_status(&mut self, new_status: DocumentStatus)
        ensures
            final(self).margin() == old(self).margin(),
            final(self).width_spec() == old(self).width_spec(),
            final(self).row() == old(self).row(),
            old(self).status().same_as(&new_status) ==> *final(self) == *old(self),
            !old(self).status().same_as(&new_status) ==> final(self).status() == new_status
                && final(self).dirty(),
    {
        if new_status != self.current_status {
            self.current_status = new_status;
            self.needs_redraw = true;
        }
    }

    /// The row and text to draw, where the bar needs redrawing; clears
    /// that need.
    pub fn render(&mut self) -> (r: Option<(usize, String)>)
        ensures
            !old(self).dirty() ==> r is None && *final(self) == *old(self),
            old(self).dirty() ==> !final(self).dirty() && match r {
                Some((row, text)) => row == old(self).row() && text@ == status_line(
                    old(self).status(),
                    old(self).width_spec() as int,
                ),
                None => false,
            },
            final(self).status() == old(self).status(),
            final(self).width_spec() == old(self).width_spec(),
            final(self).row() == old(self).row(),
            final(self).margin() == old(self).margin(),
    {
        if !self.needs_redraw {
            return None;
        }
        let status = &self.current_status;
        let mut left = match &status.file_name {
            Some(file_name) => file_name.clone(),
            None => "New Document".to_owned(),
        };
        left.append(" - ");
        let count = decimal(status.total_lines);
        left.append(count.as_str());
        left.append(" lines ");
        if status.is_modified {
            left.append("(modified)");
        }
        let mut right = decimal(status.current_line_index);
        right.append("/");
        let total = decimal(status.total_lines);
        right.append(total.as_str());
        let left_len = chars_of(left.as_str()).len();
        let right_len = chars_of(right.as_str()).len();
        let padding = self.width.saturating_sub(left_len).saturating_sub(right_len);
        let mut line = left;
        push_spaces(&mut line, padding);
        line.append(right.as_str());
        proof {
            reveal_strlit("");
            let st = self.current_status;
            let name = match name_view(st.file_name) {
                Some(n) => n,
                None => "New Document"@,
            };
            let base = name + " - "@ + decimal_spec(st.total_lines as nat) + " lines "@;
            if !st.is_modified {
                assert(left@ =~= base);
                assert(base + ""@ =~= base);
            }
        }
        self.needs_redraw = false;
        Some((self.position_y, line))
    }
}

impl DocumentStatus {
    pub open spec fn default_spec() -> DocumentStatus {
        DocumentStatus { total_lines: 0, current_line_index: 0, is_modified: false, file_name: None }
    }
}

} // verus!
