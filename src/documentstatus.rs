//! What the status line reports about the document.
use vstd::prelude::*;

verus! {

pub struct DocumentStatus {
    pub total_lines: usize,
    pub current_line_index: usize,
    pub is_modified: bool,
    pub file_name: Option<String>,
}

pub open spec fn name_view(n: Option<String>) -> Option<Seq<char>> {
    match n {
        Some(s) => Some(s@),
        None => None,
    }
}

impl DocumentStatus {
    pub open spec fn same_as(&self, other: &DocumentStatus) -> bool {
        &&& self.total_lines == other.total_lines
        &&& self.current_line_index == other.current_line_index
        &&& self.is_modified == other.is_modified
        &&& name_view(self.file_name) == name_view(other.file_name)
    }
}

impl PartialEq for DocumentStatus {
    fn eq(&self, other: &DocumentStatus) -> (r: bool) {
        let same_name = match (&self.file_name, &other.file_name) {
            (Some(a), Some(b)) => a.eq(b),
            (None, None) => true,
            _ => false,
        };
        self.total_lines == other.total_lines && self.current_line_index
            == other.current_line_index && self.is_modified == other.is_modified && same_name
    }
}

impl vstd::std_specs::cmp::PartialEqSpecImpl for DocumentStatus {
    open spec fn obeys_eq_spec() -> bool {
        true
    }

    open spec fn eq_spec(&self, other: &DocumentStatus) -> bool {
        self.same_as(other)
    }
}

impl Default for DocumentStatus {
    fn default() -> (r: DocumentStatus)
        ensures
            r.total_lines == 0,
            r.current_line_index == 0,
            !r.is_modified,
            r.file_name is None,
    {
        DocumentStatus { total_lines: 0, current_line_index: 0, is_modified: false, file_name: None }
    }
}

} // verus!
