//! A read-only document of text rows.
use vstd::prelude::*;

verus! {

pub struct Buffer {
    buffer: Vec<String>,
}

impl Buffer {
    pub closed spec fn rows(&self) -> Seq<Seq<char>> {
        self.buffer@.map_values(|s: String| s@)
    }

    /// An empty document.
    pub fn default() -> (r: Buffer)
        ensures
            r.rows() == Seq::<Seq<char>>::empty(),
    {
        let r = Buffer { buffer: Vec::new() };
        proof {
            assert(r.rows() =~= Seq::<Seq<char>>::empty());
        }
        r
    }

    /// A document with the given rows.
    pub fn from_rows(rows: Vec<String>) -> (r: Buffer)
        ensures
            r.rows() == rows@.map_values(|s: String| s@),
    {
        Buffer { buffer: rows }
    }

    /// Row `row`, where there is one.
    pub fn get_row(&self, row: usize) -> (r: Option<&str>)
        ensures
            row < self.rows().len() ==> r is Some && r->0@ == self.rows()[row as int],
            row >= self.rows().len() ==> r is None,
    {
        if row < self.buffer.len() {
            return Some(self.buffer[row].as_str());
        }
        None
    }
}

} // verus!
