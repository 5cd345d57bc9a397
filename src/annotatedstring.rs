//! A display string with byte-range annotations that mark search matches.
use vstd::prelude::*;
use vstd::string::StringSliceAdditionalSpecFns;
use vstd::utf8::*;

verus! {

broadcast use vstd::seq::group_seq_axioms;

#[derive(Copy, Clone, Debug, PartialEq, Eq, Structural)]
pub enum AnnotationType {
    Plain,
    Highlight,
}

impl Default for AnnotationType {
    fn default() -> (r: AnnotationType)
        ensures
            r == AnnotationType::Plain,
    {
        AnnotationType::Plain
    }
}

/// A piece of an annotated string, with the annotation that covers it.
#[derive(Clone)]
pub struct AnnotatedFragment {
    pub string: String,
    pub annotation_type: AnnotationType,
}

impl AnnotatedFragment {
    pub fn new(string: &str, annotation_type: AnnotationType) -> (r: AnnotatedFragment)
        ensures
            r.string@ == string@,
            r.annotation_type == annotation_type,
    {
        AnnotatedFragment { string: string.to_owned(), annotation_type }
    }
}

/// The bytes `[start_byte_idx, end_byte_idx)` of a string, tagged.
#[derive(Copy, Clone, Debug)]
pub struct Annotation {
    pub start_byte_idx: usize,
    pub end_byte_idx: usize,
    pub annotation_type: AnnotationType,
}

impl Annotation {
    pub fn new(start_byte_idx: usize, end_byte_idx: usize, annotation_type: AnnotationType) -> (r:
        Annotation)
        ensures
            r.start_byte_idx == start_byte_idx,
            r.end_byte_idx == end_byte_idx,
            r.annotation_type == annotation_type,
    {
        Annotation { start_byte_idx, end_byte_idx, annotation_type }
    }
}

/// An annotation fits a string when it starts inside it, does not run
/// backwards or past its end, and both ends fall between characters.
pub open spec fn fits(a: Annotation, bytes: Seq<u8>) -> bool {
    &&& a.start_byte_idx < bytes.len()
    &&& a.start_byte_idx <= a.end_byte_idx <= bytes.len()
    &&& is_char_boundary(bytes, a.start_byte_idx as int)
    &&& is_char_boundary(bytes, a.end_byte_idx as int)
}

/// A string together with annotations over its bytes.
#[derive(Clone)]
pub struct AnnotatedString {
    string: String,
    annotations: Vec<Annotation>,
}

proof fn lemma_boundary_in_suffix(bytes: Seq<u8>, a: int, b: int)
    requires
        valid_utf8(bytes),
        0 <= a <= b <= bytes.len(),
        is_char_boundary(bytes, a),
        is_char_boundary(bytes, b),
    ensures
        valid_utf8(bytes.subrange(a, bytes.len() as int)),
        is_char_boundary(bytes.subrange(a, bytes.len() as int), b - a),
{
    let sub = bytes.subrange(a, bytes.len() as int);
    valid_utf8_split(bytes, a);
    if b == a {
    } else if b == bytes.len() {
        is_char_boundary_start_end_of_seq(sub);
    } else {
        is_char_boundary_iff_not_is_continuation_byte(sub, b - a);
        is_char_boundary_iff_not_is_continuation_byte(bytes, b);
    }
}

impl AnnotatedString {
    pub closed spec fn text(&self) -> Seq<char> {
        self.string@
    }

    pub closed spec fn annotations_spec(&self) -> Seq<Annotation> {
        self.annotations@
    }

    pub open spec fn bytes(&self) -> Seq<u8> {
        encode_utf8(self.text())
    }

    pub open spec fn wf(&self) -> bool {
        forall|i: int|
            0 <= i < self.annotations_spec().len() ==> fits(
                #[trigger] self.annotations_spec()[i],
                self.bytes(),
            )
    }

    /// A string with no annotations.
    pub fn new(string: &str) -> (r: AnnotatedString)
        ensures
            r.wf(),
            r.text() == string@,
            r.annotations_spec() == Seq::<Annotation>::empty(),
    {
        AnnotatedString { string: string.to_owned(), annotations: Vec::new() }
    }

    /// Adds `annotation` where it fits the string; otherwise leaves the
    /// annotations as they are.
    pub fn add_annotation(&mut self, annotation: Annotation)
        requires
            old(self).wf(),
        ensures
            final(self).wf(),
            final(self).text() == old(self).text(),
            fits(annotation, old(self).bytes()) ==> final(self).annotations_spec() == old(
                self,
            ).annotations_spec().push(annotation),
            !fits(annotation, old(self).bytes()) ==> final(self).annotations_spec() == old(
                self,
            ).annotations_spec(),
    {
        let s = self.string.as_str();
        let len = s.as_bytes().len();
        if annotation.start_byte_idx < len && annotation.start_byte_idx <= annotation.end_byte_idx
            && annotation.end_byte_idx <= len && s.is_char_boundary(annotation.start_byte_idx)
            && s.is_char_boundary(annotation.end_byte_idx) {
            self.annotations.push(annotation);
            proof {
                let v = self.annotations_spec();
                assert forall|i: int| 0 <= i < v.len() implies fits(#[trigger] v[i], self.bytes()) by {
                    if i < v.len() - 1 {
                        assert(v[i] == old(self).annotations_spec()[i]);
                    }
                }
            }
        }
    }

    /// The annotated pieces in order: the bytes of each annotation, with its
    /// type.
    pub fn get_annotated_fragments(&self) -> (r: Vec<AnnotatedFragment>)
        requires
            self.wf(),
        ensures
            r@.len() == self.annotations_spec().len(),
            forall|i: int|
                0 <= i < r@.len() ==> {
                    let a = #[trigger] self.annotations_spec()[i];
                    &&& encode_utf8(r@[i].string@) == self.bytes().subrange(
                        a.start_byte_idx as int,
                        a.end_byte_idx as int,
                    )
                    &&& r@[i].annotation_type == a.annotation_type
                },
    {
        let s = self.string.as_str();
        let mut r: Vec<AnnotatedFragment> = Vec::new();
        let mut i: usize = 0;
        while i < self.annotations.len()
            invariant
                self.wf(),
                s@ == self.text(),
                i <= self.annotations_spec().len(),
                r@.len() == i,
                forall|j: int|
                    0 <= j < i ==> {
                        let a = #[trigger] self.annotations_spec()[j];
                        &&& encode_utf8(r@[j].string@) == self.bytes().subrange(
                            a.start_byte_idx as int,
                            a.end_byte_idx as int,
                        )
                        &&& r@[j].annotation_type == a.annotation_type
                    },
            decreases self.annotations_spec().len() - i,
        {
            let a = self.annotations[i];
            proof {
                assert(fits(self.annotations_spec()[i as int], self.bytes()));
                encode_utf8_valid_utf8(self.text());
                lemma_boundary_in_suffix(
                    self.bytes(),
                    a.start_byte_idx as int,
                    a.end_byte_idx as int,
                );
            }
            let (_, rest) = s.split_at(a.start_byte_idx);
            let (piece, _) = rest.split_at(a.end_byte_idx - a.start_byte_idx);
            proof {
                assert(piece.spec_bytes() =~= self.bytes().subrange(
                    a.start_byte_idx as int,
                    a.end_byte_idx as int,
                ));
            }
            r.push(AnnotatedFragment::new(piece, a.annotation_type));
            i += 1;
        }
        r
    }

    pub fn get_display_string(&self) -> (r: &str)
        ensures
            r@ == self.text(),
    {
        self.string.as_str()
    }
}

} // verus!
