//! Exact substring matching over character sequences.
use vstd::prelude::*;

verus! {

broadcast use vstd::seq::group_seq_axioms;

/// `q` occurs in `text` starting at position `p`.
pub open spec fn matches_at(text: Seq<char>, q: Seq<char>, p: int) -> bool {
    0 <= p && p + q.len() <= text.len() && text.subrange(p, p + q.len()) == q
}

/// Where a scan for `q` continues after a match at `p`.
pub open spec fn after_match(q: Seq<char>, p: int) -> int {
    if q.len() == 0 {
        p + 1
    } else {
        p + q.len()
    }
}

/// Start positions of the matches of `q` found by scanning from `from` to
/// the end, each match resuming the scan where it ends.
pub open spec fn match_positions(text: Seq<char>, q: Seq<char>, from: int) -> Seq<int>
    decreases text.len() + 1 - from,
{
    if from < 0 || from > text.len() {
        seq![]
    } else if matches_at(text, q, from) {
        seq![from] + match_positions(text, q, after_match(q, from))
    } else {
        match_positions(text, q, from + 1)
    }
}

/// The first position at or after `from` where `q` occurs.
pub open spec fn first_match_from(text: Seq<char>, q: Seq<char>, from: int) -> Option<int>
    decreases text.len() + 1 - from,
{
    if from < 0 || from > text.len() {
        None
    } else if matches_at(text, q, from) {
        Some(from)
    } else {
        first_match_from(text, q, from + 1)
    }
}

/// The last position at or before `p` where `q` occurs.
pub open spec fn last_match_at_or_before(text: Seq<char>, q: Seq<char>, p: int) -> Option<int>
    decreases p + 1,
{
    if p < 0 {
        None
    } else if matches_at(text, q, p) {
        Some(p)
    } else {
        last_match_at_or_before(text, q, p - 1)
    }
}

/// The last occurrence of `q` that ends at or before position `end`.
pub open spec fn last_match_before(text: Seq<char>, q: Seq<char>, end: int) -> Option<int> {
    last_match_at_or_before(text.take(end), q, end - q.len())
}

/// An optional position, as a mathematical integer.
pub open spec fn as_int(o: Option<usize>) -> Option<int> {
    match o {
        Some(p) => Some(p as int),
        None => None,
    }
}

/// The scan's first match lies at or after where it starts, is a match,
/// and the rest of the scan resumes after it.
pub proof fn lemma_match_positions_head(text: Seq<char>, q: Seq<char>, from: int)
    requires
        match_positions(text, q, from).len() > 0,
    ensures
        ({
            let ms = match_positions(text, q, from);
            &&& from <= ms[0]
            &&& matches_at(text, q, ms[0])
            &&& ms.drop_first() == match_positions(text, q, after_match(q, ms[0]))
        }),
    decreases text.len() + 1 - from,
{
    if from < 0 || from > text.len() {
    } else if matches_at(text, q, from) {
        let ms = match_positions(text, q, from);
        assert(ms.drop_first() =~= match_positions(text, q, after_match(q, from)));
    } else {
        lemma_match_positions_head(text, q, from + 1);
    }
}

pub fn matches_at_exec(text: &Vec<char>, q: &Vec<char>, p: usize) -> (r: bool)
    ensures
        r == matches_at(text@, q@, p as int),
{
    if p > text.len() || q.len() > text.len() - p {
        return false;
    }
    let mut i: usize = 0;
    while i < q.len()
        invariant
            p + q@.len() <= text@.len(),
            text@.len() == text.len(),
            i <= q@.len(),
            forall|j: int| 0 <= j < i ==> text@[p + j] == q@[j],
        decreases q@.len() - i,
    {
        if text[p + i] != q[i] {
            proof {
                assert(text@.subrange(p as int, p + q@.len())[i as int] != q@[i as int]);
            }
            return false;
        }
        i += 1;
    }
    proof {
        assert(text@.subrange(p as int, p + q@.len()) =~= q@);
    }
    true
}

/// Start positions of the matches of `q` in `text`, scanning from the
/// start and resuming after each match.
pub fn match_starts(text: &Vec<char>, q: &Vec<char>) -> (r: Vec<usize>)
    ensures
        r@.map_values(|p: usize| p as int) == match_positions(text@, q@, 0),
{
    let n = text.len();
    let mut r: Vec<usize> = Vec::new();
    let mut p: usize = 0;
    let mut finished = false;
    while !finished
        invariant
            n == text@.len(),
            p <= n,
            !finished ==> match_positions(text@, q@, 0) == r@.map_values(|p: usize| p as int)
                + match_positions(text@, q@, p as int),
            finished ==> match_positions(text@, q@, 0) == r@.map_values(|p: usize| p as int),
        decreases n - p + (if finished { 0int } else { 1int }),
    {
        let ghost before = r@;
        if matches_at_exec(text, q, p) {
            r.push(p);
            proof {
                assert(r@.map_values(|p: usize| p as int) =~= before.map_values(|p: usize| p as int)
                    + seq![p as int]);
            }
            let step: usize = if q.len() == 0 {
                1
            } else {
                q.len()
            };
            if step > n - p {
                finished = true;
                proof {
                    assert(match_positions(text@, q@, after_match(q@, p as int)) == Seq::<int>::empty());
                }
            } else {
                p = p + step;
            }
            proof {
                assert(r@.map_values(|p: usize| p as int) + match_positions(text@, q@, p as int)
                    =~= before.map_values(|p: usize| p as int) + (seq![(r@.last()) as int]
                    + match_positions(text@, q@, p as int)));
            }
        } else if p == n {
            finished = true;
            proof {
                assert(match_positions(text@, q@, p + 1) == Seq::<int>::empty());
                assert(r@.map_values(|p: usize| p as int) + Seq::<int>::empty() =~= r@.map_values(
                    |p: usize| p as int,
                ));
            }
        } else {
            p = p + 1;
        }
    }
    r
}

/// The first position at or after `from` where `q` occurs.
pub fn find_from(text: &Vec<char>, q: &Vec<char>, from: usize) -> (r: Option<usize>)
    ensures
        as_int(r) == first_match_from(text@, q@, from as int),
{
    let n = text.len();
    if from > n {
        return None;
    }
    let mut p = from;
    while p < n && !matches_at_exec(text, q, p)
        invariant
            n == text@.len(),
            from <= p <= n,
            first_match_from(text@, q@, from as int) == first_match_from(text@, q@, p as int),
        decreases n - p,
    {
        p = p + 1;
    }
    if matches_at_exec(text, q, p) {
        Some(p)
    } else {
        proof {
            assert(first_match_from(text@, q@, p + 1) == None::<int>);
        }
        None
    }
}

/// The last occurrence of `q` that ends at or before position `end`.
pub fn rfind_before(text: &Vec<char>, q: &Vec<char>, end: usize) -> (r: Option<usize>)
    requires
        end <= text@.len(),
    ensures
        as_int(r) == last_match_before(text@, q@, end as int),
{
    let ghost prefix = text@.take(end as int);
    if q.len() > end {
        return None;
    }
    let mut p = end - q.len();
    loop
        invariant
            end <= text@.len(),
            q@.len() <= end,
            prefix == text@.take(end as int),
            p + q@.len() <= end,
            last_match_before(text@, q@, end as int) == last_match_at_or_before(prefix, q@, p as int),
        decreases p,
    {
        let hit = matches_at_exec(text, q, p);
        proof {
            assert(matches_at(prefix, q@, p as int) == hit) by {
                if p + q@.len() <= end {
                    assert(prefix.subrange(p as int, p + q@.len()) =~= text@.subrange(
                        p as int,
                        p + q@.len(),
                    ));
                }
            }
        }
        if hit {
            return Some(p);
        }
        if p == 0 {
            proof {
                assert(last_match_at_or_before(prefix, q@, -1) == None::<int>);
            }
            return None;
        }
        p = p - 1;
    }
}

} // verus!
