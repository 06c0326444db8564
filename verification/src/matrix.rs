//! The synergy matrix: a mapping from ordered pairs of module names to a
//! connection strength in micro-units.
//!
//! The matrix is kept as a vector of entries; a lookup takes the first entry
//! whose pair of names matches.  `mat_set` updates the first matching entry
//! in place, or appends one, so a pair never gains a second live entry.

use vstd::prelude::*;

verus! {

pub struct MatrixEntry {
    pub from: String,
    pub to: String,
    pub strength_micro: u64,
}

pub open spec fn entry_matches(e: MatrixEntry, x: Seq<char>, y: Seq<char>) -> bool {
    e.from@ == x && e.to@ == y
}

/// The strength stored for the ordered pair `(x, y)`, if any.
pub open spec fn mat_strength(s: Seq<MatrixEntry>, x: Seq<char>, y: Seq<char>) -> Option<u64>
    decreases s.len(),
{
    if s.len() == 0 {
        None
    } else if entry_matches(s[0], x, y) {
        Some(s[0].strength_micro)
    } else {
        mat_strength(s.skip(1), x, y)
    }
}

/// `j` is the first index of `s` whose entry is for the pair `(x, y)`.
pub open spec fn is_first_match(s: Seq<MatrixEntry>, x: Seq<char>, y: Seq<char>, j: int) -> bool {
    &&& 0 <= j < s.len()
    &&& entry_matches(s[j], x, y)
    &&& forall|k: int| 0 <= k < j ==> !entry_matches(s[k], x, y)
}

/// How `mat_strength` relates to the entries of the vector.
pub proof fn lemma_mat_strength_first(s: Seq<MatrixEntry>, x: Seq<char>, y: Seq<char>)
    ensures
        (mat_strength(s, x, y) is None) <==> (forall|k: int|
            0 <= k < s.len() ==> !entry_matches(s[k], x, y)),
        forall|j: int| is_first_match(s, x, y, j) ==> mat_strength(s, x, y) == Some(
            s[j].strength_micro,
        ),
        (mat_strength(s, x, y) is Some) ==> exists|j: int|
            is_first_match(s, x, y, j) && mat_strength(s, x, y) == Some(s[j].strength_micro),
    decreases s.len(),
{
    if s.len() == 0 {
    } else if entry_matches(s[0], x, y) {
        assert(is_first_match(s, x, y, 0));
    } else {
        let t = s.skip(1);
        lemma_mat_strength_first(t, x, y);
        assert(forall|k: int| 0 <= k < t.len() ==> t[k] == s[k + 1]);
        if mat_strength(s, x, y) is None {
            assert forall|k: int| 0 <= k < s.len() implies !entry_matches(s[k], x, y) by {
                if k > 0 {
                    assert(!entry_matches(t[k - 1], x, y));
                }
            }
        }
        assert forall|j: int| is_first_match(s, x, y, j) implies mat_strength(s, x, y) == Some(
            s[j].strength_micro,
        ) by {
            assert(j > 0);
            assert(is_first_match(t, x, y, j - 1));
        }
        if mat_strength(s, x, y) is Some {
            assert(mat_strength(t, x, y) is Some);
            let j = choose|j: int|
                is_first_match(t, x, y, j) && mat_strength(t, x, y) == Some(t[j].strength_micro);
            assert(is_first_match(t, x, y, j));
            assert(entry_matches(s[j + 1], x, y));
            assert forall|k: int| 0 <= k < j + 1 implies !entry_matches(s[k], x, y) by {
                if k > 0 {
                    assert(!entry_matches(t[k - 1], x, y));
                }
            }
            assert(is_first_match(s, x, y, j + 1));
        }
    }
}

fn mat_find(s: &Vec<MatrixEntry>, x: &String, y: &String) -> (r: Option<usize>)
    ensures
        match r {
            Some(i) => is_first_match(s@, x@, y@, i as int),
            None => forall|k: int| 0 <= k < s@.len() ==> !entry_matches(s@[k], x@, y@),
        },
{
    let n = s.len();
    for i in 0..n
        invariant
            n == s@.len(),
            forall|k: int| 0 <= k < i ==> !entry_matches(s@[k], x@, y@),
    {
        if s[i].from.eq(x) && s[i].to.eq(y) {
            return Some(i);
        }
    }
    None
}

/// Read the strength stored for the ordered pair `(x, y)`.
pub fn mat_get(s: &Vec<MatrixEntry>, x: &String, y: &String) -> (r: Option<u64>)
    ensures
        r == mat_strength(s@, x@, y@),
{
    proof {
        lemma_mat_strength_first(s@, x@, y@);
    }
    match mat_find(s, x, y) {
        Some(i) => Some(s[i].strength_micro),
        None => None,
    }
}

/// Store strength `v` for the ordered pair `(x, y)`, leaving every other
/// pair's strength as it was.
pub fn mat_set(s: &mut Vec<MatrixEntry>, x: String, y: String, v: u64)
    ensures
        mat_strength(final(s)@, x@, y@) == Some(v),
        forall|p: Seq<char>, q: Seq<char>|
            !(p == x@ && q == y@) ==> #[trigger] mat_strength(final(s)@, p, q) == mat_strength(
                old(s)@,
                p,
                q,
            ),
        final(s)@.len() <= old(s)@.len() + 1,
{
    let ghost before = s@;
    let found = mat_find(s, &x, &y);
    let ghost xv = x@;
    let ghost yv = y@;
    let e = MatrixEntry { from: x, to: y, strength_micro: v };
    match found {
        Some(i) => {
            s[i] = e;
        },
        None => {
            s.push(e);
        },
    }
    proof {
        let after = s@;
        match found {
            Some(i) => {
                assert(is_first_match(after, xv, yv, i as int));
            },
            None => {
                assert(forall|k: int| 0 <= k < before.len() ==> after[k] == before[k]);
                assert(is_first_match(after, xv, yv, before.len() as int));
            },
        }
        lemma_mat_strength_first(after, xv, yv);
        assert forall|p: Seq<char>, q: Seq<char>| !(p == xv && q == yv) implies #[trigger] mat_strength(
            after,
            p,
            q,
        ) == mat_strength(before, p, q) by {
            lemma_mat_strength_first(before, p, q);
            lemma_mat_strength_first(after, p, q);
            if mat_strength(before, p, q) is Some {
                let j = choose|j: int|
                    is_first_match(before, p, q, j) && mat_strength(before, p, q) == Some(
                        before[j].strength_micro,
                    );
                assert(is_first_match(after, p, q, j));
            } else {
                assert forall|k: int| 0 <= k < after.len() implies !entry_matches(
                    after[k],
                    p,
                    q,
                ) by {
                    if k < before.len() {
                        assert(!entry_matches(before[k], p, q));
                    }
                }
            }
        }
    }
}

} // verus!
