//! Vectors of module names treated as sets (unordered, no duplicates added).

use vstd::prelude::*;

verus! {

/// The views of a sequence of strings.
pub open spec fn deep_view(s: Seq<String>) -> Seq<Seq<char>> {
    s.map(|i: int, x: String| x@)
}

/// Whether some string in `s` has view `x`.
pub open spec fn contains_name(s: Seq<String>, x: Seq<char>) -> bool {
    exists|i: int| 0 <= i < s.len() && s[i]@ == x
}

/// `new` is `old` with a string of view `x` added if none was there.
pub open spec fn is_insert_name(old: Seq<String>, new: Seq<String>, x: Seq<char>) -> bool {
    if contains_name(old, x) {
        new == old
    } else {
        &&& new.len() == old.len() + 1
        &&& new.subrange(0, old.len() as int) == old
        &&& new[old.len() as int]@ == x
    }
}

/// Inserting never removes a member, and afterwards `x` is a member.
pub proof fn lemma_insert_name_monotone(s0: Seq<String>, s1: Seq<String>, x: Seq<char>)
    requires
        is_insert_name(s0, s1, x),
    ensures
        contains_name(s1, x),
        forall|y: Seq<char>| contains_name(s0, y) ==> contains_name(s1, y),
{
    if contains_name(s0, x) {
    } else {
        assert(s1[s0.len() as int]@ == x);
        assert forall|y: Seq<char>| contains_name(s0, y) implies contains_name(s1, y) by {
            let i = choose|i: int| 0 <= i < s0.len() && s0[i]@ == y;
            assert(s1.subrange(0, s0.len() as int)[i] == s0[i]);
            assert(s1[i]@ == y);
        }
    }
}

/// Inserting adds no member but `x`.
pub proof fn lemma_insert_name_members(s0: Seq<String>, s1: Seq<String>, x: Seq<char>)
    requires
        is_insert_name(s0, s1, x),
    ensures
        forall|y: Seq<char>| contains_name(s1, y) ==> contains_name(s0, y) || y == x,
{
    if !contains_name(s0, x) {
        assert forall|y: Seq<char>| contains_name(s1, y) implies contains_name(s0, y) || y
            == x by {
            let i = choose|i: int| 0 <= i < s1.len() && s1[i]@ == y;
            if i < s0.len() {
                assert(s1.subrange(0, s0.len() as int)[i] == s1[i]);
                assert(s0[i]@ == y);
            }
        }
    }
}

pub fn vec_contains_name(v: &Vec<String>, x: &String) -> (r: bool)
    ensures
        r == contains_name(v@, x@),
{
    let n = v.len();
    for i in 0..n
        invariant
            n == v@.len(),
            forall|j: int| 0 <= j < i ==> v@[j]@ != x@,
    {
        if v[i].eq(x) {
            return true;
        }
    }
    false
}

pub fn insert_name(v: &mut Vec<String>, x: String)
    ensures
        is_insert_name(old(v)@, final(v)@, x@),
{
    if !vec_contains_name(v, &x) {
        let ghost before = v@;
        v.push(x);
        proof {
            assert(final(v)@.subrange(0, before.len() as int) =~= before);
        }
    }
}

pub fn clone_strings(v: &Vec<String>) -> (r: Vec<String>)
    ensures
        r@ == v@,
{
    let mut r: Vec<String> = Vec::new();
    let n = v.len();
    for i in 0..n
        invariant
            n == v@.len(),
            r@ =~= v@.subrange(0, i as int),
    {
        r.push(v[i].clone());
    }
    proof {
        assert(r@ =~= v@);
    }
    r
}

/// Append a copy of every string in `src` to `dst`, in order.
pub fn push_all(dst: &mut Vec<String>, src: &Vec<String>)
    ensures
        final(dst)@ == old(dst)@ + src@,
{
    let ghost base = dst@;
    let n = src.len();
    for i in 0..n
        invariant
            n == src@.len(),
            dst@ == base + src@.take(i as int),
    {
        let ghost prev = dst@;
        dst.push(src[i].clone());
        proof {
            assert(dst@ =~= base + src@.take(i + 1));
        }
    }
    proof {
        assert(src@.take(n as int) =~= src@);
        assert(dst@ =~= base + src@);
    }
}

} // verus!
