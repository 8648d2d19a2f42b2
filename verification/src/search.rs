//! Byte-level substring search: leftmost occurrence, shared by the provers.

use vstd::prelude::*;

verus! {

/// Whether `sub` occurs in `doc` starting at index `k`.
pub open spec fn occurs_at(doc: Seq<u8>, sub: Seq<u8>, k: int) -> bool {
    &&& 0 <= k
    &&& k + sub.len() <= doc.len()
    &&& doc.subrange(k, k + sub.len() as int) == sub
}

/// Whether `sub` occurs anywhere in `doc`.
pub open spec fn occurs(doc: Seq<u8>, sub: Seq<u8>) -> bool {
    exists|k: int| occurs_at(doc, sub, k)
}

/// The least index at or after `k` where `sub` occurs in `doc`, or -1.
pub open spec fn find_from(doc: Seq<u8>, sub: Seq<u8>, k: int) -> int
    decreases doc.len() - k,
    when 0 <= k <= doc.len()
{
    if k + sub.len() > doc.len() {
        -1
    } else if sub.len() == 0 || doc.subrange(k, k + sub.len() as int) == sub {
        k
    } else {
        find_from(doc, sub, k + 1)
    }
}

/// The least index where `sub` occurs in `doc`, or -1.
pub open spec fn first_occurrence(doc: Seq<u8>, sub: Seq<u8>) -> int {
    find_from(doc, sub, 0)
}

/// `find_from` returns -1 exactly when no occurrence lies at or after `k`,
/// and otherwise the least occurrence at or after `k`.
pub proof fn lemma_find_from(doc: Seq<u8>, sub: Seq<u8>, k: int)
    requires
        0 <= k <= doc.len(),
    ensures
        find_from(doc, sub, k) == -1 ==> forall|j: int| k <= j ==> !occurs_at(doc, sub, j),
        find_from(doc, sub, k) != -1 ==> occurs_at(doc, sub, find_from(doc, sub, k)) && k
            <= find_from(doc, sub, k) && forall|j: int|
            k <= j < find_from(doc, sub, k) ==> !occurs_at(doc, sub, j),
    decreases doc.len() - k,
{
    if k + sub.len() > doc.len() {
        assert forall|j: int| k <= j implies !occurs_at(doc, sub, j) by {}
    } else if sub.len() == 0 || doc.subrange(k, k + sub.len() as int) == sub {
        if sub.len() == 0 {
            assert(doc.subrange(k, k + sub.len() as int) =~= sub);
        }
    } else {
        lemma_find_from(doc, sub, k + 1);
    }
}

/// The leftmost occurrence is an occurrence, with none before it.
pub proof fn lemma_first_occurrence(doc: Seq<u8>, sub: Seq<u8>)
    ensures
        occurs(doc, sub) <==> first_occurrence(doc, sub) != -1,
        first_occurrence(doc, sub) != -1 ==> occurs_at(doc, sub, first_occurrence(doc, sub))
            && forall|j: int| 0 <= j < first_occurrence(doc, sub) ==> !occurs_at(doc, sub, j),
{
    lemma_find_from(doc, sub, 0);
    if first_occurrence(doc, sub) == -1 {
        assert forall|j: int| !occurs_at(doc, sub, j) by {
            if 0 <= j {
                assert(!occurs_at(doc, sub, j));
            }
        }
    }
}

/// Leftmost byte-level substring search.
#[verifier::loop_isolation(false)]
pub fn find_first(doc: &[u8], sub: &[u8]) -> (r: Option<usize>)
    ensures
        r is Some <==> occurs(doc@, sub@),
        r matches Some(k) ==> k as int == first_occurrence(doc@, sub@),
{
    proof {
        lemma_first_occurrence(doc@, sub@);
    }
    if sub.len() > doc.len() {
        return None;
    }
    let last: usize = doc.len() - sub.len();
    let mut k: usize = 0;
    while k <= last
        invariant
            sub@.len() <= doc@.len(),
            last == doc@.len() - sub@.len(),
            k <= last + 1,
            forall|j: int| 0 <= j < k ==> !occurs_at(doc@, sub@, j),
        decreases last + 1 - k,
    {
        let mut i: usize = 0;
        let mut matches_here = true;
        while i < sub.len() && matches_here
            invariant
                k + sub@.len() <= doc@.len(),
                i <= sub@.len(),
                matches_here ==> forall|j: int| 0 <= j < i ==> doc@[k + j] == sub@[j],
                !matches_here ==> doc@.subrange(k as int, k + sub@.len()) != sub@,
            decreases sub@.len() - i + (if matches_here { 1int } else { 0int }),
        {
            if doc[k + i] != sub[i] {
                matches_here = false;
                proof {
                    assert(doc@.subrange(k as int, k + sub@.len())[i as int] == doc@[k + i]);
                }
            } else {
                i += 1;
            }
        }
        if matches_here {
            proof {
                assert(doc@.subrange(k as int, k + sub@.len()) =~= sub@);
                assert(occurs_at(doc@, sub@, k as int));
            }
            return Some(k);
        }
        proof {
            assert(doc@.subrange(k as int, k + sub@.len()) != sub@);
            assert(!occurs_at(doc@, sub@, k as int));
        }
        k += 1;
    }
    proof {
        assert forall|j: int| !occurs_at(doc@, sub@, j) by {
            if 0 <= j && j + sub@.len() <= doc@.len() {
                assert(j <= last < k);
            }
        }
    }
    None
}

} // verus!
