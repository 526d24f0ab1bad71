//! Facts about sequences without repeated elements.

use vstd::prelude::*;

verus! {

/// Taking a value out of a duplicate-free list leaves a duplicate-free list
/// that holds every other value and not this one.
pub proof fn lemma_remove_value_distinct(s: Seq<u64>, c: u64)
    requires
        s.no_duplicates(),
    ensures
        s.remove_value(c).no_duplicates(),
        !s.remove_value(c).contains(c),
        forall|x: u64| x != c ==> s.remove_value(c).contains(x) == s.contains(x),
        s.contains(c) ==> s.remove_value(c).len() + 1 == s.len(),
        !s.contains(c) ==> s.remove_value(c) == s,
{
    s.index_of_first_ensures(c);
    let r = s.remove_value(c);
    match s.index_of_first(c) {
        Some(i) => {
            assert(r == s.remove(i));
            assert(r.len() == s.len() - 1);
            assert forall|j: int| 0 <= j < r.len() implies #[trigger] r[j] == s[if j < i {
                j
            } else {
                j + 1
            }] by {}
            assert forall|a: int, b: int| 0 <= a < r.len() && 0 <= b < r.len() && a != b implies r[a]
                != r[b] by {
                let a0 = if a < i { a } else { a + 1 };
                let b0 = if b < i { b } else { b + 1 };
                assert(s[a0] != s[b0]);
            }
            assert forall|j: int| 0 <= j < r.len() implies r[j] != c by {
                let j0 = if j < i { j } else { j + 1 };
                assert(s[j0] != s[i]);
            }
            assert forall|x: u64| x != c implies r.contains(x) == s.contains(x) by {
                if r.contains(x) {
                    let j = choose|j: int| 0 <= j < r.len() && r[j] == x;
                    let j0 = if j < i { j } else { j + 1 };
                    assert(s[j0] == x);
                }
                if s.contains(x) {
                    let j = choose|j: int| 0 <= j < s.len() && s[j] == x;
                    let j1 = if j < i { j } else { j - 1 };
                    assert(r[j1] == x);
                }
            }
        },
        None => {},
    }
}

/// Putting a new value into a duplicate-free list keeps it duplicate-free.
pub proof fn lemma_insert_distinct(s: Seq<u64>, at: int, c: u64)
    requires
        s.no_duplicates(),
        !s.contains(c),
        0 <= at <= s.len(),
    ensures
        s.insert(at, c).no_duplicates(),
        s.insert(at, c).len() == s.len() + 1,
        s.insert(at, c)[at] == c,
        forall|x: u64| s.insert(at, c).contains(x) == (x == c || s.contains(x)),
        forall|j: int| 0 <= j < at ==> s.insert(at, c)[j] == s[j],
        forall|j: int| at < j <= s.len() ==> s.insert(at, c)[j] == s[j - 1],
{
    let r = s.insert(at, c);
    assert(r.len() == s.len() + 1);
    assert(r[at] == c);
    assert forall|j: int| 0 <= j < at implies r[j] == s[j] by {}
    assert forall|j: int| at < j <= s.len() implies r[j] == s[j - 1] by {}
    assert forall|a: int, b: int| 0 <= a < r.len() && 0 <= b < r.len() && a != b implies r[a]
        != r[b] by {
        if a == at {
            let b0 = if b < at { b } else { b - 1 };
            assert(s[b0] == r[b]);
            assert(s.contains(r[b]));
        } else if b == at {
            let a0 = if a < at { a } else { a - 1 };
            assert(s[a0] == r[a]);
            assert(s.contains(r[a]));
        } else {
            let a0 = if a < at { a } else { a - 1 };
            let b0 = if b < at { b } else { b - 1 };
            assert(s[a0] != s[b0]);
        }
    }
    assert forall|x: u64| r.contains(x) == (x == c || s.contains(x)) by {
        if r.contains(x) {
            let j = choose|j: int| 0 <= j < r.len() && r[j] == x;
            if j != at {
                let j0 = if j < at { j } else { j - 1 };
                assert(s[j0] == x);
            }
        }
        if s.contains(x) {
            let j = choose|j: int| 0 <= j < s.len() && s[j] == x;
            let j1 = if j < at { j } else { j + 1 };
            assert(r[j1] == x);
        }
        if x == c {
            assert(r[at] == x);
        }
    }
}

} // verus!
