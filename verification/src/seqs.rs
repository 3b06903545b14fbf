//! Searching and filtering sequences.
use vstd::prelude::*;

verus! {

/// The lowest place whose element satisfies `p`.
pub open spec fn first_where<T>(s: Seq<T>, p: spec_fn(T) -> bool) -> Option<int>
    decreases s.len(),
{
    if s.len() == 0 {
        None
    } else {
        match first_where(s.drop_last(), p) {
            Some(at) => Some(at),
            None => if p(s.last()) {
                Some(s.len() - 1)
            } else {
                None
            },
        }
    }
}

/// `first_where` finds the lowest place that satisfies `p`, and nothing exactly when no place
/// does.
pub proof fn first_where_found<T>(s: Seq<T>, p: spec_fn(T) -> bool)
    ensures
        match first_where(s, p) {
            Some(at) => 0 <= at < s.len() && p(s[at]) && forall|k: int|
                0 <= k < at ==> !p(#[trigger] s[k]),
            None => forall|k: int| 0 <= k < s.len() ==> !p(#[trigger] s[k]),
        },
    decreases s.len(),
{
    if s.len() > 0 {
        let front = s.drop_last();
        first_where_found(front, p);
        match first_where(front, p) {
            Some(at) => {
                assert forall|k: int| 0 <= k < at implies !p(#[trigger] s[k]) by {
                    assert(!p(front[k]));
                }
                assert(front[at] == s[at]);
            },
            None => {
                assert forall|k: int| 0 <= k < s.len() - 1 implies !p(#[trigger] s[k]) by {
                    assert(!p(front[k]));
                }
            },
        }
    }
}

/// The place that `first_where` finds, known by its two properties.
pub proof fn first_where_is<T>(s: Seq<T>, p: spec_fn(T) -> bool, at: int)
    requires
        0 <= at < s.len(),
        p(s[at]),
        forall|k: int| 0 <= k < at ==> !p(#[trigger] s[k]),
    ensures
        first_where(s, p) == Some(at),
{
    first_where_found(s, p);
    match first_where(s, p) {
        Some(found) => {
            if found < at {
                assert(!p(s[found]));
            }
            if found > at {
                assert(!p(s[at]));
            }
        },
        None => {
            assert(!p(s[at]));
        },
    }
}

/// `first_where` finds nothing where no element satisfies `p`.
pub proof fn first_where_none<T>(s: Seq<T>, p: spec_fn(T) -> bool)
    requires
        forall|k: int| 0 <= k < s.len() ==> !p(#[trigger] s[k]),
    ensures
        first_where(s, p) is None,
{
    first_where_found(s, p);
}

} // verus!
