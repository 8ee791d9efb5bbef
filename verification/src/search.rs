//! The first of some values that is there.
use vstd::prelude::*;

verus! {

/// The first of some values that is there.
pub open spec fn first<T>(n: nat, f: spec_fn(int) -> Option<T>) -> Option<T>
    decreases n,
{
    if n == 0 {
        None
    } else {
        match first((n - 1) as nat, f) {
            Some(v) => Some(v),
            None => f(n - 1),
        }
    }
}

/// Once a value is there, it stays the first.
pub proof fn first_is_kept<T>(f: spec_fn(int) -> Option<T>, i: nat, n: nat)
    requires
        i < n,
        first(i, f) is None,
        f(i as int) is Some,
    ensures
        first(n, f) == f(i as int),
    decreases n,
{
    if n - 1 > i {
        first_is_kept(f, i, (n - 1) as nat);
    }
}

/// The first value is one of them; there is none only if none is there.
pub proof fn first_is_one<T>(f: spec_fn(int) -> Option<T>, n: nat)
    ensures
        first(n, f) is Some ==> exists|i: int| 0 <= i < n && first(n, f) == #[trigger] f(i),
        first(n, f) is None ==> forall|i: int| 0 <= i < n ==> #[trigger] f(i) is None,
    decreases n,
{
    if n > 0 {
        first_is_one(f, (n - 1) as nat);
        if first((n - 1) as nat, f) is None {
            assert(first(n, f) == f(n - 1));
        } else {
            let i = choose|i: int| 0 <= i < n - 1 && first((n - 1) as nat, f) == #[trigger] f(i);
            assert(first(n, f) == f(i));
        }
    }
}

/// The place of the first value: before it there is none.
pub proof fn first_has_a_place<T>(f: spec_fn(int) -> Option<T>, n: nat) -> (j: int)
    requires
        first(n, f) is Some,
    ensures
        0 <= j < n,
        first(n, f) == f(j),
        first(j as nat, f) is None,
        forall|i: int| 0 <= i < j ==> #[trigger] f(i) is None,
    decreases n,
{
    if first((n - 1) as nat, f) is Some {
        first_has_a_place(f, (n - 1) as nat)
    } else {
        first_is_one(f, (n - 1) as nat);
        n - 1
    }
}

} // verus!
