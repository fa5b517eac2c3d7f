//! Cloning helpers that keep views.

use vstd::prelude::*;

verus! {

/// The element-wise view of a sequence.
pub open spec fn views<T: View>(s: Seq<T>) -> Seq<T::V> {
    s.map_values(|x: T| x@)
}

/// A clone of `T` that keeps the view.
pub open spec fn clone_keeps_view<T: Clone + View>() -> bool {
    forall|a: T, b: T| #[trigger] vstd::pervasive::cloned(a, b) ==> a@ == b@
}

/// Clones a vector element by element, keeping every element's view.
pub fn clone_vec<T: Clone + View>(v: &Vec<T>) -> (r: Vec<T>)
    requires
        clone_keeps_view::<T>(),
    ensures
        views(r@) == views(v@),
{
    let r = v.clone();
    assert(views(r@) =~= views(v@)) by {
        assert forall|i: int| 0 <= i < r@.len() implies r@[i]@ == v@[i]@ by {
            assert(vstd::pervasive::cloned(v[i], r[i]));
        }
    }
    r
}

/// The view of an optional value.
pub open spec fn opt_view<T: View>(o: Option<T>) -> Option<T::V> {
    match o {
        Some(x) => Some(x@),
        None => None,
    }
}

/// Clones an optional string.
pub fn clone_opt_string(o: &Option<String>) -> (r: Option<String>)
    ensures
        opt_view(*o) == opt_view(r),
{
    match o {
        Some(s) => Some(s.clone()),
        None => None,
    }
}

} // verus!
