//! Which handler serves a path: the one registered for it, if any.

use vstd::prelude::*;
use crate::fields::bytes_eq;

verus! {

/// The paths of a list of registered paths.
pub open spec fn path_views(paths: Seq<Vec<u8>>) -> Seq<Seq<u8>> {
    Seq::new(paths.len(), |i: int| paths[i]@)
}

/// Where `path` stands among the registered `paths`: its first place, or
/// `None` where it is not registered.
pub fn find_route(paths: &Vec<Vec<u8>>, path: &Vec<u8>) -> (r: Option<usize>)
    ensures
        r matches Some(i) ==> i < paths@.len() && paths@[i as int]@ == path@ && forall|j: int|
            0 <= j < i ==> paths@[j]@ != path@,
        r is None <==> !path_views(paths@).contains(path@),
{
    let mut i: usize = 0;
    while i < paths.len()
        invariant
            i <= paths@.len(),
            forall|j: int| 0 <= j < i ==> paths@[j]@ != path@,
        decreases paths@.len() - i,
    {
        if bytes_eq(&paths[i], path) {
            assert(path_views(paths@)[i as int] == path@);
            return Some(i);
        }
        i = i + 1;
    }
    proof {
        if path_views(paths@).contains(path@) {
            let k = choose|k: int| 0 <= k < path_views(paths@).len() && path_views(paths@)[k] == path@;
            assert(paths@[k]@ == path@);
        }
    }
    None
}

} // verus!
