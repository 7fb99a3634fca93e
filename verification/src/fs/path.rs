//! Paths as lists of components.
//!
//! A path is held as its components, the root (`/`) counting as the first
//! one of an absolute path, so that one path starts with another exactly
//! when its first components are the other's.

use vstd::prelude::*;

use crate::bytes::bytes_eq;

verus! {

/// A path's components, as plain values.
pub open spec fn comps(p: Seq<Vec<u8>>) -> Seq<Seq<u8>> {
    p.map_values(|c: Vec<u8>| c@)
}

/// Paths' components, as plain values.
pub open spec fn paths_view(v: Seq<Vec<Vec<u8>>>) -> Seq<Seq<Seq<u8>>> {
    v.map_values(|p: Vec<Vec<u8>>| comps(p@))
}

/// Whether the path `path` starts with the path `base`: its first
/// components are those of `base`.
pub open spec fn path_starts_with(path: Seq<Seq<u8>>, base: Seq<Seq<u8>>) -> bool {
    base.len() <= path.len() && path.subrange(0, base.len() as int) == base
}

/// Whether `path` starts with `base`, component by component.
pub fn starts_with(path: &Vec<Vec<u8>>, base: &Vec<Vec<u8>>) -> (r: bool)
    ensures
        r == path_starts_with(comps(path@), comps(base@)),
{
    if base.len() > path.len() {
        return false;
    }
    let mut i: usize = 0;
    while i < base.len()
        invariant
            base.len() <= path.len(),
            i <= base.len(),
            forall|j: int| 0 <= j < i ==> comps(path@)[j] == comps(base@)[j],
        decreases base.len() - i,
    {
        if !bytes_eq(path[i].as_slice(), base[i].as_slice()) {
            assert(comps(path@).subrange(0, base.len() as int)[i as int] != comps(base@)[i as int]);
            return false;
        }
        i = i + 1;
    }
    assert(comps(path@).subrange(0, base.len() as int) =~= comps(base@));
    true
}

/// Whether two paths have the same components.
pub fn same_path(a: &Vec<Vec<u8>>, b: &Vec<Vec<u8>>) -> (r: bool)
    ensures
        r == (comps(a@) == comps(b@)),
{
    if a.len() != b.len() {
        assert(comps(a@).len() != comps(b@).len());
        return false;
    }
    let r = starts_with(a, b);
    assert(comps(a@) =~= comps(a@).subrange(0, b.len() as int));
    r
}

} // verus!
