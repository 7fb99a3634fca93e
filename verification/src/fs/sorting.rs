//! Sorting a list of files: a stable sort by the chosen field, then the
//! reversal and the grouping of directories that the filter asks for.

use vstd::prelude::*;

use crate::fs::filter::{FileFilter, SortField};
use crate::fs::order::{after, before, comes_after, lemma_three_ways, tied, SortKey};

verus! {

/// Whether the order of a sort field behaves as an order on these files:
/// one file comes after another exactly when the other comes before it, and
/// "not after" is transitive. (Every field but the names is an order on any
/// files; the natural order of names is taken from the outside function.)
pub open spec fn consistent_on(field: SortField, s: Seq<SortKey>) -> bool {
    &&& forall|i: int, j: int|
        0 <= i < s.len() && 0 <= j < s.len() ==> (#[trigger] after(field, s[i], s[j]) <==> before(
            field,
            s[j],
            s[i],
        ))
    &&& forall|i: int, j: int, k: int|
        #![trigger after(field, s[i], s[j]), after(field, s[j], s[k])]
        0 <= i < s.len() && 0 <= j < s.len() && 0 <= k < s.len() && !after(field, s[i], s[j])
            && !after(field, s[j], s[k]) ==> !after(field, s[i], s[k])
}

/// Whether `pos` arranges the indices `0..n`: each once, in some order.
pub open spec fn is_arrangement(pos: Seq<int>, n: int) -> bool {
    &&& pos.len() == n
    &&& forall|k: int| 0 <= k < n ==> 0 <= #[trigger] pos[k] < n
    &&& forall|k1: int, k2: int| 0 <= k1 < n && 0 <= k2 < n && k1 != k2 ==> #[trigger] pos[k1] != #[trigger] pos[k2]
}

/// Whether the file `a`, first found at `pa`, belongs before the file `b`,
/// first found at `pb`: it comes before it, or they are level and `a` was
/// found first.
pub open spec fn in_order(field: SortField, a: SortKey, b: SortKey, pa: int, pb: int) -> bool {
    before(field, a, b) || (tied(field, a, b) && pa < pb)
}

/// Whether `sorted` is `original` arranged by `pos`.
pub open spec fn arranged(sorted: Seq<SortKey>, original: Seq<SortKey>, pos: Seq<int>) -> bool {
    &&& is_arrangement(pos, original.len() as int)
    &&& sorted.len() == original.len()
    &&& forall|k: int| 0 <= k < sorted.len() ==> #[trigger] sorted[k] == original[pos[k]]
}

/// Whether `s`, arranged from the original by `pos`, is in order among the
/// files at positions `lo..hi`.
pub open spec fn sorted_between(field: SortField, s: Seq<SortKey>, pos: Seq<int>, lo: int, hi: int) -> bool {
    forall|a: int, b: int| lo <= a < b < hi ==> in_order(field, #[trigger] s[a], #[trigger] s[b], pos[a], pos[b])
}

proof fn lemma_insert_in_order(
    field: SortField,
    original: Seq<SortKey>,
    sorted: Seq<SortKey>,
    pos: Seq<int>,
    t: int,
    j: int,
)
    requires
        consistent_on(field, original),
        0 <= t < original.len(),
        sorted.len() == t,
        pos.len() == t,
        0 <= j <= t,
        forall|k: int| 0 <= k < t ==> 0 <= #[trigger] pos[k] < t,
        forall|k: int| 0 <= k < t ==> #[trigger] sorted[k] == original[pos[k]],
        sorted_between(field, sorted, pos, 0, t),
        forall|k: int| j <= k < t ==> after(field, #[trigger] sorted[k], original[t]),
        j > 0 ==> !after(field, sorted[j - 1], original[t]),
    ensures
        sorted_between(field, sorted.insert(j, original[t]), pos.insert(j, t), 0, t + 1),
{
    let x = original[t];
    let s2 = sorted.insert(j, x);
    let p2 = pos.insert(j, t);
    sorted.insert_ensures(j, x);
    pos.insert_ensures(j, t);
    assert forall|k: int| 0 <= k < j implies !after(field, #[trigger] sorted[k], x) by {
        if k < j - 1 {
            assert(in_order(field, sorted[k], sorted[j - 1], pos[k], pos[j - 1]));
            lemma_three_ways(field, sorted[k], sorted[j - 1]);
            assert(!after(field, original[pos[k]], original[pos[j - 1]]));
            assert(!after(field, original[pos[j - 1]], original[t]));
            assert(after(field, original[pos[k]], original[pos[j - 1]]) == after(field, sorted[k], sorted[j - 1]));
        }
    }
    assert forall|a: int, b: int| 0 <= a < b < t + 1 implies in_order(field, #[trigger] s2[a], #[trigger] s2[b], p2[a], p2[b]) by {
        if b < j {
            assert(s2[a] == sorted[a] && s2[b] == sorted[b]);
        } else if b == j {
            assert(s2[a] == sorted[a]);
            assert(!after(field, sorted[a], x));
            lemma_three_ways(field, sorted[a], x);
            assert(p2[a] == pos[a]);
        } else if a == j {
            assert(s2[b] == sorted[b - 1]);
            assert(after(field, sorted[b - 1], x));
            assert(after(field, original[pos[b - 1]], original[t]));
            assert(before(field, original[t], original[pos[b - 1]]));
        } else if a < j {
            assert(s2[a] == sorted[a] && s2[b] == sorted[b - 1]);
            assert(in_order(field, sorted[a], sorted[b - 1], pos[a], pos[b - 1]));
        } else {
            assert(s2[a] == sorted[a - 1] && s2[b] == sorted[b - 1]);
            assert(in_order(field, sorted[a - 1], sorted[b - 1], pos[a - 1], pos[b - 1]));
        }
    }
}

/// Sorts files by a field, keeping files that are level in the order they
/// were given. Gives the arrangement of the original positions too.
fn stable_sort(field: SortField, files: Vec<SortKey>) -> (r: (Vec<SortKey>, Ghost<Seq<int>>))
    ensures
        arranged(r.0@, files@, r.1@),
        consistent_on(field, files@) ==> sorted_between(field, r.0@, r.1@, 0, files@.len() as int),
{
    let ghost original = files@;
    let n = files.len();
    let mut rest = files;
    let mut sorted: Vec<SortKey> = Vec::new();
    let ghost mut pos: Seq<int> = Seq::empty();
    let mut t: usize = 0;
    while rest.len() > 0
        invariant
            n == original.len(),
            rest@ == original.subrange(t as int, n as int),
            t <= n,
            sorted@.len() == t,
            pos.len() == t,
            forall|k: int| 0 <= k < t ==> 0 <= #[trigger] pos[k] < t,
            forall|k1: int, k2: int| 0 <= k1 < t && 0 <= k2 < t && k1 != k2 ==> #[trigger] pos[k1] != #[trigger] pos[k2],
            forall|k: int| 0 <= k < t ==> #[trigger] sorted@[k] == original[pos[k]],
            consistent_on(field, original) ==> sorted_between(field, sorted@, pos, 0, t as int),
        decreases rest@.len(),
    {
        assert(t < n);
        let x = rest.remove(0);
        assert(x == original[t as int]);
        assert(rest@ =~= original.subrange(t + 1, n as int));
        let mut j: usize = t;
        while j > 0 && comes_after(field, &sorted[j - 1], &x)
            invariant
                j <= t,
                sorted@.len() == t,
                forall|k: int| j <= k < t ==> after(field, #[trigger] sorted@[k], x),
            decreases j,
        {
            j = j - 1;
        }
        proof {
            if consistent_on(field, original) {
                if j > 0 {
                    assert(!after(field, sorted@[j - 1], x));
                }
                lemma_insert_in_order(field, original, sorted@, pos, t as int, j as int);
            }
        }
        let ghost old_sorted = sorted@;
        let ghost old_pos = pos;
        sorted.insert(j, x);
        proof {
            pos = pos.insert(j as int, t as int);
            old_sorted.insert_ensures(j as int, x);
            old_pos.insert_ensures(j as int, t as int);
            assert forall|k: int| 0 <= k < t + 1 implies 0 <= #[trigger] pos[k] < t + 1 by {
                if k < j {
                    assert(pos[k] == old_pos[k]);
                } else if k > j {
                    assert(pos[k] == old_pos[k - 1]);
                }
            }
            assert forall|k1: int, k2: int| 0 <= k1 < t + 1 && 0 <= k2 < t + 1 && k1 != k2 implies #[trigger] pos[k1] != #[trigger] pos[k2] by {
                let o1 = if k1 < j { k1 } else { k1 - 1 };
                let o2 = if k2 < j { k2 } else { k2 - 1 };
                if k1 != j && k2 != j {
                    assert(pos[k1] == old_pos[o1]);
                    assert(pos[k2] == old_pos[o2]);
                } else if k1 == j {
                    assert(pos[k2] == old_pos[o2]);
                } else {
                    assert(pos[k1] == old_pos[o1]);
                }
            }
            assert forall|k: int| 0 <= k < t + 1 implies #[trigger] sorted@[k] == original[pos[k]] by {
                if k < j {
                    assert(sorted@[k] == old_sorted[k] && pos[k] == old_pos[k]);
                } else if k > j {
                    assert(sorted@[k] == old_sorted[k - 1] && pos[k] == old_pos[k - 1]);
                }
            }
        }
        t = t + 1;
    }
    (sorted, Ghost(pos))
}


/// The arrangement `q` applied after the arrangement `p`.
pub open spec fn compose(p: Seq<int>, q: Seq<int>) -> Seq<int> {
    Seq::new(q.len(), |k: int| p[q[k]])
}

proof fn lemma_compose(orig: Seq<SortKey>, mid: Seq<SortKey>, out: Seq<SortKey>, p: Seq<int>, q: Seq<int>)
    requires
        arranged(mid, orig, p),
        arranged(out, mid, q),
    ensures
        arranged(out, orig, compose(p, q)),
{
    let r = compose(p, q);
    let n = orig.len() as int;
    assert forall|k: int| 0 <= k < n implies 0 <= #[trigger] r[k] < n by {
        assert(0 <= q[k] < n);
    }
    assert forall|k1: int, k2: int| 0 <= k1 < n && 0 <= k2 < n && k1 != k2 implies #[trigger] r[k1] != #[trigger] r[k2] by {
        assert(q[k1] != q[k2]);
        assert(0 <= q[k1] < n && 0 <= q[k2] < n);
    }
    assert forall|k: int| 0 <= k < out.len() implies #[trigger] out[k] == orig[r[k]] by {
        assert(out[k] == mid[q[k]]);
        assert(0 <= q[k] < n);
    }
}

/// The files in the opposite order.
fn reverse_files(files: Vec<SortKey>) -> (r: (Vec<SortKey>, Ghost<Seq<int>>))
    ensures
        arranged(r.0@, files@, r.1@),
        forall|k: int| 0 <= k < files@.len() ==> #[trigger] r.1@[k] == files@.len() - 1 - k,
{
    let ghost original = files@;
    let ghost n = files@.len() as int;
    let mut rest = files;
    let mut out: Vec<SortKey> = Vec::new();
    while rest.len() > 0
        invariant
            rest@ == original.subrange(0, n - out@.len()),
            out@.len() <= n,
            n == original.len(),
            forall|k: int| 0 <= k < out@.len() ==> #[trigger] out@[k] == original[n - 1 - k],
        decreases rest@.len(),
    {
        let x = rest.pop().unwrap();
        out.push(x);
        assert(rest@ =~= original.subrange(0, n - out@.len()));
    }
    let ghost pos = Seq::new(n as nat, |k: int| n - 1 - k);
    (out, Ghost(pos))
}

/// The directories first, then the other files, each group in the order it
/// was in.
fn directories_first(files: Vec<SortKey>) -> (r: (Vec<SortKey>, Ghost<Seq<int>>))
    ensures
        arranged(r.0@, files@, r.1@),
        forall|a: int, b: int|
            0 <= a < b < files@.len() && (#[trigger] r.0@[a]).points_to_directory == (#[trigger] r.0@[b]).points_to_directory
                ==> r.1@[a] < r.1@[b],
        forall|a: int, b: int|
            0 <= a < b < files@.len() && (#[trigger] r.0@[b]).points_to_directory ==> (#[trigger] r.0@[a]).points_to_directory,
{
    let ghost original = files@;
    let n = files.len();
    let mut rest = files;
    let mut dirs: Vec<SortKey> = Vec::new();
    let mut others: Vec<SortKey> = Vec::new();
    let ghost mut dpos: Seq<int> = Seq::empty();
    let ghost mut opos: Seq<int> = Seq::empty();
    let mut t: usize = 0;
    while rest.len() > 0
        invariant
            n == original.len(),
            t <= n,
            rest@ == original.subrange(t as int, n as int),
            dirs@.len() == dpos.len(),
            others@.len() == opos.len(),
            dirs@.len() + others@.len() == t,
            forall|k: int| 0 <= k < dirs@.len() ==> 0 <= #[trigger] dpos[k] < t && dirs@[k] == original[dpos[k]]
                && dirs@[k].points_to_directory,
            forall|k: int| 0 <= k < others@.len() ==> 0 <= #[trigger] opos[k] < t && others@[k] == original[opos[k]]
                && !others@[k].points_to_directory,
            forall|a: int, b: int| 0 <= a < b < dirs@.len() ==> #[trigger] dpos[a] < #[trigger] dpos[b],
            forall|a: int, b: int| 0 <= a < b < others@.len() ==> #[trigger] opos[a] < #[trigger] opos[b],
        decreases rest@.len(),
    {
        assert(t < n);
        let x = rest.remove(0);
        assert(x == original[t as int]);
        assert(rest@ =~= original.subrange(t + 1, n as int));
        if x.points_to_directory {
            let ghost before = dirs@;
            let ghost old_dpos = dpos;
            dirs.push(x);
            proof {
                dpos = dpos.push(t as int);
                assert(dpos[dpos.len() - 1] == t);
                assert(dirs@[dirs@.len() - 1] == x);
                assert forall|k: int| 0 <= k < dirs@.len() implies 0 <= #[trigger] dpos[k] < t + 1 && dirs@[k] == original[dpos[k]]
                    && dirs@[k].points_to_directory by {
                    if k < dirs@.len() - 1 {
                        assert(dirs@[k] == before[k]);
                        assert(dpos[k] == old_dpos[k]);
                    }
                }
            }
        } else {
            let ghost before = others@;
            let ghost old_opos = opos;
            others.push(x);
            proof {
                opos = opos.push(t as int);
                assert(opos[opos.len() - 1] == t);
                assert(others@[others@.len() - 1] == x);
                assert(!x.points_to_directory);
                assert forall|k: int| 0 <= k < others@.len() implies 0 <= #[trigger] opos[k] < t + 1 && others@[k] == original[opos[k]]
                    && !others@[k].points_to_directory by {
                    if k < others@.len() - 1 {
                        assert(others@[k] == before[k]);
                        assert(opos[k] == old_opos[k]);
                    }
                }
            }
        }
        t = t + 1;
    }
    let ghost pos = dpos + opos;
    let ghost dl = dirs@.len() as int;
    dirs.append(&mut others);
    proof {
        let out = dirs@;
        assert forall|k: int| 0 <= k < n implies 0 <= #[trigger] pos[k] < n by {
            if k < dl {
                assert(pos[k] == dpos[k]);
            } else {
                assert(pos[k] == opos[k - dl]);
            }
        }
        assert forall|k1: int, k2: int| 0 <= k1 < n && 0 <= k2 < n && k1 != k2 implies #[trigger] pos[k1] != #[trigger] pos[k2] by {
            if k1 < dl && k2 < dl {
                if k1 < k2 {
                    assert(dpos[k1] < dpos[k2]);
                } else {
                    assert(dpos[k2] < dpos[k1]);
                }
            } else if k1 >= dl && k2 >= dl {
                if k1 < k2 {
                    assert(opos[k1 - dl] < opos[k2 - dl]);
                } else {
                    assert(opos[k2 - dl] < opos[k1 - dl]);
                }
            } else if k1 < dl {
                assert(original[dpos[k1]].points_to_directory);
                assert(!original[opos[k2 - dl]].points_to_directory);
            } else {
                assert(original[dpos[k2]].points_to_directory);
                assert(!original[opos[k1 - dl]].points_to_directory);
            }
        }
        assert forall|k: int| 0 <= k < out.len() implies #[trigger] out[k] == original[pos[k]] by {
            if k < dl {
                assert(out[k] == dirs@[k]);
            }
        }
    }
    (dirs, Ghost(pos))
}


/// Whether `s`, arranged from the original by `pos`, lists every two files
/// in the order asked for: by the field (the other way round when
/// `reverse` is set), level files in the order they were found. When
/// `grouped` is set, only files that are both directories, or both not,
/// are held to it.
pub open spec fn listed_in_order(
    field: SortField,
    reverse: bool,
    grouped: bool,
    s: Seq<SortKey>,
    pos: Seq<int>,
) -> bool {
    forall|a: int, b: int|
        0 <= a < b < s.len() && (!grouped || (#[trigger] s[a]).points_to_directory == (#[trigger] s[b]).points_to_directory)
            ==> if reverse {
            in_order(field, s[b], s[a], pos[b], pos[a])
        } else {
            in_order(field, s[a], s[b], pos[a], pos[b])
        }
}

proof fn lemma_reverse_keeps_order(field: SortField, s1: Seq<SortKey>, p1: Seq<int>, s2: Seq<SortKey>, q: Seq<int>)
    requires
        sorted_between(field, s1, p1, 0, s1.len() as int),
        arranged(s2, s1, q),
        forall|k: int| 0 <= k < s1.len() ==> #[trigger] q[k] == s1.len() - 1 - k,
    ensures
        listed_in_order(field, true, false, s2, compose(p1, q)),
{
    let n = s1.len() as int;
    let p2 = compose(p1, q);
    assert forall|a: int, b: int| 0 <= a < b < s2.len() implies in_order(field, #[trigger] s2[b], #[trigger] s2[a], p2[b], p2[a]) by {
        assert(q[a] == n - 1 - a && q[b] == n - 1 - b);
        assert(s2[a] == s1[n - 1 - a] && s2[b] == s1[n - 1 - b]);
        assert(in_order(field, s1[n - 1 - b], s1[n - 1 - a], p1[n - 1 - b], p1[n - 1 - a]));
    }
}

proof fn lemma_grouping_keeps_order(
    field: SortField,
    reverse: bool,
    s2: Seq<SortKey>,
    p2: Seq<int>,
    s3: Seq<SortKey>,
    q: Seq<int>,
)
    requires
        listed_in_order(field, reverse, false, s2, p2),
        arranged(s3, s2, q),
        forall|a: int, b: int|
            0 <= a < b < s2.len() && (#[trigger] s3[a]).points_to_directory == (#[trigger] s3[b]).points_to_directory
                ==> q[a] < q[b],
    ensures
        listed_in_order(field, reverse, true, s3, compose(p2, q)),
{
    let p3 = compose(p2, q);
    assert forall|a: int, b: int|
        0 <= a < b < s3.len() && (#[trigger] s3[a]).points_to_directory == (#[trigger] s3[b]).points_to_directory implies (if reverse {
            in_order(field, s3[b], s3[a], p3[b], p3[a])
        } else {
            in_order(field, s3[a], s3[b], p3[a], p3[b])
        }) by {
        assert(q[a] < q[b]);
        assert(0 <= q[a] && q[b] < s2.len());
        assert(s3[a] == s2[q[a]] && s3[b] == s2[q[b]]);
        assert(s2[q[a]] == s2[q[a]] && s2[q[b]] == s2[q[b]]);
    }
}

proof fn lemma_sorted_is_listed(field: SortField, s: Seq<SortKey>, p: Seq<int>)
    requires
        sorted_between(field, s, p, 0, s.len() as int),
    ensures
        listed_in_order(field, false, false, s, p),
{
}


impl FileFilter {
    /// Sorts the files by the sort field, keeping level files in the order
    /// they were given; then reverses them when asked to; then, when asked,
    /// moves the directories before the other files, each group keeping its
    /// order. The files end up arranged from the ones given; when the
    /// field's order is consistent on them, every two files (of the same
    /// group, when directories go first) are in the order asked for.
    pub fn sort_files(&self, files: &mut Vec<SortKey>)
        ensures
            exists|pos: Seq<int>|
                #[trigger] arranged(final(files)@, old(files)@, pos) && (consistent_on(self.sort_field, old(files)@)
                    ==> listed_in_order(self.sort_field, self.reverse, self.list_dirs_first, final(files)@, pos)),
            self.list_dirs_first ==> forall|a: int, b: int|
                0 <= a < b < final(files)@.len() && (#[trigger] final(files)@[b]).points_to_directory
                    ==> (#[trigger] final(files)@[a]).points_to_directory,
    {
        let ghost original = files@;
        let mut input: Vec<SortKey> = Vec::new();
        std::mem::swap(&mut input, files);
        let (s1, Ghost(p1)) = stable_sort(self.sort_field, input);
        let ghost consistent = consistent_on(self.sort_field, original);
        let (s2, Ghost(p2)) = if self.reverse {
            let ghost before = s1@;
            let (r, Ghost(q)) = reverse_files(s1);
            proof {
                lemma_compose(original, before, r@, p1, q);
                if consistent {
                    lemma_reverse_keeps_order(self.sort_field, before, p1, r@, q);
                }
            }
            (r, Ghost(compose(p1, q)))
        } else {
            proof {
                if consistent {
                    lemma_sorted_is_listed(self.sort_field, s1@, p1);
                }
            }
            (s1, Ghost(p1))
        };
        let (s3, Ghost(p3)) = if self.list_dirs_first {
            let ghost before = s2@;
            let (r, Ghost(q)) = directories_first(s2);
            proof {
                lemma_compose(original, before, r@, p2, q);
                if consistent {
                    lemma_grouping_keeps_order(self.sort_field, self.reverse, before, p2, r@, q);
                }
            }
            (r, Ghost(compose(p2, q)))
        } else {
            (s2, Ghost(p2))
        };
        *files = s3;
        assert(arranged(files@, original, p3));
    }
}


/// Sizes, inodes and times are ordered consistently on any files, so
/// sorting by them always gives a sorted list (and not sorting at all
/// keeps every file in place).
pub proof fn law_metadata_fields_are_consistent(field: SortField, s: Seq<SortKey>)
    requires
        field is Unsorted || field is Size || field is FileInode || field is ModifiedDate || field is AccessedDate
            || field is ChangedDate || field is CreatedDate || field is ModifiedAge,
    ensures
        consistent_on(field, s),
{
}

} // verus!
