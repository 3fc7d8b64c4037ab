//! Index sorting for the catalog: a selection sort of track indices under
//! a strict total order combining album rank, disc, track number and the
//! index itself (so equal keys keep their input order).

use vstd::prelude::*;

verus! {

/// Sort key of one track: the position of its album in the album order,
/// then disc and track number.
#[derive(Clone, Copy)]
pub struct SortKey {
    pub rank: usize,
    pub disc: u32,
    pub track: u32,
}

/// Strict total order on distinct indices: by key, then by index, so that
/// sorting by it is stable.
pub open spec fn idx_lt(keys: Seq<SortKey>, i: int, j: int) -> bool {
    let a = keys[i];
    let b = keys[j];
    ||| a.rank < b.rank
    ||| (a.rank == b.rank && a.disc < b.disc)
    ||| (a.rank == b.rank && a.disc == b.disc && a.track < b.track)
    ||| (a.rank == b.rank && a.disc == b.disc && a.track == b.track && i < j)
}

/// Decide `idx_lt` on two indices.
fn key_lt(keys: &Vec<SortKey>, a: usize, b: usize) -> (r: bool)
    requires
        a < keys@.len(),
        b < keys@.len(),
    ensures
        r == idx_lt(keys@, a as int, b as int),
{
    let ka = keys[a];
    let kb = keys[b];
    if ka.rank != kb.rank {
        ka.rank < kb.rank
    } else if ka.disc != kb.disc {
        ka.disc < kb.disc
    } else if ka.track != kb.track {
        ka.track < kb.track
    } else {
        a < b
    }
}

/// Index facts about removing one element of a sequence.
pub proof fn lemma_remove_facts<T>(s: Seq<T>, p: int)
    requires
        0 <= p < s.len(),
    ensures
        s.remove(p).len() == s.len() - 1,
        forall|i: int| 0 <= i < p ==> s.remove(p)[i] == s[i],
        forall|i: int| p <= i < s.len() - 1 ==> s.remove(p)[i] == s[i + 1],
{
}

/// Index facts about inserting one element into a sequence.
pub proof fn lemma_insert_facts<T>(s: Seq<T>, p: int, v: T)
    requires
        0 <= p <= s.len(),
    ensures
        s.insert(p, v).len() == s.len() + 1,
        forall|i: int| 0 <= i < p ==> s.insert(p, v)[i] == s[i],
        s.insert(p, v)[p] == v,
        forall|i: int| p < i <= s.len() ==> s.insert(p, v)[i] == s[i - 1],
{
}

/// Sort a duplicate-free set of indices into `keys` by `idx_lt`.
///
/// The result holds the same indices, in strictly ascending `idx_lt`
/// order.
pub fn sort_indices(items: Vec<usize>, keys: &Vec<SortKey>) -> (out: Vec<usize>)
    requires
        items@.no_duplicates(),
        forall|k: int| 0 <= k < items@.len() ==> (#[trigger] items@[k]) < keys@.len(),
    ensures
        out@.len() == items@.len(),
        out@.no_duplicates(),
        forall|k: int| 0 <= k < out@.len() ==> (#[trigger] out@[k]) < keys@.len(),
        forall|x: usize| out@.contains(x) <==> items@.contains(x),
        forall|i: int, j: int|
            0 <= i < j < out@.len() ==> idx_lt(keys@, out@[i] as int, out@[j] as int),
{
    let mut rem = items;
    let mut out: Vec<usize> = Vec::new();
    while rem.len() > 0
        invariant
            rem@.no_duplicates(),
            out@.no_duplicates(),
            out@.len() + rem@.len() == items@.len(),
            forall|k: int| 0 <= k < rem@.len() ==> (#[trigger] rem@[k]) < keys@.len(),
            forall|k: int| 0 <= k < out@.len() ==> (#[trigger] out@[k]) < keys@.len(),
            forall|x: usize| #[trigger] items@.contains(x) ==> out@.contains(x) || rem@.contains(x),
            forall|x: usize| #[trigger] out@.contains(x) ==> items@.contains(x),
            forall|x: usize| #[trigger] rem@.contains(x) ==> items@.contains(x),
            forall|x: usize| !(#[trigger] out@.contains(x) && rem@.contains(x)),
            forall|i: int, j: int|
                0 <= i < j < out@.len() ==> idx_lt(keys@, out@[i] as int, out@[j] as int),
            forall|o: int, m: int|
                0 <= o < out@.len() && 0 <= m < rem@.len() ==> idx_lt(
                    keys@,
                    #[trigger] out@[o] as int,
                    #[trigger] rem@[m] as int,
                ),
        decreases rem@.len(),
    {
        // find the least remaining index
        let mut best: usize = 0;
        let mut k: usize = 1;
        while k < rem.len()
            invariant
                0 <= best < k <= rem@.len(),
                forall|k2: int| 0 <= k2 < rem@.len() ==> (#[trigger] rem@[k2]) < keys@.len(),
                forall|m: int|
                    0 <= m < k ==> !idx_lt(keys@, #[trigger] rem@[m] as int, rem@[best as int] as int),
            decreases rem@.len() - k,
        {
            if key_lt(keys, rem[k], rem[best]) {
                best = k;
            }
            k = k + 1;
        }
        let ghost old_rem = rem@;
        let ghost old_out = out@;
        let v = rem.remove(best);
        proof {
            lemma_remove_facts(old_rem, best as int);
            assert forall|x: usize| #[trigger] rem@.contains(x) implies old_rem.contains(x) by {
                let i = choose|i: int| 0 <= i < rem@.len() && rem@[i] == x;
                if i < best {
                    assert(old_rem[i] == x);
                } else {
                    assert(old_rem[i + 1] == x);
                }
            }
            assert forall|x: usize| old_rem.contains(x) && x != v implies rem@.contains(x) by {
                let i = choose|i: int| 0 <= i < old_rem.len() && old_rem[i] == x;
                assert(i != best);
                if i < best {
                    assert(rem@[i] == x);
                } else {
                    assert(rem@[i - 1] == x);
                }
            }
            assert(rem@.no_duplicates()) by {
                assert forall|i: int, j: int|
                    0 <= i < rem@.len() && 0 <= j < rem@.len() && i != j implies rem@[i]
                    != rem@[j] by {
                    let i0 = if i < best {
                        i
                    } else {
                        i + 1
                    };
                    let j0 = if j < best {
                        j
                    } else {
                        j + 1
                    };
                    assert(rem@[i] == old_rem[i0] && rem@[j] == old_rem[j0]);
                }
            }
            // the selected index sorts below all that remain
            assert forall|m: int| 0 <= m < rem@.len() implies idx_lt(
                keys@,
                v as int,
                #[trigger] rem@[m] as int,
            ) by {
                let m0 = if m < best {
                    m
                } else {
                    m + 1
                };
                assert(rem@[m] == old_rem[m0]);
                assert(!idx_lt(keys@, old_rem[m0] as int, v as int));
                assert(old_rem[m0] != v);
            }
        }
        out.push(v);
        proof {
            assert(old_rem.contains(v)) by {
                assert(old_rem[best as int] == v);
            }
            assert forall|x: usize| #[trigger] out@.contains(x) implies items@.contains(x) by {
                let i = choose|i: int| 0 <= i < out@.len() && out@[i] == x;
                if i < old_out.len() {
                    assert(old_out[i] == x);
                    assert(old_out.contains(x));
                } else {
                    assert(x == v);
                    assert(old_rem.contains(v));
                    assert(items@.contains(v));
                }
            }
            assert forall|x: usize| #[trigger] items@.contains(x) implies out@.contains(x)
                || rem@.contains(x) by {
                if old_out.contains(x) {
                    let i = choose|i: int| 0 <= i < old_out.len() && old_out[i] == x;
                    assert(out@[i] == x);
                } else if old_rem.contains(x) {
                    if x == v {
                        assert(out@[out@.len() - 1] == x);
                    }
                }
            }
            assert forall|x: usize| !(#[trigger] out@.contains(x) && rem@.contains(x)) by {
                if out@.contains(x) && rem@.contains(x) {
                    let i = choose|i: int| 0 <= i < out@.len() && out@[i] == x;
                    if i < old_out.len() {
                        assert(old_out[i] == x);
                    } else {
                        assert(x == v);
                    }
                }
            }
            assert(out@.no_duplicates()) by {
                assert forall|i: int, j: int|
                    0 <= i < out@.len() && 0 <= j < out@.len() && i != j implies out@[i]
                    != out@[j] by {
                    if i < old_out.len() && j < old_out.len() {
                    } else {
                        let i0 = if i < old_out.len() {
                            i
                        } else {
                            j
                        };
                        assert(out@[i0] == old_out[i0]);
                        if old_out[i0] == v {
                            assert(old_out.contains(v));
                            assert(old_rem.contains(v));
                        }
                    }
                }
            }
        }
    }
    proof {
        assert(rem@.len() == 0);
        assert forall|x: usize| #[trigger] out@.contains(x) <==> items@.contains(x) by {
            if items@.contains(x) {
                assert(out@.contains(x) || rem@.contains(x));
            }
        }
    }
    out
}

} // verus!
