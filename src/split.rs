//! The dataset splitter: a seeded shuffle, then an 80/20 cut.
use vstd::prelude::*;
use rand::seq::SliceRandom;
use rand::SeedableRng;
use crate::catalog::{SourceFile, files_view};

verus! {

/// The positions `0, 1, ..., n - 1`.
pub open spec fn positions(n: nat) -> Seq<usize> {
    Seq::new(n, |i: int| i as usize)
}

/// The number of items that go to the training set: `floor(0.8 n)`.
pub open spec fn train_count(n: nat) -> nat {
    n * 4 / 5
}

/// The order in which a shuffle seeded with `seed` leaves `items`.
pub uninterp spec fn seeded_shuffle(seed: u64, items: Seq<usize>) -> Seq<usize>;

/// Relies on rand's `StdRng::seed_from_u64` and `SliceRandom::shuffle`: the
/// shuffle only swaps items, and its swaps depend on the seed and the
/// length alone, so the same seed and items give the same order. rand
/// documents that `StdRng`'s algorithm may change between rand versions: the
/// order is that of the rand version this crate is built with.
#[verifier::external_body]
fn shuffle_seeded(items: &mut Vec<usize>, seed: u64)
    ensures
        final(items)@ == seeded_shuffle(seed, old(items)@),
        final(items)@.to_multiset() == old(items)@.to_multiset(),
{
    let mut rng = rand::rngs::StdRng::seed_from_u64(seed);
    items.shuffle(&mut rng);
}

/// The training positions and validation positions of a split.
pub struct Split {
    pub train: Vec<usize>,
    pub val: Vec<usize>,
}

/// The shuffled positions of a split of `n` items with `seed`.
pub open spec fn split_order(n: nat, seed: u64) -> Seq<usize> {
    seeded_shuffle(seed, positions(n))
}

/// Splits the positions `0 .. n` of a file list: shuffled with `seed`, the
/// first `floor(0.8 n)` train and the rest validate. Every position lands
/// exactly once, and the split depends on `n` and `seed` alone.
pub fn split_indices(n: usize, seed: u64) -> (r: Split)
    ensures
        r.train@.len() == train_count(n as nat),
        r.val@.len() == n - train_count(n as nat),
        r.train@ + r.val@ == split_order(n as nat, seed),
        (r.train@ + r.val@).to_multiset() == positions(n as nat).to_multiset(),
{
    let mut order: Vec<usize> = Vec::new();
    let mut i: usize = 0;
    while i < n
        invariant
            i <= n,
            order@ == positions(i as nat),
        decreases n - i,
    {
        order.push(i);
        proof {
            assert(order@ =~= positions((i + 1) as nat));
        }
        i = i + 1;
    }
    let ghost ordered = order@;
    shuffle_seeded(&mut order, seed);
    proof {
        vstd::seq_lib::to_multiset_len(order@);
        vstd::seq_lib::to_multiset_len(positions(n as nat));
    }
    let cut = ((n as u128) * 4 / 5) as usize;
    let mut train: Vec<usize> = Vec::new();
    let mut val: Vec<usize> = Vec::new();
    let mut k: usize = 0;
    while k < order.len()
        invariant
            k <= order@.len(),
            order@.len() == n,
            cut <= n,
            train@ == order@.take(if k < cut { k as int } else { cut as int }),
            val@ == if k < cut { Seq::<usize>::empty() } else { order@.subrange(cut as int, k as int) },
        decreases order@.len() - k,
    {
        if k < cut {
            train.push(order[k]);
        } else {
            val.push(order[k]);
        }
        k = k + 1;
        proof {
            assert(train@ =~= order@.take(if k < cut { k as int } else { cut as int }));
            assert(val@ =~= if k < cut { Seq::<usize>::empty() } else { order@.subrange(cut as int, k as int) });
        }
    }
    proof {
        assert(train@ + val@ =~= order@);
    }
    Split { train, val }
}

/// Two orders of the same positions select the same items, counted with
/// their repetitions.
pub proof fn permuted_selection<T>(a: Seq<usize>, b: Seq<usize>, items: Seq<T>)
    requires
        a.to_multiset() == b.to_multiset(),
        forall|k: int| 0 <= k < a.len() ==> #[trigger] a[k] < items.len(),
        forall|k: int| 0 <= k < b.len() ==> #[trigger] b[k] < items.len(),
    ensures
        a.map_values(|i: usize| items[i as int]).to_multiset()
            == b.map_values(|i: usize| items[i as int]).to_multiset(),
    decreases a.len(),
{
    let f = |i: usize| items[i as int];
    vstd::seq_lib::to_multiset_len(a);
    vstd::seq_lib::to_multiset_len(b);
    if a.len() == 0 {
        assert(a.map_values(f) =~= b.map_values(f));
    } else {
        let x = a.last();
        let a2 = a.drop_last();
        assert(a =~= a2.push(x));
        vstd::seq_lib::to_multiset_build(a2, x);
        vstd::seq_lib::to_multiset_contains(a, x);
        vstd::seq_lib::to_multiset_contains(b, x);
        let i = choose|i: int| 0 <= i < b.len() && b[i] == x;
        let b2 = b.remove(i);
        vstd::seq_lib::to_multiset_remove(b, i);
        assert(a2.to_multiset() =~= a.to_multiset().remove(x));
        assert forall|k: int| 0 <= k < b2.len() implies #[trigger] b2[k] < items.len() by {
            if k < i {
                assert(b2[k] == b[k]);
            } else {
                assert(b2[k] == b[k + 1]);
            }
        }
        assert forall|k: int| 0 <= k < a2.len() implies #[trigger] a2[k] < items.len() by {
            assert(a2[k] == a[k]);
        }
        permuted_selection(a2, b2, items);
        let ma = a.map_values(f);
        let mb = b.map_values(f);
        assert(ma =~= a2.map_values(f).push(items[x as int]));
        vstd::seq_lib::to_multiset_build(a2.map_values(f), items[x as int]);
        assert(mb.remove(i) =~= b2.map_values(f));
        vstd::seq_lib::to_multiset_remove(mb, i);
        assert(mb[i] == items[x as int]);
        vstd::seq_lib::to_multiset_contains(mb, mb[i]);
        assert(mb.to_multiset() =~= mb.to_multiset().remove(items[x as int]).insert(items[x as int]));
    }
}

/// Selects the files at `idx`, in that order.
pub fn select_files(files: &Vec<SourceFile>, idx: &Vec<usize>) -> (r: Vec<SourceFile>)
    requires
        forall|k: int| 0 <= k < idx@.len() ==> idx@[k] < files@.len(),
    ensures
        files_view(r@) == idx@.map_values(|p: usize| files_view(files@)[p as int]),
{
    let mut out: Vec<SourceFile> = Vec::new();
    let mut k: usize = 0;
    while k < idx.len()
        invariant
            k <= idx@.len(),
            forall|j: int| 0 <= j < idx@.len() ==> idx@[j] < files@.len(),
            files_view(out@) == idx@.take(k as int).map_values(|p: usize| files_view(files@)[p as int]),
        decreases idx@.len() - k,
    {
        let ghost before = out@;
        let f = files[idx[k]].duplicate();
        proof {
            assert(files_view(files@)[idx@[k as int] as int] == files@[idx@[k as int] as int]@);
        }
        out.push(f);
        proof {
            assert(files_view(out@) =~= files_view(before).push(f@));
            assert(idx@.take(k + 1) =~= idx@.take(k as int).push(idx@[k as int]));
        }
        k = k + 1;
        proof {
            assert(files_view(out@) =~= idx@.take(k as int).map_values(|p: usize| files_view(files@)[p as int]));
        }
    }
    proof {
        assert(idx@.take(idx@.len() as int) =~= idx@);
    }
    out
}

} // verus!
