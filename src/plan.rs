//! The conversion plan: what the scan and the split decide before any file
//! is parsed or copied.
use vstd::prelude::*;
use crate::catalog::{CategoryDir, SourceFile, Catalog, scan_categories, scanned_names, scanned_files, dirs_view, files_view, flattened_of};
use crate::coco::image_record_is;
use crate::error::ConvertError;
use crate::naming::Cls;
use crate::registry::CategoryRegistry;
use crate::split::{split_indices, select_files, split_order, train_count, positions, permuted_selection};

verus! {

/// The seed of the shuffle unless another is configured.
pub const DEFAULT_SEED: u64 = 233;

/// The registry and the two halves of the file list.
pub struct Plan {
    pub registry: CategoryRegistry,
    pub train: Vec<SourceFile>,
    pub val: Vec<SourceFile>,
}

/// Scans the category directories, then shuffles the documents with `seed`
/// and cuts them 80/20 into a training and a validation list.
pub fn plan_conversion(dirs: &Vec<CategoryDir>, cls: Cls, seed: u64) -> (r: Result<Plan, ConvertError>)
    ensures
        match r {
            Ok(p) => {
                let files = scanned_files(dirs_view(dirs@));
                let order = split_order(files.len(), seed);
                &&& p.registry.wf()
                &&& scanned_names(dirs_view(dirs@), cls) == Ok::<Seq<Seq<char>>, Seq<char>>(p.registry@)
                &&& files_view(p.train@).len() == train_count(files.len())
                &&& files_view(p.val@).len() == files.len() - train_count(files.len())
                &&& order.to_multiset() == positions(files.len()).to_multiset()
                &&& files_view(p.train@) + files_view(p.val@) == order.map_values(|i: usize| files[i as int])
                &&& (files_view(p.train@) + files_view(p.val@)).to_multiset() == files.to_multiset()
            },
            Err(e) => scanned_names(dirs_view(dirs@), cls) is Err && e is NamingError
                && e->NamingError_name@ == scanned_names(dirs_view(dirs@), cls)->Err_0,
        },
{
    let catalog = match scan_categories(dirs, cls) {
        Ok(c) => c,
        Err(e) => {
            return Err(e);
        },
    };
    let Catalog { registry, files } = catalog;
    let ghost fv = files_view(files@);
    let s = split_indices(files.len(), seed);
    proof {
        assert forall|k: int| 0 <= k < s.train@.len() implies s.train@[k] < files@.len() by {
            assert((s.train@ + s.val@)[k] == s.train@[k]);
            vstd::seq_lib::to_multiset_contains(s.train@ + s.val@, s.train@[k]);
            vstd::seq_lib::to_multiset_contains(positions(files@.len()), s.train@[k]);
        }
        assert forall|k: int| 0 <= k < s.val@.len() implies s.val@[k] < files@.len() by {
            assert((s.train@ + s.val@)[s.train@.len() + k] == s.val@[k]);
            vstd::seq_lib::to_multiset_contains(s.train@ + s.val@, s.val@[k]);
            vstd::seq_lib::to_multiset_contains(positions(files@.len()), s.val@[k]);
        }
    }
    let train = select_files(&files, &s.train);
    let val = select_files(&files, &s.val);
    proof {
        let order = split_order(files@.len(), seed);
        assert(order + Seq::<usize>::empty() =~= order);
        assert(files_view(train@) + files_view(val@) =~= order.map_values(|i: usize| fv[i as int]));
        let all = positions(files@.len());
        assert forall|k: int| 0 <= k < order.len() implies #[trigger] order[k] < fv.len() by {
            if k < s.train@.len() {
                assert(order[k] == s.train@[k]);
            } else {
                assert(order[k] == s.val@[k - s.train@.len()]);
            }
        }
        assert forall|k: int| 0 <= k < all.len() implies #[trigger] all[k] < fv.len() by {}
        permuted_selection(order, all, fv);
        assert(all.map_values(|i: usize| fv[i as int]) =~= fv);
    }
    Ok(Plan { registry, train, val })
}

/// The names under which the images of `files` are copied: the flattened
/// name of each document's image.
pub fn copy_targets(files: &Vec<SourceFile>) -> (r: Vec<String>)
    ensures
        r@.len() == files@.len(),
        forall|k: int| 0 <= k < files@.len() ==> (#[trigger] r@[k])@ == flattened_of(files_view(files@)[k]),
{
    let mut out: Vec<String> = Vec::new();
    let mut k: usize = 0;
    while k < files.len()
        invariant
            k <= files@.len(),
            out@.len() == k,
            forall|j: int| 0 <= j < k ==> (#[trigger] out@[j])@ == flattened_of(files_view(files@)[j]),
        decreases files@.len() - k,
    {
        out.push(files[k].flattened_name());
        proof {
            assert(files_view(files@)[k as int] == files@[k as int]@);
        }
        k = k + 1;
    }
    out
}

/// An image is copied under the very name that its image entry carries:
/// for every document of a split, the name that `copy_targets` gives it and
/// the file name of its image entry in `build_document`'s result agree.
pub proof fn copied_name_matches_record(
    files: Seq<SourceFile>,
    targets: Seq<String>,
    images: Seq<crate::coco::ImageRecord>,
    annos: Seq<crate::annotation::Annotataion>,
    k: int,
)
    requires
        0 <= k < files.len(),
        targets.len() == files.len(),
        images.len() == files.len(),
        annos.len() == files.len(),
        forall|j: int| 0 <= j < files.len() ==> (#[trigger] targets[j])@ == flattened_of(files_view(files)[j]),
        forall|j: int| 0 <= j < files.len() ==> image_record_is(
            #[trigger] images[j], annos[j]@, (j + 1) as nat, flattened_of(files_view(files)[j])),
    ensures
        images[k].file_name@ == targets[k]@,
{
    assert(image_record_is(images[k], annos[k]@, (k + 1) as nat, flattened_of(files_view(files)[k])));
    assert(targets[k]@ == flattened_of(files_view(files)[k]));
}

} // verus!
