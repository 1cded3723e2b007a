//! The directory scan: category directories in listing order become the
//! category registry and the list of annotation documents.
use vstd::prelude::*;
use vstd::string::*;
use crate::error::ConvertError;
use crate::naming::{Cls, class_name};
use crate::paths::{xml_stem, xml_stem_spec, image_name, image_name_spec, get_flatted_file_name, flattened_spec};
use crate::registry::CategoryRegistry;

verus! {

/// One category directory as listed: its name and the names of the
/// regular files in it, in listing order.
pub struct CategoryDir {
    pub name: String,
    pub files: Vec<String>,
}

pub open spec fn dir_view(d: CategoryDir) -> (Seq<char>, Seq<Seq<char>>) {
    (d.name@, d.files@.map_values(|f: String| f@))
}

pub open spec fn dirs_view(ds: Seq<CategoryDir>) -> Seq<(Seq<char>, Seq<Seq<char>>)> {
    ds.map_values(|d: CategoryDir| dir_view(d))
}

/// One annotation document: the raw name of its directory and its stem.
pub struct SourceFile {
    pub dir_name: String,
    pub stem: String,
}

impl View for SourceFile {
    type V = (Seq<char>, Seq<char>);

    open spec fn view(&self) -> (Seq<char>, Seq<char>) {
        (self.dir_name@, self.stem@)
    }
}

pub open spec fn files_view(fs: Seq<SourceFile>) -> Seq<(Seq<char>, Seq<char>)> {
    fs.map_values(|f: SourceFile| f@)
}

/// The flattened name of the image that pairs with document `f`.
pub open spec fn flattened_of(f: (Seq<char>, Seq<char>)) -> Seq<char> {
    flattened_spec(f.0, image_name_spec(f.1))
}

impl SourceFile {
    /// The same document, as a new value.
    pub fn duplicate(&self) -> (r: Self)
        ensures
            r@ == self@,
    {
        SourceFile { dir_name: self.dir_name.clone(), stem: self.stem.clone() }
    }

    /// The file name of the document.
    pub fn xml_name(&self) -> (r: String)
        ensures
            r@ == self.stem@ + ".xml"@,
    {
        self.stem.clone().concat(".xml")
    }

    /// The file name of the image that pairs with the document.
    pub fn image_name(&self) -> (r: String)
        ensures
            r@ == image_name_spec(self.stem@),
    {
        image_name(self.stem.as_str())
    }

    /// The flattened name of that image.
    pub fn flattened_name(&self) -> (r: String)
        ensures
            r@ == flattened_of(self@),
    {
        let img = image_name(self.stem.as_str());
        get_flatted_file_name(self.dir_name.as_str(), img.as_str())
    }
}

/// A registry's names after `n` is met: unchanged if known, else extended.
pub open spec fn note_name(names: Seq<Seq<char>>, n: Seq<char>) -> Seq<Seq<char>> {
    if names.contains(n) {
        names
    } else {
        names.push(n)
    }
}

/// The registered category names after a scan of `dirs`; where a
/// directory name has no category name under `cls`, the first such name.
pub open spec fn scanned_names(dirs: Seq<(Seq<char>, Seq<Seq<char>>)>, cls: Cls) -> Result<Seq<Seq<char>>, Seq<char>>
    decreases dirs.len(),
{
    if dirs.len() == 0 {
        Ok(Seq::empty())
    } else {
        match scanned_names(dirs.drop_last(), cls) {
            Err(bad) => Err(bad),
            Ok(names) => match class_name(cls, dirs.last().0) {
                None => Err(dirs.last().0),
                Some(n) => Ok(note_name(names, n)),
            },
        }
    }
}

/// The annotation documents among the files `files` of directory `dir`.
pub open spec fn documents_in(dir: Seq<char>, files: Seq<Seq<char>>) -> Seq<(Seq<char>, Seq<char>)>
    decreases files.len(),
{
    if files.len() == 0 {
        Seq::empty()
    } else {
        documents_in(dir, files.drop_last()) + match xml_stem_spec(files.last()) {
            Some(st) => seq![(dir, st)],
            None => Seq::empty(),
        }
    }
}

/// The annotation documents of a scan of `dirs`, in listing order.
pub open spec fn scanned_files(dirs: Seq<(Seq<char>, Seq<Seq<char>>)>) -> Seq<(Seq<char>, Seq<char>)>
    decreases dirs.len(),
{
    if dirs.len() == 0 {
        Seq::empty()
    } else {
        scanned_files(dirs.drop_last()) + documents_in(dirs.last().0, dirs.last().1)
    }
}

/// Once a scan has failed, scanning more directories keeps it failed.
proof fn lemma_failure_persists(dv: Seq<(Seq<char>, Seq<Seq<char>>)>, m: int, cls: Cls)
    requires
        0 <= m <= dv.len(),
        scanned_names(dv.take(m), cls) is Err,
    ensures
        scanned_names(dv.take(dv.len() as int), cls) == scanned_names(dv.take(m), cls),
    decreases dv.len() - m,
{
    if m < dv.len() {
        assert(dv.take(m + 1).drop_last() =~= dv.take(m));
        lemma_failure_persists(dv, m + 1, cls);
    }
}

/// The result of a directory scan.
pub struct Catalog {
    pub registry: CategoryRegistry,
    pub files: Vec<SourceFile>,
}

/// Appends the annotation documents among the files of `dir` to `out`.
fn collect_documents(dir: &CategoryDir, out: &mut Vec<SourceFile>)
    ensures
        files_view(final(out)@) == files_view(old(out)@) + documents_in(dir.name@, dir_view(*dir).1),
{
    let ghost fv = dir_view(*dir).1;
    let mut i: usize = 0;
    proof {
        assert(fv.take(0) =~= Seq::<Seq<char>>::empty());
        assert(files_view(out@) =~= files_view(old(out)@) + documents_in(dir.name@, fv.take(0)));
    }
    while i < dir.files.len()
        invariant
            fv == dir_view(*dir).1,
            fv.len() == dir.files@.len(),
            i <= dir.files@.len(),
            files_view(out@) == files_view(old(out)@) + documents_in(dir.name@, fv.take(i as int)),
        decreases dir.files@.len() - i,
    {
        let ghost before = out@;
        proof {
            assert(fv.take(i + 1).drop_last() =~= fv.take(i as int));
            assert(fv.take(i + 1).last() == dir.files@[i as int]@);
        }
        match xml_stem(dir.files[i].as_str()) {
            Some(st) => {
                out.push(SourceFile { dir_name: dir.name.clone(), stem: st });
                proof {
                    assert(files_view(out@) =~= files_view(before) + seq![(dir.name@, st@)]);
                }
            },
            None => {},
        }
        proof {
            assert(files_view(out@) =~= files_view(old(out)@) + documents_in(dir.name@, fv.take(i + 1)));
        }
        i = i + 1;
    }
    proof {
        assert(fv.take(dir.files@.len() as int) =~= fv);
    }
}

/// Scans the category directories in listing order: each directory's name,
/// under the naming mode `cls`, is registered at its first occurrence, and
/// the annotation documents of every directory are listed in order.
pub fn scan_categories(dirs: &Vec<CategoryDir>, cls: Cls) -> (r: Result<Catalog, ConvertError>)
    ensures
        match r {
            Ok(c) => c.registry.wf() && scanned_names(dirs_view(dirs@), cls) == Ok::<Seq<Seq<char>>, Seq<char>>(c.registry@)
                && files_view(c.files@) == scanned_files(dirs_view(dirs@)),
            Err(e) => scanned_names(dirs_view(dirs@), cls) is Err && e is NamingError
                && e->NamingError_name@ == scanned_names(dirs_view(dirs@), cls)->Err_0,
        },
{
    let ghost dv = dirs_view(dirs@);
    let mut registry = CategoryRegistry::new();
    let mut files: Vec<SourceFile> = Vec::new();
    let mut k: usize = 0;
    proof {
        assert(dv.take(0) =~= Seq::<(Seq<char>, Seq<Seq<char>>)>::empty());
        assert(files_view(files@) =~= Seq::<(Seq<char>, Seq<char>)>::empty());
    }
    while k < dirs.len()
        invariant
            dv == dirs_view(dirs@),
            dv.len() == dirs@.len(),
            k <= dirs@.len(),
            registry.wf(),
            registry@.len() <= k,
            scanned_names(dv.take(k as int), cls) == Ok::<Seq<Seq<char>>, Seq<char>>(registry@),
            files_view(files@) == scanned_files(dv.take(k as int)),
        decreases dirs@.len() - k,
    {
        let dir = &dirs[k];
        proof {
            assert(dv.take(k + 1).drop_last() =~= dv.take(k as int));
            assert(dv.take(k + 1).last() == dir_view(*dir));
        }
        match cls.get_name(dir.name.as_str()) {
            Err(e) => {
                proof {
                    assert(scanned_names(dv.take(k + 1), cls) == Err::<Seq<Seq<char>>, Seq<char>>(dir.name@));
                    lemma_failure_persists(dv, k + 1, cls);
                    assert(dv.take(dv.len() as int) =~= dv);
                }
                return Err(e);
            },
            Ok(n) => {
                let ghost names = registry@;
                let _id = registry.register(n);
                proof {
                    assert(note_name(names, n@) == registry@);
                }
            },
        }
        collect_documents(dir, &mut files);
        k = k + 1;
    }
    proof {
        assert(dv.take(dirs@.len() as int) =~= dv);
    }
    Ok(Catalog { registry, files })
}

} // verus!
