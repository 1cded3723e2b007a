//! File names: which files are annotation documents, the image that pairs
//! with each, and the flattened names under which images are gathered.
use vstd::prelude::*;
use vstd::string::*;

verus! {

/// The stem of an annotation document's file name: the name without its
/// ".xml" extension, where it has that extension and a non-empty stem.
pub open spec fn xml_stem_spec(name: Seq<char>) -> Option<Seq<char>> {
    if name.len() > 4 && name.subrange(name.len() - 4, name.len() as int) == ".xml"@ {
        Some(name.take(name.len() - 4))
    } else {
        None
    }
}

/// The position of the last '.' in `s`.
pub open spec fn last_dot(s: Seq<char>) -> Option<int>
    decreases s.len(),
{
    if s.len() == 0 {
        None
    } else if s.last() == '.' {
        Some(s.len() - 1)
    } else {
        last_dot(s.drop_last())
    }
}

/// The stem of a file name: the part before the last '.', unless the name
/// is "..", has no '.', or has its only leading '.' at the start.
pub open spec fn stem_of(name: Seq<char>) -> Seq<char> {
    if name == ".."@ {
        name
    } else {
        match last_dot(name) {
            Some(k) => if k > 0 { name.take(k) } else { name },
            None => name,
        }
    }
}

/// The image that pairs with an annotation document of stem `stem`.
pub open spec fn image_name_spec(stem: Seq<char>) -> Seq<char> {
    stem + ".jpg"@
}

/// The name under which an image file `img` of directory `dir` is gathered
/// with the images of every other directory.
pub open spec fn flattened_spec(dir: Seq<char>, img: Seq<char>) -> Seq<char> {
    stem_of(dir) + "_"@ + img
}

/// The stem of `name` if it names an annotation document.
pub fn xml_stem(name: &str) -> (r: Option<String>)
    ensures
        match r {
            Some(s) => xml_stem_spec(name@) == Some(s@),
            None => xml_stem_spec(name@) is None,
        },
{
    let n = name.unicode_len();
    if n <= 4 {
        return None;
    }
    let ext = name.substring_char(n - 4, n);
    if crate::text::str_equals(ext, ".xml") {
        Some(name.substring_char(0, n - 4).to_owned())
    } else {
        None
    }
}

/// The stem of a file name, as `Path::file_stem` gives it.
pub fn file_stem(name: &str) -> (r: String)
    ensures
        r@ == stem_of(name@),
{
    if crate::text::str_equals(name, "..") {
        return name.to_owned();
    }
    let n = name.unicode_len();
    let mut i: usize = n;
    proof {
        assert(name@.take(n as int) =~= name@);
    }
    while i > 0 && name.get_char(i - 1) != '.'
        invariant
            n == name@.len(),
            i <= n,
            last_dot(name@) == last_dot(name@.take(i as int)),
        decreases i,
    {
        proof {
            let t = name@.take(i as int);
            assert(t.drop_last() =~= name@.take(i - 1));
        }
        i = i - 1;
    }
    proof {
        assert(name@.take(n as int) =~= name@);
        if i > 0 {
            assert(name@.take(i as int).last() == '.');
        }
    }
    if i > 1 {
        name.substring_char(0, i - 1).to_owned()
    } else {
        name.to_owned()
    }
}

/// The image that pairs with the annotation document of stem `stem`.
pub fn image_name(stem: &str) -> (r: String)
    ensures
        r@ == image_name_spec(stem@),
{
    stem.to_owned().concat(".jpg")
}

/// The flattened name of image `img_name` of directory `dir_name`:
/// the directory's stem, an underscore, and the image's name.
pub fn get_flatted_file_name(dir_name: &str, img_name: &str) -> (r: String)
    ensures
        r@ == flattened_spec(dir_name@, img_name@),
{
    file_stem(dir_name).concat("_").concat(img_name)
}

} // verus!
