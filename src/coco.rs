//! The COCO assembler: parsed annotations become image, annotation and
//! category records of one detection document.
use vstd::prelude::*;
use crate::annotation::{Annotataion, AnnotationV, Bndbox, annotation_of_text};
use crate::naming::Cls;
use crate::catalog::{SourceFile, files_view, flattened_of};
use crate::error::ConvertError;
use crate::registry::{CategoryRegistry, registered_id};

verus! {

/// An image entry of the document.
#[derive(Debug)]
pub struct ImageRecord {
    pub date_captured: String,
    pub id: usize,
    pub file_name: String,
    pub width: u32,
    pub height: u32,
}

/// An annotation entry of the document. The box is `[x, y, width, height]`
/// and the segmentation is the polygon through the box's four corners.
#[derive(Debug)]
pub struct AnnotationRecord {
    pub id: usize,
    pub image_id: usize,
    pub category_id: usize,
    pub bbox: [i64; 4],
    pub area: i128,
    pub segmentation: [u32; 8],
    pub iscrowd: u32,
}

/// A category entry of the document.
#[derive(Debug)]
pub struct CategoryRecord {
    pub id: usize,
    pub name: String,
    pub supercategory: String,
}

/// The description block of a document.
#[derive(Debug)]
pub struct CocoInfo {
    pub year: u32,
    pub version: String,
    pub description: String,
    pub date_created: String,
}

/// A license entry of a document.
#[derive(Debug)]
pub struct License {
    pub id: usize,
    pub name: String,
    pub url: String,
}

/// The records of one split.
#[derive(Debug)]
pub struct CocoDocument {
    pub info: CocoInfo,
    pub images: Vec<ImageRecord>,
    pub licenses: Vec<License>,
    /// The document type; always "instances".
    pub doc_type: String,
    pub annotations: Vec<AnnotationRecord>,
    pub categories: Vec<CategoryRecord>,
}

/// The date that every image entry and the description carry.
pub open spec fn dataset_date() -> Seq<char> {
    "2021"@
}

/// The description block that every document carries.
pub open spec fn info_is(info: CocoInfo) -> bool {
    &&& info.year == 2021
    &&& info.version@ == "1.0"@
    &&& info.description@ == "For object detection"@
    &&& info.date_created@ == dataset_date()
}

/// The license list that every document carries: one entry.
pub open spec fn licenses_are(ls: Seq<License>) -> bool {
    &&& ls.len() == 1
    &&& ls[0].id == 1
    &&& ls[0].name@ == "GNU General Public License v3.0"@
    &&& ls[0].url@ == "https://github.com/zhiqwang/yolov5-rt-stack/blob/master/LICENSE"@
}

/// The header of every document: its description block, licenses and type.
pub open spec fn header_is(doc: CocoDocument) -> bool {
    &&& info_is(doc.info)
    &&& licenses_are(doc.licenses@)
    &&& doc.doc_type@ == "instances"@
}

fn dataset_info() -> (r: CocoInfo)
    ensures
        info_is(r),
{
    CocoInfo {
        year: 2021,
        version: "1.0".to_owned(),
        description: "For object detection".to_owned(),
        date_created: "2021".to_owned(),
    }
}

fn dataset_licenses() -> (r: Vec<License>)
    ensures
        licenses_are(r@),
{
    let mut r: Vec<License> = Vec::new();
    r.push(License {
        id: 1,
        name: "GNU General Public License v3.0".to_owned(),
        url: "https://github.com/zhiqwang/yolov5-rt-stack/blob/master/LICENSE".to_owned(),
    });
    r
}

pub open spec fn box_width(b: Bndbox) -> int {
    b.xmax - b.xmin
}

pub open spec fn box_height(b: Bndbox) -> int {
    b.ymax - b.ymin
}

/// The area of a box: its width times its height.
pub open spec fn box_area(b: Bndbox) -> int {
    box_width(b) * box_height(b)
}

/// `im` is the image entry of annotation `a` under ID `id` and file name
/// `file_name`.
pub open spec fn image_record_is(im: ImageRecord, a: AnnotationV, id: nat, file_name: Seq<char>) -> bool {
    &&& im.date_captured@ == dataset_date()
    &&& im.id == id
    &&& im.file_name@ == file_name
    &&& im.width == a.size.width
    &&& im.height == a.size.height
}

/// `an` is the annotation entry of `a` under ID `id`, in category
/// `category_id`.
pub open spec fn annotation_record_is(an: AnnotationRecord, a: AnnotationV, id: nat, category_id: nat) -> bool {
    let b = a.bndbox;
    &&& an.id == id
    &&& an.image_id == id
    &&& an.category_id == category_id
    &&& an.bbox@ == seq![b.xmin as i64, b.ymin as i64, box_width(b) as i64, box_height(b) as i64]
    &&& an.area == box_area(b)
    &&& an.segmentation@ == seq![b.xmin, b.ymin, b.xmax, b.ymin, b.xmax, b.ymax, b.xmin, b.ymax]
    &&& an.iscrowd == 0
}

/// `cats` lists every category of the registry `names`, in ID order, each
/// its own supercategory.
pub open spec fn categories_are(cats: Seq<CategoryRecord>, names: Seq<Seq<char>>) -> bool {
    &&& cats.len() == names.len()
    &&& forall|k: int| 0 <= k < cats.len() ==> {
        &&& (#[trigger] cats[k]).id == k + 1
        &&& cats[k].name@ == names[k]
        &&& cats[k].supercategory@ == names[k]
    }
}

impl Annotataion {
    /// The image entry and the annotation entry of this annotation, both
    /// under ID `id` (one object per image), the image named `img_name`,
    /// the category resolved through `category_id`.
    pub fn into_json(&self, id: usize, img_name: &str, category_id: &CategoryRegistry) -> (r: Result<(ImageRecord, AnnotationRecord), ConvertError>)
        requires
            category_id.wf(),
        ensures
            match r {
                Ok((im, an)) => registered_id(category_id@, self.object_name@) is Some
                    && image_record_is(im, self@, id as nat, img_name@)
                    && annotation_record_is(an, self@, id as nat, registered_id(category_id@, self.object_name@)->0),
                Err(e) => registered_id(category_id@, self.object_name@) is None
                    && e is UnknownCategory && e->UnknownCategory_name@ == self.object_name@,
            },
    {
        let cat = match category_id.lookup(&self.object_name) {
            Ok(c) => c,
            Err(e) => {
                return Err(e);
            },
        };
        let b = self.bndbox;
        let w: i64 = b.xmax as i64 - b.xmin as i64;
        let h: i64 = b.ymax as i64 - b.ymin as i64;
        proof {
            assert(-0x1_0000_0000 < w < 0x1_0000_0000);
            assert(-0x1_0000_0000 < h < 0x1_0000_0000);
            assert(-0x1_0000_0000_0000_0000 <= (w as int) * (h as int) <= 0x1_0000_0000_0000_0000) by (nonlinear_arith)
                requires
                    -0x1_0000_0000 < w < 0x1_0000_0000,
                    -0x1_0000_0000 < h < 0x1_0000_0000,
            ;
        }
        let area: i128 = (w as i128) * (h as i128);
        let image = ImageRecord {
            date_captured: "2021".to_owned(),
            id,
            file_name: img_name.to_owned(),
            width: self.size.width,
            height: self.size.height,
        };
        let anno = AnnotationRecord {
            id,
            image_id: id,
            category_id: cat,
            bbox: [b.xmin as i64, b.ymin as i64, w, h],
            area,
            segmentation: [b.xmin, b.ymin, b.xmax, b.ymin, b.xmax, b.ymax, b.xmin, b.ymax],
            iscrowd: 0,
        };
        proof {
            assert(anno.bbox@ =~= seq![b.xmin as i64, b.ymin as i64, box_width(b) as i64, box_height(b) as i64]);
            assert(anno.segmentation@ =~= seq![b.xmin, b.ymin, b.xmax, b.ymin, b.xmax, b.ymax, b.xmin, b.ymax]);
        }
        Ok((image, anno))
    }
}

/// A box whose left and right edges coincide has area zero.
pub proof fn degenerate_box_has_no_area(b: Bndbox)
    requires
        b.xmin == b.xmax,
    ensures
        box_area(b) == 0,
{
}

/// A box with `xmin <= xmax` and `ymin <= ymax` has the area
/// `(xmax - xmin) * (ymax - ymin)`, which is never negative.
pub proof fn valid_box_area(b: Bndbox)
    requires
        b.xmin <= b.xmax,
        b.ymin <= b.ymax,
    ensures
        box_area(b) == (b.xmax - b.xmin) * (b.ymax - b.ymin),
        box_area(b) >= 0,
{
    assert(box_width(b) * box_height(b) >= 0) by (nonlinear_arith)
        requires
            box_width(b) >= 0,
            box_height(b) >= 0,
    ;
}

/// The integers that a document writes reach its entries unchanged: for a
/// document that parses to `a`, the image entry carries `a`'s width and
/// height, and the annotation entry's box gives back both corners exactly.
pub proof fn numbers_survive_conversion(
    text: Seq<char>,
    cls: Cls,
    id: nat,
    file_name: Seq<char>,
    category: nat,
    im: ImageRecord,
    an: AnnotationRecord,
)
    requires
        annotation_of_text(text, cls) is Ok,
        image_record_is(im, annotation_of_text(text, cls)->Ok_0, id, file_name),
        annotation_record_is(an, annotation_of_text(text, cls)->Ok_0, id, category),
    ensures
        ({
            let a = annotation_of_text(text, cls)->Ok_0;
            &&& im.width == a.size.width
            &&& im.height == a.size.height
            &&& an.bbox@[0] == a.bndbox.xmin
            &&& an.bbox@[1] == a.bndbox.ymin
            &&& an.bbox@[0] + an.bbox@[2] == a.bndbox.xmax
            &&& an.bbox@[1] + an.bbox@[3] == a.bndbox.ymax
            &&& an.segmentation@ == seq![a.bndbox.xmin, a.bndbox.ymin, a.bndbox.xmax, a.bndbox.ymin,
                a.bndbox.xmax, a.bndbox.ymax, a.bndbox.xmin, a.bndbox.ymax]
        }),
{
}

/// Every annotation's object name is a registered category.
pub open spec fn all_registered(annos: Seq<Annotataion>, names: Seq<Seq<char>>) -> bool {
    forall|k: int| 0 <= k < annos.len() ==> (#[trigger] registered_id(names, annos[k].object_name@)) is Some
}

/// The category entries of every registered category, in ID order.
pub fn category_records(registry: &CategoryRegistry) -> (r: Vec<CategoryRecord>)
    ensures
        categories_are(r@, registry@),
{
    let n = registry.len();
    let mut out: Vec<CategoryRecord> = Vec::new();
    let mut k: usize = 0;
    while k < n
        invariant
            n == registry@.len(),
            k <= n,
            out@.len() == k,
            forall|j: int| 0 <= j < k ==> {
                &&& (#[trigger] out@[j]).id == j + 1
                &&& out@[j].name@ == registry@[j]
                &&& out@[j].supercategory@ == registry@[j]
            },
        decreases n - k,
    {
        let name = registry.name_at(k);
        out.push(CategoryRecord { id: k + 1, name: name.clone(), supercategory: name.clone() });
        k = k + 1;
    }
    out
}

/// The document of one split: the `k`-th annotation, whose document is
/// `files[k]`, becomes the image entry and the annotation entry of ID
/// `k + 1`, its image named by the flattened name of the document's image;
/// the categories are those of the whole registry. Fails, on the first
/// annotation whose object name is not registered, with that name.
pub fn build_document(annos: &Vec<Annotataion>, files: &Vec<SourceFile>, registry: &CategoryRegistry) -> (r: Result<CocoDocument, ConvertError>)
    requires
        annos@.len() == files@.len(),
        annos@.len() < usize::MAX,
        registry.wf(),
    ensures
        match r {
            Ok(doc) => all_registered(annos@, registry@)
                && doc.images@.len() == annos@.len()
                && doc.annotations@.len() == annos@.len()
                && (forall|k: int| 0 <= k < annos@.len() ==> image_record_is(
                    #[trigger] doc.images@[k], annos@[k]@, (k + 1) as nat, flattened_of(files_view(files@)[k])))
                && (forall|k: int| 0 <= k < annos@.len() ==> annotation_record_is(
                    #[trigger] doc.annotations@[k], annos@[k]@, (k + 1) as nat,
                    registered_id(registry@, annos@[k].object_name@)->0))
                && categories_are(doc.categories@, registry@)
                && header_is(doc),
            Err(e) => !all_registered(annos@, registry@) && e is UnknownCategory
                && exists|k: int| 0 <= k < annos@.len()
                    && registered_id(registry@, (#[trigger] annos@[k]).object_name@) is None
                    && e->UnknownCategory_name@ == annos@[k].object_name@,
        },
{
    let n = annos.len();
    let mut images: Vec<ImageRecord> = Vec::new();
    let mut records: Vec<AnnotationRecord> = Vec::new();
    let mut k: usize = 0;
    while k < n
        invariant
            n == annos@.len(),
            n == files@.len(),
            n < usize::MAX,
            registry.wf(),
            k <= n,
            images@.len() == k,
            records@.len() == k,
            forall|j: int| 0 <= j < k ==> (#[trigger] registered_id(registry@, annos@[j].object_name@)) is Some,
            forall|j: int| 0 <= j < k ==> image_record_is(
                #[trigger] images@[j], annos@[j]@, (j + 1) as nat, flattened_of(files_view(files@)[j])),
            forall|j: int| 0 <= j < k ==> annotation_record_is(
                #[trigger] records@[j], annos@[j]@, (j + 1) as nat,
                registered_id(registry@, annos@[j].object_name@)->0),
        decreases n - k,
    {
        let img_name = files[k].flattened_name();
        proof {
            assert(files_view(files@)[k as int] == files@[k as int]@);
        }
        match annos[k].into_json(k + 1, img_name.as_str(), registry) {
            Ok((im, an)) => {
                images.push(im);
                records.push(an);
            },
            Err(e) => {
                proof {
                    assert(!all_registered(annos@, registry@));
                }
                return Err(e);
            },
        }
        k = k + 1;
    }
    let categories = category_records(registry);
    Ok(CocoDocument {
        info: dataset_info(),
        images,
        licenses: dataset_licenses(),
        doc_type: "instances".to_owned(),
        annotations: records,
        categories,
    })
}

} // verus!
