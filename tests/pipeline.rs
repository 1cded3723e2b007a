use voc2coco::annotation::{Annotataion, Bndbox, Size};
use voc2coco::catalog::{scan_categories, CategoryDir, SourceFile};
use voc2coco::coco::{build_document, category_records};
use voc2coco::plan::{copy_targets, plan_conversion, DEFAULT_SEED};
use voc2coco::registry::CategoryRegistry;
use voc2coco::split::{select_files, split_indices};
use voc2coco::{parse, Cls, ConvertError};

fn dir(name: &str, files: &[&str]) -> CategoryDir {
    CategoryDir { name: name.to_string(), files: files.iter().map(|f| f.to_string()).collect() }
}

fn doc(name: &str, xmin: u32, ymin: u32, xmax: u32, ymax: u32) -> String {
    format!(
        "<annotation><filename>f</filename><size><width>100</width><height>50</height></size>\
         <object><name>{}</name><bndbox><xmin>{}</xmin><ymin>{}</ymin><xmax>{}</xmax><ymax>{}</ymax>\
         </bndbox></object></annotation>",
        name, xmin, ymin, xmax, ymax
    )
}

fn anno(name: &str, b: (u32, u32, u32, u32)) -> Annotataion {
    Annotataion {
        filename: "f".to_string(),
        size: Size { width: 100, height: 50 },
        object_name: name.to_string(),
        bndbox: Bndbox { xmin: b.0, ymin: b.1, xmax: b.2, ymax: b.3 },
    }
}

fn registry(names: &[&str]) -> CategoryRegistry {
    let mut r = CategoryRegistry::new();
    for n in names {
        r.register(n.to_string());
    }
    r
}

#[test]
fn split_sizes() {
    for (n, t) in [(0usize, 0usize), (1, 0), (2, 1), (5, 4), (10, 8), (11, 8), (99, 79)] {
        let s = split_indices(n, DEFAULT_SEED);
        assert_eq!(s.train.len(), t);
        assert_eq!(s.val.len(), n - t);
        let mut all: Vec<usize> = s.train.iter().chain(s.val.iter()).copied().collect();
        all.sort();
        assert_eq!(all, (0..n).collect::<Vec<_>>());
    }
}

#[test]
fn split_is_reproducible() {
    let a = split_indices(50, 7);
    let b = split_indices(50, 7);
    assert_eq!(a.train, b.train);
    assert_eq!(a.val, b.val);
    let c = split_indices(50, DEFAULT_SEED);
    let d = split_indices(50, DEFAULT_SEED);
    assert_eq!(c.train, d.train);
    let order: Vec<usize> = c.train.iter().chain(c.val.iter()).copied().collect();
    assert_ne!(order, (0..50).collect::<Vec<_>>());
}

#[test]
fn scan_registers_in_listing_order() {
    let dirs = vec![
        dir("whale1", &["a.xml", "a.jpg", "notes.txt"]),
        dir("dac2", &["b.xml", "b.jpg"]),
        dir("whale2", &["c.xml", "c.jpg", "d.xml"]),
    ];
    let cat = scan_categories(&dirs, Cls::Medium).unwrap();
    assert_eq!(cat.registry.len(), 2);
    assert_eq!(cat.registry.name_at(0), "whale");
    assert_eq!(cat.registry.name_at(1), "dac");
    let stems: Vec<(String, String)> =
        cat.files.iter().map(|f| (f.dir_name.clone(), f.stem.clone())).collect();
    assert_eq!(
        stems,
        vec![
            ("whale1".to_string(), "a".to_string()),
            ("dac2".to_string(), "b".to_string()),
            ("whale2".to_string(), "c".to_string()),
            ("whale2".to_string(), "d".to_string()),
        ]
    );
    let e = scan_categories(&vec![dir("cat1", &[]), dir("cat", &["a.xml"]), dir("dog", &[])], Cls::Medium);
    assert_eq!(e.err(), Some(ConvertError::NamingError { name: "cat".to_string() }));
}

#[test]
fn select_keeps_order_of_positions() {
    let files = vec![
        SourceFile { dir_name: "d".to_string(), stem: "x".to_string() },
        SourceFile { dir_name: "d".to_string(), stem: "y".to_string() },
    ];
    let picked = select_files(&files, &vec![1, 0, 1]);
    let stems: Vec<&str> = picked.iter().map(|f| f.stem.as_str()).collect();
    assert_eq!(stems, vec!["y", "x", "y"]);
}

#[test]
fn records_of_one_annotation() {
    let reg = registry(&["cat1", "dog3"]);
    let (im, an) = anno("dog3", (276, 128, 311, 194)).into_json(5, "dog3_b.jpg", &reg).unwrap();
    assert_eq!((im.id, im.file_name.as_str(), im.width, im.height), (5, "dog3_b.jpg", 100, 50));
    assert_eq!(im.date_captured, "2021");
    assert_eq!((an.id, an.image_id, an.category_id, an.iscrowd), (5, 5, 2, 0));
    assert_eq!(an.bbox, [276, 128, 35, 66]);
    assert_eq!(an.area, 35 * 66);
    assert_eq!(an.segmentation, [276, 128, 311, 128, 311, 194, 276, 194]);
}

#[test]
fn degenerate_and_inverted_boxes() {
    let reg = registry(&["c"]);
    let (_, an) = anno("c", (10, 10, 10, 30)).into_json(1, "x", &reg).unwrap();
    assert_eq!(an.area, 0);
    assert_eq!(an.bbox, [10, 10, 0, 20]);
    let (_, an) = anno("c", (10, 10, 4, 30)).into_json(1, "x", &reg).unwrap();
    assert_eq!(an.bbox, [10, 10, -6, 20]);
    assert_eq!(an.area, -120);
    let (_, an) = anno("c", (0, 0, 4294967295, 4294967295)).into_json(1, "x", &reg).unwrap();
    assert_eq!(an.area, 4294967295i128 * 4294967295i128);
}

#[test]
fn unknown_category_fails() {
    let reg = registry(&["c"]);
    let r = anno("zebra", (0, 0, 1, 1)).into_json(1, "x", &reg);
    assert_eq!(r.unwrap_err(), ConvertError::UnknownCategory { name: "zebra".to_string() });
    let files = vec![SourceFile { dir_name: "c".to_string(), stem: "a".to_string() }];
    let r = build_document(&vec![anno("zebra", (0, 0, 1, 1))], &files, &reg);
    assert!(matches!(r, Err(ConvertError::UnknownCategory { .. })));
}

#[test]
fn document_ids_follow_positions() {
    let reg = registry(&["cat1", "dog3", "eel"]);
    let files = vec![
        SourceFile { dir_name: "dog3".to_string(), stem: "b".to_string() },
        SourceFile { dir_name: "cat1".to_string(), stem: "a".to_string() },
    ];
    let annos = vec![anno("dog3", (1, 2, 3, 4)), anno("cat1", (5, 6, 7, 8))];
    let d = build_document(&annos, &files, &reg).unwrap();
    let ids: Vec<(usize, usize, usize)> =
        d.annotations.iter().map(|a| (a.id, a.image_id, a.category_id)).collect();
    assert_eq!(ids, vec![(1, 1, 2), (2, 2, 1)]);
    let names: Vec<&str> = d.images.iter().map(|i| i.file_name.as_str()).collect();
    assert_eq!(names, vec!["dog3_b.jpg", "cat1_a.jpg"]);
    let cats: Vec<(usize, &str, &str)> = d
        .categories
        .iter()
        .map(|c| (c.id, c.name.as_str(), c.supercategory.as_str()))
        .collect();
    assert_eq!(cats, vec![(1, "cat1", "cat1"), (2, "dog3", "dog3"), (3, "eel", "eel")]);
    assert_eq!(category_records(&reg).len(), 3);
    assert_eq!(d.doc_type, "instances");
    assert_eq!(
        (d.info.year, d.info.version.as_str(), d.info.description.as_str(), d.info.date_created.as_str()),
        (2021, "1.0", "For object detection", "2021")
    );
    assert_eq!(d.licenses.len(), 1);
    assert_eq!(d.licenses[0].id, 1);
    assert_eq!(d.licenses[0].name, "GNU General Public License v3.0");
}

#[test]
fn flattened_name_for_copy_and_record_agree() {
    let files = vec![SourceFile { dir_name: "dog3".to_string(), stem: "b".to_string() }];
    assert_eq!(files[0].image_name(), "b.jpg");
    assert_eq!(files[0].xml_name(), "b.xml");
    let targets = copy_targets(&files);
    assert_eq!(targets, vec!["dog3_b.jpg".to_string()]);
    let reg = registry(&["dog3"]);
    let d = build_document(&vec![anno("dog3", (0, 0, 1, 1))], &files, &reg).unwrap();
    assert_eq!(d.images[0].file_name, targets[0]);
}

#[test]
fn two_folders_end_to_end() {
    let dirs = vec![dir("cat1", &["a.xml", "a.jpg"]), dir("dog3", &["b.xml", "b.jpg"])];
    let plan = plan_conversion(&dirs, Cls::Full, DEFAULT_SEED).unwrap();
    assert_eq!(plan.train.len(), 1);
    assert_eq!(plan.val.len(), 1);
    let texts = |f: &SourceFile| doc(&f.dir_name, 1, 2, 30, 40);
    let mut seen = Vec::new();
    for part in [&plan.train, &plan.val] {
        let annos: Vec<Annotataion> =
            part.iter().map(|f| parse(&texts(f), &f.xml_name(), Cls::Full).unwrap()).collect();
        let d = build_document(&annos, part, &plan.registry).unwrap();
        assert_eq!(d.images.len(), 1);
        assert_eq!(d.annotations.len(), 1);
        let expected = plan.registry.lookup(&part[0].dir_name).unwrap();
        assert_eq!(d.annotations[0].category_id, expected);
        let cats: Vec<&str> = d.categories.iter().map(|c| c.name.as_str()).collect();
        assert_eq!(cats, vec!["cat1", "dog3"]);
        seen.push(part[0].dir_name.clone());
    }
    seen.sort();
    assert_eq!(seen, vec!["cat1".to_string(), "dog3".to_string()]);
}
