use voc2coco::naming::Cls;
use voc2coco::number::parse_u32;
use voc2coco::paths::{file_stem, get_flatted_file_name, image_name, xml_stem};
use voc2coco::registry::CategoryRegistry;
use voc2coco::ConvertError;

#[test]
fn medium_mode_cuts_at_first_digit() {
    assert_eq!(Cls::Medium.get_name("whale1").unwrap(), "whale");
    assert_eq!(Cls::Medium.get_name("dac2").unwrap(), "dac");
    assert_eq!(Cls::Medium.get_name("a12b3").unwrap(), "a");
    assert_eq!(Cls::Medium.get_name("7up").unwrap(), "");
}

#[test]
fn medium_mode_without_digit_fails() {
    assert_eq!(
        Cls::Medium.get_name("whale").unwrap_err(),
        ConvertError::NamingError { name: "whale".to_string() }
    );
}

#[test]
fn single_mode_is_one_label() {
    assert_eq!(Cls::Single.get_name("whale1").unwrap(), "dac_object");
    assert_eq!(Cls::Single.get_name("cat").unwrap(), "dac_object");
}

#[test]
fn full_mode_keeps_name() {
    assert_eq!(Cls::Full.get_name("whale1").unwrap(), "whale1");
    assert_eq!(Cls::Full.get_name("dog").unwrap(), "dog");
}

#[test]
fn mode_words() {
    assert_eq!(Cls::from_str("medium"), Ok(Cls::Medium));
    assert_eq!(Cls::from_str("single"), Ok(Cls::Single));
    assert_eq!(Cls::from_str("full"), Ok(Cls::Full));
    for w in ["other", "", "Medium", "half"] {
        assert_eq!(Cls::from_str(w), Err(ConvertError::InvalidMode { word: w.to_string() }));
    }
    assert_eq!(Cls::default(), Cls::Full);
}

#[test]
fn registry_ids_follow_first_sight() {
    let mut r = CategoryRegistry::new();
    assert_eq!(r.register("A".to_string()), 1);
    assert_eq!(r.register("B".to_string()), 2);
    assert_eq!(r.register("A".to_string()), 1);
    assert_eq!(r.register("C".to_string()), 3);
    assert_eq!(r.len(), 3);
    assert_eq!(r.register("A".to_string()), 1);
    assert_eq!(r.lookup(&"A".to_string()).unwrap(), 1);
    assert_eq!(r.lookup(&"C".to_string()).unwrap(), 3);
    assert_eq!(
        r.lookup(&"D".to_string()).unwrap_err(),
        ConvertError::UnknownCategory { name: "D".to_string() }
    );
}

#[test]
fn decimal_numbers() {
    assert_eq!(parse_u32("640"), Some(640));
    assert_eq!(parse_u32("+5"), Some(5));
    assert_eq!(parse_u32("007"), Some(7));
    assert_eq!(parse_u32("4294967295"), Some(4294967295));
    assert_eq!(parse_u32("4294967296"), None);
    assert_eq!(parse_u32("99999999999999999999"), None);
    assert_eq!(parse_u32(""), None);
    assert_eq!(parse_u32("+"), None);
    assert_eq!(parse_u32("-1"), None);
    assert_eq!(parse_u32("12a"), None);
    assert_eq!(parse_u32(" 1"), None);
}

#[test]
fn document_names() {
    assert_eq!(xml_stem("a.xml"), Some("a".to_string()));
    assert_eq!(xml_stem("a.b.xml"), Some("a.b".to_string()));
    assert_eq!(xml_stem(".xml"), None);
    assert_eq!(xml_stem("a.jpg"), None);
    assert_eq!(xml_stem("xml"), None);
    assert_eq!(image_name("a"), "a.jpg");
}

#[test]
fn stems_of_names() {
    assert_eq!(file_stem("c"), "c");
    assert_eq!(file_stem("dog3"), "dog3");
    assert_eq!(file_stem("dog.v2"), "dog");
    assert_eq!(file_stem("a.b.c"), "a.b");
    assert_eq!(file_stem(".hidden"), ".hidden");
    assert_eq!(file_stem(".."), "..");
    assert_eq!(file_stem(""), "");
}

#[test]
fn flattened_names() {
    assert_eq!(get_flatted_file_name("dog3", "b.jpg"), "dog3_b.jpg");
    assert_eq!(get_flatted_file_name("cat.1", "a.jpg"), "cat_a.jpg");
}

#[test]
fn decimal_numerals_read_back() {
    for v in [0u32, 7, 10, 360, 640, 65536, 4294967295] {
        assert_eq!(parse_u32(&v.to_string()), Some(v));
    }
}
