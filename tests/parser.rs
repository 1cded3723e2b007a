use voc2coco::{parse, parse_tokens, Cls, ConvertError, XmlToken};
use xml::reader::{EventReader, XmlEvent};

const XML: &str = r##"
            <annotation>
                <filename>720 (13)_0001</filename>
                <size>
                    <width>640</width>
                    <height>360</height>
                </size>
                <object>
                    <name>whale1</name>
                    <bndbox>
                        <xmin>276</xmin>
                        <ymin>128</ymin>
                        <xmax>311</xmax>
                        <ymax>194</ymax>
                    </bndbox>
                </object>
            </annotation>
        "##;

const NO_BOX: &str = r##"
            <annotation>
                <filename>b</filename>
                <size><width>10</width><height>20</height></size>
                <object><name>dog3</name></object>
            </annotation>
        "##;

#[test]
fn anno_parse() {
    let anno = parse(XML, "a/b", Cls::Single).unwrap();
    println!("{:?}", anno);
    assert_eq!(anno.filename, "720 (13)_0001");
    assert_eq!(anno.size.width, 640);
    assert_eq!(anno.size.height, 360);
    assert_eq!(anno.object_name, "dac_object");
    assert_eq!(anno.bndbox.xmin, 276);
    assert_eq!(anno.bndbox.ymin, 128);
    assert_eq!(anno.bndbox.xmax, 311);
    assert_eq!(anno.bndbox.ymax, 194);
}

fn indent(size: usize) -> String {
    const INDENT: &str = "    ";
    (0..size)
        .map(|_| INDENT)
        .fold(String::with_capacity(size * INDENT.len()), |r, s| r + s)
}

#[test]
fn serde_xml() {
    let parser = EventReader::new(XML.as_bytes());
    let mut depth = 0;
    for e in parser {
        match e {
            Ok(XmlEvent::StartElement { name, .. }) => {
                println!("{}+{}", indent(depth), name);
                depth += 1;
            }
            Ok(XmlEvent::Characters(s)) => {
                println!("{}@{}", indent(depth), s);
            }
            Ok(XmlEvent::EndElement { name }) => {
                depth -= 1;
                println!("{}-{}", indent(depth), name);
            }
            Err(e) => {
                println!("Error: {}", e);
                break;
            }
            _ => {}
        }
    }
}

#[test]
fn parse_keeps_full_and_medium_names() {
    let full = parse(XML, "a/b", Cls::Full).unwrap();
    assert_eq!(full.object_name, "whale1");
    let medium = parse(XML, "a/b", Cls::Medium).unwrap();
    assert_eq!(medium.object_name, "whale");
}

#[test]
fn missing_bndbox_is_parse_error() {
    let r = parse(NO_BOX, "dog3/b.xml", Cls::Full);
    assert_eq!(r.unwrap_err(), ConvertError::ParseError { path: "dog3/b.xml".to_string() });
}

#[test]
fn malformed_xml_is_parse_error() {
    let r = parse("<annotation><filename>a</annotation>", "x.xml", Cls::Full);
    assert_eq!(r.unwrap_err(), ConvertError::ParseError { path: "x.xml".to_string() });
}

#[test]
fn non_numeric_width_is_parse_error() {
    let text = XML.replace("<width>640</width>", "<width>wide</width>");
    let r = parse(&text, "w.xml", Cls::Full);
    assert_eq!(r.unwrap_err(), ConvertError::ParseError { path: "w.xml".to_string() });
}

#[test]
fn medium_name_without_digit_is_naming_error() {
    let text = XML.replace("<name>whale1</name>", "<name>whale</name>");
    let r = parse(&text, "w.xml", Cls::Medium);
    assert_eq!(r.unwrap_err(), ConvertError::NamingError { name: "whale".to_string() });
}

#[test]
fn elements_in_any_order_and_unknown_ones_skipped() {
    let text = "<a><bndbox><ymax>4</ymax><xmax>3</xmax><ymin>2</ymin><xmin>1</xmin></bndbox>\
                <pose>Left</pose><name>cat1</name><height>9</height><width>8</width>\
                <filename>f.jpg</filename></a>";
    let anno = parse(text, "p", Cls::Full).unwrap();
    assert_eq!(anno.filename, "f.jpg");
    assert_eq!((anno.size.width, anno.size.height), (8, 9));
    assert_eq!(anno.object_name, "cat1");
    assert_eq!((anno.bndbox.xmin, anno.bndbox.ymin, anno.bndbox.xmax, anno.bndbox.ymax), (1, 2, 3, 4));
}

fn start(s: &str) -> XmlToken {
    XmlToken::Start(s.to_string())
}

fn text(s: &str) -> XmlToken {
    XmlToken::Text(s.to_string())
}

#[test]
fn tokens_take_next_character_data() {
    let tokens = vec![
        start("filename"), XmlToken::Other, text("img"),
        start("width"), text("+7"), start("height"), text("0"),
        start("name"), start("junk"), text("cat1"),
        start("xmin"), text("1"), start("ymin"), text("2"),
        start("xmax"), text("3"), start("ymax"), text("4294967295"),
    ];
    let anno = parse_tokens(&tokens, "t", Cls::Full).unwrap();
    assert_eq!(anno.filename, "img");
    assert_eq!(anno.size.width, 7);
    assert_eq!(anno.size.height, 0);
    assert_eq!(anno.object_name, "cat1");
    assert_eq!(anno.bndbox.ymax, 4294967295);
}

#[test]
fn tokens_ending_before_character_data_fail() {
    let tokens = vec![start("filename"), text("img"), start("width"), XmlToken::Other];
    let r = parse_tokens(&tokens, "t", Cls::Full);
    assert_eq!(r.unwrap_err(), ConvertError::ParseError { path: "t".to_string() });
}

#[test]
fn too_large_number_fails() {
    let text = XML.replace("<xmax>311</xmax>", "<xmax>4294967296</xmax>");
    assert!(matches!(parse(&text, "w", Cls::Full), Err(ConvertError::ParseError { .. })));
}

#[test]
fn missing_xmin_alone_is_parse_error() {
    let text = XML.replace("<xmin>276</xmin>", "");
    assert_eq!(parse(&text, "m.xml", Cls::Full).unwrap_err(), ConvertError::ParseError { path: "m.xml".to_string() });
}
