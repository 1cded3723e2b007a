//! The annotation parser: one XML document describing one object becomes
//! one flat annotation record.
use vstd::prelude::*;
use crate::error::ConvertError;
use crate::naming::{Cls, class_name};
use crate::number::{parse_u32, parse_u32_spec, decimal_of, decimal_round_trip};
use crate::text::str_equals;
use xml::reader::XmlEvent;

verus! {

/// Pixel dimensions of an image, as the document declares them.
#[derive(Debug, Clone, Copy, PartialEq, Eq)]
pub struct Size {
    pub width: u32,
    pub height: u32,
}

/// A bounding box given by two corners, in absolute pixel coordinates.
#[derive(Debug, Clone, Copy, PartialEq, Eq)]
pub struct Bndbox {
    pub xmin: u32,
    pub ymin: u32,
    pub xmax: u32,
    pub ymax: u32,
}

/// One annotated object: the image it belongs to, the image size, the
/// normalized category name and the bounding box.
#[derive(Debug)]
pub struct Annotataion {
    pub filename: String,
    pub size: Size,
    pub object_name: String,
    pub bndbox: Bndbox,
}

/// The value of an annotation, with its strings as character sequences.
pub struct AnnotationV {
    pub filename: Seq<char>,
    pub size: Size,
    pub object_name: Seq<char>,
    pub bndbox: Bndbox,
}

impl View for Annotataion {
    type V = AnnotationV;

    open spec fn view(&self) -> AnnotationV {
        AnnotationV {
            filename: self.filename@,
            size: self.size,
            object_name: self.object_name@,
            bndbox: self.bndbox,
        }
    }
}

/// One event of an XML document, reduced to what the parser looks at.
#[derive(Debug)]
pub enum XmlToken {
    /// An opening tag, with its local name.
    Start(String),
    /// Character data.
    Text(String),
    /// Anything else: closing tags, whitespace, comments, declarations.
    Other,
}

pub enum TokenV {
    Start(Seq<char>),
    Text(Seq<char>),
    Other,
}

impl View for XmlToken {
    type V = TokenV;

    open spec fn view(&self) -> TokenV {
        match self {
            XmlToken::Start(s) => TokenV::Start(s@),
            XmlToken::Text(s) => TokenV::Text(s@),
            XmlToken::Other => TokenV::Other,
        }
    }
}

pub open spec fn tokens_view(v: Seq<XmlToken>) -> Seq<TokenV> {
    v.map_values(|t: XmlToken| t@)
}

/// The event stream of an XML document; `None` where the document is not
/// well-formed.
pub uninterp spec fn xml_token_stream(text: Seq<char>) -> Option<Seq<TokenV>>;

/// Relies on xml-rs's `EventReader` (default configuration): the events of
/// the document in order, or a failure where it is malformed. The events are
/// a function of the text alone.
#[verifier::external_body]
fn read_xml_tokens(text: &str) -> (r: Option<Vec<XmlToken>>)
    ensures
        match r {
            Some(v) => xml_token_stream(text@) == Some(tokens_view(v@)),
            None => xml_token_stream(text@) is None,
        },
{
    let events: Result<Vec<XmlToken>, xml::reader::Error> = xml::EventReader::from_str(text)
        .into_iter()
        .map(|e| e.map(|ev| match ev {
            XmlEvent::StartElement { name, .. } => XmlToken::Start(name.local_name),
            XmlEvent::Characters(s) => XmlToken::Text(s),
            _ => XmlToken::Other,
        }))
        .collect();
    events.ok()
}

/// The leaf elements that the parser reads.
#[derive(Debug, Clone, Copy, PartialEq, Eq)]
pub enum Field {
    Filename,
    Width,
    Height,
    Name,
    Xmin,
    Ymin,
    Xmax,
    Ymax,
}

/// The field that an element of local name `tag` holds, if any.
pub open spec fn field_of(tag: Seq<char>) -> Option<Field> {
    if tag == "filename"@ {
        Some(Field::Filename)
    } else if tag == "width"@ {
        Some(Field::Width)
    } else if tag == "height"@ {
        Some(Field::Height)
    } else if tag == "name"@ {
        Some(Field::Name)
    } else if tag == "xmin"@ {
        Some(Field::Xmin)
    } else if tag == "ymin"@ {
        Some(Field::Ymin)
    } else if tag == "xmax"@ {
        Some(Field::Xmax)
    } else if tag == "ymax"@ {
        Some(Field::Ymax)
    } else {
        None
    }
}

fn field_of_tag(tag: &str) -> (r: Option<Field>)
    ensures
        r == field_of(tag@),
{
    if str_equals(tag, "filename") {
        Some(Field::Filename)
    } else if str_equals(tag, "width") {
        Some(Field::Width)
    } else if str_equals(tag, "height") {
        Some(Field::Height)
    } else if str_equals(tag, "name") {
        Some(Field::Name)
    } else if str_equals(tag, "xmin") {
        Some(Field::Xmin)
    } else if str_equals(tag, "ymin") {
        Some(Field::Ymin)
    } else if str_equals(tag, "xmax") {
        Some(Field::Xmax)
    } else if str_equals(tag, "ymax") {
        Some(Field::Ymax)
    } else {
        None
    }
}

/// Why a document does not give an annotation.
pub enum ParseFailure {
    /// Malformed, incomplete, or a non-numeric value in a numeric field.
    Syntax,
    /// The object name, given here, has no category name under the naming
    /// mode.
    Naming(Seq<char>),
}

/// The fields read so far.
pub struct FieldsV {
    pub filename: Option<Seq<char>>,
    pub width: Option<u32>,
    pub height: Option<u32>,
    pub name: Option<Seq<char>>,
    pub xmin: Option<u32>,
    pub ymin: Option<u32>,
    pub xmax: Option<u32>,
    pub ymax: Option<u32>,
}

pub open spec fn no_fields() -> FieldsV {
    FieldsV {
        filename: None,
        width: None,
        height: None,
        name: None,
        xmin: None,
        ymin: None,
        xmax: None,
        ymax: None,
    }
}

/// Stores the character data `text` of an element holding `field`.
pub open spec fn store(st: FieldsV, field: Field, text: Seq<char>, cls: Cls) -> Result<FieldsV, ParseFailure> {
    match field {
        Field::Filename => Ok(FieldsV { filename: Some(text), ..st }),
        Field::Name => match class_name(cls, text) {
            Some(n) => Ok(FieldsV { name: Some(n), ..st }),
            None => Err(ParseFailure::Naming(text)),
        },
        _ => match parse_u32_spec(text) {
            None => Err(ParseFailure::Syntax),
            Some(v) => Ok(match field {
                Field::Width => FieldsV { width: Some(v), ..st },
                Field::Height => FieldsV { height: Some(v), ..st },
                Field::Xmin => FieldsV { xmin: Some(v), ..st },
                Field::Ymin => FieldsV { ymin: Some(v), ..st },
                Field::Xmax => FieldsV { xmax: Some(v), ..st },
                _ => FieldsV { ymax: Some(v), ..st },
            }),
        },
    }
}

/// The position of the first character data at or after `i`.
pub open spec fn next_text(toks: Seq<TokenV>, i: int) -> Option<int>
    decreases toks.len() - i,
{
    if i < 0 || i >= toks.len() {
        None
    } else if toks[i] is Text {
        Some(i)
    } else {
        next_text(toks, i + 1)
    }
}

/// Reads the events from position `i` on, starting from the fields `st`:
/// each opening tag of a recognized element takes the next character data
/// as that field's value; other events are passed over.
pub open spec fn scan(toks: Seq<TokenV>, i: int, st: FieldsV, cls: Cls) -> Result<FieldsV, ParseFailure>
    decreases toks.len() - i,
{
    if i < 0 || i >= toks.len() {
        Ok(st)
    } else {
        match toks[i] {
            TokenV::Start(tag) => match field_of(tag) {
                None => scan(toks, i + 1, st, cls),
                Some(f) => match next_text(toks, i + 1) {
                    None => Err(ParseFailure::Syntax),
                    Some(j) => match store(st, f, toks[j]->Text_0, cls) {
                        Err(e) => Err(e),
                        Ok(st2) => if i < j < toks.len() { scan(toks, j + 1, st2, cls) } else { Err(ParseFailure::Syntax) },
                    },
                },
            },
            _ => scan(toks, i + 1, st, cls),
        }
    }
}

/// The annotation that complete fields give; every field must be present.
pub open spec fn complete(st: FieldsV) -> Result<AnnotationV, ParseFailure> {
    if st.filename is Some && st.width is Some && st.height is Some && st.name is Some
        && st.xmin is Some && st.ymin is Some && st.xmax is Some && st.ymax is Some {
        Ok(AnnotationV {
            filename: st.filename->0,
            size: Size { width: st.width->0, height: st.height->0 },
            object_name: st.name->0,
            bndbox: Bndbox {
                xmin: st.xmin->0,
                ymin: st.ymin->0,
                xmax: st.xmax->0,
                ymax: st.ymax->0,
            },
        })
    } else {
        Err(ParseFailure::Syntax)
    }
}

/// The annotation that an event stream gives.
pub open spec fn annotation_of_tokens(toks: Seq<TokenV>, cls: Cls) -> Result<AnnotationV, ParseFailure> {
    match scan(toks, 0, no_fields(), cls) {
        Err(e) => Err(e),
        Ok(st) => complete(st),
    }
}

/// The annotation that an XML document gives.
pub open spec fn annotation_of_text(text: Seq<char>, cls: Cls) -> Result<AnnotationV, ParseFailure> {
    match xml_token_stream(text) {
        None => Err(ParseFailure::Syntax),
        Some(toks) => annotation_of_tokens(toks, cls),
    }
}

/// `e` is the error that `failure` calls for, for a document at `path`.
pub open spec fn error_matches(e: ConvertError, failure: ParseFailure, path: Seq<char>) -> bool {
    match failure {
        ParseFailure::Syntax => e is ParseError && e->ParseError_path@ == path,
        ParseFailure::Naming(raw) => e is NamingError && e->NamingError_name@ == raw,
    }
}

/// A numeric leaf whose text is the decimal numeral of `v` stores exactly
/// `v`, and leaves every other field as it was.
pub proof fn numeric_leaf_round_trip(st: FieldsV, f: Field, v: u32, cls: Cls)
    requires
        f != Field::Filename,
        f != Field::Name,
    ensures
        store(st, f, decimal_of(v as nat), cls) == Ok::<FieldsV, ParseFailure>(match f {
            Field::Width => FieldsV { width: Some(v), ..st },
            Field::Height => FieldsV { height: Some(v), ..st },
            Field::Xmin => FieldsV { xmin: Some(v), ..st },
            Field::Ymin => FieldsV { ymin: Some(v), ..st },
            Field::Xmax => FieldsV { xmax: Some(v), ..st },
            _ => FieldsV { ymax: Some(v), ..st },
        }),
{
    decimal_round_trip(v);
}

/// Reading on from `i` with no `xmin` element ahead never fills `xmin`.
proof fn lemma_scan_without_xmin(toks: Seq<TokenV>, i: int, st: FieldsV, cls: Cls)
    requires
        st.xmin is None,
        forall|k: int| i <= k < toks.len() ==> #[trigger] toks[k] != TokenV::Start("xmin"@),
    ensures
        scan(toks, i, st, cls) is Ok ==> scan(toks, i, st, cls)->Ok_0.xmin is None,
    decreases toks.len() - i,
{
    if 0 <= i < toks.len() {
        match toks[i] {
            TokenV::Start(tag) => match field_of(tag) {
                None => lemma_scan_without_xmin(toks, i + 1, st, cls),
                Some(f) => {
                    assert(f != Field::Xmin);
                    match next_text(toks, i + 1) {
                        None => {},
                        Some(j) => match store(st, f, toks[j]->Text_0, cls) {
                            Err(_) => {},
                            Ok(st2) => {
                                if i < j < toks.len() {
                                    lemma_scan_without_xmin(toks, j + 1, st2, cls);
                                }
                            },
                        },
                    }
                },
            },
            _ => lemma_scan_without_xmin(toks, i + 1, st, cls),
        }
    }
}

/// A document without an `xmin` element (so, one without a `bndbox`)
/// gives no annotation; unless its object name fails the naming mode, the
/// failure is a parse failure.
pub proof fn document_without_box_fails(text: Seq<char>, cls: Cls)
    requires
        xml_token_stream(text) is Some,
        forall|k: int| 0 <= k < xml_token_stream(text)->0.len()
            ==> #[trigger] xml_token_stream(text)->0[k] != TokenV::Start("xmin"@),
    ensures
        annotation_of_text(text, cls) is Err,
        !(annotation_of_text(text, cls)->Err_0 is Naming) ==> annotation_of_text(text, cls)->Err_0 is Syntax,
{
    lemma_scan_without_xmin(xml_token_stream(text)->0, 0, no_fields(), cls);
}

pub open spec fn opt_view(o: Option<String>) -> Option<Seq<char>> {
    match o {
        Some(s) => Some(s@),
        None => None,
    }
}

/// The fields read so far, while a document is parsed.
struct Partial {
    filename: Option<String>,
    width: Option<u32>,
    height: Option<u32>,
    name: Option<String>,
    xmin: Option<u32>,
    ymin: Option<u32>,
    xmax: Option<u32>,
    ymax: Option<u32>,
}

impl View for Partial {
    type V = FieldsV;

    closed spec fn view(&self) -> FieldsV {
        FieldsV {
            filename: opt_view(self.filename),
            width: self.width,
            height: self.height,
            name: opt_view(self.name),
            xmin: self.xmin,
            ymin: self.ymin,
            xmax: self.xmax,
            ymax: self.ymax,
        }
    }
}

fn parse_error(path: &str) -> (e: ConvertError)
    ensures
        e is ParseError && e->ParseError_path@ == path@,
{
    ConvertError::ParseError { path: path.to_owned() }
}

fn store_field(st: Partial, field: Field, text: &String, cls: Cls, path: &str) -> (r: Result<Partial, ConvertError>)
    ensures
        match r {
            Ok(p) => store(st@, field, text@, cls) == Ok::<FieldsV, ParseFailure>(p@),
            Err(e) => store(st@, field, text@, cls) is Err
                && error_matches(e, store(st@, field, text@, cls)->Err_0, path@),
        },
{
    let mut st = st;
    match field {
        Field::Filename => {
            st.filename = Some(text.clone());
            Ok(st)
        },
        Field::Name => {
            match cls.get_name(text.as_str()) {
                Ok(n) => {
                    st.name = Some(n);
                    Ok(st)
                },
                Err(e) => Err(e),
            }
        },
        _ => {
            match parse_u32(text.as_str()) {
                None => Err(parse_error(path)),
                Some(v) => {
                    match field {
                        Field::Width => st.width = Some(v),
                        Field::Height => st.height = Some(v),
                        Field::Xmin => st.xmin = Some(v),
                        Field::Ymin => st.ymin = Some(v),
                        Field::Xmax => st.xmax = Some(v),
                        _ => st.ymax = Some(v),
                    }
                    Ok(st)
                },
            }
        },
    }
}

fn is_text(t: &XmlToken) -> (r: bool)
    ensures
        r == (t@ is Text),
{
    match t {
        XmlToken::Text(_) => true,
        _ => false,
    }
}

/// Builds the annotation from the fields read, all of which must be present.
fn finish(st: Partial, path: &str) -> (r: Result<Annotataion, ConvertError>)
    ensures
        match r {
            Ok(a) => complete(st@) == Ok::<AnnotationV, ParseFailure>(a@),
            Err(e) => complete(st@) is Err && error_matches(e, complete(st@)->Err_0, path@),
        },
{
    match (st.filename, st.width, st.height, st.name, st.xmin, st.ymin, st.xmax, st.ymax) {
        (Some(filename), Some(width), Some(height), Some(name), Some(xmin), Some(ymin), Some(xmax), Some(ymax)) => {
            Ok(Annotataion {
                filename,
                size: Size { width, height },
                object_name: name,
                bndbox: Bndbox { xmin, ymin, xmax, ymax },
            })
        },
        _ => Err(parse_error(path)),
    }
}

/// Reads one annotation from the events of its document. `path` names the
/// document in a parse error.
pub fn parse_tokens(tokens: &Vec<XmlToken>, path: &str, cls: Cls) -> (r: Result<Annotataion, ConvertError>)
    ensures
        match r {
            Ok(a) => annotation_of_tokens(tokens_view(tokens@), cls) == Ok::<AnnotationV, ParseFailure>(a@),
            Err(e) => annotation_of_tokens(tokens_view(tokens@), cls) is Err
                && error_matches(e, annotation_of_tokens(tokens_view(tokens@), cls)->Err_0, path@),
        },
{
    let ghost toks = tokens_view(tokens@);
    let n = tokens.len();
    let mut st = Partial {
        filename: None,
        width: None,
        height: None,
        name: None,
        xmin: None,
        ymin: None,
        xmax: None,
        ymax: None,
    };
    proof {
        assert(st@ == no_fields());
    }
    let mut i: usize = 0;
    while i < n
        invariant
            n == tokens@.len(),
            toks == tokens_view(tokens@),
            toks.len() == n,
            i <= n,
            scan(toks, i as int, st@, cls) == scan(toks, 0, no_fields(), cls),
        decreases n - i,
    {
        proof {
            assert(toks[i as int] == tokens@[i as int]@);
        }
        match &tokens[i] {
            XmlToken::Start(tag) => {
                match field_of_tag(tag.as_str()) {
                    None => {
                        i = i + 1;
                    },
                    Some(f) => {
                        let mut j: usize = i + 1;
                        while j < n && !is_text(&tokens[j])
                            invariant
                                n == tokens@.len(),
                                toks == tokens_view(tokens@),
                                toks.len() == n,
                                i < j <= n,
                                next_text(toks, i + 1) == next_text(toks, j as int),
                            decreases n - j,
                        {
                            proof {
                                assert(toks[j as int] == tokens@[j as int]@);
                            }
                            j = j + 1;
                        }
                        if j >= n {
                            return Err(parse_error(path));
                        }
                        proof {
                            assert(toks[j as int] == tokens@[j as int]@);
                        }
                        if let XmlToken::Text(text) = &tokens[j] {
                            match store_field(st, f, text, cls, path) {
                                Ok(next) => {
                                    st = next;
                                },
                                Err(e) => {
                                    return Err(e);
                                },
                            }
                            i = j + 1;
                        } else {
                            return Err(parse_error(path));
                        }
                    },
                }
            },
            _ => {
                i = i + 1;
            },
        }
    }
    finish(st, path)
}

/// Reads one annotation from an XML document: the document must be
/// well-formed and hold every recognized leaf (`filename`, `width`,
/// `height`, `name`, `xmin`, `ymin`, `xmax`, `ymax`); the object name goes
/// through the naming mode `cls`. `path` names the document in a parse error.
pub fn parse(text: &str, path: &str, cls: Cls) -> (r: Result<Annotataion, ConvertError>)
    ensures
        match r {
            Ok(a) => annotation_of_text(text@, cls) == Ok::<AnnotationV, ParseFailure>(a@),
            Err(e) => annotation_of_text(text@, cls) is Err
                && error_matches(e, annotation_of_text(text@, cls)->Err_0, path@),
        },
{
    match read_xml_tokens(text) {
        None => Err(parse_error(path)),
        Some(tokens) => parse_tokens(&tokens, path, cls),
    }
}

} // verus!
