//! Reading a document's front matter from its YAML text.
//!
//! The YAML is parsed by serde_yaml; the library asks it for the value at a
//! path of keys, one value at a time, and builds the front matter from the
//! answers.  A front matter whose fields do not have the expected kinds is
//! read as setting nothing, as a failed deserialisation falls back to the
//! default.
use vstd::prelude::*;
use serde_yaml::Value;
use crate::config::FrontMatter;
use crate::text::views;
use crate::theme::{FontOverride, PageOverride, SpacingOverride};

verus! {

/// What the YAML holds at a path of keys.
#[derive(Debug)]
pub enum YamlSlot {
    /// The text is not YAML.
    Invalid,
    /// Some key of the path is missing.
    Absent,
    /// A null.
    Null,
    /// A scalar: its text, its value as an unsigned integer where it is
    /// one, and the decimal text of its value as a floating-point number
    /// where it is a number.
    Scalar(String, Option<u64>, Option<String>),
    /// A mapping.
    Mapping,
    /// A sequence or a tagged value.
    Other,
}

/// The mathematical value of a `YamlSlot`.
pub enum SlotView {
    Invalid,
    Absent,
    Null,
    Scalar(Seq<char>, Option<u64>, Option<Seq<char>>),
    Mapping,
    Other,
}

pub open spec fn opt_view(o: Option<String>) -> Option<Seq<char>> {
    match o {
        Some(s) => Some(s@),
        None => None,
    }
}

impl View for YamlSlot {
    type V = SlotView;

    open spec fn view(&self) -> SlotView {
        match self {
            YamlSlot::Invalid => SlotView::Invalid,
            YamlSlot::Absent => SlotView::Absent,
            YamlSlot::Null => SlotView::Null,
            YamlSlot::Scalar(t, u, f) => SlotView::Scalar(t@, *u, opt_view(*f)),
            YamlSlot::Mapping => SlotView::Mapping,
            YamlSlot::Other => SlotView::Other,
        }
    }
}

/// What serde_yaml finds in the YAML text `yaml` at the path of keys `path`.
pub uninterp spec fn yaml_slot(yaml: Seq<char>, path: Seq<Seq<char>>) -> SlotView;

/// Parses `yaml` and looks up the value at `path`.
///
/// Trusted: calls `serde_yaml::from_str` into a `serde_yaml::Value`, then
/// `Value::get` for each key; a string, boolean or number is reported with
/// its text (`Display` of the value), a number also with `Number::as_u64`
/// and the `Display` of `Number::as_f64`.  The contract claims only that
/// the answer is a function of the text and the path.
#[verifier::external_body]
fn yaml_at(yaml: &str, path: &Vec<String>) -> (r: YamlSlot)
    ensures
        r@ == yaml_slot(yaml@, views(path@)),
{
    let root: Value = match serde_yaml::from_str(yaml) {
        Ok(v) => v,
        Err(_) => return YamlSlot::Invalid,
    };
    match path.iter().try_fold(&root, |v, k| v.get(k.as_str())) {
        None => YamlSlot::Absent,
        Some(Value::Null) => YamlSlot::Null,
        Some(Value::String(s)) => YamlSlot::Scalar(s.clone(), None, None),
        Some(Value::Bool(b)) => YamlSlot::Scalar(b.to_string(), None, None),
        Some(Value::Number(n)) => YamlSlot::Scalar(n.to_string(), n.as_u64(), n.as_f64().map(|x| format!("{}", x))),
        Some(Value::Mapping(_)) => YamlSlot::Mapping,
        Some(_) => YamlSlot::Other,
    }
}

/// A text field: absent or null is no value, a scalar its text; anything
/// else does not fit (`None`).
pub open spec fn text_field(s: SlotView) -> Option<Option<Seq<char>>> {
    match s {
        SlotView::Absent => Some(None),
        SlotView::Null => Some(None),
        SlotView::Scalar(t, _, _) => Some(Some(t)),
        _ => None,
    }
}

/// A number field, kept as the decimal text of the number.
pub open spec fn number_field(s: SlotView) -> Option<Option<Seq<char>>> {
    match s {
        SlotView::Absent => Some(None),
        SlotView::Null => Some(None),
        SlotView::Scalar(_, _, Some(f)) => Some(Some(f)),
        _ => None,
    }
}

/// A field holding a byte-sized unsigned integer.
pub open spec fn byte_field(s: SlotView) -> Option<Option<u8>> {
    match s {
        SlotView::Absent => Some(None),
        SlotView::Null => Some(None),
        SlotView::Scalar(_, Some(u), _) => if u <= 255 {
            Some(Some(u as u8))
        } else {
            None
        },
        _ => None,
    }
}

/// A section: absent or null is no section (`Some(false)`), a mapping is one
/// (`Some(true)`); anything else does not fit.
pub open spec fn section_field(s: SlotView) -> Option<bool> {
    match s {
        SlotView::Absent => Some(false),
        SlotView::Null => Some(false),
        SlotView::Mapping => Some(true),
        _ => None,
    }
}

pub open spec fn at1(y: Seq<char>, k: Seq<char>) -> SlotView {
    yaml_slot(y, seq![k])
}

pub open spec fn at2(y: Seq<char>, s: Seq<char>, k: Seq<char>) -> SlotView {
    yaml_slot(y, seq![s, k])
}

/// Whether every field of the font section fits.
pub open spec fn font_fits(y: Seq<char>) -> bool {
    &&& text_field(at2(y, "font"@, "body_family"@)) is Some
    &&& text_field(at2(y, "font"@, "body_size"@)) is Some
    &&& text_field(at2(y, "font"@, "code_family"@)) is Some
    &&& text_field(at2(y, "font"@, "code_size"@)) is Some
}

/// Whether every field of the spacing section fits.
pub open spec fn spacing_fits(y: Seq<char>) -> bool {
    &&& number_field(at2(y, "spacing"@, "line_height"@)) is Some
    &&& text_field(at2(y, "spacing"@, "paragraph_spacing"@)) is Some
    &&& text_field(at2(y, "spacing"@, "letter_spacing"@)) is Some
}

/// Whether every field of the page section fits.
pub open spec fn page_fits(y: Seq<char>) -> bool {
    &&& text_field(at2(y, "page"@, "paper"@)) is Some
    &&& text_field(at2(y, "page"@, "margin_top"@)) is Some
    &&& text_field(at2(y, "page"@, "margin_bottom"@)) is Some
    &&& text_field(at2(y, "page"@, "margin_left"@)) is Some
    &&& text_field(at2(y, "page"@, "margin_right"@)) is Some
    &&& byte_field(at2(y, "page"@, "columns"@)) is Some
}

/// Whether the YAML is a mapping whose known fields all have the expected
/// kinds (unknown keys are ignored).
pub open spec fn front_matter_fits(y: Seq<char>) -> bool {
    &&& yaml_slot(y, seq![]) is Mapping
    &&& text_field(at1(y, "title"@)) is Some
    &&& text_field(at1(y, "author"@)) is Some
    &&& text_field(at1(y, "date"@)) is Some
    &&& text_field(at1(y, "theme"@)) is Some
    &&& section_field(at1(y, "font"@)) is Some
    &&& section_field(at1(y, "spacing"@)) is Some
    &&& section_field(at1(y, "page"@)) is Some
    &&& (section_field(at1(y, "font"@)) == Some(true) ==> font_fits(y))
    &&& (section_field(at1(y, "spacing"@)) == Some(true) ==> spacing_fits(y))
    &&& (section_field(at1(y, "page"@)) == Some(true) ==> page_fits(y))
}

/// The font override read from the YAML.
pub open spec fn font_fields(y: Seq<char>, f: FontOverride) -> bool {
    &&& opt_view(f.body_family) == text_field(at2(y, "font"@, "body_family"@)).unwrap()
    &&& opt_view(f.body_size) == text_field(at2(y, "font"@, "body_size"@)).unwrap()
    &&& opt_view(f.code_family) == text_field(at2(y, "font"@, "code_family"@)).unwrap()
    &&& opt_view(f.code_size) == text_field(at2(y, "font"@, "code_size"@)).unwrap()
}

pub open spec fn font_read(y: Seq<char>, o: Option<FontOverride>) -> bool {
    if section_field(at1(y, "font"@)) == Some(true) {
        o matches Some(f) && font_fields(y, f)
    } else {
        o is None
    }
}

/// The spacing override read from the YAML.
pub open spec fn spacing_fields(y: Seq<char>, s: SpacingOverride) -> bool {
    &&& opt_view(s.line_height) == number_field(at2(y, "spacing"@, "line_height"@)).unwrap()
    &&& opt_view(s.paragraph_spacing) == text_field(at2(y, "spacing"@, "paragraph_spacing"@)).unwrap()
    &&& opt_view(s.letter_spacing) == text_field(at2(y, "spacing"@, "letter_spacing"@)).unwrap()
}

pub open spec fn spacing_read(y: Seq<char>, o: Option<SpacingOverride>) -> bool {
    if section_field(at1(y, "spacing"@)) == Some(true) {
        o matches Some(s) && spacing_fields(y, s)
    } else {
        o is None
    }
}

/// The page override read from the YAML.
pub open spec fn page_fields(y: Seq<char>, p: PageOverride) -> bool {
    &&& opt_view(p.paper) == text_field(at2(y, "page"@, "paper"@)).unwrap()
    &&& opt_view(p.margin_top) == text_field(at2(y, "page"@, "margin_top"@)).unwrap()
    &&& opt_view(p.margin_bottom) == text_field(at2(y, "page"@, "margin_bottom"@)).unwrap()
    &&& opt_view(p.margin_left) == text_field(at2(y, "page"@, "margin_left"@)).unwrap()
    &&& opt_view(p.margin_right) == text_field(at2(y, "page"@, "margin_right"@)).unwrap()
    &&& p.columns == byte_field(at2(y, "page"@, "columns"@)).unwrap()
}

pub open spec fn page_read(y: Seq<char>, o: Option<PageOverride>) -> bool {
    if section_field(at1(y, "page"@)) == Some(true) {
        o matches Some(p) && page_fields(y, p)
    } else {
        o is None
    }
}

/// Whether `fm` is the front matter that the YAML text `y` sets: its fields
/// where they all fit, else nothing at all.
pub open spec fn front_matter_read(y: Seq<char>, fm: FrontMatter) -> bool {
    if front_matter_fits(y) {
        &&& opt_view(fm.title) == text_field(at1(y, "title"@)).unwrap()
        &&& opt_view(fm.author) == text_field(at1(y, "author"@)).unwrap()
        &&& opt_view(fm.date) == text_field(at1(y, "date"@)).unwrap()
        &&& opt_view(fm.theme) == text_field(at1(y, "theme"@)).unwrap()
        &&& font_read(y, fm.font)
        &&& spacing_read(y, fm.spacing)
        &&& page_read(y, fm.page)
    } else {
        fm.title is None && fm.author is None && fm.date is None && fm.theme is None
            && fm.font is None && fm.spacing is None && fm.page is None
    }
}

fn owned(s: &str) -> (r: String)
    ensures
        r@ == s@,
{
    let mut t = String::new();
    t.append(s);
    t
}

fn slot1(y: &str, k: &str) -> (r: YamlSlot)
    ensures
        r@ == at1(y@, k@),
{
    let mut path: Vec<String> = Vec::new();
    path.push(owned(k));
    assert(views(path@) =~= seq![k@]);
    yaml_at(y, &path)
}

fn slot2(y: &str, s: &str, k: &str) -> (r: YamlSlot)
    ensures
        r@ == at2(y@, s@, k@),
{
    let mut path: Vec<String> = Vec::new();
    path.push(owned(s));
    path.push(owned(k));
    assert(views(path@) =~= seq![s@, k@]);
    yaml_at(y, &path)
}

fn text_of_slot(s: YamlSlot) -> (r: Option<Option<String>>)
    ensures
        match r {
            Some(v) => text_field(s@) == Some(opt_view(v)),
            None => text_field(s@) is None,
        },
{
    match s {
        YamlSlot::Absent => Some(None),
        YamlSlot::Null => Some(None),
        YamlSlot::Scalar(t, _, _) => Some(Some(t)),
        _ => None,
    }
}

fn number_of_slot(s: YamlSlot) -> (r: Option<Option<String>>)
    ensures
        match r {
            Some(v) => number_field(s@) == Some(opt_view(v)),
            None => number_field(s@) is None,
        },
{
    match s {
        YamlSlot::Absent => Some(None),
        YamlSlot::Null => Some(None),
        YamlSlot::Scalar(_, _, Some(f)) => Some(Some(f)),
        _ => None,
    }
}

fn byte_of_slot(s: YamlSlot) -> (r: Option<Option<u8>>)
    ensures
        r == byte_field(s@),
{
    match s {
        YamlSlot::Absent => Some(None),
        YamlSlot::Null => Some(None),
        YamlSlot::Scalar(_, Some(u), _) => if u <= 255 {
            Some(Some(u as u8))
        } else {
            None
        },
        _ => None,
    }
}

fn section_of_slot(s: YamlSlot) -> (r: Option<bool>)
    ensures
        r == section_field(s@),
{
    match s {
        YamlSlot::Absent => Some(false),
        YamlSlot::Null => Some(false),
        YamlSlot::Mapping => Some(true),
        _ => None,
    }
}

fn read_font(y: &str) -> (r: Option<FontOverride>)
    ensures
        match r {
            Some(f) => font_fits(y@) && font_fields(y@, f),
            None => !font_fits(y@),
        },
{
    let body_family = match text_of_slot(slot2(y, "font", "body_family")) {
        Some(v) => v,
        None => return None,
    };
    let body_size = match text_of_slot(slot2(y, "font", "body_size")) {
        Some(v) => v,
        None => return None,
    };
    let code_family = match text_of_slot(slot2(y, "font", "code_family")) {
        Some(v) => v,
        None => return None,
    };
    let code_size = match text_of_slot(slot2(y, "font", "code_size")) {
        Some(v) => v,
        None => return None,
    };
    Some(FontOverride { body_family, body_size, code_family, code_size })
}

fn read_spacing(y: &str) -> (r: Option<SpacingOverride>)
    ensures
        match r {
            Some(s) => spacing_fits(y@) && spacing_fields(y@, s),
            None => !spacing_fits(y@),
        },
{
    let line_height = match number_of_slot(slot2(y, "spacing", "line_height")) {
        Some(v) => v,
        None => return None,
    };
    let paragraph_spacing = match text_of_slot(slot2(y, "spacing", "paragraph_spacing")) {
        Some(v) => v,
        None => return None,
    };
    let letter_spacing = match text_of_slot(slot2(y, "spacing", "letter_spacing")) {
        Some(v) => v,
        None => return None,
    };
    Some(SpacingOverride { line_height, paragraph_spacing, letter_spacing })
}

fn read_page(y: &str) -> (r: Option<PageOverride>)
    ensures
        match r {
            Some(p) => page_fits(y@) && page_fields(y@, p),
            None => !page_fits(y@),
        },
{
    let paper = match text_of_slot(slot2(y, "page", "paper")) {
        Some(v) => v,
        None => return None,
    };
    let margin_top = match text_of_slot(slot2(y, "page", "margin_top")) {
        Some(v) => v,
        None => return None,
    };
    let margin_bottom = match text_of_slot(slot2(y, "page", "margin_bottom")) {
        Some(v) => v,
        None => return None,
    };
    let margin_left = match text_of_slot(slot2(y, "page", "margin_left")) {
        Some(v) => v,
        None => return None,
    };
    let margin_right = match text_of_slot(slot2(y, "page", "margin_right")) {
        Some(v) => v,
        None => return None,
    };
    let columns = match byte_of_slot(slot2(y, "page", "columns")) {
        Some(v) => v,
        None => return None,
    };
    Some(PageOverride { paper, margin_top, margin_bottom, margin_left, margin_right, columns })
}

fn read_fields(y: &str) -> (r: Option<FrontMatter>)
    ensures
        match r {
            Some(fm) => front_matter_fits(y@) && front_matter_read(y@, fm),
            None => !front_matter_fits(y@),
        },
{
    match yaml_at(y, &Vec::new()) {
        YamlSlot::Mapping => {},
        _ => {
            assert(views(Seq::<String>::empty()) =~= Seq::<Seq<char>>::empty());
            return None;
        },
    }
    assert(views(Seq::<String>::empty()) =~= Seq::<Seq<char>>::empty());
    let title = match text_of_slot(slot1(y, "title")) {
        Some(v) => v,
        None => return None,
    };
    let author = match text_of_slot(slot1(y, "author")) {
        Some(v) => v,
        None => return None,
    };
    let date = match text_of_slot(slot1(y, "date")) {
        Some(v) => v,
        None => return None,
    };
    let theme = match text_of_slot(slot1(y, "theme")) {
        Some(v) => v,
        None => return None,
    };
    let font = match section_of_slot(slot1(y, "font")) {
        Some(true) => match read_font(y) {
            Some(f) => Some(f),
            None => return None,
        },
        Some(false) => None,
        None => return None,
    };
    let spacing = match section_of_slot(slot1(y, "spacing")) {
        Some(true) => match read_spacing(y) {
            Some(s) => Some(s),
            None => return None,
        },
        Some(false) => None,
        None => return None,
    };
    let page = match section_of_slot(slot1(y, "page")) {
        Some(true) => match read_page(y) {
            Some(p) => Some(p),
            None => return None,
        },
        Some(false) => None,
        None => return None,
    };
    Some(FrontMatter { title, author, date, theme, font, spacing, page })
}

/// Reads the front matter that a YAML text sets; a text that is not a
/// mapping of fields of the expected kinds sets nothing.
pub fn front_matter_from_yaml(yaml: &str) -> (fm: FrontMatter)
    ensures
        front_matter_read(yaml@, fm),
{
    match read_fields(yaml) {
        Some(fm) => fm,
        None => FrontMatter::new(),
    }
}

} // verus!
