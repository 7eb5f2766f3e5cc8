//! The theme model (page, fonts, spacing, colours, code, header and footer),
//! the built-in themes, and the choice between a built-in theme and a theme
//! file.
//!
//! Every value is kept as the text that is written into the Typst preamble;
//! the line height, a decimal number, is kept as the text of that number.
use vstd::prelude::*;
use crate::text::{chars_of, contains, contains_chars, ends_with, ends_with_chars, str_eq};

verus! {

#[derive(Debug)]
pub struct MetaSection {
    pub name: String,
    pub description: String,
    pub version: String,
}

#[derive(Debug)]
pub struct PageSection {
    pub paper: String,
    pub margin_top: String,
    pub margin_bottom: String,
    pub margin_left: String,
    pub margin_right: String,
    pub columns: u8,
}

#[derive(Debug)]
pub struct FontSection {
    pub body_family: String,
    pub body_size: String,
    pub body_weight: String,
    pub heading_family: String,
    pub heading_weight: String,
    pub code_family: String,
    pub code_size: String,
    pub fallback: Vec<String>,
}

#[derive(Debug)]
pub struct SpacingSection {
    /// The line height, as the decimal text of the number (for example `1.6`).
    pub line_height: String,
    pub paragraph_spacing: String,
    pub letter_spacing: String,
    pub heading_above: String,
    pub heading_below: String,
}

#[derive(Debug)]
pub struct ColorSection {
    pub body_text: String,
    pub heading: String,
    pub link: String,
    pub code_text: String,
    pub code_background: String,
    pub blockquote_border: String,
    pub blockquote_text: String,
}

#[derive(Debug)]
pub struct CodeSection {
    pub theme: String,
    pub line_numbers: bool,
    pub border_radius: String,
}

#[derive(Debug)]
pub struct HeaderFooterSection {
    pub header_left: String,
    pub header_center: String,
    pub header_right: String,
    pub footer_left: String,
    pub footer_center: String,
    pub footer_right: String,
}

#[derive(Debug)]
pub struct Theme {
    pub meta: MetaSection,
    pub page: PageSection,
    pub font: FontSection,
    pub spacing: SpacingSection,
    pub color: ColorSection,
    pub code: CodeSection,
    pub header_footer: HeaderFooterSection,
}

/// Per-document overrides of the font section.
#[derive(Debug)]
pub struct FontOverride {
    pub body_family: Option<String>,
    pub body_size: Option<String>,
    pub code_family: Option<String>,
    pub code_size: Option<String>,
}

/// Per-document overrides of the spacing section.
#[derive(Debug)]
pub struct SpacingOverride {
    /// The line height, as the decimal text of the number.
    pub line_height: Option<String>,
    pub paragraph_spacing: Option<String>,
    pub letter_spacing: Option<String>,
}

/// Per-document overrides of the page section.
#[derive(Debug)]
pub struct PageOverride {
    pub paper: Option<String>,
    pub margin_top: Option<String>,
    pub margin_bottom: Option<String>,
    pub margin_left: Option<String>,
    pub margin_right: Option<String>,
    pub columns: Option<u8>,
}

/// Per-document overrides of the colour section.
#[derive(Debug)]
pub struct ColorOverride {
    pub body_text: Option<String>,
    pub heading: Option<String>,
    pub link: Option<String>,
}

/// Per-document overrides parsed from front matter.
#[derive(Debug)]
pub struct ThemeOverride {
    pub font: Option<FontOverride>,
    pub spacing: Option<SpacingOverride>,
    pub page: Option<PageOverride>,
    pub color: Option<ColorOverride>,
}

impl FontOverride {
    pub fn new() -> (r: Self)
        ensures
            r.body_family is None && r.body_size is None && r.code_family is None
                && r.code_size is None,
    {
        FontOverride { body_family: None, body_size: None, code_family: None, code_size: None }
    }
}

impl SpacingOverride {
    pub fn new() -> (r: Self)
        ensures
            r.line_height is None && r.paragraph_spacing is None && r.letter_spacing is None,
    {
        SpacingOverride { line_height: None, paragraph_spacing: None, letter_spacing: None }
    }
}

impl PageOverride {
    pub fn new() -> (r: Self)
        ensures
            r.paper is None && r.margin_top is None && r.margin_bottom is None
                && r.margin_left is None && r.margin_right is None && r.columns is None,
    {
        PageOverride {
            paper: None,
            margin_top: None,
            margin_bottom: None,
            margin_left: None,
            margin_right: None,
            columns: None,
        }
    }
}

impl ColorOverride {
    pub fn new() -> (r: Self)
        ensures
            r.body_text is None && r.heading is None && r.link is None,
    {
        ColorOverride { body_text: None, heading: None, link: None }
    }
}

impl ThemeOverride {
    pub fn new() -> (r: Self)
        ensures
            r.font is None && r.spacing is None && r.page is None && r.color is None,
    {
        ThemeOverride { font: None, spacing: None, page: None, color: None }
    }
}

/// A copy of a list of strings.
pub fn copy_strings(v: &Vec<String>) -> (r: Vec<String>)
    ensures
        r@ == v@,
{
    let mut r: Vec<String> = Vec::new();
    let n = v.len();
    for i in 0..n
        invariant
            n == v@.len(),
            r@ == v@.take(i as int),
    {
        r.push(v[i].clone());
        assert(r@ =~= v@.take(i + 1));
    }
    assert(v@.take(n as int) =~= v@);
    r
}

impl Clone for MetaSection {
    fn clone(&self) -> (r: Self)
        ensures
            r == *self,
    {
        MetaSection {
            name: self.name.clone(),
            description: self.description.clone(),
            version: self.version.clone(),
        }
    }
}

impl Clone for PageSection {
    fn clone(&self) -> (r: Self)
        ensures
            r == *self,
    {
        PageSection {
            paper: self.paper.clone(),
            margin_top: self.margin_top.clone(),
            margin_bottom: self.margin_bottom.clone(),
            margin_left: self.margin_left.clone(),
            margin_right: self.margin_right.clone(),
            columns: self.columns,
        }
    }
}

/// Two font sections hold the same values.
pub open spec fn same_font(a: FontSection, b: FontSection) -> bool {
    &&& a.body_family == b.body_family
    &&& a.body_size == b.body_size
    &&& a.body_weight == b.body_weight
    &&& a.heading_family == b.heading_family
    &&& a.heading_weight == b.heading_weight
    &&& a.code_family == b.code_family
    &&& a.code_size == b.code_size
    &&& a.fallback@ == b.fallback@
}

impl Clone for FontSection {
    fn clone(&self) -> (r: Self)
        ensures
            same_font(r, *self),
    {
        FontSection {
            body_family: self.body_family.clone(),
            body_size: self.body_size.clone(),
            body_weight: self.body_weight.clone(),
            heading_family: self.heading_family.clone(),
            heading_weight: self.heading_weight.clone(),
            code_family: self.code_family.clone(),
            code_size: self.code_size.clone(),
            fallback: copy_strings(&self.fallback),
        }
    }
}

impl Clone for SpacingSection {
    fn clone(&self) -> (r: Self)
        ensures
            r == *self,
    {
        SpacingSection {
            line_height: self.line_height.clone(),
            paragraph_spacing: self.paragraph_spacing.clone(),
            letter_spacing: self.letter_spacing.clone(),
            heading_above: self.heading_above.clone(),
            heading_below: self.heading_below.clone(),
        }
    }
}

impl Clone for ColorSection {
    fn clone(&self) -> (r: Self)
        ensures
            r == *self,
    {
        ColorSection {
            body_text: self.body_text.clone(),
            heading: self.heading.clone(),
            link: self.link.clone(),
            code_text: self.code_text.clone(),
            code_background: self.code_background.clone(),
            blockquote_border: self.blockquote_border.clone(),
            blockquote_text: self.blockquote_text.clone(),
        }
    }
}

impl Clone for CodeSection {
    fn clone(&self) -> (r: Self)
        ensures
            r == *self,
    {
        CodeSection {
            theme: self.theme.clone(),
            line_numbers: self.line_numbers,
            border_radius: self.border_radius.clone(),
        }
    }
}

impl Clone for HeaderFooterSection {
    fn clone(&self) -> (r: Self)
        ensures
            r == *self,
    {
        HeaderFooterSection {
            header_left: self.header_left.clone(),
            header_center: self.header_center.clone(),
            header_right: self.header_right.clone(),
            footer_left: self.footer_left.clone(),
            footer_center: self.footer_center.clone(),
            footer_right: self.footer_right.clone(),
        }
    }
}

/// Two themes hold the same values.
pub open spec fn same_theme(a: Theme, b: Theme) -> bool {
    &&& a.meta == b.meta
    &&& a.page == b.page
    &&& same_font(a.font, b.font)
    &&& a.spacing == b.spacing
    &&& a.color == b.color
    &&& a.code == b.code
    &&& a.header_footer == b.header_footer
}

impl Clone for Theme {
    fn clone(&self) -> (r: Self)
        ensures
            same_theme(r, *self),
    {
        Theme {
            meta: self.meta.clone(),
            page: self.page.clone(),
            font: self.font.clone(),
            spacing: self.spacing.clone(),
            color: self.color.clone(),
            code: self.code.clone(),
            header_footer: self.header_footer.clone(),
        }
    }
}


/// The text fields of a theme, in a fixed order: meta, page, font, spacing,
/// colour, code and header/footer, each section in declaration order.
pub open spec fn theme_strings(t: Theme) -> Seq<Seq<char>> {
    seq![t.meta.name@, t.meta.description@, t.meta.version@, t.page.paper@, t.page.margin_top@, t.page.margin_bottom@, t.page.margin_left@, t.page.margin_right@, t.font.body_family@, t.font.body_size@, t.font.body_weight@, t.font.heading_family@, t.font.heading_weight@, t.font.code_family@, t.font.code_size@, t.spacing.line_height@, t.spacing.paragraph_spacing@, t.spacing.letter_spacing@, t.spacing.heading_above@, t.spacing.heading_below@, t.color.body_text@, t.color.heading@, t.color.link@, t.color.code_text@, t.color.code_background@, t.color.blockquote_border@, t.color.blockquote_text@, t.code.theme@, t.code.border_radius@, t.header_footer.header_left@, t.header_footer.header_center@, t.header_footer.header_right@, t.header_footer.footer_left@, t.header_footer.footer_center@, t.header_footer.footer_right@]
}

/// Builds a theme from its text fields (in the order of `theme_strings`), its
/// column count, its line-number flag and its fallback fonts.
pub fn build_theme(v: &Vec<&str>, columns: u8, line_numbers: bool, fallback: Vec<String>) -> (t: Theme)
    requires
        v@.len() == 35,
    ensures
        theme_strings(t) =~= v@.map_values(|s: &str| s@),
        t.page.columns == columns,
        t.code.line_numbers == line_numbers,
        t.font.fallback@ == fallback@,
{
    Theme {
        meta: MetaSection { name: v[0].to_owned(), description: v[1].to_owned(), version: v[2].to_owned() },
        page: PageSection {
            paper: v[3].to_owned(),
            margin_top: v[4].to_owned(),
            margin_bottom: v[5].to_owned(),
            margin_left: v[6].to_owned(),
            margin_right: v[7].to_owned(),
            columns,
        },
        font: FontSection {
            body_family: v[8].to_owned(),
            body_size: v[9].to_owned(),
            body_weight: v[10].to_owned(),
            heading_family: v[11].to_owned(),
            heading_weight: v[12].to_owned(),
            code_family: v[13].to_owned(),
            code_size: v[14].to_owned(),
            fallback,
        },
        spacing: SpacingSection {
            line_height: v[15].to_owned(),
            paragraph_spacing: v[16].to_owned(),
            letter_spacing: v[17].to_owned(),
            heading_above: v[18].to_owned(),
            heading_below: v[19].to_owned(),
        },
        color: ColorSection {
            body_text: v[20].to_owned(),
            heading: v[21].to_owned(),
            link: v[22].to_owned(),
            code_text: v[23].to_owned(),
            code_background: v[24].to_owned(),
            blockquote_border: v[25].to_owned(),
            blockquote_text: v[26].to_owned(),
        },
        code: CodeSection { theme: v[27].to_owned(), line_numbers, border_radius: v[28].to_owned() },
        header_footer: HeaderFooterSection {
            header_left: v[29].to_owned(),
            header_center: v[30].to_owned(),
            header_right: v[31].to_owned(),
            footer_left: v[32].to_owned(),
            footer_center: v[33].to_owned(),
            footer_right: v[34].to_owned(),
        },
    }
}

/// The text fields of the built-in `default` theme.
pub open spec fn default_strings() -> Seq<Seq<char>> {
    seq!["default"@, "Clean, readable default theme"@, "1.0.0"@, "a4"@, "2.5cm"@, "2.5cm"@, "2.5cm"@, "2.5cm"@, "Noto Serif"@, "11pt"@, "regular"@, "Noto Sans"@, "bold"@, "JetBrains Mono"@, "9pt"@, "1.6"@, "0.8em"@, "0pt"@, "1.2em"@, "0.6em"@, "#333333"@, "#1a1a2e"@, "#2563eb"@, "#e06c75"@, "#f6f8fa"@, "#d1d5db"@, "#6b7280"@, "catppuccin-mocha"@, "4pt"@, ""@, ""@, "{title}"@, ""@, "{page}"@, ""@]
}

/// The fallback fonts of the built-in `default` theme.
pub open spec fn default_fallback() -> Seq<Seq<char>> {
    seq!["Noto Sans KR"@, "Noto Sans JP"@]
}

pub(crate) fn default_theme() -> (t: Theme)
    ensures
        is_builtin(t, "default"@),
{
    proof {
        reveal_strlit("default");
        reveal_strlit("academic");
        reveal_strlit("minimal");
        reveal_strlit("newspaper");
    }
    let v: Vec<&str> = vec!["default", "Clean, readable default theme", "1.0.0", "a4", "2.5cm", "2.5cm", "2.5cm", "2.5cm", "Noto Serif", "11pt", "regular", "Noto Sans", "bold", "JetBrains Mono", "9pt", "1.6", "0.8em", "0pt", "1.2em", "0.6em", "#333333", "#1a1a2e", "#2563eb", "#e06c75", "#f6f8fa", "#d1d5db", "#6b7280", "catppuccin-mocha", "4pt", "", "", "{title}", "", "{page}", ""];
    let fallback: Vec<String> = vec!["Noto Sans KR".to_owned(), "Noto Sans JP".to_owned()];
    let t = build_theme(&v, 1, false, fallback);
    assert(theme_strings(t) =~= default_strings());
    assert(t.font.fallback@.map_values(|s: String| s@) =~= default_fallback());
    t
}

/// The text fields of the built-in `academic` theme.
pub open spec fn academic_strings() -> Seq<Seq<char>> {
    seq!["academic"@, "Academic paper style with narrow margins and serif typography"@, "1.0.0"@, "a4"@, "2cm"@, "2cm"@, "2cm"@, "2cm"@, "Libertinus Serif"@, "10.5pt"@, "regular"@, "Libertinus Serif"@, "bold"@, "DejaVu Sans Mono"@, "8.5pt"@, "1.5"@, "0.65em"@, "0pt"@, "1.1em"@, "0.5em"@, "#111111"@, "#000000"@, "#1d4ed8"@, "#333333"@, "#f5f5f5"@, "#9ca3af"@, "#4b5563"@, "github"@, "2pt"@, ""@, "{title}"@, ""@, ""@, "{page}"@, ""@]
}

/// The fallback fonts of the built-in `academic` theme.
pub open spec fn academic_fallback() -> Seq<Seq<char>> {
    seq!["Noto Serif KR"@, "Noto Serif JP"@]
}

fn academic_theme() -> (t: Theme)
    ensures
        is_builtin(t, "academic"@),
{
    proof {
        reveal_strlit("default");
        reveal_strlit("academic");
        reveal_strlit("minimal");
        reveal_strlit("newspaper");
    }
    let v: Vec<&str> = vec!["academic", "Academic paper style with narrow margins and serif typography", "1.0.0", "a4", "2cm", "2cm", "2cm", "2cm", "Libertinus Serif", "10.5pt", "regular", "Libertinus Serif", "bold", "DejaVu Sans Mono", "8.5pt", "1.5", "0.65em", "0pt", "1.1em", "0.5em", "#111111", "#000000", "#1d4ed8", "#333333", "#f5f5f5", "#9ca3af", "#4b5563", "github", "2pt", "", "{title}", "", "", "{page}", ""];
    let fallback: Vec<String> = vec!["Noto Serif KR".to_owned(), "Noto Serif JP".to_owned()];
    proof {
        assert("academic"@[0] != "default"@[0] || "academic"@.len() != "default"@.len());
    }
    let t = build_theme(&v, 1, false, fallback);
    assert(theme_strings(t) =~= academic_strings());
    assert(t.font.fallback@.map_values(|s: String| s@) =~= academic_fallback());
    t
}

/// The text fields of the built-in `minimal` theme.
pub open spec fn minimal_strings() -> Seq<Seq<char>> {
    seq!["minimal"@, "Minimal decoration with wide margins"@, "1.0.0"@, "a4"@, "3.5cm"@, "3.5cm"@, "3.5cm"@, "3.5cm"@, "Libertinus Serif"@, "11pt"@, "regular"@, "Libertinus Serif"@, "bold"@, "DejaVu Sans Mono"@, "9pt"@, "1.7"@, "1em"@, "0pt"@, "1.4em"@, "0.7em"@, "#222222"@, "#222222"@, "#222222"@, "#444444"@, "#fafafa"@, "#e5e7eb"@, "#6b7280"@, "nord"@, "0pt"@, ""@, ""@, ""@, ""@, "{page}"@, ""@]
}

/// The fallback fonts of the built-in `minimal` theme.
pub open spec fn minimal_fallback() -> Seq<Seq<char>> {
    seq!["Noto Sans KR"@]
}

fn minimal_theme() -> (t: Theme)
    ensures
        is_builtin(t, "minimal"@),
{
    proof {
        reveal_strlit("default");
        reveal_strlit("academic");
        reveal_strlit("minimal");
        reveal_strlit("newspaper");
    }
    let v: Vec<&str> = vec!["minimal", "Minimal decoration with wide margins", "1.0.0", "a4", "3.5cm", "3.5cm", "3.5cm", "3.5cm", "Libertinus Serif", "11pt", "regular", "Libertinus Serif", "bold", "DejaVu Sans Mono", "9pt", "1.7", "1em", "0pt", "1.4em", "0.7em", "#222222", "#222222", "#222222", "#444444", "#fafafa", "#e5e7eb", "#6b7280", "nord", "0pt", "", "", "", "", "{page}", ""];
    let fallback: Vec<String> = vec!["Noto Sans KR".to_owned()];
    proof {
        assert("minimal"@[0] != "default"@[0] || "minimal"@.len() != "default"@.len());
        assert("minimal"@[0] != "academic"@[0] || "minimal"@.len() != "academic"@.len());
    }
    let t = build_theme(&v, 1, false, fallback);
    assert(theme_strings(t) =~= minimal_strings());
    assert(t.font.fallback@.map_values(|s: String| s@) =~= minimal_fallback());
    t
}

/// The text fields of the built-in `newspaper` theme.
pub open spec fn newspaper_strings() -> Seq<Seq<char>> {
    seq!["newspaper"@, "Two-column newspaper layout with serif headings"@, "1.0.0"@, "a4"@, "1.5cm"@, "1.5cm"@, "1.5cm"@, "1.5cm"@, "Libertinus Serif"@, "10pt"@, "regular"@, "Libertinus Serif"@, "bold"@, "DejaVu Sans Mono"@, "8pt"@, "1.4"@, "0.6em"@, "0pt"@, "1em"@, "0.4em"@, "#1a1a1a"@, "#000000"@, "#1e40af"@, "#b91c1c"@, "#f3f4f6"@, "#374151"@, "#374151"@, "github"@, "2pt"@, "{title}"@, ""@, ""@, ""@, "{page}"@, ""@]
}

/// The fallback fonts of the built-in `newspaper` theme.
pub open spec fn newspaper_fallback() -> Seq<Seq<char>> {
    seq!["Noto Serif KR"@]
}

fn newspaper_theme() -> (t: Theme)
    ensures
        is_builtin(t, "newspaper"@),
{
    proof {
        reveal_strlit("default");
        reveal_strlit("academic");
        reveal_strlit("minimal");
        reveal_strlit("newspaper");
    }
    let v: Vec<&str> = vec!["newspaper", "Two-column newspaper layout with serif headings", "1.0.0", "a4", "1.5cm", "1.5cm", "1.5cm", "1.5cm", "Libertinus Serif", "10pt", "regular", "Libertinus Serif", "bold", "DejaVu Sans Mono", "8pt", "1.4", "0.6em", "0pt", "1em", "0.4em", "#1a1a1a", "#000000", "#1e40af", "#b91c1c", "#f3f4f6", "#374151", "#374151", "github", "2pt", "{title}", "", "", "", "{page}", ""];
    let fallback: Vec<String> = vec!["Noto Serif KR".to_owned()];
    proof {
        assert("newspaper"@[0] != "default"@[0] || "newspaper"@.len() != "default"@.len());
        assert("newspaper"@[0] != "academic"@[0] || "newspaper"@.len() != "academic"@.len());
        assert("newspaper"@[0] != "minimal"@[0] || "newspaper"@.len() != "minimal"@.len());
    }
    let t = build_theme(&v, 2, false, fallback);
    assert(theme_strings(t) =~= newspaper_strings());
    assert(t.font.fallback@.map_values(|s: String| s@) =~= newspaper_fallback());
    t
}

/// The names of the built-in themes.
pub open spec fn is_builtin_name(name: Seq<char>) -> bool {
    name == "default"@ || name == "academic"@ || name == "minimal"@ || name == "newspaper"@
}

/// The text fields, column count and fallback fonts of the built-in theme
/// called `name`.
pub open spec fn builtin_values(name: Seq<char>) -> (Seq<Seq<char>>, u8, Seq<Seq<char>>) {
    if name == "default"@ {
        (default_strings(), 1, default_fallback())
    } else if name == "academic"@ {
        (academic_strings(), 1, academic_fallback())
    } else if name == "minimal"@ {
        (minimal_strings(), 1, minimal_fallback())
    } else if name == "newspaper"@ {
        (newspaper_strings(), 2, newspaper_fallback())
    } else {
        (seq![], 0, seq![])
    }
}

/// `t` is the built-in theme called `name`: its text fields, column count and
/// fallback fonts are those of that theme, and its code blocks carry no line
/// numbers.
pub open spec fn is_builtin(t: Theme, name: Seq<char>) -> bool {
    &&& theme_strings(t) == builtin_values(name).0
    &&& t.page.columns == builtin_values(name).1
    &&& t.font.fallback@.map_values(|s: String| s@) == builtin_values(name).2
    &&& !t.code.line_numbers
}

/// Why a theme could not be had.
#[derive(Debug)]
pub enum ThemeError {
    /// No built-in theme has this name.
    UnknownBuiltin(String),
    /// The value names a theme file, which the caller reads.
    ThemeFile(String),
}

impl ThemeError {
    /// The message that describes the error to a user.
    pub fn message(&self) -> (r: String)
        ensures
            match self {
                ThemeError::UnknownBuiltin(name) => r@ == "Unknown built-in theme: '"@ + name@
                    + "'. Available: default, academic, minimal, newspaper"@,
                ThemeError::ThemeFile(path) => r@ == "Theme file must be read by the caller: "@
                    + path@,
            },
    {
        match self {
            ThemeError::UnknownBuiltin(name) => {
                let mut r = "Unknown built-in theme: '".to_owned();
                r.append(name.as_str());
                r.append("'. Available: default, academic, minimal, newspaper");
                r
            },
            ThemeError::ThemeFile(path) => {
                let mut r = "Theme file must be read by the caller: ".to_owned();
                r.append(path.as_str());
                r
            },
        }
    }
}

/// The built-in theme called `name`.
pub fn load_builtin(name: &str) -> (r: Result<Theme, ThemeError>)
    ensures
        r is Ok <==> is_builtin_name(name@),
        r matches Ok(t) ==> is_builtin(t, name@),
        r matches Err(e) ==> (e matches ThemeError::UnknownBuiltin(n) && n@ == name@),
{
    if str_eq(name, "default") {
        Ok(default_theme())
    } else if str_eq(name, "academic") {
        Ok(academic_theme())
    } else if str_eq(name, "minimal") {
        Ok(minimal_theme())
    } else if str_eq(name, "newspaper") {
        Ok(newspaper_theme())
    } else {
        Err(ThemeError::UnknownBuiltin(name.to_owned()))
    }
}

/// Whether a theme value names a theme file rather than a built-in theme: it
/// ends with `.toml` or holds a `/` or a `\\`.
pub open spec fn names_theme_file(value: Seq<char>) -> bool {
    ends_with(value, ".toml"@) || contains(value, "/"@) || contains(value, "\\"@)
}

/// Decides whether a theme value is a path to a theme file (else it is the
/// name of a built-in theme).
pub fn is_theme_file(value: &str) -> (r: bool)
    ensures
        r == names_theme_file(value@),
{
    let v = chars_of(value);
    ends_with_chars(&v, &chars_of(".toml")) || contains_chars(&v, &chars_of("/"))
        || contains_chars(&v, &chars_of("\\"))
}

/// Loads a theme by name or path: a value that names a theme file is
/// reported as such (the caller reads theme files), any other is the name
/// of a built-in theme.
pub fn load(theme_value: &str) -> (r: Result<Theme, ThemeError>)
    ensures
        names_theme_file(theme_value@) ==> (r matches Err(ThemeError::ThemeFile(p)) && p@
            == theme_value@),
        !names_theme_file(theme_value@) ==> {
            &&& (r is Ok <==> is_builtin_name(theme_value@))
            &&& (r matches Ok(t) ==> is_builtin(t, theme_value@))
            &&& (r matches Err(e) ==> (e matches ThemeError::UnknownBuiltin(n) && n@
                == theme_value@))
        },
{
    if is_theme_file(theme_value) {
        Err(ThemeError::ThemeFile(theme_value.to_owned()))
    } else {
        load_builtin(theme_value)
    }
}

} // verus!
