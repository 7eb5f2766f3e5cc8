//! The configuration of a conversion, its builder, and how a document's
//! front matter overrides it.
//!
//! Precedence, highest first: options given to the builder, then the front
//! matter (its values, then the built-in theme that it names), then the
//! theme given to the builder, then the built-in `default` theme.
use vstd::prelude::*;
use crate::theme::{
    default_theme, is_builtin, is_builtin_name, load_builtin, same_theme, FontOverride, FontSection,
    PageOverride, PageSection, SpacingOverride, SpacingSection, Theme,
};

verus! {

/// Metadata and overrides parsed from a document's front matter.
#[derive(Debug)]
pub struct FrontMatter {
    pub title: Option<String>,
    pub author: Option<String>,
    pub date: Option<String>,
    pub theme: Option<String>,
    pub font: Option<FontOverride>,
    pub spacing: Option<SpacingOverride>,
    pub page: Option<PageOverride>,
}

impl FrontMatter {
    /// Front matter that sets nothing.
    pub fn new() -> (r: Self)
        ensures
            r.title is None && r.author is None && r.date is None && r.theme is None
                && r.font is None && r.spacing is None && r.page is None,
    {
        FrontMatter {
            title: None,
            author: None,
            date: None,
            theme: None,
            font: None,
            spacing: None,
            page: None,
        }
    }
}

/// Which theme values the builder's options set.  A document's front
/// matter does not override those: options given for a conversion take
/// precedence over the document.
#[derive(Debug, Clone, Copy, PartialEq, Eq, Structural)]
pub struct FixedOptions {
    pub body_family: bool,
    pub body_size: bool,
    pub line_height: bool,
    pub letter_spacing: bool,
    pub paper: bool,
    pub margins: bool,
}

/// Runtime configuration for a conversion.
#[derive(Debug)]
pub struct Config {
    pub theme: Theme,
    pub title: Option<String>,
    pub author: Option<String>,
    pub date: Option<String>,
    pub toc: bool,
    pub toc_depth: u8,
    pub cover: bool,
    pub emit_typst: bool,
    pub dump_ast: bool,
    /// The theme values that the builder's options set.
    pub fixed: FixedOptions,
}

/// Two configurations hold the same values.
pub open spec fn same_config(a: Config, b: Config) -> bool {
    &&& same_theme(a.theme, b.theme)
    &&& a.title == b.title
    &&& a.author == b.author
    &&& a.date == b.date
    &&& a.toc == b.toc
    &&& a.toc_depth == b.toc_depth
    &&& a.cover == b.cover
    &&& a.emit_typst == b.emit_typst
    &&& a.dump_ast == b.dump_ast
    &&& a.fixed == b.fixed
}

fn clone_opt(o: &Option<String>) -> (r: Option<String>)
    ensures
        r == *o,
{
    match o {
        Some(s) => Some(s.clone()),
        None => None,
    }
}

impl Clone for Config {
    fn clone(&self) -> (r: Self)
        ensures
            same_config(r, *self),
    {
        Config {
            theme: self.theme.clone(),
            title: clone_opt(&self.title),
            author: clone_opt(&self.author),
            date: clone_opt(&self.date),
            toc: self.toc,
            toc_depth: self.toc_depth,
            cover: self.cover,
            emit_typst: self.emit_typst,
            dump_ast: self.dump_ast,
            fixed: self.fixed,
        }
    }
}

impl Config {
    /// A builder that starts from the default theme and no options.
    pub fn builder() -> (r: ConfigBuilder)
        ensures
            r == ConfigBuilder::empty(),
    {
        ConfigBuilder::default()
    }
}

/// Collects the options of a conversion, then builds a [`Config`].
#[derive(Debug)]
pub struct ConfigBuilder {
    pub theme: Option<Theme>,
    pub title: Option<String>,
    pub author: Option<String>,
    pub date: Option<String>,
    pub toc: bool,
    pub toc_depth: u8,
    pub cover: bool,
    pub emit_typst: bool,
    pub dump_ast: bool,
    pub font_family: Option<String>,
    pub font_size: Option<String>,
    /// The line height, as the decimal text of the number.
    pub line_height: Option<String>,
    pub letter_spacing: Option<String>,
    pub paper: Option<String>,
    pub margin: Option<String>,
}

/// The value of `o` where it is set, else `d`.
pub open spec fn or_else<T>(o: Option<T>, d: T) -> T {
    match o {
        Some(v) => v,
        None => d,
    }
}

impl ConfigBuilder {
    /// The builder with no option set.
    pub open spec fn empty() -> ConfigBuilder {
        ConfigBuilder {
            theme: None,
            title: None,
            author: None,
            date: None,
            toc: false,
            toc_depth: 0,
            cover: false,
            emit_typst: false,
            dump_ast: false,
            font_family: None,
            font_size: None,
            line_height: None,
            letter_spacing: None,
            paper: None,
            margin: None,
        }
    }

    /// `t` with the builder's typography and page options applied.
    pub open spec fn overridden(self, t: Theme) -> Theme {
        Theme {
            font: FontSection {
                body_family: or_else(self.font_family, t.font.body_family),
                body_size: or_else(self.font_size, t.font.body_size),
                ..t.font
            },
            spacing: SpacingSection {
                line_height: or_else(self.line_height, t.spacing.line_height),
                letter_spacing: or_else(self.letter_spacing, t.spacing.letter_spacing),
                ..t.spacing
            },
            page: PageSection {
                paper: or_else(self.paper, t.page.paper),
                margin_top: or_else(self.margin, t.page.margin_top),
                margin_bottom: or_else(self.margin, t.page.margin_bottom),
                margin_left: or_else(self.margin, t.page.margin_left),
                margin_right: or_else(self.margin, t.page.margin_right),
                ..t.page
            },
            ..t
        }
    }

    /// The table-of-contents depth that a build gives: 3 where none was set.
    pub open spec fn effective_toc_depth(self) -> u8 {
        if self.toc_depth == 0 {
            3
        } else {
            self.toc_depth
        }
    }

    /// The configuration that `build` makes from this builder and the theme
    /// it starts from.
    pub open spec fn built_from(self, base: Theme) -> Config {
        Config {
            theme: self.overridden(base),
            title: self.title,
            author: self.author,
            date: self.date,
            toc: self.toc,
            toc_depth: self.effective_toc_depth(),
            cover: self.cover,
            emit_typst: self.emit_typst,
            dump_ast: self.dump_ast,
            fixed: self.fixed_options(),
        }
    }

    /// The theme values that this builder's options set.
    pub open spec fn fixed_options(self) -> FixedOptions {
        FixedOptions {
            body_family: self.font_family is Some,
            body_size: self.font_size is Some,
            line_height: self.line_height is Some,
            letter_spacing: self.letter_spacing is Some,
            paper: self.paper is Some,
            margins: self.margin is Some,
        }
    }

    pub fn theme(self, theme: Theme) -> (r: Self)
        ensures
            r == (ConfigBuilder { theme: Some(theme), ..self }),
    {
        ConfigBuilder { theme: Some(theme), ..self }
    }

    pub fn title(self, v: &str) -> (r: Self)
        ensures
            r.title matches Some(s) && s@ == v@,
            r == (ConfigBuilder { title: r.title, ..self }),
    {
        ConfigBuilder { title: Some(v.to_owned()), ..self }
    }

    pub fn author(self, v: &str) -> (r: Self)
        ensures
            r.author matches Some(s) && s@ == v@,
            r == (ConfigBuilder { author: r.author, ..self }),
    {
        ConfigBuilder { author: Some(v.to_owned()), ..self }
    }

    pub fn date(self, v: &str) -> (r: Self)
        ensures
            r.date matches Some(s) && s@ == v@,
            r == (ConfigBuilder { date: r.date, ..self }),
    {
        ConfigBuilder { date: Some(v.to_owned()), ..self }
    }

    pub fn font_family(self, v: &str) -> (r: Self)
        ensures
            r.font_family matches Some(s) && s@ == v@,
            r == (ConfigBuilder { font_family: r.font_family, ..self }),
    {
        ConfigBuilder { font_family: Some(v.to_owned()), ..self }
    }

    pub fn font_size(self, v: &str) -> (r: Self)
        ensures
            r.font_size matches Some(s) && s@ == v@,
            r == (ConfigBuilder { font_size: r.font_size, ..self }),
    {
        ConfigBuilder { font_size: Some(v.to_owned()), ..self }
    }

    /// Sets the line height, given as the decimal text of the number.
    pub fn line_height(self, v: &str) -> (r: Self)
        ensures
            r.line_height matches Some(s) && s@ == v@,
            r == (ConfigBuilder { line_height: r.line_height, ..self }),
    {
        ConfigBuilder { line_height: Some(v.to_owned()), ..self }
    }

    pub fn letter_spacing(self, v: &str) -> (r: Self)
        ensures
            r.letter_spacing matches Some(s) && s@ == v@,
            r == (ConfigBuilder { letter_spacing: r.letter_spacing, ..self }),
    {
        ConfigBuilder { letter_spacing: Some(v.to_owned()), ..self }
    }

    pub fn paper(self, v: &str) -> (r: Self)
        ensures
            r.paper matches Some(s) && s@ == v@,
            r == (ConfigBuilder { paper: r.paper, ..self }),
    {
        ConfigBuilder { paper: Some(v.to_owned()), ..self }
    }

    /// Sets all four page margins.
    pub fn margin(self, v: &str) -> (r: Self)
        ensures
            r.margin matches Some(s) && s@ == v@,
            r == (ConfigBuilder { margin: r.margin, ..self }),
    {
        ConfigBuilder { margin: Some(v.to_owned()), ..self }
    }

    pub fn toc(self, v: bool) -> (r: Self)
        ensures
            r == (ConfigBuilder { toc: v, ..self }),
    {
        ConfigBuilder { toc: v, ..self }
    }

    pub fn toc_depth(self, v: u8) -> (r: Self)
        ensures
            r == (ConfigBuilder { toc_depth: v, ..self }),
    {
        ConfigBuilder { toc_depth: v, ..self }
    }

    pub fn cover(self, v: bool) -> (r: Self)
        ensures
            r == (ConfigBuilder { cover: v, ..self }),
    {
        ConfigBuilder { cover: v, ..self }
    }

    pub fn emit_typst(self, v: bool) -> (r: Self)
        ensures
            r == (ConfigBuilder { emit_typst: v, ..self }),
    {
        ConfigBuilder { emit_typst: v, ..self }
    }

    pub fn dump_ast(self, v: bool) -> (r: Self)
        ensures
            r == (ConfigBuilder { dump_ast: v, ..self }),
    {
        ConfigBuilder { dump_ast: v, ..self }
    }

    /// Builds the configuration: the given theme, or the built-in `default`
    /// theme where none was given, with the typography and page options
    /// applied; a table-of-contents depth of 0 stands for 3.
    pub fn build(self) -> (r: Config)
        ensures
            match self.theme {
                Some(t) => r == self.built_from(t),
                None => exists|d: Theme| is_builtin(d, "default"@) && r == self.built_from(d),
            },
    {
        let ghost b = self;
        let base = match self.theme {
            Some(t) => t,
            None => default_theme(),
        };
        let ghost base0 = base;
        let fixed = FixedOptions {
            body_family: self.font_family.is_some(),
            body_size: self.font_size.is_some(),
            line_height: self.line_height.is_some(),
            letter_spacing: self.letter_spacing.is_some(),
            paper: self.paper.is_some(),
            margins: self.margin.is_some(),
        };
        let mut theme = base;
        match self.font_family {
            Some(v) => {
                theme.font.body_family = v;
            },
            None => {},
        }
        match self.font_size {
            Some(v) => {
                theme.font.body_size = v;
            },
            None => {},
        }
        match self.line_height {
            Some(v) => {
                theme.spacing.line_height = v;
            },
            None => {},
        }
        match self.letter_spacing {
            Some(v) => {
                theme.spacing.letter_spacing = v;
            },
            None => {},
        }
        match self.paper {
            Some(v) => {
                theme.page.paper = v;
            },
            None => {},
        }
        match self.margin {
            Some(v) => {
                theme.page.margin_top = v.clone();
                theme.page.margin_bottom = v.clone();
                theme.page.margin_left = v.clone();
                theme.page.margin_right = v;
            },
            None => {},
        }
        let r = Config {
            theme,
            title: self.title,
            author: self.author,
            date: self.date,
            toc: self.toc,
            toc_depth: if self.toc_depth == 0 {
                3
            } else {
                self.toc_depth
            },
            cover: self.cover,
            emit_typst: self.emit_typst,
            dump_ast: self.dump_ast,
            fixed,
        };
        assert(r == b.built_from(base0));
        r
    }
}

impl Default for ConfigBuilder {
    fn default() -> (r: Self)
        ensures
            r == ConfigBuilder::empty(),
    {
        ConfigBuilder {
            theme: None,
            title: None,
            author: None,
            date: None,
            toc: false,
            toc_depth: 0,
            cover: false,
            emit_typst: false,
            dump_ast: false,
            font_family: None,
            font_size: None,
            line_height: None,
            letter_spacing: None,
            paper: None,
            margin: None,
        }
    }
}

/// The value of `fm` where the front matter sets it and `cur` where not.
pub open spec fn overrides<T>(fm: Option<T>, cur: T) -> T {
    or_else(fm, cur)
}

/// A value after the front matter: kept where the builder fixed it, else
/// the front matter's where it sets one.
pub open spec fn unless_fixed(fixed: bool, fm: Option<String>, cur: String) -> String {
    if fixed {
        cur
    } else {
        overrides(fm, cur)
    }
}

/// The font section with a front-matter font override applied.
pub open spec fn font_with(f: FontSection, o: Option<FontOverride>, x: FixedOptions) -> FontSection {
    match o {
        Some(o) => FontSection {
            body_family: unless_fixed(x.body_family, o.body_family, f.body_family),
            body_size: unless_fixed(x.body_size, o.body_size, f.body_size),
            code_family: overrides(o.code_family, f.code_family),
            code_size: overrides(o.code_size, f.code_size),
            ..f
        },
        None => f,
    }
}

/// The spacing section with a front-matter spacing override applied.
pub open spec fn spacing_with(
    s: SpacingSection,
    o: Option<SpacingOverride>,
    x: FixedOptions,
) -> SpacingSection {
    match o {
        Some(o) => SpacingSection {
            line_height: unless_fixed(x.line_height, o.line_height, s.line_height),
            paragraph_spacing: overrides(o.paragraph_spacing, s.paragraph_spacing),
            letter_spacing: unless_fixed(x.letter_spacing, o.letter_spacing, s.letter_spacing),
            ..s
        },
        None => s,
    }
}

/// The page section with a front-matter page override applied.
pub open spec fn page_with(p: PageSection, o: Option<PageOverride>, x: FixedOptions) -> PageSection {
    match o {
        Some(o) => PageSection {
            paper: unless_fixed(x.paper, o.paper, p.paper),
            margin_top: unless_fixed(x.margins, o.margin_top, p.margin_top),
            margin_bottom: unless_fixed(x.margins, o.margin_bottom, p.margin_bottom),
            margin_left: unless_fixed(x.margins, o.margin_left, p.margin_left),
            margin_right: unless_fixed(x.margins, o.margin_right, p.margin_right),
            columns: overrides(o.columns, p.columns),
        },
        None => p,
    }
}

/// A metadata value after the front matter: the configured value where there
/// is one (the configuration takes precedence), else the front matter's.
pub open spec fn keep_or(cur: Option<String>, fm: Option<String>) -> Option<String> {
    if cur is Some {
        cur
    } else {
        fm
    }
}

/// The configuration after applying front matter `fm` to `c`.
pub open spec fn with_front_matter(c: Config, fm: FrontMatter) -> Config {
    Config {
        title: keep_or(c.title, fm.title),
        author: keep_or(c.author, fm.author),
        date: keep_or(c.date, fm.date),
        theme: Theme {
            font: font_with(c.theme.font, fm.font, c.fixed),
            spacing: spacing_with(c.theme.spacing, fm.spacing, c.fixed),
            page: page_with(c.theme.page, fm.page, c.fixed),
            ..c.theme
        },
        ..c
    }
}

fn set_if(target: &mut String, v: &Option<String>)
    ensures
        *final(target) == overrides(*v, *old(target)),
{
    match v {
        Some(s) => {
            *target = s.clone();
        },
        None => {},
    }
}

fn set_unless_fixed(target: &mut String, fixed: bool, v: &Option<String>)
    ensures
        *final(target) == unless_fixed(fixed, *v, *old(target)),
{
    if !fixed {
        set_if(target, v);
    }
}

fn keep_if_unset(target: &mut Option<String>, v: &Option<String>)
    ensures
        *final(target) == keep_or(*old(target), *v),
{
    match v {
        Some(s) => {
            if target.is_none() {
                *target = Some(s.clone());
            }
        },
        None => {},
    }
}

/// Theme `t` with the values that the builder's options fixed (`x`) taken
/// from `cur`.
pub open spec fn keep_fixed(t: Theme, cur: Theme, x: FixedOptions) -> Theme {
    Theme {
        font: FontSection {
            body_family: if x.body_family {
                cur.font.body_family
            } else {
                t.font.body_family
            },
            body_size: if x.body_size {
                cur.font.body_size
            } else {
                t.font.body_size
            },
            ..t.font
        },
        spacing: SpacingSection {
            line_height: if x.line_height {
                cur.spacing.line_height
            } else {
                t.spacing.line_height
            },
            letter_spacing: if x.letter_spacing {
                cur.spacing.letter_spacing
            } else {
                t.spacing.letter_spacing
            },
            ..t.spacing
        },
        page: PageSection {
            paper: if x.paper {
                cur.page.paper
            } else {
                t.page.paper
            },
            margin_top: if x.margins {
                cur.page.margin_top
            } else {
                t.page.margin_top
            },
            margin_bottom: if x.margins {
                cur.page.margin_bottom
            } else {
                t.page.margin_bottom
            },
            margin_left: if x.margins {
                cur.page.margin_left
            } else {
                t.page.margin_left
            },
            margin_right: if x.margins {
                cur.page.margin_right
            } else {
                t.page.margin_right
            },
            ..t.page
        },
        ..t
    }
}

/// The configuration with its theme replaced by `t`, but for the values
/// that the builder's options fixed.
pub open spec fn rebased(c: Config, t: Theme) -> Config {
    Config { theme: keep_fixed(t, c.theme, c.fixed), ..c }
}

/// The built-in theme that the front matter names, if it names one.
pub open spec fn front_matter_theme(fm: FrontMatter) -> Option<Seq<char>> {
    match fm.theme {
        Some(n) => if is_builtin_name(n@) {
            Some(n@)
        } else {
            None
        },
        None => None,
    }
}

/// Whether `t` is the built-in theme that the front matter names, where it
/// names one.
pub open spec fn chosen_theme(fm: FrontMatter, t: Theme) -> bool {
    front_matter_theme(fm) matches Some(n) ==> is_builtin(t, n)
}

/// The configuration after the front matter `fm`: the built-in theme `t`
/// that it names takes the theme's place (but for the values that the
/// builder's options fixed), then its values apply.
pub open spec fn effective_config(c: Config, fm: FrontMatter, t: Theme) -> Config {
    with_front_matter(
        if front_matter_theme(fm) is Some {
            rebased(c, t)
        } else {
            c
        },
        fm,
    )
}

fn rebase(config: &mut Config, t: Theme)
    ensures
        *final(config) == rebased(*old(config), t),
{
    let mut t = t;
    if config.fixed.body_family {
        t.font.body_family = config.theme.font.body_family.clone();
    }
    if config.fixed.body_size {
        t.font.body_size = config.theme.font.body_size.clone();
    }
    if config.fixed.line_height {
        t.spacing.line_height = config.theme.spacing.line_height.clone();
    }
    if config.fixed.letter_spacing {
        t.spacing.letter_spacing = config.theme.spacing.letter_spacing.clone();
    }
    if config.fixed.paper {
        t.page.paper = config.theme.page.paper.clone();
    }
    if config.fixed.margins {
        t.page.margin_top = config.theme.page.margin_top.clone();
        t.page.margin_bottom = config.theme.page.margin_bottom.clone();
        t.page.margin_left = config.theme.page.margin_left.clone();
        t.page.margin_right = config.theme.page.margin_right.clone();
    }
    config.theme = t;
}

/// Applies front matter onto a configuration: a built-in theme that it
/// names replaces the theme (keeping what the builder's options fixed);
/// then title, author and date where the configuration has none, and the
/// font, spacing and page values that the front matter sets, but for those
/// the builder's options fixed.  A theme value that names no built-in
/// theme is left aside.
pub fn apply_front_matter(config: &mut Config, fm: &FrontMatter)
    ensures
        exists|t: Theme| chosen_theme(*fm, t) && *final(config) == effective_config(*old(config), *fm, t),
{
    let ghost start = *config;
    let ghost mut chosen: Theme = config.theme;
    match &fm.theme {
        Some(name) => {
            match load_builtin(name.as_str()) {
                Ok(t) => {
                    proof {
                        chosen = t;
                    }
                    rebase(config, t);
                },
                Err(_) => {},
            }
        },
        None => {},
    }
    let ghost mid = *config;
    assert(mid == if front_matter_theme(*fm) is Some {
        rebased(start, chosen)
    } else {
        start
    });
    apply_values(config, fm);
    assert(chosen_theme(*fm, chosen));
}

/// Applies the front matter's metadata and font, spacing and page values.
fn apply_values(config: &mut Config, fm: &FrontMatter)
    ensures
        *final(config) == with_front_matter(*old(config), *fm),
{
    keep_if_unset(&mut config.title, &fm.title);
    keep_if_unset(&mut config.author, &fm.author);
    keep_if_unset(&mut config.date, &fm.date);
    match &fm.font {
        Some(o) => {
            set_unless_fixed(&mut config.theme.font.body_family, config.fixed.body_family, &o.body_family);
            set_unless_fixed(&mut config.theme.font.body_size, config.fixed.body_size, &o.body_size);
            set_if(&mut config.theme.font.code_family, &o.code_family);
            set_if(&mut config.theme.font.code_size, &o.code_size);
        },
        None => {},
    }
    match &fm.spacing {
        Some(o) => {
            set_unless_fixed(&mut config.theme.spacing.line_height, config.fixed.line_height, &o.line_height);
            set_if(&mut config.theme.spacing.paragraph_spacing, &o.paragraph_spacing);
            set_unless_fixed(
                &mut config.theme.spacing.letter_spacing,
                config.fixed.letter_spacing,
                &o.letter_spacing,
            );
        },
        None => {},
    }
    match &fm.page {
        Some(o) => {
            set_unless_fixed(&mut config.theme.page.paper, config.fixed.paper, &o.paper);
            set_unless_fixed(&mut config.theme.page.margin_top, config.fixed.margins, &o.margin_top);
            set_unless_fixed(
                &mut config.theme.page.margin_bottom,
                config.fixed.margins,
                &o.margin_bottom,
            );
            set_unless_fixed(&mut config.theme.page.margin_left, config.fixed.margins, &o.margin_left);
            set_unless_fixed(
                &mut config.theme.page.margin_right,
                config.fixed.margins,
                &o.margin_right,
            );
            match o.columns {
                Some(v) => {
                    config.theme.page.columns = v;
                },
                None => {},
            }
        },
        None => {},
    }
}

/// Metadata given to the configuration takes precedence over the front
/// matter: a title, author or date that the configuration sets is kept, and
/// one that it does not set comes from the front matter.
pub proof fn lemma_configuration_precedes_front_matter(c: Config, fm: FrontMatter)
    ensures
        c.title is Some ==> with_front_matter(c, fm).title == c.title,
        c.author is Some ==> with_front_matter(c, fm).author == c.author,
        c.date is Some ==> with_front_matter(c, fm).date == c.date,
        c.title is None ==> with_front_matter(c, fm).title == fm.title,
        c.author is None ==> with_front_matter(c, fm).author == fm.author,
        c.date is None ==> with_front_matter(c, fm).date == fm.date,
{
}

/// Applying the same front matter a second time changes nothing.
pub proof fn lemma_front_matter_idempotent(c: Config, fm: FrontMatter)
    ensures
        with_front_matter(with_front_matter(c, fm), fm) == with_front_matter(c, fm),
{
}

/// Applying the same front matter a second time changes nothing, its
/// theme included.
pub proof fn lemma_effective_config_idempotent(c: Config, fm: FrontMatter, t: Theme)
    ensures
        effective_config(effective_config(c, fm, t), fm, t) == effective_config(c, fm, t),
{
}

/// Front matter that sets nothing leaves the configuration as it is.
pub proof fn lemma_empty_front_matter_changes_nothing(c: Config, fm: FrontMatter)
    requires
        fm.title is None && fm.author is None && fm.date is None && fm.font is None
            && fm.spacing is None && fm.page is None,
    ensures
        with_front_matter(c, fm) == c,
{
}

/// Only the front matter's metadata and font, spacing and page values reach
/// the configuration: the options, colours, code settings, header, footer
/// and metadata section of the theme are left as they were.
pub proof fn lemma_front_matter_keeps_the_rest(c: Config, fm: FrontMatter)
    ensures
        with_front_matter(c, fm).toc == c.toc,
        with_front_matter(c, fm).toc_depth == c.toc_depth,
        with_front_matter(c, fm).cover == c.cover,
        with_front_matter(c, fm).theme.color == c.theme.color,
        with_front_matter(c, fm).theme.code == c.theme.code,
        with_front_matter(c, fm).theme.header_footer == c.theme.header_footer,
        with_front_matter(c, fm).theme.meta == c.theme.meta,
        with_front_matter(c, fm).theme.font.fallback == c.theme.font.fallback,
{
}

/// Options given to the builder take precedence over the front matter,
/// which takes precedence over the theme: after a built configuration takes
/// in a document's front matter, each typography and page value is the
/// builder's where it set one, else the front matter's where it sets one,
/// else the theme's.
pub proof fn lemma_builder_precedes_front_matter_precedes_theme(
    b: ConfigBuilder,
    t: Theme,
    fm: FrontMatter,
)
    ensures
        with_front_matter(b.built_from(t), fm).theme.font.body_family == or_else(
            b.font_family,
            match fm.font {
                Some(o) => or_else(o.body_family, t.font.body_family),
                None => t.font.body_family,
            },
        ),
        with_front_matter(b.built_from(t), fm).theme.font.body_size == or_else(
            b.font_size,
            match fm.font {
                Some(o) => or_else(o.body_size, t.font.body_size),
                None => t.font.body_size,
            },
        ),
        with_front_matter(b.built_from(t), fm).theme.spacing.line_height == or_else(
            b.line_height,
            match fm.spacing {
                Some(o) => or_else(o.line_height, t.spacing.line_height),
                None => t.spacing.line_height,
            },
        ),
        with_front_matter(b.built_from(t), fm).theme.spacing.letter_spacing == or_else(
            b.letter_spacing,
            match fm.spacing {
                Some(o) => or_else(o.letter_spacing, t.spacing.letter_spacing),
                None => t.spacing.letter_spacing,
            },
        ),
        with_front_matter(b.built_from(t), fm).theme.page.paper == or_else(
            b.paper,
            match fm.page {
                Some(o) => or_else(o.paper, t.page.paper),
                None => t.page.paper,
            },
        ),
        with_front_matter(b.built_from(t), fm).theme.page.margin_top == or_else(
            b.margin,
            match fm.page {
                Some(o) => or_else(o.margin_top, t.page.margin_top),
                None => t.page.margin_top,
            },
        ),
        with_front_matter(b.built_from(t), fm).title == keep_or(b.title, fm.title),
{
}

/// The theme that values not set elsewhere come from: the built-in theme
/// that the front matter names, else the theme that the build started from.
pub open spec fn theme_source(fm: FrontMatter, t: Theme, base: Theme) -> Theme {
    if front_matter_theme(fm) is Some {
        t
    } else {
        base
    }
}

/// The whole precedence: each typography and page value is the builder's
/// option where it set one; else the front matter's value where it sets
/// one; else that of the built-in theme that the front matter names; else
/// that of the theme given to the builder (the built-in `default` theme
/// where none was given).
pub proof fn lemma_full_precedence(b: ConfigBuilder, base: Theme, fm: FrontMatter, t: Theme)
    ensures
        effective_config(b.built_from(base), fm, t).theme.font.body_family == or_else(
            b.font_family,
            match fm.font {
                Some(o) => or_else(o.body_family, theme_source(fm, t, base).font.body_family),
                None => theme_source(fm, t, base).font.body_family,
            },
        ),
        effective_config(b.built_from(base), fm, t).theme.font.body_size == or_else(
            b.font_size,
            match fm.font {
                Some(o) => or_else(o.body_size, theme_source(fm, t, base).font.body_size),
                None => theme_source(fm, t, base).font.body_size,
            },
        ),
        effective_config(b.built_from(base), fm, t).theme.font.code_family == match fm.font {
            Some(o) => or_else(o.code_family, theme_source(fm, t, base).font.code_family),
            None => theme_source(fm, t, base).font.code_family,
        },
        effective_config(b.built_from(base), fm, t).theme.spacing.line_height == or_else(
            b.line_height,
            match fm.spacing {
                Some(o) => or_else(o.line_height, theme_source(fm, t, base).spacing.line_height),
                None => theme_source(fm, t, base).spacing.line_height,
            },
        ),
        effective_config(b.built_from(base), fm, t).theme.page.paper == or_else(
            b.paper,
            match fm.page {
                Some(o) => or_else(o.paper, theme_source(fm, t, base).page.paper),
                None => theme_source(fm, t, base).page.paper,
            },
        ),
        effective_config(b.built_from(base), fm, t).theme.page.margin_left == or_else(
            b.margin,
            match fm.page {
                Some(o) => or_else(o.margin_left, theme_source(fm, t, base).page.margin_left),
                None => theme_source(fm, t, base).page.margin_left,
            },
        ),
        effective_config(b.built_from(base), fm, t).theme.page.columns == match fm.page {
            Some(o) => or_else(o.columns, theme_source(fm, t, base).page.columns),
            None => theme_source(fm, t, base).page.columns,
        },
        effective_config(b.built_from(base), fm, t).theme.color == theme_source(fm, t, base).color,
{
}

/// A builder's table-of-contents depth of 0 stands for 3; any other depth is
/// kept.
pub proof fn lemma_toc_depth_default(b: ConfigBuilder, t: Theme)
    ensures
        b.toc_depth == 0 ==> b.built_from(t).toc_depth == 3,
        b.toc_depth != 0 ==> b.built_from(t).toc_depth == b.toc_depth,
{
}

/// The builder's options override the theme, whatever the theme holds.
pub proof fn lemma_builder_options_override_theme(b: ConfigBuilder, t: Theme)
    ensures
        b.font_family matches Some(v) ==> b.built_from(t).theme.font.body_family == v,
        b.margin matches Some(v) ==> b.built_from(t).theme.page.margin_top == v
            && b.built_from(t).theme.page.margin_bottom == v
            && b.built_from(t).theme.page.margin_left == v
            && b.built_from(t).theme.page.margin_right == v,
        b.paper is None && b.margin is None ==> b.built_from(t).theme.page == t.page,
{
}

} // verus!
