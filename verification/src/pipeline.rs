//! The conversion from Markdown to Typst markup and to PDF: front matter,
//! parsing, the Typst body, the preamble and the table of contents.
use vstd::prelude::*;
use crate::ast::MdNode;
use crate::config::{
    apply_front_matter, chosen_theme, effective_config, same_config, Config, ConfigBuilder, FrontMatter,
};
use crate::frontmatter::{spec_split_front_matter, split_front_matter};
use crate::inject::{
    generate_preamble, lemma_contains_within, lemma_preamble_shows_title_and_author, spec_preamble,
    spec_settings,
};
use crate::markdown::{commonmark_xml, gfm_options, parse_markdown, tree_of_xml};
use crate::render::{rendered, render_to_pdf, RenderError};
use crate::text::{contains, decimal, ends_with, occurs_at, push_decimal, starts_with, views};
use crate::theme::{is_builtin, Theme};
use crate::transform::{ast_to_typst, image_sources, images_of, spec_ast_to_typst};
use crate::xml::readable_document;
use crate::yaml::{front_matter_from_yaml, front_matter_read};

verus! {

/// Why a conversion failed.
#[derive(Debug)]
pub enum ConvertError {
    /// The parser's syntax tree could not be read back.
    Markdown,
    /// The Typst markup did not render.
    Render(RenderError),
}

impl ConvertError {
    /// The report of the failure.
    pub fn message(&self) -> (r: String)
        ensures
            r@ == match self {
                ConvertError::Markdown => "Failed to read the Markdown syntax tree"@,
                ConvertError::Render(e) => match e {
                    RenderError::Compile(m) => m@,
                    RenderError::Export(m) => m@,
                },
            },
    {
        match self {
            ConvertError::Markdown => {
                let mut m = String::new();
                m.append("Failed to read the Markdown syntax tree");
                m
            },
            ConvertError::Render(e) => e.message(),
        }
    }
}

/// The text of an optional value, empty where there is none.
pub open spec fn text_or_empty(o: Option<String>) -> Seq<char> {
    match o {
        Some(s) => s@,
        None => seq![],
    }
}

/// The table of contents, where the configuration asks for one.
pub open spec fn toc_block(c: Config) -> Seq<char> {
    if c.toc {
        "#outline(depth: "@ + decimal(c.toc_depth as nat) + ")\n\n"@
    } else {
        seq![]
    }
}

/// A Typst document: the preamble for the configuration's theme, title,
/// author and date, a line break, the table of contents, and the body.
pub open spec fn document_text(c: Config, body: Seq<char>) -> Seq<char> {
    spec_preamble(
        c.theme,
        text_or_empty(c.title),
        text_or_empty(c.author),
        text_or_empty(c.date),
        c.cover,
    ) + "\n"@ + toc_block(c) + body
}

/// A document is the preamble for the configuration's theme, with its
/// title as the title and its author as the author, followed by the body:
/// it starts with that preamble, ends with the body, and shows the title
/// and the author in their places (20pt bold title and 12pt author above
/// the content, or 28pt bold title and 14pt author on a cover page).
pub proof fn lemma_document_layout(c: Config, body: Seq<char>)
    ensures
        starts_with(
            document_text(c, body),
            spec_preamble(
                c.theme,
                text_or_empty(c.title),
                text_or_empty(c.author),
                text_or_empty(c.date),
                c.cover,
            ),
        ),
        ends_with(document_text(c, body), body),
        !c.cover && text_or_empty(c.title).len() > 0 ==> contains(
            document_text(c, body),
            "  align(center, text(size: 20pt, weight: \"bold\", \""@ + text_or_empty(c.title)
                + "\"))"@,
        ),
        !c.cover && text_or_empty(c.author).len() > 0 ==> contains(
            document_text(c, body),
            "  align(center, text(size: 12pt, \""@ + text_or_empty(c.author) + "\"))"@,
        ),
        c.cover && text_or_empty(c.title).len() > 0 ==> contains(
            document_text(c, body),
            "    text(size: 28pt, weight: \"bold\", \""@ + text_or_empty(c.title) + "\")"@,
        ),
        c.cover && text_or_empty(c.author).len() > 0 ==> contains(
            document_text(c, body),
            "    v(1em)\n    text(size: 14pt, \""@ + text_or_empty(c.author) + "\")"@,
        ),
{
    let t = text_or_empty(c.title);
    let a = text_or_empty(c.author);
    let d = text_or_empty(c.date);
    let pre = spec_preamble(c.theme, t, a, d, c.cover);
    let doc = document_text(c, body);
    let rest = "\n"@ + toc_block(c) + body;
    assert(doc =~= pre + rest);
    assert(doc.take(pre.len() as int) =~= pre);
    assert(doc.skip(doc.len() - body.len()) =~= body);
    assert(doc.subrange(0, pre.len() as int) =~= pre);
    assert(occurs_at(doc, pre, 0));
    lemma_preamble_shows_title_and_author(c.theme, t, a, d, c.cover);
    if !c.cover && t.len() > 0 {
        lemma_contains_within(
            doc,
            pre,
            "  align(center, text(size: 20pt, weight: \"bold\", \""@ + t + "\"))"@,
        );
    }
    if !c.cover && a.len() > 0 {
        lemma_contains_within(doc, pre, "  align(center, text(size: 12pt, \""@ + a + "\"))"@);
    }
    if c.cover && t.len() > 0 {
        lemma_contains_within(doc, pre, "    text(size: 28pt, weight: \"bold\", \""@ + t + "\")"@);
    }
    if c.cover && a.len() > 0 {
        lemma_contains_within(doc, pre, "    v(1em)\n    text(size: 14pt, \""@ + a + "\")"@);
    }
}

/// The front matter of a Markdown document: what its YAML sets, or nothing
/// where it has none.
pub open spec fn front_matter_of(markdown: Seq<char>, fm: FrontMatter) -> bool {
    match spec_split_front_matter(markdown).1 {
        Some(y) => front_matter_read(y, fm),
        None => fm.title is None && fm.author is None && fm.date is None && fm.theme is None
            && fm.font is None && fm.spacing is None && fm.page is None,
    }
}

/// Whether `out` is the Typst markup of `markdown` under `config`, given its
/// front matter `fm`, the built-in theme `t` that the front matter names
/// (if it names one) and the document tree `tree` of its body.
pub open spec fn markdown_typst(
    markdown: Seq<char>,
    config: Config,
    fm: FrontMatter,
    t: Theme,
    tree: MdNode,
    out: Seq<char>,
) -> bool {
    &&& front_matter_of(markdown, fm)
    &&& chosen_theme(fm, t)
    &&& tree_of_xml(commonmark_xml(spec_split_front_matter(markdown).0, gfm_options()), tree)
    &&& out == document_text(effective_config(config, fm, t), spec_ast_to_typst(tree))
}

/// Whether `out` is the Typst markup of `markdown` under `config`.
pub open spec fn typst_of_markdown(markdown: Seq<char>, config: Config, out: Seq<char>) -> bool {
    exists|fm: FrontMatter, t: Theme, tree: MdNode| #[trigger] markdown_typst(
        markdown,
        config,
        fm,
        t,
        tree,
        out,
    )
}

/// Configurations holding the same values give the same document.
proof fn lemma_same_config_document(a: Config, b: Config, body: Seq<char>)
    requires
        same_config(a, b),
    ensures
        document_text(a, body) == document_text(b, body),
{
    reveal(spec_settings);
    assert(spec_preamble(
        a.theme,
        text_or_empty(a.title),
        text_or_empty(a.author),
        text_or_empty(a.date),
        a.cover,
    ) =~= spec_preamble(
        b.theme,
        text_or_empty(b.title),
        text_or_empty(b.author),
        text_or_empty(b.date),
        b.cover,
    ));
}

/// Front matter applied to configurations holding the same values gives
/// configurations holding the same values.
proof fn lemma_same_config_front_matter(a: Config, b: Config, fm: FrontMatter, t: Theme)
    requires
        same_config(a, b),
    ensures
        same_config(effective_config(a, fm, t), effective_config(b, fm, t)),
{
}

/// The Typst document for a configuration and a body.
#[verifier::rlimit(80)]
fn assemble_document(config: &Config, body: &String) -> (r: String)
    ensures
        r@ == document_text(*config, body@),
{
    let empty = String::new();
    let title = match &config.title {
        Some(t) => t,
        None => &empty,
    };
    let author = match &config.author {
        Some(a) => a,
        None => &empty,
    };
    let date = match &config.date {
        Some(d) => d,
        None => &empty,
    };
    let mut out = generate_preamble(
        &config.theme,
        title.as_str(),
        author.as_str(),
        date.as_str(),
        config.cover,
    );
    out.append("\n");
    if config.toc {
        out.append("#outline(depth: ");
        push_decimal(&mut out, config.toc_depth);
        out.append(")\n\n");
    } else {
        assert(out@ + Seq::<char>::empty() =~= out@);
    }
    out.append(body.as_str());
    assert(out@ =~= document_text(*config, body@));
    out
}

/// Splits the front matter off a Markdown document: the body, and what the
/// front matter's YAML sets (nothing where there is none or where it does
/// not fit).
pub fn extract_front_matter(source: &str) -> (r: (String, FrontMatter))
    ensures
        r.0@ == spec_split_front_matter(source@).0,
        front_matter_of(source@, r.1),
{
    let (body, yaml) = split_front_matter(source);
    let fm = match &yaml {
        Some(y) => front_matter_from_yaml(y.as_str()),
        None => FrontMatter::new(),
    };
    (body, fm)
}

/// Converts Markdown source to a Typst markup string.
#[verifier::rlimit(50)]
pub fn to_typst(markdown: &str, config: &Config) -> (r: Result<String, ConvertError>)
    ensures
        r matches Ok(s) ==> typst_of_markdown(markdown@, *config, s@),
        r matches Err(e) ==> e is Markdown && !readable_document(
            commonmark_xml(spec_split_front_matter(markdown@).0, gfm_options()),
        ),
{
    let (body, fm) = extract_front_matter(markdown);
    let mut effective = config.clone();
    let ghost copied = effective;
    apply_front_matter(&mut effective, &fm);
    let tree = match parse_markdown(body.as_str()) {
        Some(t) => t,
        None => return Err(ConvertError::Markdown),
    };
    let typst_body = ast_to_typst(&tree);
    let out = assemble_document(&effective, &typst_body);
    proof {
        let t = choose|t: Theme| chosen_theme(fm, t) && effective == effective_config(
            copied,
            fm,
            t,
        );
        lemma_same_config_front_matter(copied, *config, fm, t);
        lemma_same_config_document(effective, effective_config(*config, fm, t), spec_ast_to_typst(tree));
        assert(markdown_typst(markdown@, *config, fm, t, tree, out@));
    }
    Ok(out)
}

/// Whether `r` is what a conversion of `markdown` under `config` may end
/// with: the Markdown error where its tree cannot be read, else what
/// rendering its Typst markup, with no files, ends with.
pub open spec fn possible_conversion(
    markdown: Seq<char>,
    config: Config,
    r: Result<Vec<u8>, ConvertError>,
) -> bool {
    match r {
        Err(ConvertError::Markdown) => !readable_document(
            commonmark_xml(spec_split_front_matter(markdown).0, gfm_options()),
        ),
        Err(ConvertError::Render(e)) => exists|s: Seq<char>|
            #[trigger] typst_of_markdown(markdown, config, s) && rendered(s, seq![], Err(e)),
        Ok(pdf) => exists|s: Seq<char>|
            #[trigger] typst_of_markdown(markdown, config, s) && rendered(s, seq![], Ok(pdf)),
    }
}

/// Converts Markdown source to PDF bytes with explicit configuration.
pub fn convert_with_config(markdown: &str, config: &Config) -> (r: Result<Vec<u8>, ConvertError>)
    ensures
        possible_conversion(markdown@, *config, r),
{
    let typst_src = match to_typst(markdown, config) {
        Ok(s) => s,
        Err(e) => return Err(e),
    };
    let rendering = render_to_pdf(typst_src.as_str());
    assert(rendered(typst_src@, seq![], rendering));
    match rendering {
        Ok(pdf) => {
            assert(typst_of_markdown(markdown@, *config, typst_src@));
            assert(rendered(typst_src@, seq![], Ok(pdf)));
            Ok(pdf)
        },
        Err(e) => {
            assert(typst_of_markdown(markdown@, *config, typst_src@));
            assert(rendered(typst_src@, seq![], Err(e)));
            Err(ConvertError::Render(e))
        },
    }
}

/// Converts Markdown source to PDF bytes using the default theme.
pub fn convert(markdown: &str) -> (r: Result<Vec<u8>, ConvertError>)
    ensures
        exists|d: Theme| #[trigger] is_builtin(d, "default"@) && possible_conversion(
            markdown@,
            ConfigBuilder::empty().built_from(d),
            r,
        ),
{
    let config = Config::builder().build();
    convert_with_config(markdown, &config)
}

/// The sources of the images of a Markdown document's body, in document
/// order; `None` where its syntax tree cannot be read.
pub fn referenced_images(markdown: &str) -> (r: Option<Vec<String>>)
    ensures
        r matches Some(v) ==> exists|t: MdNode| #[trigger] tree_of_xml(
            commonmark_xml(spec_split_front_matter(markdown@).0, gfm_options()),
            t,
        ) && views(v@) == images_of(t),
        readable_document(commonmark_xml(spec_split_front_matter(markdown@).0, gfm_options()))
            ==> r is Some,
{
    let (body, _fm) = extract_front_matter(markdown);
    match parse_markdown(body.as_str()) {
        Some(tree) => {
            let v = image_sources(&tree);
            assert(tree_of_xml(commonmark_xml(spec_split_front_matter(markdown@).0, gfm_options()), tree));
            Some(v)
        },
        None => None,
    }
}

} // verus!
