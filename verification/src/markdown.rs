//! Markdown parsing: the parser's options, its syntax tree in CommonMark XML
//! form, and the library's document tree read from it.
use vstd::prelude::*;
use crate::ast::MdNode;
use crate::text::str_eq;
use crate::xml::{
    XmlElement, attr_views, document_xml, opt_text, parse_document_xml, readable_document,
    same_element, same_elements, wf_element,
};

verus! {

/// The Markdown extensions the parser runs with.
#[derive(Debug, Clone, Copy, PartialEq, Eq, Structural)]
pub struct MarkdownOptions {
    pub strikethrough: bool,
    pub table: bool,
    pub autolink: bool,
    pub tasklist: bool,
    pub footnotes: bool,
    pub math_dollars: bool,
    /// Typographic quotes and dashes.
    pub smart: bool,
}

/// GitHub-flavoured Markdown with footnotes and dollar math; no
/// typographic replacements.
pub open spec fn gfm_options() -> MarkdownOptions {
    MarkdownOptions {
        strikethrough: true,
        table: true,
        autolink: true,
        tasklist: true,
        footnotes: true,
        math_dollars: true,
        smart: false,
    }
}

/// The options the converter parses with.
pub fn make_options() -> (o: MarkdownOptions)
    ensures
        o == gfm_options(),
{
    MarkdownOptions {
        strikethrough: true,
        table: true,
        autolink: true,
        tasklist: true,
        footnotes: true,
        math_dollars: true,
        smart: false,
    }
}

/// The CommonMark XML that comrak prints for `markdown` parsed with
/// `options`.
pub uninterp spec fn commonmark_xml(markdown: Seq<char>, options: MarkdownOptions) -> Seq<char>;

/// Parses `markdown` and prints its syntax tree as CommonMark XML.
///
/// Trusted: calls `comrak::markdown_to_commonmark_xml` with comrak's default
/// options but for the extensions named in `options`; the contract claims
/// only that the result is a function of the text and the options.
#[verifier::external_body]
fn markdown_to_xml(markdown: &str, options: &MarkdownOptions) -> (r: String)
    ensures
        r@ == commonmark_xml(markdown@, *options),
{
    let mut o = comrak::Options::default();
    o.extension.strikethrough = options.strikethrough;
    o.extension.table = options.table;
    o.extension.autolink = options.autolink;
    o.extension.tasklist = options.tasklist;
    o.extension.footnotes = options.footnotes;
    o.extension.math_dollars = options.math_dollars;
    o.parse.smart = options.smart;
    comrak::markdown_to_commonmark_xml(markdown, &o)
}

/// The value of the first attribute named `key`.
pub open spec fn attr(attrs: Seq<(String, String)>, key: Seq<char>) -> Option<Seq<char>>
    decreases attrs.len(),
{
    if attrs.len() == 0 {
        None
    } else if attrs[0].0@ == key {
        Some(attrs[0].1@)
    } else {
        attr(attrs.drop_first(), key)
    }
}

/// The value of an attribute, or the empty text where it is absent.
pub open spec fn attr_or_empty(attrs: Seq<(String, String)>, key: Seq<char>) -> Seq<char> {
    match attr(attrs, key) {
        Some(v) => v,
        None => seq![],
    }
}

/// Whether an attribute is present with the given value.
pub open spec fn attr_is(attrs: Seq<(String, String)>, key: Seq<char>, value: Seq<char>) -> bool {
    attr(attrs, key) == Some(value)
}

/// The heading level written in a `level` attribute.
pub open spec fn heading_level(v: Seq<char>) -> u8 {
    if v == "1"@ {
        1
    } else if v == "2"@ {
        2
    } else if v == "3"@ {
        3
    } else if v == "4"@ {
        4
    } else if v == "5"@ {
        5
    } else if v == "6"@ {
        6
    } else {
        0
    }
}

/// The text of a literal element, empty for any other.
pub open spec fn literal_of(e: XmlElement) -> Seq<char> {
    match e.literal {
        Some(l) => l@,
        None => seq![],
    }
}

/// Whether `n` is the document node that the XML element `e` stands for;
/// `first_row` tells whether `e` is the first row of a table, which is its
/// header row.
pub open spec fn node_of(e: XmlElement, n: MdNode, first_row: bool) -> bool
    decreases e, 0nat,
{
    let name = e.name@;
    let a = e.attrs@;
    let es = e.children@;
    if name == "document"@ {
        n matches MdNode::Document(ch) && nodes_of(es, ch@, false)
    } else if name == "heading"@ {
        n matches MdNode::Heading(lv, ch) && lv == heading_level(attr_or_empty(a, "level"@))
            && nodes_of(es, ch@, false)
    } else if name == "paragraph"@ {
        n matches MdNode::Paragraph(ch) && nodes_of(es, ch@, false)
    } else if name == "text"@ {
        n matches MdNode::Text(t) && t@ == literal_of(e)
    } else if name == "softbreak"@ {
        n is SoftBreak
    } else if name == "linebreak"@ {
        n is LineBreak
    } else if name == "strong"@ {
        n matches MdNode::Strong(ch) && nodes_of(es, ch@, false)
    } else if name == "emph"@ {
        n matches MdNode::Emph(ch) && nodes_of(es, ch@, false)
    } else if name == "strikethrough"@ {
        n matches MdNode::Strikethrough(ch) && nodes_of(es, ch@, false)
    } else if name == "code"@ {
        n matches MdNode::Code(t) && t@ == literal_of(e)
    } else if name == "code_block"@ {
        n matches MdNode::CodeBlock(info, t) && info@ == attr_or_empty(a, "info"@) && t@
            == literal_of(e)
    } else if name == "block_quote"@ {
        n matches MdNode::BlockQuote(ch) && nodes_of(es, ch@, false)
    } else if name == "list"@ {
        n matches MdNode::List(ordered, ch) && ordered == attr_is(a, "type"@, "ordered"@)
            && nodes_of(es, ch@, false)
    } else if name == "item"@ {
        n matches MdNode::Item(ch) && nodes_of(es, ch@, false)
    } else if name == "taskitem"@ {
        n matches MdNode::TaskItem(checked, ch) && checked == attr_is(a, "completed"@, "true"@)
            && nodes_of(es, ch@, false)
    } else if name == "link"@ {
        n matches MdNode::Link(url, ch) && url@ == attr_or_empty(a, "destination"@) && nodes_of(
            es,
            ch@,
            false,
        )
    } else if name == "image"@ {
        n matches MdNode::Image(url, ch) && url@ == attr_or_empty(a, "destination"@) && nodes_of(
            es,
            ch@,
            false,
        )
    } else if name == "thematic_break"@ {
        n is ThematicBreak
    } else if name == "html_block"@ {
        n matches MdNode::HtmlBlock(t) && t@ == literal_of(e)
    } else if name == "html_inline"@ {
        n matches MdNode::HtmlInline(t) && t@ == literal_of(e)
    } else if name == "table"@ {
        n matches MdNode::Table(ch) && nodes_of(es, ch@, true)
    } else if name == "table_row"@ {
        n matches MdNode::TableRow(header, ch) && header == first_row && nodes_of(es, ch@, false)
    } else if name == "table_cell"@ {
        n matches MdNode::TableCell(ch) && nodes_of(es, ch@, false)
    } else if name == "footnote_definition"@ {
        n matches MdNode::FootnoteDefinition(label, ch) && label@ == attr_or_empty(a, "label"@)
            && nodes_of(es, ch@, false)
    } else if name == "footnote_reference"@ {
        n matches MdNode::FootnoteReference(label) && label@ == attr_or_empty(a, "label"@)
    } else if name == "math"@ {
        n matches MdNode::Math(display, t) && display == attr_is(a, "math_style"@, "display"@)
            && t@ == literal_of(e)
    } else {
        n matches MdNode::Other(ch) && nodes_of(es, ch@, false)
    }
}

/// Whether the nodes `ns` stand for the elements `es`, one for one; in a
/// table, the first element is its header row.
pub open spec fn nodes_of(es: Seq<XmlElement>, ns: Seq<MdNode>, in_table: bool) -> bool
    decreases es, 0nat,
{
    es.len() == ns.len() && (es.len() == 0 || (nodes_of(es.drop_last(), ns.drop_last(), in_table)
        && node_of(es.last(), ns.last(), in_table && es.len() == 1)))
}

/// Attributes decide the flags of the nodes they belong to, by their exact
/// values: a task item is checked exactly when its `completed` attribute
/// is `true` (so `completed="false"` is an open item), a list is ordered
/// exactly when its `type` is `ordered`, and math is display math exactly
/// when its `math_style` is `display`.
pub proof fn lemma_attribute_flags(e: XmlElement, n: MdNode, first_row: bool)
    requires
        node_of(e, n, first_row),
    ensures
        e.name@ == "taskitem"@ ==> (n matches MdNode::TaskItem(checked, _) && checked == (attr(
            e.attrs@,
            "completed"@,
        ) == Some("true"@))),
        e.name@ == "taskitem"@ && attr(e.attrs@, "completed"@) == Some("false"@) ==> (
        n matches MdNode::TaskItem(checked, _) && !checked),
        e.name@ == "list"@ ==> (n matches MdNode::List(ordered, _) && ordered == (attr(
            e.attrs@,
            "type"@,
        ) == Some("ordered"@))),
        e.name@ == "math"@ ==> (n matches MdNode::Math(display, _) && display == (attr(
            e.attrs@,
            "math_style"@,
        ) == Some("display"@))),
{
    if e.name@ == "taskitem"@ {
        reveal_strlit("taskitem");
        reveal_strlit("document");
        assert("taskitem"@[0] != "document"@[0]);
        assert("taskitem"@ != "document"@);
        reveal_strlit("heading");
        assert("taskitem"@.len() != "heading"@.len());
        assert("taskitem"@ != "heading"@);
        reveal_strlit("paragraph");
        assert("taskitem"@.len() != "paragraph"@.len());
        assert("taskitem"@ != "paragraph"@);
        reveal_strlit("text");
        assert("taskitem"@.len() != "text"@.len());
        assert("taskitem"@ != "text"@);
        reveal_strlit("softbreak");
        assert("taskitem"@.len() != "softbreak"@.len());
        assert("taskitem"@ != "softbreak"@);
        reveal_strlit("linebreak");
        assert("taskitem"@.len() != "linebreak"@.len());
        assert("taskitem"@ != "linebreak"@);
        reveal_strlit("strong");
        assert("taskitem"@.len() != "strong"@.len());
        assert("taskitem"@ != "strong"@);
        reveal_strlit("emph");
        assert("taskitem"@.len() != "emph"@.len());
        assert("taskitem"@ != "emph"@);
        reveal_strlit("strikethrough");
        assert("taskitem"@.len() != "strikethrough"@.len());
        assert("taskitem"@ != "strikethrough"@);
        reveal_strlit("code");
        assert("taskitem"@.len() != "code"@.len());
        assert("taskitem"@ != "code"@);
        reveal_strlit("code_block");
        assert("taskitem"@.len() != "code_block"@.len());
        assert("taskitem"@ != "code_block"@);
        reveal_strlit("block_quote");
        assert("taskitem"@.len() != "block_quote"@.len());
        assert("taskitem"@ != "block_quote"@);
        reveal_strlit("list");
        assert("taskitem"@.len() != "list"@.len());
        assert("taskitem"@ != "list"@);
        reveal_strlit("item");
        assert("taskitem"@.len() != "item"@.len());
        assert("taskitem"@ != "item"@);
        reveal_strlit("true");
        reveal_strlit("false");
        assert("true"@.len() != "false"@.len());
    }
    if e.name@ == "list"@ {
        reveal_strlit("list");
        reveal_strlit("document");
        assert("list"@.len() != "document"@.len());
        assert("list"@ != "document"@);
        reveal_strlit("heading");
        assert("list"@.len() != "heading"@.len());
        assert("list"@ != "heading"@);
        reveal_strlit("paragraph");
        assert("list"@.len() != "paragraph"@.len());
        assert("list"@ != "paragraph"@);
        reveal_strlit("text");
        assert("list"@[0] != "text"@[0]);
        assert("list"@ != "text"@);
        reveal_strlit("softbreak");
        assert("list"@.len() != "softbreak"@.len());
        assert("list"@ != "softbreak"@);
        reveal_strlit("linebreak");
        assert("list"@.len() != "linebreak"@.len());
        assert("list"@ != "linebreak"@);
        reveal_strlit("strong");
        assert("list"@.len() != "strong"@.len());
        assert("list"@ != "strong"@);
        reveal_strlit("emph");
        assert("list"@[0] != "emph"@[0]);
        assert("list"@ != "emph"@);
        reveal_strlit("strikethrough");
        assert("list"@.len() != "strikethrough"@.len());
        assert("list"@ != "strikethrough"@);
        reveal_strlit("code");
        assert("list"@[0] != "code"@[0]);
        assert("list"@ != "code"@);
        reveal_strlit("code_block");
        assert("list"@.len() != "code_block"@.len());
        assert("list"@ != "code_block"@);
        reveal_strlit("block_quote");
        assert("list"@.len() != "block_quote"@.len());
        assert("list"@ != "block_quote"@);
    }
    if e.name@ == "math"@ {
        reveal_strlit("math");
        reveal_strlit("document");
        assert("math"@.len() != "document"@.len());
        assert("math"@ != "document"@);
        reveal_strlit("heading");
        assert("math"@.len() != "heading"@.len());
        assert("math"@ != "heading"@);
        reveal_strlit("paragraph");
        assert("math"@.len() != "paragraph"@.len());
        assert("math"@ != "paragraph"@);
        reveal_strlit("text");
        assert("math"@[0] != "text"@[0]);
        assert("math"@ != "text"@);
        reveal_strlit("softbreak");
        assert("math"@.len() != "softbreak"@.len());
        assert("math"@ != "softbreak"@);
        reveal_strlit("linebreak");
        assert("math"@.len() != "linebreak"@.len());
        assert("math"@ != "linebreak"@);
        reveal_strlit("strong");
        assert("math"@.len() != "strong"@.len());
        assert("math"@ != "strong"@);
        reveal_strlit("emph");
        assert("math"@[0] != "emph"@[0]);
        assert("math"@ != "emph"@);
        reveal_strlit("strikethrough");
        assert("math"@.len() != "strikethrough"@.len());
        assert("math"@ != "strikethrough"@);
        reveal_strlit("code");
        assert("math"@[0] != "code"@[0]);
        assert("math"@ != "code"@);
        reveal_strlit("code_block");
        assert("math"@.len() != "code_block"@.len());
        assert("math"@ != "code_block"@);
        reveal_strlit("block_quote");
        assert("math"@.len() != "block_quote"@.len());
        assert("math"@ != "block_quote"@);
        reveal_strlit("list");
        assert("math"@[0] != "list"@[0]);
        assert("math"@ != "list"@);
        reveal_strlit("item");
        assert("math"@[0] != "item"@[0]);
        assert("math"@ != "item"@);
        reveal_strlit("taskitem");
        assert("math"@.len() != "taskitem"@.len());
        assert("math"@ != "taskitem"@);
        reveal_strlit("link");
        assert("math"@[0] != "link"@[0]);
        assert("math"@ != "link"@);
        reveal_strlit("image");
        assert("math"@.len() != "image"@.len());
        assert("math"@ != "image"@);
        reveal_strlit("thematic_break");
        assert("math"@.len() != "thematic_break"@.len());
        assert("math"@ != "thematic_break"@);
        reveal_strlit("html_block");
        assert("math"@.len() != "html_block"@.len());
        assert("math"@ != "html_block"@);
        reveal_strlit("html_inline");
        assert("math"@.len() != "html_inline"@.len());
        assert("math"@ != "html_inline"@);
        reveal_strlit("table");
        assert("math"@.len() != "table"@.len());
        assert("math"@ != "table"@);
        reveal_strlit("table_row");
        assert("math"@.len() != "table_row"@.len());
        assert("math"@ != "table_row"@);
        reveal_strlit("table_cell");
        assert("math"@.len() != "table_cell"@.len());
        assert("math"@ != "table_cell"@);
        reveal_strlit("footnote_definition");
        assert("math"@.len() != "footnote_definition"@.len());
        assert("math"@ != "footnote_definition"@);
        reveal_strlit("footnote_reference");
        assert("math"@.len() != "footnote_reference"@.len());
        assert("math"@ != "footnote_reference"@);
    }
}

/// A heading comes only from a `heading` element, and its level is the
/// digit of its `level` attribute, from 1 to 6.
pub proof fn lemma_heading_level_from_attribute(e: XmlElement, n: MdNode, first_row: bool)
    requires
        node_of(e, n, first_row),
        n is Heading,
    ensures
        e.name@ == "heading"@,
        forall|c: char|
            '1' <= c <= '6' && attr(e.attrs@, "level"@) == Some(seq![c]) ==> (
            n matches MdNode::Heading(lv, _) && lv == (c as int) - ('0' as int)),
{
    reveal_strlit("1");
    reveal_strlit("2");
    reveal_strlit("3");
    reveal_strlit("4");
    reveal_strlit("5");
    reveal_strlit("6");
    assert(e.name@ == "heading"@);
    assert(n matches MdNode::Heading(lv, _) && lv == heading_level(
        attr_or_empty(e.attrs@, "level"@),
    ));
    assert forall|c: char|
        '1' <= c <= '6' && attr(e.attrs@, "level"@) == Some(seq![c]) implies (
        n matches MdNode::Heading(lv, _) && lv == (c as int) - ('0' as int)) by {
        let v = seq![c];
        assert(attr_or_empty(e.attrs@, "level"@) == v);
        let digits = seq!["1"@, "2"@, "3"@, "4"@, "5"@, "6"@];
        assert forall|k: int| 0 <= k < 6 implies (#[trigger] digits[k] == v <==> c as int == ('1' as int)
            + k) by {
            assert(digits[k].len() == 1);
            assert(digits[k][0] as int == ('1' as int) + k);
            if c as int == ('1' as int) + k {
                assert(digits[k] =~= v);
            } else {
                assert(digits[k][0] != v[0]);
            }
        }
        assert(digits[0] == "1"@ && digits[1] == "2"@ && digits[2] == "3"@);
        assert(digits[3] == "4"@ && digits[4] == "5"@ && digits[5] == "6"@);
    }
}

/// The index of the first attribute named `key`.
fn find_attr(attrs: &Vec<(String, String)>, key: &str) -> (r: Option<usize>)
    ensures
        match r {
            Some(i) => i < attrs@.len() && attr(attrs@, key@) == Some(attrs@[i as int].1@),
            None => attr(attrs@, key@) is None,
        },
{
    let mut i: usize = 0;
    assert(attrs@.skip(0) =~= attrs@);
    while i < attrs.len()
        invariant
            i <= attrs@.len(),
            attr(attrs@, key@) == attr(attrs@.skip(i as int), key@),
        decreases attrs@.len() - i,
    {
        assert(attrs@.skip(i as int)[0] == attrs@[i as int]);
        if str_eq(attrs[i].0.as_str(), key) {
            return Some(i);
        }
        assert(attrs@.skip(i as int).drop_first() =~= attrs@.skip(i + 1));
        i = i + 1;
    }
    None
}

fn attr_value(attrs: &Vec<(String, String)>, key: &str) -> (r: String)
    ensures
        r@ == attr_or_empty(attrs@, key@),
{
    match find_attr(attrs, key) {
        Some(i) => attrs[i].1.clone(),
        None => String::new(),
    }
}

fn attr_equals(attrs: &Vec<(String, String)>, key: &str, value: &str) -> (r: bool)
    ensures
        r == attr_is(attrs@, key@, value@),
{
    match find_attr(attrs, key) {
        Some(i) => str_eq(attrs[i].1.as_str(), value),
        None => false,
    }
}

fn level_from(v: &String) -> (r: u8)
    ensures
        r == heading_level(v@),
{
    let t = v.as_str();
    if str_eq(t, "1") {
        1
    } else if str_eq(t, "2") {
        2
    } else if str_eq(t, "3") {
        3
    } else if str_eq(t, "4") {
        4
    } else if str_eq(t, "5") {
        5
    } else if str_eq(t, "6") {
        6
    } else {
        0
    }
}

fn literal_text(e: &XmlElement) -> (r: String)
    ensures
        r@ == literal_of(*e),
{
    match &e.literal {
        Some(l) => l.clone(),
        None => String::new(),
    }
}

/// The document node that an XML element stands for.
pub fn node_from_xml(e: &XmlElement, first_row: bool) -> (n: MdNode)
    ensures
        node_of(*e, n, first_row),
    decreases e, 0nat,
{
    let name = e.name.as_str();
    let a = &e.attrs;
    let es = &e.children;
    if str_eq(name, "document") {
        MdNode::Document(nodes_from_xml(es, false))
    } else if str_eq(name, "heading") {
        let level = level_from(&attr_value(a, "level"));
        MdNode::Heading(level, nodes_from_xml(es, false))
    } else if str_eq(name, "paragraph") {
        MdNode::Paragraph(nodes_from_xml(es, false))
    } else if str_eq(name, "text") {
        MdNode::Text(literal_text(e))
    } else if str_eq(name, "softbreak") {
        MdNode::SoftBreak
    } else if str_eq(name, "linebreak") {
        MdNode::LineBreak
    } else if str_eq(name, "strong") {
        MdNode::Strong(nodes_from_xml(es, false))
    } else if str_eq(name, "emph") {
        MdNode::Emph(nodes_from_xml(es, false))
    } else if str_eq(name, "strikethrough") {
        MdNode::Strikethrough(nodes_from_xml(es, false))
    } else if str_eq(name, "code") {
        MdNode::Code(literal_text(e))
    } else if str_eq(name, "code_block") {
        MdNode::CodeBlock(attr_value(a, "info"), literal_text(e))
    } else if str_eq(name, "block_quote") {
        MdNode::BlockQuote(nodes_from_xml(es, false))
    } else if str_eq(name, "list") {
        let ordered = attr_equals(a, "type", "ordered");
        MdNode::List(ordered, nodes_from_xml(es, false))
    } else if str_eq(name, "item") {
        MdNode::Item(nodes_from_xml(es, false))
    } else if str_eq(name, "taskitem") {
        let checked = attr_equals(a, "completed", "true");
        MdNode::TaskItem(checked, nodes_from_xml(es, false))
    } else if str_eq(name, "link") {
        MdNode::Link(attr_value(a, "destination"), nodes_from_xml(es, false))
    } else if str_eq(name, "image") {
        MdNode::Image(attr_value(a, "destination"), nodes_from_xml(es, false))
    } else if str_eq(name, "thematic_break") {
        MdNode::ThematicBreak
    } else if str_eq(name, "html_block") {
        MdNode::HtmlBlock(literal_text(e))
    } else if str_eq(name, "html_inline") {
        MdNode::HtmlInline(literal_text(e))
    } else if str_eq(name, "table") {
        MdNode::Table(nodes_from_xml(es, true))
    } else if str_eq(name, "table_row") {
        MdNode::TableRow(first_row, nodes_from_xml(es, false))
    } else if str_eq(name, "table_cell") {
        MdNode::TableCell(nodes_from_xml(es, false))
    } else if str_eq(name, "footnote_definition") {
        MdNode::FootnoteDefinition(attr_value(a, "label"), nodes_from_xml(es, false))
    } else if str_eq(name, "footnote_reference") {
        MdNode::FootnoteReference(attr_value(a, "label"))
    } else if str_eq(name, "math") {
        let display = attr_equals(a, "math_style", "display");
        MdNode::Math(display, literal_text(e))
    } else {
        MdNode::Other(nodes_from_xml(es, false))
    }
}

/// The document nodes that a sequence of XML elements stands for.
pub fn nodes_from_xml(es: &Vec<XmlElement>, in_table: bool) -> (ns: Vec<MdNode>)
    ensures
        nodes_of(es@, ns@, in_table),
    decreases es@, 0nat,
{
    let mut ns: Vec<MdNode> = Vec::new();
    let n = es.len();
    for i in 0..n
        invariant
            n == es@.len(),
            nodes_of(es@.take(i as int), ns@, in_table),
    {
        let node = node_from_xml(&es[i], in_table && i == 0);
        let ghost before = ns@;
        ns.push(node);
        proof {
            assert(es@.take(i + 1).drop_last() =~= es@.take(i as int));
            assert(ns@.drop_last() =~= before);
            assert(es@.take(i + 1).last() == es@[i as int]);
        }
    }
    assert(es@.take(n as int) =~= es@);
    ns
}

/// Attributes holding the same texts have the same values.
proof fn lemma_attr_same(a: Seq<(String, String)>, b: Seq<(String, String)>, key: Seq<char>)
    requires
        attr_views(a) == attr_views(b),
    ensures
        attr(a, key) == attr(b, key),
    decreases a.len(),
{
    assert(a.len() == attr_views(a).len() && b.len() == attr_views(b).len());
    if a.len() > 0 {
        assert(attr_views(a)[0] == (a[0].0@, a[0].1@));
        assert(attr_views(b)[0] == (b[0].0@, b[0].1@));
        assert(attr_views(a.drop_first()) =~= attr_views(a).drop_first());
        assert(attr_views(b.drop_first()) =~= attr_views(b).drop_first());
        lemma_attr_same(a.drop_first(), b.drop_first(), key);
    }
}

/// Elements holding the same texts stand for the same document nodes.
proof fn lemma_node_of_same(a: XmlElement, b: XmlElement, n: MdNode, first_row: bool)
    requires
        same_element(a, b),
        node_of(a, n, first_row),
    ensures
        node_of(b, n, first_row),
    decreases a, 0nat,
{
    lemma_attr_same(a.attrs@, b.attrs@, "level"@);
    lemma_attr_same(a.attrs@, b.attrs@, "info"@);
    lemma_attr_same(a.attrs@, b.attrs@, "type"@);
    lemma_attr_same(a.attrs@, b.attrs@, "completed"@);
    lemma_attr_same(a.attrs@, b.attrs@, "destination"@);
    lemma_attr_same(a.attrs@, b.attrs@, "label"@);
    lemma_attr_same(a.attrs@, b.attrs@, "math_style"@);
    assert(literal_of(a) == literal_of(b)) by {
        assert(opt_text(a.literal) == opt_text(b.literal));
    }
    match n {
        MdNode::Table(ch) => {
            lemma_nodes_of_same(a.children@, b.children@, ch@, true);
        },
        MdNode::Document(ch) | MdNode::Heading(_, ch) | MdNode::Paragraph(ch) | MdNode::Strong(ch)
        | MdNode::Emph(ch) | MdNode::Strikethrough(ch) | MdNode::BlockQuote(ch) | MdNode::List(
            _,
            ch,
        ) | MdNode::Item(ch) | MdNode::TaskItem(_, ch) | MdNode::Link(_, ch) | MdNode::Image(_, ch)
        | MdNode::TableRow(_, ch) | MdNode::TableCell(ch) | MdNode::FootnoteDefinition(_, ch)
        | MdNode::Other(ch) => {
            lemma_nodes_of_same(a.children@, b.children@, ch@, false);
        },
        _ => {},
    }
}

proof fn lemma_nodes_of_same(es: Seq<XmlElement>, fs: Seq<XmlElement>, ns: Seq<MdNode>, in_table: bool)
    requires
        same_elements(es, fs),
        nodes_of(es, ns, in_table),
    ensures
        nodes_of(fs, ns, in_table),
    decreases es, 0nat,
{
    if es.len() > 0 {
        lemma_nodes_of_same(es.drop_last(), fs.drop_last(), ns.drop_last(), in_table);
        lemma_node_of_same(es.last(), fs.last(), ns.last(), in_table && es.len() == 1);
    }
}

/// The document tree of an XML text, if it is the CommonMark XML form of
/// an element that can be read back.
pub open spec fn tree_of_xml(xml: Seq<char>, n: MdNode) -> bool {
    exists|e: XmlElement| wf_element(e) && document_xml(e) == xml && #[trigger] node_of(e, n, false)
}

/// Reads the document tree from the parser's XML: the tree of the element
/// whose XML form it is, where one that can be read back is.
pub fn tree_from_xml(xml: &str) -> (r: Option<MdNode>)
    ensures
        r matches Some(n) ==> tree_of_xml(xml@, n),
        forall|t: XmlElement| #[trigger] wf_element(t) && document_xml(t) == xml@ ==> (r matches Some(
            n,
        ) && node_of(t, n, false)),
        readable_document(xml@) ==> r is Some,
{
    match parse_document_xml(xml) {
        Some(e) => {
            let n = node_from_xml(&e, false);
            proof {
                assert forall|t: XmlElement| #[trigger] wf_element(t) && document_xml(t) == xml@
                    implies node_of(t, n, false) by {
                    lemma_node_of_same(e, t, n, false);
                }
            }
            Some(n)
        },
        None => None,
    }
}

/// Parses Markdown into the document tree, with GitHub-flavoured
/// extensions, footnotes and dollar math.
pub fn parse_markdown(markdown: &str) -> (r: Option<MdNode>)
    ensures
        r matches Some(n) ==> tree_of_xml(commonmark_xml(markdown@, gfm_options()), n),
        forall|t: XmlElement| #[trigger] wf_element(t) && document_xml(t) == commonmark_xml(
            markdown@,
            gfm_options(),
        ) ==> (r matches Some(n) && node_of(t, n, false)),
        readable_document(commonmark_xml(markdown@, gfm_options())) ==> r is Some,
{
    let options = make_options();
    let xml = markdown_to_xml(markdown, &options);
    tree_from_xml(xml.as_str())
}

} // verus!
