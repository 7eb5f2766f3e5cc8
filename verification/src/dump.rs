//! The document tree as JSON, for inspecting how a document was parsed.
use vstd::prelude::*;
use crate::ast::MdNode;
use crate::frontmatter::spec_split_front_matter;
use crate::markdown::{commonmark_xml, gfm_options, node_of, parse_markdown, tree_of_xml};
use crate::xml::XmlElement;
use crate::xml::readable_document;
use crate::pipeline::extract_front_matter;
use crate::text::{chars_of, decimal, flat_map_chars, lemma_flat_map_take, push_char, push_decimal};

verus! {

/// A hexadecimal digit, lower case.
pub open spec fn hex_digit(d: nat) -> char {
    if d < 10 {
        ((d + 48) as u8) as char
    } else {
        ((d + 87) as u8) as char
    }
}

/// How a character is written inside a JSON string.
pub open spec fn json_escape_char(c: char) -> Seq<char> {
    if c == '"' {
        seq!['\\', '"']
    } else if c == '\\' {
        seq!['\\', '\\']
    } else if (c as u32) < 32 {
        seq!['\\', 'u', '0', '0', hex_digit((c as u32 / 16) as nat), hex_digit((c as u32 % 16) as nat)]
    } else {
        seq![c]
    }
}

/// A JSON string holding `s`.
pub open spec fn json_string(s: Seq<char>) -> Seq<char> {
    seq!['"'] + flat_map_chars(s, |c: char| json_escape_char(c)) + seq!['"']
}

/// The name under which a node's kind is shown.
pub open spec fn kind_name(n: MdNode) -> Seq<char> {
    match n {
        MdNode::Document(_) => "Document"@,
        MdNode::Heading(_, _) => "Heading"@,
        MdNode::Paragraph(_) => "Paragraph"@,
        MdNode::Text(_) => "Text"@,
        MdNode::SoftBreak => "SoftBreak"@,
        MdNode::LineBreak => "LineBreak"@,
        MdNode::Strong(_) => "Strong"@,
        MdNode::Emph(_) => "Emph"@,
        MdNode::Strikethrough(_) => "Strikethrough"@,
        MdNode::Code(_) => "Code"@,
        MdNode::CodeBlock(_, _) => "CodeBlock"@,
        MdNode::BlockQuote(_) => "BlockQuote"@,
        MdNode::List(_, _) => "List"@,
        MdNode::Item(_) => "Item"@,
        MdNode::TaskItem(_, _) => "TaskItem"@,
        MdNode::Link(_, _) => "Link"@,
        MdNode::Image(_, _) => "Image"@,
        MdNode::ThematicBreak => "ThematicBreak"@,
        MdNode::HtmlBlock(_) => "HtmlBlock"@,
        MdNode::HtmlInline(_) => "HtmlInline"@,
        MdNode::Table(_) => "Table"@,
        MdNode::TableRow(_, _) => "TableRow"@,
        MdNode::TableCell(_) => "TableCell"@,
        MdNode::FootnoteDefinition(_, _) => "FootnoteDefinition"@,
        MdNode::FootnoteReference(_) => "FootnoteReference"@,
        MdNode::Math(_, _) => "Math"@,
        MdNode::Other(_) => "Unknown"@,
    }
}

/// Whether two nodes are of the same kind.
pub open spec fn same_kind(a: MdNode, b: MdNode) -> bool {
    ||| (a is Document && b is Document)
    ||| (a is Heading && b is Heading)
    ||| (a is Paragraph && b is Paragraph)
    ||| (a is Text && b is Text)
    ||| (a is SoftBreak && b is SoftBreak)
    ||| (a is LineBreak && b is LineBreak)
    ||| (a is Strong && b is Strong)
    ||| (a is Emph && b is Emph)
    ||| (a is Strikethrough && b is Strikethrough)
    ||| (a is Code && b is Code)
    ||| (a is CodeBlock && b is CodeBlock)
    ||| (a is BlockQuote && b is BlockQuote)
    ||| (a is List && b is List)
    ||| (a is Item && b is Item)
    ||| (a is TaskItem && b is TaskItem)
    ||| (a is Link && b is Link)
    ||| (a is Image && b is Image)
    ||| (a is ThematicBreak && b is ThematicBreak)
    ||| (a is HtmlBlock && b is HtmlBlock)
    ||| (a is HtmlInline && b is HtmlInline)
    ||| (a is Table && b is Table)
    ||| (a is TableRow && b is TableRow)
    ||| (a is TableCell && b is TableCell)
    ||| (a is FootnoteDefinition && b is FootnoteDefinition)
    ||| (a is FootnoteReference && b is FootnoteReference)
    ||| (a is Math && b is Math)
    ||| (a is Other && b is Other)
}

/// Each kind of node is dumped under a name of its own: two nodes get the
/// same name only when they are of the same kind, and bold text is named
/// `Strong`, italic text `Emph`, and a node of no listed kind `Unknown`.
pub proof fn lemma_kind_names_distinct(a: MdNode, b: MdNode)
    ensures
        kind_name(a) == kind_name(b) <==> same_kind(a, b),
        a is Strong ==> kind_name(a) == "Strong"@,
        a is Emph ==> kind_name(a) == "Emph"@,
        a is Other ==> kind_name(a) == "Unknown"@,
{
    reveal_strlit("Document");
    reveal_strlit("Heading");
    reveal_strlit("Paragraph");
    reveal_strlit("Text");
    reveal_strlit("SoftBreak");
    reveal_strlit("LineBreak");
    reveal_strlit("Strong");
    reveal_strlit("Emph");
    reveal_strlit("Strikethrough");
    reveal_strlit("Code");
    reveal_strlit("CodeBlock");
    reveal_strlit("BlockQuote");
    reveal_strlit("List");
    reveal_strlit("Item");
    reveal_strlit("TaskItem");
    reveal_strlit("Link");
    reveal_strlit("Image");
    reveal_strlit("ThematicBreak");
    reveal_strlit("HtmlBlock");
    reveal_strlit("HtmlInline");
    reveal_strlit("Table");
    reveal_strlit("TableRow");
    reveal_strlit("TableCell");
    reveal_strlit("FootnoteDefinition");
    reveal_strlit("FootnoteReference");
    reveal_strlit("Math");
    reveal_strlit("Unknown");
    if kind_name(a) == kind_name(b) && !same_kind(a, b) {
        let x = kind_name(a);
        let y = kind_name(b);
        assert(x.len() == y.len());
        assert(x[0] == y[0] && x[1] == y[1] && x[2] == y[2] && x[3] == y[3]);
        assert(x.len() > 4 ==> x[4] == y[4]);
        assert(x.len() > 5 ==> x[5] == y[5]);
        assert(x.len() > 6 ==> x[6] == y[6]);
        assert(x.len() > 7 ==> x[7] == y[7]);
        assert(x.len() > 8 ==> x[8] == y[8]);
    }
}

/// A character with its case dropped; an underscore drops out.
pub open spec fn folded_char(c: char) -> Seq<char> {
    if c == '_' {
        seq![]
    } else if 'A' <= c && c <= 'Z' {
        seq![((c as int) + 32) as char]
    } else {
        seq![c]
    }
}

/// A name with its case and its underscores dropped.
pub open spec fn folded(s: Seq<char>) -> Seq<char>
    decreases s.len(),
{
    if s.len() == 0 {
        seq![]
    } else {
        folded(s.drop_last()) + folded_char(s.last())
    }
}

proof fn lemma_folded_names_0()
    ensures
        folded("Document"@) == folded("document"@),
        folded("Heading"@) == folded("heading"@),
        folded("Paragraph"@) == folded("paragraph"@),
        folded("Text"@) == folded("text"@),
{
    reveal_strlit("document");
    reveal_strlit("Document");
    assert(folded("Document"@) =~= folded("document"@)) by {
        reveal_with_fuel(folded, 9);
    }
    reveal_strlit("heading");
    reveal_strlit("Heading");
    assert(folded("Heading"@) =~= folded("heading"@)) by {
        reveal_with_fuel(folded, 8);
    }
    reveal_strlit("paragraph");
    reveal_strlit("Paragraph");
    assert(folded("Paragraph"@) =~= folded("paragraph"@)) by {
        reveal_with_fuel(folded, 10);
    }
    reveal_strlit("text");
    reveal_strlit("Text");
    assert(folded("Text"@) =~= folded("text"@)) by {
        reveal_with_fuel(folded, 5);
    }
}

proof fn lemma_folded_names_1()
    ensures
        folded("SoftBreak"@) == folded("softbreak"@),
        folded("LineBreak"@) == folded("linebreak"@),
        folded("Strong"@) == folded("strong"@),
        folded("Emph"@) == folded("emph"@),
{
    reveal_strlit("softbreak");
    reveal_strlit("SoftBreak");
    assert(folded("SoftBreak"@) =~= folded("softbreak"@)) by {
        reveal_with_fuel(folded, 10);
    }
    reveal_strlit("linebreak");
    reveal_strlit("LineBreak");
    assert(folded("LineBreak"@) =~= folded("linebreak"@)) by {
        reveal_with_fuel(folded, 10);
    }
    reveal_strlit("strong");
    reveal_strlit("Strong");
    assert(folded("Strong"@) =~= folded("strong"@)) by {
        reveal_with_fuel(folded, 7);
    }
    reveal_strlit("emph");
    reveal_strlit("Emph");
    assert(folded("Emph"@) =~= folded("emph"@)) by {
        reveal_with_fuel(folded, 5);
    }
}

proof fn lemma_folded_names_2()
    ensures
        folded("Strikethrough"@) == folded("strikethrough"@),
        folded("Code"@) == folded("code"@),
        folded("CodeBlock"@) == folded("code_block"@),
        folded("BlockQuote"@) == folded("block_quote"@),
{
    reveal_strlit("strikethrough");
    reveal_strlit("Strikethrough");
    assert(folded("Strikethrough"@) =~= folded("strikethrough"@)) by {
        reveal_with_fuel(folded, 14);
    }
    reveal_strlit("code");
    reveal_strlit("Code");
    assert(folded("Code"@) =~= folded("code"@)) by {
        reveal_with_fuel(folded, 5);
    }
    reveal_strlit("code_block");
    reveal_strlit("CodeBlock");
    assert(folded("CodeBlock"@) =~= folded("code_block"@)) by {
        reveal_with_fuel(folded, 11);
    }
    reveal_strlit("block_quote");
    reveal_strlit("BlockQuote");
    assert(folded("BlockQuote"@) =~= folded("block_quote"@)) by {
        reveal_with_fuel(folded, 12);
    }
}

proof fn lemma_folded_names_3()
    ensures
        folded("List"@) == folded("list"@),
        folded("Item"@) == folded("item"@),
        folded("TaskItem"@) == folded("taskitem"@),
        folded("Link"@) == folded("link"@),
{
    reveal_strlit("list");
    reveal_strlit("List");
    assert(folded("List"@) =~= folded("list"@)) by {
        reveal_with_fuel(folded, 5);
    }
    reveal_strlit("item");
    reveal_strlit("Item");
    assert(folded("Item"@) =~= folded("item"@)) by {
        reveal_with_fuel(folded, 5);
    }
    reveal_strlit("taskitem");
    reveal_strlit("TaskItem");
    assert(folded("TaskItem"@) =~= folded("taskitem"@)) by {
        reveal_with_fuel(folded, 9);
    }
    reveal_strlit("link");
    reveal_strlit("Link");
    assert(folded("Link"@) =~= folded("link"@)) by {
        reveal_with_fuel(folded, 5);
    }
}

proof fn lemma_folded_names_4()
    ensures
        folded("Image"@) == folded("image"@),
        folded("ThematicBreak"@) == folded("thematic_break"@),
        folded("HtmlBlock"@) == folded("html_block"@),
        folded("HtmlInline"@) == folded("html_inline"@),
{
    reveal_strlit("image");
    reveal_strlit("Image");
    assert(folded("Image"@) =~= folded("image"@)) by {
        reveal_with_fuel(folded, 6);
    }
    reveal_strlit("thematic_break");
    reveal_strlit("ThematicBreak");
    assert(folded("ThematicBreak"@) =~= folded("thematic_break"@)) by {
        reveal_with_fuel(folded, 15);
    }
    reveal_strlit("html_block");
    reveal_strlit("HtmlBlock");
    assert(folded("HtmlBlock"@) =~= folded("html_block"@)) by {
        reveal_with_fuel(folded, 11);
    }
    reveal_strlit("html_inline");
    reveal_strlit("HtmlInline");
    assert(folded("HtmlInline"@) =~= folded("html_inline"@)) by {
        reveal_with_fuel(folded, 12);
    }
}

proof fn lemma_folded_names_5()
    ensures
        folded("Table"@) == folded("table"@),
        folded("TableRow"@) == folded("table_row"@),
        folded("TableCell"@) == folded("table_cell"@),
        folded("FootnoteDefinition"@) == folded("footnote_definition"@),
{
    reveal_strlit("table");
    reveal_strlit("Table");
    assert(folded("Table"@) =~= folded("table"@)) by {
        reveal_with_fuel(folded, 6);
    }
    reveal_strlit("table_row");
    reveal_strlit("TableRow");
    assert(folded("TableRow"@) =~= folded("table_row"@)) by {
        reveal_with_fuel(folded, 10);
    }
    reveal_strlit("table_cell");
    reveal_strlit("TableCell");
    assert(folded("TableCell"@) =~= folded("table_cell"@)) by {
        reveal_with_fuel(folded, 11);
    }
    reveal_strlit("footnote_definition");
    reveal_strlit("FootnoteDefinition");
    assert(folded("FootnoteDefinition"@) =~= folded("footnote_definition"@)) by {
        reveal_with_fuel(folded, 20);
    }
}

proof fn lemma_folded_names_6()
    ensures
        folded("FootnoteReference"@) == folded("footnote_reference"@),
        folded("Math"@) == folded("math"@),
{
    reveal_strlit("footnote_reference");
    reveal_strlit("FootnoteReference");
    assert(folded("FootnoteReference"@) =~= folded("footnote_reference"@)) by {
        reveal_with_fuel(folded, 19);
    }
    reveal_strlit("math");
    reveal_strlit("Math");
    assert(folded("Math"@) =~= folded("math"@)) by {
        reveal_with_fuel(folded, 5);
    }
}

/// A node is dumped under the name of the element it was read from, as
/// comrak's XML writes it, up to case and underscores (`code_block` is
/// dumped as `CodeBlock`, `strong` as `Strong`); only a node of no listed
/// kind is dumped as `Unknown`.
pub proof fn lemma_kind_name_of_element(e: XmlElement, n: MdNode, first_row: bool)
    requires
        node_of(e, n, first_row),
    ensures
        !(n is Other) ==> folded(kind_name(n)) == folded(e.name@),
        n is Other ==> kind_name(n) == "Unknown"@,
{
    lemma_folded_names_0();
    lemma_folded_names_1();
    lemma_folded_names_2();
    lemma_folded_names_3();
    lemma_folded_names_4();
    lemma_folded_names_5();
    lemma_folded_names_6();
}

/// The data shown with a node, as a JSON object, where it has any.
pub open spec fn data_json(n: MdNode) -> Option<Seq<char>> {
    match n {
        MdNode::Heading(level, _) => Some("{\"level\":"@ + decimal(level as nat) + "}"@),
        MdNode::Text(t) => Some("{\"value\":"@ + json_string(t@) + "}"@),
        MdNode::Code(l) => Some("{\"literal\":"@ + json_string(l@) + "}"@),
        MdNode::CodeBlock(info, l) => Some("{\"info\":"@ + json_string(info@) + ",\"literal\":"@
            + json_string(l@) + "}"@),
        MdNode::Link(url, _) => Some("{\"url\":"@ + json_string(url@) + "}"@),
        MdNode::Image(url, _) => Some("{\"url\":"@ + json_string(url@) + "}"@),
        MdNode::Math(display, l) => Some("{\"display\":"@ + (if display {
            "true"@
        } else {
            "false"@
        }) + ",\"literal\":"@ + json_string(l@) + "}"@),
        _ => None,
    }
}

/// A node as a JSON object with its children (where it has any), its data
/// (where it has any) and its kind, keys in order.
pub open spec fn node_json(n: MdNode) -> Seq<char>
    decreases n, 1nat,
{
    let ch = match n {
        MdNode::Document(c) => c@,
        MdNode::Heading(_, c) => c@,
        MdNode::Paragraph(c) => c@,
        MdNode::Strong(c) => c@,
        MdNode::Emph(c) => c@,
        MdNode::Strikethrough(c) => c@,
        MdNode::BlockQuote(c) => c@,
        MdNode::List(_, c) => c@,
        MdNode::Item(c) => c@,
        MdNode::TaskItem(_, c) => c@,
        MdNode::Link(_, c) => c@,
        MdNode::Image(_, c) => c@,
        MdNode::Table(c) => c@,
        MdNode::TableRow(_, c) => c@,
        MdNode::TableCell(c) => c@,
        MdNode::FootnoteDefinition(_, c) => c@,
        MdNode::Other(c) => c@,
        _ => seq![],
    };
    "{"@ + (if ch.len() == 0 {
        seq![]
    } else {
        "\"children\":["@ + json_list(ch) + "],"@
    }) + (match data_json(n) {
        Some(d) => "\"data\":"@ + d + ","@,
        None => seq![],
    }) + "\"type\":\""@ + kind_name(n) + "\"}"@
}

/// Nodes as JSON objects separated by commas.
pub open spec fn json_list(s: Seq<MdNode>) -> Seq<char>
    decreases s, 0nat,
{
    if s.len() == 0 {
        seq![]
    } else if s.len() == 1 {
        node_json(s[0])
    } else {
        json_list(s.drop_last()) + ","@ + node_json(s.last())
    }
}

fn hex_char(d: u32) -> (c: char)
    requires
        d < 16,
    ensures
        c == hex_digit(d as nat),
{
    if d < 10 {
        ((d + 48) as u8) as char
    } else {
        ((d + 87) as u8) as char
    }
}

/// Appends a JSON string holding `s` to `out`.
fn push_json_string(out: &mut String, s: &String)
    ensures
        final(out)@ == old(out)@ + json_string(s@),
{
    let v = chars_of(s.as_str());
    push_char(out, '"');
    let ghost start = out@;
    let n = v.len();
    for i in 0..n
        invariant
            n == v@.len(),
            out@ == start + flat_map_chars(v@.take(i as int), |c: char| json_escape_char(c)),
    {
        let c = v[i];
        let ghost before = out@;
        if c == '"' {
            push_char(out, '\\');
            push_char(out, '"');
        } else if c == '\\' {
            push_char(out, '\\');
            push_char(out, '\\');
        } else if (c as u32) < 32 {
            push_char(out, '\\');
            push_char(out, 'u');
            push_char(out, '0');
            push_char(out, '0');
            push_char(out, hex_char(c as u32 / 16));
            push_char(out, hex_char(c as u32 % 16));
        } else {
            push_char(out, c);
        }
        proof {
            assert(out@ =~= before + json_escape_char(c));
            lemma_flat_map_take(v@, i as int, |c: char| json_escape_char(c));
        }
    }
    assert(v@.take(n as int) =~= v@);
    push_char(out, '"');
    assert(out@ =~= old(out)@ + json_string(s@));
}

fn push_data(n: &MdNode, out: &mut String)
    ensures
        final(out)@ == old(out)@ + match data_json(*n) {
            Some(d) => "\"data\":"@ + d + ","@,
            None => seq![],
        },
{
    match n {
        MdNode::Heading(level, _) => {
            out.append("\"data\":");
            out.append("{\"level\":");
            push_decimal(out, *level);
            out.append("}");
            out.append(",");
        },
        MdNode::Text(t) => {
            out.append("\"data\":");
            out.append("{\"value\":");
            push_json_string(out, t);
            out.append("}");
            out.append(",");
        },
        MdNode::Code(l) => {
            out.append("\"data\":");
            out.append("{\"literal\":");
            push_json_string(out, l);
            out.append("}");
            out.append(",");
        },
        MdNode::CodeBlock(info, l) => {
            out.append("\"data\":");
            out.append("{\"info\":");
            push_json_string(out, info);
            out.append(",\"literal\":");
            push_json_string(out, l);
            out.append("}");
            out.append(",");
        },
        MdNode::Link(url, _) => {
            out.append("\"data\":");
            out.append("{\"url\":");
            push_json_string(out, url);
            out.append("}");
            out.append(",");
        },
        MdNode::Image(url, _) => {
            out.append("\"data\":");
            out.append("{\"url\":");
            push_json_string(out, url);
            out.append("}");
            out.append(",");
        },
        MdNode::Math(display, l) => {
            out.append("\"data\":");
            out.append("{\"display\":");
            if *display {
                out.append("true");
            } else {
                out.append("false");
            }
            out.append(",\"literal\":");
            push_json_string(out, l);
            out.append("}");
            out.append(",");
        },
        _ => {
            assert(old(out)@ + Seq::<char>::empty() =~= old(out)@);
        },
    }
}

fn children_of(n: &MdNode) -> (r: Option<&Vec<MdNode>>)
    ensures
        match r {
            Some(c) => (n matches MdNode::Document(x) && c == x) || (n matches MdNode::Heading(_, x) && c == x)
                || (n matches MdNode::Paragraph(x) && c == x) || (n matches MdNode::Strong(x) && c == x)
                || (n matches MdNode::Emph(x) && c == x) || (n matches MdNode::Strikethrough(x) && c == x)
                || (n matches MdNode::BlockQuote(x) && c == x) || (n matches MdNode::List(_, x) && c == x)
                || (n matches MdNode::Item(x) && c == x) || (n matches MdNode::TaskItem(_, x) && c == x)
                || (n matches MdNode::Link(_, x) && c == x) || (n matches MdNode::Image(_, x) && c == x)
                || (n matches MdNode::Table(x) && c == x) || (n matches MdNode::TableRow(_, x) && c == x)
                || (n matches MdNode::TableCell(x) && c == x) || (n matches MdNode::FootnoteDefinition(_, x) && c == x)
                || (n matches MdNode::Other(x) && c == x),
            None => n is Text || n is SoftBreak || n is LineBreak || n is Code || n is CodeBlock
                || n is ThematicBreak || n is HtmlBlock || n is HtmlInline || n is FootnoteReference
                || n is Math,
        },
{
    match n {
        MdNode::Document(c) => Some(c),
        MdNode::Heading(_, c) => Some(c),
        MdNode::Paragraph(c) => Some(c),
        MdNode::Strong(c) => Some(c),
        MdNode::Emph(c) => Some(c),
        MdNode::Strikethrough(c) => Some(c),
        MdNode::BlockQuote(c) => Some(c),
        MdNode::List(_, c) => Some(c),
        MdNode::Item(c) => Some(c),
        MdNode::TaskItem(_, c) => Some(c),
        MdNode::Link(_, c) => Some(c),
        MdNode::Image(_, c) => Some(c),
        MdNode::Table(c) => Some(c),
        MdNode::TableRow(_, c) => Some(c),
        MdNode::TableCell(c) => Some(c),
        MdNode::FootnoteDefinition(_, c) => Some(c),
        MdNode::Other(c) => Some(c),
        _ => None,
    }
}

fn push_type(n: &MdNode, out: &mut String)
    ensures
        final(out)@ == old(out)@ + kind_name(*n),
{
    let name = match n {
        MdNode::Document(_) => "Document",
        MdNode::Heading(_, _) => "Heading",
        MdNode::Paragraph(_) => "Paragraph",
        MdNode::Text(_) => "Text",
        MdNode::SoftBreak => "SoftBreak",
        MdNode::LineBreak => "LineBreak",
        MdNode::Strong(_) => "Strong",
        MdNode::Emph(_) => "Emph",
        MdNode::Strikethrough(_) => "Strikethrough",
        MdNode::Code(_) => "Code",
        MdNode::CodeBlock(_, _) => "CodeBlock",
        MdNode::BlockQuote(_) => "BlockQuote",
        MdNode::List(_, _) => "List",
        MdNode::Item(_) => "Item",
        MdNode::TaskItem(_, _) => "TaskItem",
        MdNode::Link(_, _) => "Link",
        MdNode::Image(_, _) => "Image",
        MdNode::ThematicBreak => "ThematicBreak",
        MdNode::HtmlBlock(_) => "HtmlBlock",
        MdNode::HtmlInline(_) => "HtmlInline",
        MdNode::Table(_) => "Table",
        MdNode::TableRow(_, _) => "TableRow",
        MdNode::TableCell(_) => "TableCell",
        MdNode::FootnoteDefinition(_, _) => "FootnoteDefinition",
        MdNode::FootnoteReference(_) => "FootnoteReference",
        MdNode::Math(_, _) => "Math",
        MdNode::Other(_) => "Unknown",
    };
    out.append(name);
}

/// Appends a node as a JSON object to `out`.
#[verifier::rlimit(40)]
fn push_node_json(n: &MdNode, out: &mut String)
    ensures
        final(out)@ == old(out)@ + node_json(*n),
    decreases n, 1nat,
{
    out.append("{");
    match children_of(n) {
        Some(c) => {
            if c.len() == 0 {
                assert(out@ + Seq::<char>::empty() =~= out@);
            } else {
                out.append("\"children\":[");
                push_json_list(c, out);
                out.append("],");
            }
        },
        None => {
            assert(out@ + Seq::<char>::empty() =~= out@);
        },
    }
    push_data(n, out);
    out.append("\"type\":\"");
    push_type(n, out);
    out.append("\"}");
}

/// Appends nodes as JSON objects, separated by commas, to `out`.
fn push_json_list(s: &Vec<MdNode>, out: &mut String)
    ensures
        final(out)@ == old(out)@ + json_list(s@),
    decreases s@, 0nat,
{
    let n = s.len();
    assert(s@.take(0) =~= Seq::<MdNode>::empty());
    assert(old(out)@ + json_list(s@.take(0)) =~= old(out)@);
    for i in 0..n
        invariant
            n == s@.len(),
            out@ == old(out)@ + json_list(s@.take(i as int)),
    {
        if i > 0 {
            out.append(",");
        }
        push_node_json(&s[i], out);
        proof {
            if i == 0 {
                assert(s@.take(1).len() == 1);
                assert(s@.take(1)[0] == s@[0]);
            } else {
                assert(s@.take(i + 1).drop_last() =~= s@.take(i as int));
                assert(s@.take(i + 1).last() == s@[i as int]);
            }
            assert(out@ =~= old(out)@ + json_list(s@.take(i + 1)));
        }
    }
    assert(s@.take(n as int) =~= s@);
}

/// The document tree as compact JSON.
pub fn tree_json(root: &MdNode) -> (r: String)
    ensures
        r@ == node_json(*root),
{
    let mut out = String::new();
    push_node_json(root, &mut out);
    out
}

/// The pretty-printed form of a JSON text, where it is JSON.
pub uninterp spec fn pretty_json_of(compact: Seq<char>) -> Option<Seq<char>>;

/// Pretty-prints a JSON text.
///
/// Trusted: calls `serde_json::from_str` into a `serde_json::Value` and
/// `serde_json::to_string_pretty`; claimed only to be a function of the
/// text.
#[verifier::external_body]
fn pretty_json(compact: &str) -> (r: Option<String>)
    ensures
        match r {
            Some(p) => pretty_json_of(compact@) == Some(p@),
            None => pretty_json_of(compact@) is None,
        },
{
    let value: serde_json::Value = serde_json::from_str(compact).ok()?;
    serde_json::to_string_pretty(&value).ok()
}

/// The pretty-printed form of a JSON text, `{}` where it has none.
pub open spec fn pretty_or_empty(compact: Seq<char>) -> Seq<char> {
    match pretty_json_of(compact) {
        Some(p) => p,
        None => "{}"@,
    }
}

/// The Markdown document tree as a pretty-printed JSON string (`{}` where it
/// cannot be had).  Useful for the `--dump-ast` flag.
pub fn ast_as_debug_string(markdown: &str) -> (r: String)
    ensures
        readable_document(commonmark_xml(spec_split_front_matter(markdown@).0, gfm_options()))
            ==> exists|t: MdNode| #[trigger] tree_of_xml(
            commonmark_xml(spec_split_front_matter(markdown@).0, gfm_options()),
            t,
        ) && r@ == pretty_or_empty(node_json(t)),
        r@ == "{}"@ || exists|t: MdNode| #[trigger] tree_of_xml(
            commonmark_xml(spec_split_front_matter(markdown@).0, gfm_options()),
            t,
        ) && r@ == pretty_or_empty(node_json(t)),
{
    let (body, _fm) = extract_front_matter(markdown);
    let fallback = {
        let mut f = String::new();
        f.append("{}");
        f
    };
    match parse_markdown(body.as_str()) {
        Some(tree) => {
            let compact = tree_json(&tree);
            let r = match pretty_json(compact.as_str()) {
                Some(p) => p,
                None => fallback,
            };
            assert(tree_of_xml(commonmark_xml(spec_split_front_matter(markdown@).0, gfm_options()), tree));
            r
        },
        None => fallback,
    }
}

} // verus!
