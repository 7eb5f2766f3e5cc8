//! From the Markdown document tree to Typst markup.
use vstd::prelude::*;
use crate::ast::MdNode;
use crate::math::{tex_math, tex_to_typst};
use crate::escape::{push_escaped_typst, push_escaped_typst_str, spec_escape_typst, spec_escape_typst_str};
use crate::text::{
    chars_of, ends_with, ends_with_chars, eq_chars, is_whitespace, is_ws, join, push_chars,
    push_repeat, repeat, str_eq, string_of, trim, trim_chars, trim_start, views,
};

verus! {

/// Footnote bodies by label, in the order their definitions were found.
pub type Notes = Seq<(Seq<char>, Seq<char>)>;

/// The body of the footnote labelled `name`: that of its last definition.
pub open spec fn lookup(notes: Notes, name: Seq<char>) -> Option<Seq<char>>
    decreases notes.len(),
{
    if notes.len() == 0 {
        None
    } else if notes.last().0 == name {
        Some(notes.last().1)
    } else {
        lookup(notes.drop_last(), name)
    }
}

/// A footnote reference finds only a definition with its own label: what it
/// finds is the body of a definition labelled exactly so, it finds nothing
/// only where no definition has that label, a definition under another
/// label changes nothing, and the last definition under its label wins.
pub proof fn lemma_lookup_exact_label(notes: Notes, name: Seq<char>)
    ensures
        lookup(notes, name) matches Some(b) ==> exists|i: int|
            0 <= i < notes.len() && #[trigger] notes[i] == (name, b),
        lookup(notes, name) is None ==> forall|i: int|
            0 <= i < notes.len() ==> #[trigger] notes[i].0 != name,
        forall|m: Seq<char>, b: Seq<char>|
            m != name ==> #[trigger] lookup(notes.push((m, b)), name) == lookup(notes, name),
        forall|b: Seq<char>| #[trigger] lookup(notes.push((name, b)), name) == Some(b),
    decreases notes.len(),
{
    assert forall|m: Seq<char>, b: Seq<char>| m != name implies #[trigger] lookup(
        notes.push((m, b)),
        name,
    ) == lookup(notes, name) by {
        assert(notes.push((m, b)).drop_last() =~= notes);
    }
    assert forall|b: Seq<char>| #[trigger] lookup(notes.push((name, b)), name) == Some(b) by {
        assert(notes.push((name, b)).last() == (name, b));
    }
    if notes.len() > 0 {
        let rest = notes.drop_last();
        lemma_lookup_exact_label(rest, name);
        if notes.last().0 != name {
            if lookup(notes, name) is Some {
                let b = lookup(notes, name)->0;
                let i = choose|i: int| 0 <= i < rest.len() && #[trigger] rest[i] == (name, b);
                assert(notes[i] == (name, b));
            }
            if lookup(notes, name) is None {
                assert forall|i: int| 0 <= i < notes.len() implies #[trigger] notes[i].0 != name by {
                    if i < rest.len() {
                        assert(notes[i] == rest[i]);
                    }
                }
            }
        } else {
            assert(notes[notes.len() - 1] == (name, notes.last().1));
        }
    }
}

/// The views of a list of footnotes.
pub open spec fn note_views(v: Seq<(String, String)>) -> Notes {
    v.map_values(|p: (String, String)| (p.0@, p.1@))
}

/// The first whitespace-separated word of `s`.
pub open spec fn first_word(s: Seq<char>) -> Seq<char> {
    word_prefix(trim_start(s))
}

/// The characters of `s` up to its first whitespace.
pub open spec fn word_prefix(s: Seq<char>) -> Seq<char>
    decreases s.len(),
{
    if s.len() == 0 || is_ws(s[0]) {
        seq![]
    } else {
        seq![s[0]] + word_prefix(s.drop_first())
    }
}

/// A code block: passed through as Typst source when its language is
/// `typst`, else a raw block with its language, if any.
pub open spec fn code_block_typst(info: Seq<char>, literal: Seq<char>) -> Seq<char> {
    let lang = first_word(info);
    if lang == "typst"@ {
        literal + (if ends_with(literal, "\n"@) { seq![] } else { "\n"@ }) + "\n"@
    } else if lang.len() == 0 {
        "```\n"@ + literal + "```\n\n"@
    } else {
        "```"@ + lang + "\n"@ + literal + "```\n\n"@
    }
}

/// The `alt:` argument of an image: absent for an empty alternative text.
pub open spec fn alt_argument(alt: Seq<char>) -> Seq<char> {
    if alt.len() == 0 {
        seq![]
    } else {
        ", alt: \""@ + spec_escape_typst_str(alt) + "\""@
    }
}

/// The text of a node and its descendants, in document order.
pub open spec fn text_of(n: MdNode) -> Seq<char>
    decreases n, 0nat,
{
    match n {
        MdNode::Text(t) => t@,
        MdNode::Document(ch) => text_of_all(ch@),
        MdNode::Heading(_, ch) => text_of_all(ch@),
        MdNode::Paragraph(ch) => text_of_all(ch@),
        MdNode::Strong(ch) => text_of_all(ch@),
        MdNode::Emph(ch) => text_of_all(ch@),
        MdNode::Strikethrough(ch) => text_of_all(ch@),
        MdNode::BlockQuote(ch) => text_of_all(ch@),
        MdNode::List(_, ch) => text_of_all(ch@),
        MdNode::Item(ch) => text_of_all(ch@),
        MdNode::TaskItem(_, ch) => text_of_all(ch@),
        MdNode::Link(_, ch) => text_of_all(ch@),
        MdNode::Image(_, ch) => text_of_all(ch@),
        MdNode::Table(ch) => text_of_all(ch@),
        MdNode::TableRow(_, ch) => text_of_all(ch@),
        MdNode::TableCell(ch) => text_of_all(ch@),
        MdNode::FootnoteDefinition(_, ch) => text_of_all(ch@),
        MdNode::Other(ch) => text_of_all(ch@),
        _ => seq![],
    }
}

pub open spec fn text_of_all(s: Seq<MdNode>) -> Seq<char>
    decreases s, 0nat,
{
    if s.len() == 0 {
        seq![]
    } else {
        text_of_all(s.drop_last()) + text_of(s.last())
    }
}

/// A list marker: `+` for an ordered list, `-` for a bullet list.
pub open spec fn marker(ordered: bool) -> Seq<char> {
    if ordered {
        "+"@
    } else {
        "-"@
    }
}

/// The check box of a task item.
pub open spec fn check_box(checked: bool) -> Seq<char> {
    if checked {
        "[x] "@
    } else {
        "[ ] "@
    }
}

/// One line of a table: a header cell in bold on a grey fill, else a plain
/// cell.
pub open spec fn table_cell_line(header: bool, cell: Seq<char>) -> Seq<char> {
    if header {
        "  table.cell(fill: rgb(\"#f3f4f6\"))[*"@ + cell + "*],\n"@
    } else {
        "  ["@ + cell + "],\n"@
    }
}

/// The Typst markup of a node; `inline` tells whether a paragraph stands
/// inside a line (no blank line after it), and `notes` holds the footnote
/// bodies.
pub open spec fn typst_of(n: MdNode, inline: bool, notes: Notes) -> Seq<char>
    decreases n, 0nat,
{
    match n {
        MdNode::Document(ch) => typst_of_all(ch@, false, notes),
        MdNode::Heading(level, ch) => repeat("="@, level as nat) + " "@ + typst_of_all(ch@, true, notes)
            + "\n\n"@,
        MdNode::Paragraph(ch) => typst_of_all(ch@, true, notes) + (if inline {
            seq![]
        } else {
            "\n\n"@
        }),
        MdNode::Text(t) => spec_escape_typst(t@),
        MdNode::SoftBreak => " "@,
        MdNode::LineBreak => "\\\n"@,
        MdNode::Strong(ch) => "*"@ + typst_of_all(ch@, true, notes) + "*"@,
        MdNode::Emph(ch) => "_"@ + typst_of_all(ch@, true, notes) + "_"@,
        MdNode::Strikethrough(ch) => "#strike["@ + typst_of_all(ch@, true, notes) + "]"@,
        MdNode::Code(lit) => "`"@ + lit@ + "`"@,
        MdNode::CodeBlock(info, lit) => code_block_typst(info@, lit@),
        MdNode::BlockQuote(ch) => "#quote[\n"@ + typst_of_all(ch@, false, notes) + "]\n\n"@,
        MdNode::List(ordered, items) => typst_of_list(items@, ordered, 0, notes) + "\n"@,
        MdNode::Item(ch) => typst_of_all(ch@, false, notes),
        MdNode::TaskItem(checked, ch) => check_box(checked) + typst_of_all(ch@, true, notes),
        MdNode::Link(url, ch) => "#link(\""@ + spec_escape_typst_str(url@) + "\")["@ + typst_of_all(
            ch@,
            true,
            notes,
        ) + "]"@,
        MdNode::Image(url, ch) => "#image(\""@ + spec_escape_typst_str(url@) + "\""@ + alt_argument(
            text_of_all(ch@),
        ) + ")\n"@,
        MdNode::ThematicBreak => "#line(length: 100%)\n\n"@,
        MdNode::HtmlBlock(_) => seq![],
        MdNode::HtmlInline(_) => seq![],
        MdNode::Table(rows) => typst_of_table(rows@, notes),
        MdNode::TableRow(_, _) => seq![],
        MdNode::TableCell(_) => seq![],
        MdNode::FootnoteDefinition(_, _) => seq![],
        MdNode::FootnoteReference(name) => "#footnote["@ + (match lookup(notes, name@) {
            Some(body) => body,
            None => spec_escape_typst(name@),
        }) + "]"@,
        MdNode::Math(display, lit) => if display {
            "$ "@ + tex_math(trim(lit@)) + " $\n\n"@
        } else {
            "$"@ + tex_math(trim(lit@)) + "$"@
        },
        MdNode::Other(ch) => typst_of_all(ch@, inline, notes),
    }
}

/// The Typst markup of a sequence of nodes, one after the other.
pub open spec fn typst_of_all(s: Seq<MdNode>, inline: bool, notes: Notes) -> Seq<char>
    decreases s, 0nat,
{
    if s.len() == 0 {
        seq![]
    } else {
        typst_of_all(s.drop_last(), inline, notes) + typst_of(s.last(), inline, notes)
    }
}

/// The items of a list at nesting depth `depth`, one line each.
pub open spec fn typst_of_list(items: Seq<MdNode>, ordered: bool, depth: nat, notes: Notes) -> Seq<char>
    decreases items, 0nat,
{
    if items.len() == 0 {
        seq![]
    } else {
        typst_of_list(items.drop_last(), ordered, depth, notes) + typst_of_list_item(
            items.last(),
            ordered,
            depth,
            notes,
        )
    }
}

/// One list item: indentation, marker, check box for a task, the item's
/// content, and a line break; anything but an item gives nothing.
pub open spec fn typst_of_list_item(item: MdNode, ordered: bool, depth: nat, notes: Notes) -> Seq<char>
    decreases item, 0nat,
{
    match item {
        MdNode::Item(ch) => repeat("  "@, depth) + marker(ordered) + " "@ + typst_of_item_children(
            ch@,
            depth,
            notes,
        ) + "\n"@,
        MdNode::TaskItem(checked, ch) => repeat("  "@, depth) + marker(ordered) + " "@ + check_box(
            checked,
        ) + typst_of_item_children(ch@, depth, notes) + "\n"@,
        _ => seq![],
    }
}

/// The content of a list item.
pub open spec fn typst_of_item_children(s: Seq<MdNode>, depth: nat, notes: Notes) -> Seq<char>
    decreases s, 0nat,
{
    if s.len() == 0 {
        seq![]
    } else {
        typst_of_item_children(s.drop_last(), depth, notes) + typst_of_item_child(
            s.last(),
            s.len() == 1,
            depth,
            notes,
        )
    }
}

/// One child of a list item: a paragraph on its own indented line (unless it
/// comes first), a nested list on the next lines one level deeper, anything
/// else inline.
pub open spec fn typst_of_item_child(c: MdNode, first: bool, depth: nat, notes: Notes) -> Seq<char>
    decreases c, 1nat,
{
    match c {
        MdNode::Paragraph(ch) => (if first {
            seq![]
        } else {
            "\n"@ + repeat("  "@, depth + 1)
        }) + typst_of_all(ch@, true, notes),
        MdNode::List(ordered, items) => "\n"@ + typst_of_list(items@, ordered, depth + 1, notes),
        _ => typst_of(c, true, notes),
    }
}

/// `k` equal column widths.
pub open spec fn fractions(k: nat) -> Seq<Seq<char>> {
    Seq::new(k, |i: int| "1fr"@)
}

/// The number of cells of a table row.
pub open spec fn cell_count(cells: Seq<MdNode>) -> nat
    decreases cells.len(),
{
    if cells.len() == 0 {
        0
    } else {
        cell_count(cells.drop_last()) + (if cells.last() is TableCell {
            1nat
        } else {
            0nat
        })
    }
}

/// The cells of the first row of a table, if it has a row.
pub open spec fn first_row_cells(rows: Seq<MdNode>) -> Option<Seq<MdNode>>
    decreases rows.len(),
{
    if rows.len() == 0 {
        None
    } else {
        match rows[0] {
            MdNode::TableRow(_, cells) => Some(cells@),
            _ => first_row_cells(rows.drop_first()),
        }
    }
}

/// A table: as many equal columns as the first row has cells, then each cell
/// of each row on a line of its own; nothing for a table without rows.
pub open spec fn typst_of_table(rows: Seq<MdNode>, notes: Notes) -> Seq<char>
    decreases rows, 1nat,
{
    match first_row_cells(rows) {
        None => seq![],
        Some(cells) => "#table(\n  columns: ("@ + join(fractions(cell_count(cells)), ", "@)
            + "),"@ + "\n  stroke: 0.5pt,\n"@ + typst_of_rows(rows, notes) + ")\n\n"@,
    }
}

/// The cell lines of a table's rows.
pub open spec fn typst_of_rows(rows: Seq<MdNode>, notes: Notes) -> Seq<char>
    decreases rows, 0nat,
{
    if rows.len() == 0 {
        seq![]
    } else {
        typst_of_rows(rows.drop_last(), notes) + match rows.last() {
            MdNode::TableRow(header, cells) => typst_of_cells(cells@, header, notes),
            _ => seq![],
        }
    }
}

/// The cell lines of one row: each cell's content, trimmed.
pub open spec fn typst_of_cells(cells: Seq<MdNode>, header: bool, notes: Notes) -> Seq<char>
    decreases cells, 0nat,
{
    if cells.len() == 0 {
        seq![]
    } else {
        typst_of_cells(cells.drop_last(), header, notes) + match cells.last() {
            MdNode::TableCell(ch) => table_cell_line(header, trim(typst_of_all(ch@, true, notes))),
            _ => seq![],
        }
    }
}

/// The body of a footnote definition: its content rendered as blocks, with
/// no footnotes of its own, trimmed.
pub open spec fn note_body(ch: Seq<MdNode>) -> Seq<char> {
    trim(typst_of_all(ch, false, Seq::empty()))
}

/// The footnote definitions of a node and its descendants, in document order
/// (a node before its descendants), each with its label and body.
pub open spec fn notes_of(n: MdNode) -> Notes
    decreases n, 0nat,
{
    match n {
        MdNode::FootnoteDefinition(name, ch) => seq![(name@, note_body(ch@))] + notes_of_all(ch@),
        MdNode::Document(ch) => notes_of_all(ch@),
        MdNode::Heading(_, ch) => notes_of_all(ch@),
        MdNode::Paragraph(ch) => notes_of_all(ch@),
        MdNode::Strong(ch) => notes_of_all(ch@),
        MdNode::Emph(ch) => notes_of_all(ch@),
        MdNode::Strikethrough(ch) => notes_of_all(ch@),
        MdNode::BlockQuote(ch) => notes_of_all(ch@),
        MdNode::List(_, ch) => notes_of_all(ch@),
        MdNode::Item(ch) => notes_of_all(ch@),
        MdNode::TaskItem(_, ch) => notes_of_all(ch@),
        MdNode::Link(_, ch) => notes_of_all(ch@),
        MdNode::Image(_, ch) => notes_of_all(ch@),
        MdNode::Table(ch) => notes_of_all(ch@),
        MdNode::TableRow(_, ch) => notes_of_all(ch@),
        MdNode::TableCell(ch) => notes_of_all(ch@),
        MdNode::Other(ch) => notes_of_all(ch@),
        _ => seq![],
    }
}

pub open spec fn notes_of_all(s: Seq<MdNode>) -> Notes
    decreases s, 0nat,
{
    if s.len() == 0 {
        seq![]
    } else {
        notes_of_all(s.drop_last()) + notes_of(s.last())
    }
}

/// The Typst markup of a whole document: footnote references take the body
/// of the definition with their label.
pub open spec fn spec_ast_to_typst(root: MdNode) -> Seq<char> {
    typst_of(root, false, notes_of(root))
}

/// Appends the text of a node and its descendants to `out`.
fn collect_text(n: &MdNode, out: &mut String)
    ensures
        final(out)@ == old(out)@ + text_of(*n),
    decreases n, 0nat,
{
    match n {
        MdNode::Text(t) => out.append(t.as_str()),
        MdNode::Document(ch) => collect_text_all(ch, out),
        MdNode::Heading(_, ch) => collect_text_all(ch, out),
        MdNode::Paragraph(ch) => collect_text_all(ch, out),
        MdNode::Strong(ch) => collect_text_all(ch, out),
        MdNode::Emph(ch) => collect_text_all(ch, out),
        MdNode::Strikethrough(ch) => collect_text_all(ch, out),
        MdNode::BlockQuote(ch) => collect_text_all(ch, out),
        MdNode::List(_, ch) => collect_text_all(ch, out),
        MdNode::Item(ch) => collect_text_all(ch, out),
        MdNode::TaskItem(_, ch) => collect_text_all(ch, out),
        MdNode::Link(_, ch) => collect_text_all(ch, out),
        MdNode::Image(_, ch) => collect_text_all(ch, out),
        MdNode::Table(ch) => collect_text_all(ch, out),
        MdNode::TableRow(_, ch) => collect_text_all(ch, out),
        MdNode::TableCell(ch) => collect_text_all(ch, out),
        MdNode::FootnoteDefinition(_, ch) => collect_text_all(ch, out),
        MdNode::Other(ch) => collect_text_all(ch, out),
        _ => {
            assert(old(out)@ + text_of(*n) =~= old(out)@);
        },
    }
}

fn collect_text_all(s: &Vec<MdNode>, out: &mut String)
    ensures
        final(out)@ == old(out)@ + text_of_all(s@),
    decreases s@, 0nat,
{
    let n = s.len();
    assert(s@.take(0) =~= Seq::<MdNode>::empty());
    assert(old(out)@ + text_of_all(s@.take(0)) =~= old(out)@);
    for i in 0..n
        invariant
            n == s@.len(),
            out@ == old(out)@ + text_of_all(s@.take(i as int)),
    {
        collect_text(&s[i], out);
        assert(s@.take(i + 1).drop_last() =~= s@.take(i as int));
        assert(out@ =~= old(out)@ + text_of_all(s@.take(i + 1)));
    }
    assert(s@.take(n as int) =~= s@);
}

/// The index of the last footnote whose label is `name`.
fn lookup_note(notes: &Vec<(String, String)>, name: &String) -> (r: Option<usize>)
    ensures
        match r {
            Some(i) => i < notes@.len() && notes@[i as int].0@ == name@ && lookup(
                note_views(notes@),
                name@,
            ) == Some(notes@[i as int].1@),
            None => lookup(note_views(notes@), name@) is None,
        },
{
    let ghost nv = note_views(notes@);
    let mut i = notes.len();
    assert(nv.take(i as int) =~= nv);
    while i > 0
        invariant
            i <= notes@.len(),
            nv == note_views(notes@),
            lookup(nv, name@) == lookup(nv.take(i as int), name@),
        decreases i,
    {
        i = i - 1;
        assert(nv.take(i + 1).drop_last() =~= nv.take(i as int));
        assert(nv.take(i + 1).last() == (notes@[i as int].0@, notes@[i as int].1@));
        if str_eq(notes[i].0.as_str(), name.as_str()) {
            return Some(i);
        }
    }
    None
}

/// The first whitespace-separated word of `v`.
pub fn first_word_chars(v: &Vec<char>) -> (r: Vec<char>)
    ensures
        r@ == first_word(v@),
{
    let len = v.len();
    let mut start: usize = 0;
    assert(v@.skip(0) =~= v@);
    while start < len && is_whitespace(v[start])
        invariant
            start <= len,
            len == v@.len(),
            trim_start(v@.skip(start as int)) == trim_start(v@),
        decreases len - start,
    {
        assert(v@.skip(start as int).drop_first() =~= v@.skip(start + 1));
        start = start + 1;
    }
    assert(trim_start(v@.skip(start as int)) == v@.skip(start as int));
    let mut r: Vec<char> = Vec::new();
    let mut j = start;
    assert(v@.subrange(start as int, start as int) =~= Seq::<char>::empty());
    assert(Seq::<char>::empty() + word_prefix(v@.skip(start as int)) =~= word_prefix(
        v@.skip(start as int),
    ));
    while j < len && !is_whitespace(v[j])
        invariant
            start <= j <= len,
            len == v@.len(),
            r@ == v@.subrange(start as int, j as int),
            word_prefix(v@.skip(start as int)) == r@ + word_prefix(v@.skip(j as int)),
        decreases len - j,
    {
        assert(v@.skip(j as int).drop_first() =~= v@.skip(j + 1));
        assert(v@.skip(j as int)[0] == v@[j as int]);
        r.push(v[j]);
        j = j + 1;
        assert(r@ =~= v@.subrange(start as int, j as int));
        assert(word_prefix(v@.skip(start as int)) =~= r@ + word_prefix(v@.skip(j as int)));
    }
    if j < len {
        assert(v@.skip(j as int)[0] == v@[j as int]);
    }
    assert(r@ + word_prefix(v@.skip(j as int)) =~= r@);
    r
}

/// Appends the Typst markup of a node to `out`.
#[verifier::rlimit(60)]
fn render_node(n: &MdNode, inline: bool, notes: &Vec<(String, String)>, out: &mut String)
    ensures
        final(out)@ == old(out)@ + typst_of(*n, inline, note_views(notes@)),
    decreases n, 0nat,
{
    let ghost nv = note_views(notes@);
    match n {
        MdNode::Document(ch) => render_all(ch, false, notes, out),
        MdNode::Heading(level, ch) => {
            push_repeat(out, "=", *level as usize);
            out.append(" ");
            render_all(ch, true, notes, out);
            out.append("\n\n");
        },
        MdNode::Paragraph(ch) => {
            render_all(ch, true, notes, out);
            if !inline {
                out.append("\n\n");
            } else {
                assert(out@ + Seq::<char>::empty() =~= out@);
            }
        },
        MdNode::Text(t) => push_escaped_typst(out, &chars_of(t.as_str())),
        MdNode::SoftBreak => out.append(" "),
        MdNode::LineBreak => out.append("\\\n"),
        MdNode::Strong(ch) => {
            out.append("*");
            render_all(ch, true, notes, out);
            out.append("*");
        },
        MdNode::Emph(ch) => {
            out.append("_");
            render_all(ch, true, notes, out);
            out.append("_");
        },
        MdNode::Strikethrough(ch) => {
            out.append("#strike[");
            render_all(ch, true, notes, out);
            out.append("]");
        },
        MdNode::Code(lit) => {
            out.append("`");
            out.append(lit.as_str());
            out.append("`");
        },
        MdNode::CodeBlock(info, lit) => render_code_block(info, lit, out),
        MdNode::BlockQuote(ch) => {
            out.append("#quote[\n");
            render_all(ch, false, notes, out);
            out.append("]\n\n");
        },
        MdNode::List(ordered, items) => {
            let indent = String::new();
            render_list(items, *ordered, &indent, Ghost(0), notes, out);
            out.append("\n");
        },
        MdNode::Item(ch) => render_all(ch, false, notes, out),
        MdNode::TaskItem(checked, ch) => {
            push_check_box(*checked, out);
            render_all(ch, true, notes, out);
        },
        MdNode::Link(url, ch) => {
            out.append("#link(\"");
            push_escaped_typst_str(out, &chars_of(url.as_str()));
            out.append("\")[");
            render_all(ch, true, notes, out);
            out.append("]");
        },
        MdNode::Image(url, ch) => {
            out.append("#image(\"");
            push_escaped_typst_str(out, &chars_of(url.as_str()));
            out.append("\"");
            let mut alt = String::new();
            collect_text_all(ch, &mut alt);
            let alt_chars = chars_of(alt.as_str());
            if alt_chars.len() == 0 {
                assert(out@ + alt_argument(alt@) =~= out@);
            } else {
                out.append(", alt: \"");
                push_escaped_typst_str(out, &alt_chars);
                out.append("\"");
            }
            out.append(")\n");
        },
        MdNode::ThematicBreak => out.append("#line(length: 100%)\n\n"),
        MdNode::Table(rows) => render_table(rows, notes, out),
        MdNode::FootnoteReference(name) => {
            out.append("#footnote[");
            match lookup_note(notes, name) {
                Some(i) => out.append(notes[i].1.as_str()),
                None => push_escaped_typst(out, &chars_of(name.as_str())),
            }
            out.append("]");
        },
        MdNode::Math(display, lit) => {
            let body = tex_to_typst(&trim_chars(&chars_of(lit.as_str())));
            if *display {
                out.append("$ ");
                push_chars(out, &body);
                out.append(" $\n\n");
            } else {
                out.append("$");
                push_chars(out, &body);
                out.append("$");
            }
        },
        MdNode::Other(ch) => render_all(ch, inline, notes, out),
        _ => {
            assert(old(out)@ + typst_of(*n, inline, nv) =~= old(out)@);
        },
    }
}

/// Appends the Typst markup of a sequence of nodes to `out`.
fn render_all(s: &Vec<MdNode>, inline: bool, notes: &Vec<(String, String)>, out: &mut String)
    ensures
        final(out)@ == old(out)@ + typst_of_all(s@, inline, note_views(notes@)),
    decreases s@, 0nat,
{
    let ghost nv = note_views(notes@);
    let n = s.len();
    assert(s@.take(0) =~= Seq::<MdNode>::empty());
    assert(old(out)@ + typst_of_all(s@.take(0), inline, nv) =~= old(out)@);
    for i in 0..n
        invariant
            n == s@.len(),
            nv == note_views(notes@),
            out@ == old(out)@ + typst_of_all(s@.take(i as int), inline, nv),
    {
        render_node(&s[i], inline, notes, out);
        assert(s@.take(i + 1).drop_last() =~= s@.take(i as int));
        assert(out@ =~= old(out)@ + typst_of_all(s@.take(i + 1), inline, nv));
    }
    assert(s@.take(n as int) =~= s@);
}

fn push_check_box(checked: bool, out: &mut String)
    ensures
        final(out)@ == old(out)@ + check_box(checked),
{
    if checked {
        out.append("[x] ");
    } else {
        out.append("[ ] ");
    }
}

fn push_marker(ordered: bool, out: &mut String)
    ensures
        final(out)@ == old(out)@ + marker(ordered),
{
    if ordered {
        out.append("+");
    } else {
        out.append("-");
    }
}

/// Appends the markup of a code block to `out`.
fn render_code_block(info: &String, lit: &String, out: &mut String)
    ensures
        final(out)@ == old(out)@ + code_block_typst(info@, lit@),
{
    let lang = first_word_chars(&chars_of(info.as_str()));
    let lit_chars = chars_of(lit.as_str());
    if eq_chars(&lang, &chars_of("typst")) {
        out.append(lit.as_str());
        if !ends_with_chars(&lit_chars, &chars_of("\n")) {
            out.append("\n");
        } else {
            assert(out@ + Seq::<char>::empty() =~= out@);
        }
        out.append("\n");
    } else if lang.len() == 0 {
        out.append("```\n");
        out.append(lit.as_str());
        out.append("```\n\n");
    } else {
        out.append("```");
        push_chars(out, &lang);
        out.append("\n");
        out.append(lit.as_str());
        out.append("```\n\n");
    }
}

/// Appends the items of a list at nesting depth `depth` to `out`; `indent`
/// holds two spaces per level.
fn render_list(
    items: &Vec<MdNode>,
    ordered: bool,
    indent: &String,
    Ghost(depth): Ghost<nat>,
    notes: &Vec<(String, String)>,
    out: &mut String,
)
    requires
        indent@ == repeat("  "@, depth),
    ensures
        final(out)@ == old(out)@ + typst_of_list(items@, ordered, depth, note_views(notes@)),
    decreases items@, 0nat,
{
    let ghost nv = note_views(notes@);
    let n = items.len();
    assert(items@.take(0) =~= Seq::<MdNode>::empty());
    assert(old(out)@ + typst_of_list(items@.take(0), ordered, depth, nv) =~= old(out)@);
    for i in 0..n
        invariant
            n == items@.len(),
            nv == note_views(notes@),
            indent@ == repeat("  "@, depth),
            out@ == old(out)@ + typst_of_list(items@.take(i as int), ordered, depth, nv),
    {
        render_list_item(&items[i], ordered, indent, Ghost(depth), notes, out);
        assert(items@.take(i + 1).drop_last() =~= items@.take(i as int));
        assert(out@ =~= old(out)@ + typst_of_list(items@.take(i + 1), ordered, depth, nv));
    }
    assert(items@.take(n as int) =~= items@);
}

fn render_list_item(
    item: &MdNode,
    ordered: bool,
    indent: &String,
    Ghost(depth): Ghost<nat>,
    notes: &Vec<(String, String)>,
    out: &mut String,
)
    requires
        indent@ == repeat("  "@, depth),
    ensures
        final(out)@ == old(out)@ + typst_of_list_item(*item, ordered, depth, note_views(notes@)),
    decreases item, 0nat,
{
    match item {
        MdNode::Item(ch) => {
            out.append(indent.as_str());
            push_marker(ordered, out);
            out.append(" ");
            render_item_children(ch, indent, Ghost(depth), notes, out);
            out.append("\n");
        },
        MdNode::TaskItem(checked, ch) => {
            out.append(indent.as_str());
            push_marker(ordered, out);
            out.append(" ");
            push_check_box(*checked, out);
            render_item_children(ch, indent, Ghost(depth), notes, out);
            out.append("\n");
        },
        _ => {
            assert(old(out)@ + typst_of_list_item(*item, ordered, depth, note_views(notes@))
                =~= old(out)@);
        },
    }
}

fn render_item_children(
    s: &Vec<MdNode>,
    indent: &String,
    Ghost(depth): Ghost<nat>,
    notes: &Vec<(String, String)>,
    out: &mut String,
)
    requires
        indent@ == repeat("  "@, depth),
    ensures
        final(out)@ == old(out)@ + typst_of_item_children(s@, depth, note_views(notes@)),
    decreases s@, 0nat,
{
    let ghost nv = note_views(notes@);
    let n = s.len();
    assert(s@.take(0) =~= Seq::<MdNode>::empty());
    assert(old(out)@ + typst_of_item_children(s@.take(0), depth, nv) =~= old(out)@);
    for i in 0..n
        invariant
            n == s@.len(),
            nv == note_views(notes@),
            indent@ == repeat("  "@, depth),
            out@ == old(out)@ + typst_of_item_children(s@.take(i as int), depth, nv),
    {
        render_item_child(&s[i], i == 0, indent, Ghost(depth), notes, out);
        assert(s@.take(i + 1).drop_last() =~= s@.take(i as int));
        assert(out@ =~= old(out)@ + typst_of_item_children(s@.take(i + 1), depth, nv));
    }
    assert(s@.take(n as int) =~= s@);
}

fn render_item_child(
    c: &MdNode,
    first: bool,
    indent: &String,
    Ghost(depth): Ghost<nat>,
    notes: &Vec<(String, String)>,
    out: &mut String,
)
    requires
        indent@ == repeat("  "@, depth),
    ensures
        final(out)@ == old(out)@ + typst_of_item_child(*c, first, depth, note_views(notes@)),
    decreases c, 1nat,
{
    match c {
        MdNode::Paragraph(ch) => {
            if !first {
                out.append("\n");
                out.append(indent.as_str());
                out.append("  ");
            } else {
                assert(out@ + Seq::<char>::empty() =~= out@);
            }
            render_all(ch, true, notes, out);
        },
        MdNode::List(ordered, items) => {
            out.append("\n");
            let mut deeper = indent.clone();
            deeper.append("  ");
            render_list(items, *ordered, &deeper, Ghost(depth + 1), notes, out);
        },
        _ => render_node(c, true, notes, out),
    }
}

/// The index of the first row of a table.
fn first_row(rows: &Vec<MdNode>) -> (r: Option<usize>)
    ensures
        match r {
            Some(i) => i < rows@.len() && (rows@[i as int] matches MdNode::TableRow(_, cells)
                && first_row_cells(rows@) == Some(cells@)),
            None => first_row_cells(rows@) is None,
        },
{
    let n = rows.len();
    let mut i: usize = 0;
    assert(rows@.skip(0) =~= rows@);
    while i < n
        invariant
            i <= n,
            n == rows@.len(),
            first_row_cells(rows@) == first_row_cells(rows@.skip(i as int)),
        decreases n - i,
    {
        assert(rows@.skip(i as int)[0] == rows@[i as int]);
        if let MdNode::TableRow(_, _) = &rows[i] {
            return Some(i);
        }
        assert(rows@.skip(i as int).drop_first() =~= rows@.skip(i + 1));
        i = i + 1;
    }
    None
}

/// The number of cells of a table row.
fn count_cells(cells: &Vec<MdNode>) -> (k: usize)
    ensures
        k == cell_count(cells@),
{
    let n = cells.len();
    let mut k: usize = 0;
    assert(cells@.take(0) =~= Seq::<MdNode>::empty());
    for i in 0..n
        invariant
            n == cells@.len(),
            k <= i,
            k == cell_count(cells@.take(i as int)),
    {
        assert(cells@.take(i + 1).drop_last() =~= cells@.take(i as int));
        if let MdNode::TableCell(_) = &cells[i] {
            k = k + 1;
        }
    }
    assert(cells@.take(n as int) =~= cells@);
    k
}

/// Appends `k` equal column widths, separated by commas, to `out`.
fn push_fractions(k: usize, out: &mut String)
    ensures
        final(out)@ == old(out)@ + join(fractions(k as nat), ", "@),
{
    assert(old(out)@ + join(fractions(0), ", "@) =~= old(out)@);
    for i in 0..k
        invariant
            out@ == old(out)@ + join(fractions(i as nat), ", "@),
    {
        if i == 0 {
            out.append("1fr");
            assert(join(fractions(1), ", "@) == fractions(1)[0]);
        } else {
            out.append(", ");
            out.append("1fr");
            assert(fractions((i + 1) as nat).drop_last() =~= fractions(i as nat));
            assert(out@ =~= old(out)@ + join(fractions((i + 1) as nat), ", "@));
        }
    }
}

/// Appends the markup of a table to `out`.
fn render_table(rows: &Vec<MdNode>, notes: &Vec<(String, String)>, out: &mut String)
    ensures
        final(out)@ == old(out)@ + typst_of_table(rows@, note_views(notes@)),
    decreases rows@, 1nat,
{
    match first_row(rows) {
        None => {
            assert(old(out)@ + typst_of_table(rows@, note_views(notes@)) =~= old(out)@);
        },
        Some(i) => {
            if let MdNode::TableRow(_, cells) = &rows[i] {
                let k = count_cells(cells);
                out.append("#table(\n  columns: (");
                push_fractions(k, out);
                out.append("),");
                out.append("\n  stroke: 0.5pt,\n");
                render_rows(rows, notes, out);
                out.append(")\n\n");
            }
        },
    }
}

/// Appends the cell lines of a table's rows to `out`.
fn render_rows(rows: &Vec<MdNode>, notes: &Vec<(String, String)>, out: &mut String)
    ensures
        final(out)@ == old(out)@ + typst_of_rows(rows@, note_views(notes@)),
    decreases rows@, 0nat,
{
    let ghost nv = note_views(notes@);
    let n = rows.len();
    assert(rows@.take(0) =~= Seq::<MdNode>::empty());
    assert(old(out)@ + typst_of_rows(rows@.take(0), nv) =~= old(out)@);
    for i in 0..n
        invariant
            n == rows@.len(),
            nv == note_views(notes@),
            out@ == old(out)@ + typst_of_rows(rows@.take(i as int), nv),
    {
        let ghost before = out@;
        match &rows[i] {
            MdNode::TableRow(header, cells) => render_cells(cells, *header, notes, out),
            _ => {},
        }
        assert(rows@.take(i + 1).drop_last() =~= rows@.take(i as int));
        assert(rows@.take(i + 1).last() == rows@[i as int]);
        assert(out@ =~= old(out)@ + typst_of_rows(rows@.take(i + 1), nv));
    }
    assert(rows@.take(n as int) =~= rows@);
}

/// Appends the cell lines of one row to `out`.
fn render_cells(cells: &Vec<MdNode>, header: bool, notes: &Vec<(String, String)>, out: &mut String)
    ensures
        final(out)@ == old(out)@ + typst_of_cells(cells@, header, note_views(notes@)),
    decreases cells@, 0nat,
{
    let ghost nv = note_views(notes@);
    let n = cells.len();
    assert(cells@.take(0) =~= Seq::<MdNode>::empty());
    assert(old(out)@ + typst_of_cells(cells@.take(0), header, nv) =~= old(out)@);
    for i in 0..n
        invariant
            n == cells@.len(),
            nv == note_views(notes@),
            out@ == old(out)@ + typst_of_cells(cells@.take(i as int), header, nv),
    {
        match &cells[i] {
            MdNode::TableCell(ch) => {
                let mut content = String::new();
                render_all(ch, true, notes, &mut content);
                let cell = trim_chars(&chars_of(content.as_str()));
                if header {
                    out.append("  table.cell(fill: rgb(\"#f3f4f6\"))[*");
                    push_chars(out, &cell);
                    out.append("*],\n");
                } else {
                    out.append("  [");
                    push_chars(out, &cell);
                    out.append("],\n");
                }
            },
            _ => {},
        }
        assert(cells@.take(i + 1).drop_last() =~= cells@.take(i as int));
        assert(cells@.take(i + 1).last() == cells@[i as int]);
        assert(out@ =~= old(out)@ + typst_of_cells(cells@.take(i + 1), header, nv));
    }
    assert(cells@.take(n as int) =~= cells@);
}

/// Appends the footnote definitions of a node and its descendants to `notes`.
fn collect_notes(n: &MdNode, notes: &mut Vec<(String, String)>)
    ensures
        note_views(final(notes)@) == note_views(old(notes)@) + notes_of(*n),
    decreases n, 0nat,
{
    match n {
        MdNode::FootnoteDefinition(name, ch) => {
            let no_notes: Vec<(String, String)> = Vec::new();
            assert(note_views(no_notes@) =~= Seq::empty());
            let mut body = String::new();
            render_all(ch, false, &no_notes, &mut body);
            let trimmed = string_of(&trim_chars(&chars_of(body.as_str())));
            let ghost before = notes@;
            notes.push((name.clone(), trimmed));
            assert(note_views(notes@) =~= note_views(before).push((name@, note_body(ch@))));
            collect_notes_all(ch, notes);
            assert(note_views(notes@) =~= note_views(old(notes)@) + notes_of(*n));
        },
        MdNode::Document(ch) => collect_notes_all(ch, notes),
        MdNode::Heading(_, ch) => collect_notes_all(ch, notes),
        MdNode::Paragraph(ch) => collect_notes_all(ch, notes),
        MdNode::Strong(ch) => collect_notes_all(ch, notes),
        MdNode::Emph(ch) => collect_notes_all(ch, notes),
        MdNode::Strikethrough(ch) => collect_notes_all(ch, notes),
        MdNode::BlockQuote(ch) => collect_notes_all(ch, notes),
        MdNode::List(_, ch) => collect_notes_all(ch, notes),
        MdNode::Item(ch) => collect_notes_all(ch, notes),
        MdNode::TaskItem(_, ch) => collect_notes_all(ch, notes),
        MdNode::Link(_, ch) => collect_notes_all(ch, notes),
        MdNode::Image(_, ch) => collect_notes_all(ch, notes),
        MdNode::Table(ch) => collect_notes_all(ch, notes),
        MdNode::TableRow(_, ch) => collect_notes_all(ch, notes),
        MdNode::TableCell(ch) => collect_notes_all(ch, notes),
        MdNode::Other(ch) => collect_notes_all(ch, notes),
        _ => {
            assert(note_views(old(notes)@) + notes_of(*n) =~= note_views(old(notes)@));
        },
    }
}

fn collect_notes_all(s: &Vec<MdNode>, notes: &mut Vec<(String, String)>)
    ensures
        note_views(final(notes)@) == note_views(old(notes)@) + notes_of_all(s@),
    decreases s@, 0nat,
{
    let n = s.len();
    assert(s@.take(0) =~= Seq::<MdNode>::empty());
    assert(note_views(old(notes)@) + notes_of_all(s@.take(0)) =~= note_views(old(notes)@));
    for i in 0..n
        invariant
            n == s@.len(),
            note_views(notes@) == note_views(old(notes)@) + notes_of_all(s@.take(i as int)),
    {
        collect_notes(&s[i], notes);
        assert(s@.take(i + 1).drop_last() =~= s@.take(i as int));
        assert(note_views(notes@) =~= note_views(old(notes)@) + notes_of_all(s@.take(i + 1)));
    }
    assert(s@.take(n as int) =~= s@);
}

/// Walks the document tree and produces its Typst markup.
///
/// A first pass collects the footnote definitions; a reference to a label
/// then takes the body of the last definition with that label, or the label
/// itself, escaped, where there is none.
pub fn ast_to_typst(root: &MdNode) -> (r: String)
    ensures
        r@ == spec_ast_to_typst(*root),
{
    let mut notes: Vec<(String, String)> = Vec::new();
    assert(note_views(notes@) =~= Seq::empty());
    collect_notes(root, &mut notes);
    assert(note_views(notes@) =~= notes_of(*root));
    let mut out = String::new();
    render_node(root, false, &notes, &mut out);
    assert(out@ =~= spec_ast_to_typst(*root));
    out
}

/// The sources of the images of a node and its descendants, in document
/// order.
pub open spec fn images_of(n: MdNode) -> Seq<Seq<char>>
    decreases n, 0nat,
{
    match n {
        MdNode::Image(url, ch) => seq![url@] + images_of_all(ch@),
        MdNode::Document(ch) => images_of_all(ch@),
        MdNode::Heading(_, ch) => images_of_all(ch@),
        MdNode::Paragraph(ch) => images_of_all(ch@),
        MdNode::Strong(ch) => images_of_all(ch@),
        MdNode::Emph(ch) => images_of_all(ch@),
        MdNode::Strikethrough(ch) => images_of_all(ch@),
        MdNode::BlockQuote(ch) => images_of_all(ch@),
        MdNode::List(_, ch) => images_of_all(ch@),
        MdNode::Item(ch) => images_of_all(ch@),
        MdNode::TaskItem(_, ch) => images_of_all(ch@),
        MdNode::Link(_, ch) => images_of_all(ch@),
        MdNode::Table(ch) => images_of_all(ch@),
        MdNode::TableRow(_, ch) => images_of_all(ch@),
        MdNode::TableCell(ch) => images_of_all(ch@),
        MdNode::FootnoteDefinition(_, ch) => images_of_all(ch@),
        MdNode::Other(ch) => images_of_all(ch@),
        _ => seq![],
    }
}

pub open spec fn images_of_all(s: Seq<MdNode>) -> Seq<Seq<char>>
    decreases s, 0nat,
{
    if s.len() == 0 {
        seq![]
    } else {
        images_of_all(s.drop_last()) + images_of(s.last())
    }
}

fn collect_images(n: &MdNode, out: &mut Vec<String>)
    ensures
        views(final(out)@) == views(old(out)@) + images_of(*n),
    decreases n, 0nat,
{
    match n {
        MdNode::Image(url, ch) => {
            let ghost before = out@;
            out.push(url.clone());
            assert(views(out@) =~= views(before).push(url@));
            collect_images_all(ch, out);
            assert(views(out@) =~= views(old(out)@) + images_of(*n));
        },
        MdNode::Document(ch) => collect_images_all(ch, out),
        MdNode::Heading(_, ch) => collect_images_all(ch, out),
        MdNode::Paragraph(ch) => collect_images_all(ch, out),
        MdNode::Strong(ch) => collect_images_all(ch, out),
        MdNode::Emph(ch) => collect_images_all(ch, out),
        MdNode::Strikethrough(ch) => collect_images_all(ch, out),
        MdNode::BlockQuote(ch) => collect_images_all(ch, out),
        MdNode::List(_, ch) => collect_images_all(ch, out),
        MdNode::Item(ch) => collect_images_all(ch, out),
        MdNode::TaskItem(_, ch) => collect_images_all(ch, out),
        MdNode::Link(_, ch) => collect_images_all(ch, out),
        MdNode::Table(ch) => collect_images_all(ch, out),
        MdNode::TableRow(_, ch) => collect_images_all(ch, out),
        MdNode::TableCell(ch) => collect_images_all(ch, out),
        MdNode::FootnoteDefinition(_, ch) => collect_images_all(ch, out),
        MdNode::Other(ch) => collect_images_all(ch, out),
        _ => {
            assert(views(old(out)@) + images_of(*n) =~= views(old(out)@));
        },
    }
}

fn collect_images_all(s: &Vec<MdNode>, out: &mut Vec<String>)
    ensures
        views(final(out)@) == views(old(out)@) + images_of_all(s@),
    decreases s@, 0nat,
{
    let n = s.len();
    assert(s@.take(0) =~= Seq::<MdNode>::empty());
    assert(views(old(out)@) + images_of_all(s@.take(0)) =~= views(old(out)@));
    for i in 0..n
        invariant
            n == s@.len(),
            views(out@) == views(old(out)@) + images_of_all(s@.take(i as int)),
    {
        collect_images(&s[i], out);
        assert(s@.take(i + 1).drop_last() =~= s@.take(i as int));
        assert(views(out@) =~= views(old(out)@) + images_of_all(s@.take(i + 1)));
    }
    assert(s@.take(n as int) =~= s@);
}

/// The sources of a document's images, in document order: the files (or
/// web resources) that rendering it reads.
pub fn image_sources(root: &MdNode) -> (r: Vec<String>)
    ensures
        views(r@) == images_of(*root),
{
    let mut out: Vec<String> = Vec::new();
    assert(views(out@) =~= Seq::<Seq<char>>::empty());
    collect_images(root, &mut out);
    assert(views(out@) =~= images_of(*root));
    out
}

} // verus!
