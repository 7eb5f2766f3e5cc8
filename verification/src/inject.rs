//! The Typst preamble: the `#set` and `#show` rules that a theme stands for,
//! with the page header and footer and the title block.
use vstd::prelude::*;
use crate::text::{
    chars_of, contains, contains_chars, decimal, ends_with, join, occurs_at, push_decimal,
    push_joined, replace, replace_chars, starts_with, string_of, views,
};
use crate::theme::{CodeSection, ColorSection, FontSection, HeaderFooterSection, Theme};

verus! {

/// The show rule for code blocks that numbers their lines.
pub open spec fn line_numbered_code_rule(code: CodeSection, f: FontSection, c: ColorSection) -> Seq<char> {
    "#show raw.where(block: true): it => {\n  block(\n    fill: rgb(\""@
        + c.code_background@
        + "\"),\n    radius: "@
        + code.border_radius@
        + ",\n    width: 100%,\n    clip: true,\n    grid(\n      inset: (x: 10pt, y: 8pt),\n      columns: (auto, 1fr),\n      column-gutter: 0.6em,\n      row-gutter: 0pt,\n      ..it.lines.enumerate().map(((i, line)) => (\n        text(font: \""@
        + f.code_family@
        + "\", size: "@
        + f.code_size@
        + ", fill: rgb(\"#888888\"), str(i + 1)),\n        text(font: \""@
        + f.code_family@
        + "\", size: "@
        + f.code_size@
        + ", line.body),\n      )).flatten(),\n    ),\n  )\n}"@
}

/// The show rule for code blocks that numbers their lines.
fn line_numbered_code_rule_text(code: &CodeSection, f: &FontSection, c: &ColorSection) -> (r: String)
    ensures
        r@ == line_numbered_code_rule(*code, *f, *c),
{
    let mut out = "#show raw.where(block: true): it => {\n  block(\n    fill: rgb(\"".to_owned();
    out.append(c.code_background.as_str());
    out.append("\"),\n    radius: ");
    out.append(code.border_radius.as_str());
    out.append(",\n    width: 100%,\n    clip: true,\n    grid(\n      inset: (x: 10pt, y: 8pt),\n      columns: (auto, 1fr),\n      column-gutter: 0.6em,\n      row-gutter: 0pt,\n      ..it.lines.enumerate().map(((i, line)) => (\n        text(font: \"");
    out.append(f.code_family.as_str());
    out.append("\", size: ");
    out.append(f.code_size.as_str());
    out.append(", fill: rgb(\"#888888\"), str(i + 1)),\n        text(font: \"");
    out.append(f.code_family.as_str());
    out.append("\", size: ");
    out.append(f.code_size.as_str());
    out.append(", line.body),\n      )).flatten(),\n    ),\n  )\n}");
    out
}

/// The show rule for code blocks without line numbers.
pub open spec fn plain_code_rule(code: CodeSection, f: FontSection, c: ColorSection) -> Seq<char> {
    "#show raw.where(block: true): it => {\n  block(\n    fill: rgb(\""@
        + c.code_background@
        + "\"),\n    inset: 10pt,\n    radius: "@
        + code.border_radius@
        + ",\n    width: 100%,\n    text(font: \""@
        + f.code_family@
        + "\", size: "@
        + f.code_size@
        + ", it),\n  )\n}"@
}

/// The show rule for code blocks without line numbers.
fn plain_code_rule_text(code: &CodeSection, f: &FontSection, c: &ColorSection) -> (r: String)
    ensures
        r@ == plain_code_rule(*code, *f, *c),
{
    let mut out = "#show raw.where(block: true): it => {\n  block(\n    fill: rgb(\"".to_owned();
    out.append(c.code_background.as_str());
    out.append("\"),\n    inset: 10pt,\n    radius: ");
    out.append(code.border_radius.as_str());
    out.append(",\n    width: 100%,\n    text(font: \"");
    out.append(f.code_family.as_str());
    out.append("\", size: ");
    out.append(f.code_size.as_str());
    out.append(", it),\n  )\n}");
    out
}


/// The show rule for code blocks: with numbered lines where the theme asks
/// for them, else a plain shaded block; neither overrides the fill colour of
/// the highlighted code.
pub open spec fn spec_code_block_rule(code: CodeSection, f: FontSection, c: ColorSection) -> Seq<char> {
    if code.line_numbers {
        line_numbered_code_rule(code, f, c)
    } else {
        plain_code_rule(code, f, c)
    }
}

/// A text made of `x`, `y` and `z` holds `y`.
pub proof fn lemma_contains_middle(x: Seq<char>, y: Seq<char>, z: Seq<char>)
    ensures
        contains(x + y + z, y),
{
    assert((x + y + z).subrange(x.len() as int, (x.len() + y.len()) as int) =~= y);
    assert(occurs_at(x + y + z, y, x.len() as int));
}

/// The code block rule is a show rule for code blocks.  Where lines are
/// numbered, it walks the lines of the block, writes each one's number,
/// fills the block with the theme's code background and sets the code in
/// the theme's code font; else it sets the whole block in the theme's code
/// font and size, leaving the colours of the highlighted code alone.
pub proof fn lemma_code_block_rule_shape(code: CodeSection, f: FontSection, c: ColorSection)
    ensures
        starts_with(spec_code_block_rule(code, f, c), "#show raw.where(block: true): it => {"@),
        code.line_numbers ==> contains(spec_code_block_rule(code, f, c), "it.lines"@),
        code.line_numbers ==> contains(spec_code_block_rule(code, f, c), "str(i + 1)"@),
        code.line_numbers ==> contains(
            spec_code_block_rule(code, f, c),
            "fill: rgb(\""@ + c.code_background@ + "\")"@,
        ),
        code.line_numbers ==> contains(
            spec_code_block_rule(code, f, c),
            "font: \""@ + f.code_family@ + "\""@,
        ),
        !code.line_numbers ==> contains(
            spec_code_block_rule(code, f, c),
            "text(font: \""@ + f.code_family@ + "\", size: "@ + f.code_size@ + ", it)"@,
        ),
{
    let bg = c.code_background@;
    let br = code.border_radius@;
    let fam = f.code_family@;
    let size = f.code_size@;
    let head = "#show raw.where(block: true): it => {"@;
    let l0 = "#show raw.where(block: true): it => {\n  block(\n    fill: rgb(\""@;
    reveal_strlit("#show raw.where(block: true): it => {");
    reveal_strlit("#show raw.where(block: true): it => {\n  block(\n    fill: rgb(\"");
    reveal_strlit("#show raw.where(block: true): it => {\n  block(\n    ");
    reveal_strlit("fill: rgb(\"");
    reveal_strlit("\")");
    reveal_strlit("\"");
    assert(l0 =~= "#show raw.where(block: true): it => {\n  block(\n    "@ + "fill: rgb(\""@);
    if code.line_numbers {
        let l1 = "\"),\n    radius: "@;
        let l2 = ",\n    width: 100%,\n    clip: true,\n    grid(\n      inset: (x: 10pt, y: 8pt),\n      columns: (auto, 1fr),\n      column-gutter: 0.6em,\n      row-gutter: 0pt,\n      ..it.lines.enumerate().map(((i, line)) => (\n        text(font: \""@;
        let l3 = "\", size: "@;
        let l4 = ", fill: rgb(\"#888888\"), str(i + 1)),\n        text(font: \""@;
        let l5 = "\", size: "@;
        let l6 = ", line.body),\n      )).flatten(),\n    ),\n  )\n}"@;
        let r = spec_code_block_rule(code, f, c);
        assert(r == l0 + bg + l1 + br + l2 + fam + l3 + size + l4 + fam + l5 + size + l6);
        assert(r.take(head.len() as int) =~= head);
        let a2 = ",\n    width: 100%,\n    clip: true,\n    grid(\n      inset: (x: 10pt, y: 8pt),\n      columns: (auto, 1fr),\n      column-gutter: 0.6em,\n      row-gutter: 0pt,\n      .."@;
        let b2 = ".enumerate().map(((i, line)) => (\n        text(font: \""@;
        reveal_strlit(",\n    width: 100%,\n    clip: true,\n    grid(\n      inset: (x: 10pt, y: 8pt),\n      columns: (auto, 1fr),\n      column-gutter: 0.6em,\n      row-gutter: 0pt,\n      ..it.lines.enumerate().map(((i, line)) => (\n        text(font: \"");
        reveal_strlit(",\n    width: 100%,\n    clip: true,\n    grid(\n      inset: (x: 10pt, y: 8pt),\n      columns: (auto, 1fr),\n      column-gutter: 0.6em,\n      row-gutter: 0pt,\n      ..");
        reveal_strlit(".enumerate().map(((i, line)) => (\n        text(font: \"");
        reveal_strlit("it.lines");
        assert(l2 =~= a2 + "it.lines"@ + b2);
        lemma_contains_middle(
            l0 + bg + l1 + br + a2,
            "it.lines"@,
            b2 + fam + l3 + size + l4 + fam + l5 + size + l6,
        );
        assert(r =~= (l0 + bg + l1 + br + a2) + "it.lines"@ + (b2 + fam + l3 + size + l4 + fam + l5
            + size + l6));
        let a4 = ", fill: rgb(\"#888888\"), "@;
        let b4 = "),\n        text(font: \""@;
        reveal_strlit(", fill: rgb(\"#888888\"), str(i + 1)),\n        text(font: \"");
        reveal_strlit(", fill: rgb(\"#888888\"), ");
        reveal_strlit("),\n        text(font: \"");
        reveal_strlit("str(i + 1)");
        assert(l4 =~= a4 + "str(i + 1)"@ + b4);
        lemma_contains_middle(
            l0 + bg + l1 + br + l2 + fam + l3 + size + a4,
            "str(i + 1)"@,
            b4 + fam + l5 + size + l6,
        );
        assert(r =~= (l0 + bg + l1 + br + l2 + fam + l3 + size + a4) + "str(i + 1)"@ + (b4 + fam
            + l5 + size + l6));
        reveal_strlit("\"),\n    radius: ");
        reveal_strlit(",\n    radius: ");
        assert(l1 =~= "\")"@ + ",\n    radius: "@);
        let fill = "fill: rgb(\""@ + bg + "\")"@;
        lemma_contains_middle(
            "#show raw.where(block: true): it => {\n  block(\n    "@,
            fill,
            ",\n    radius: "@ + br + l2 + fam + l3 + size + l4 + fam + l5 + size + l6,
        );
        assert(r =~= "#show raw.where(block: true): it => {\n  block(\n    "@ + fill + (
        ",\n    radius: "@ + br + l2 + fam + l3 + size + l4 + fam + l5 + size + l6));
        let a2f = ",\n    width: 100%,\n    clip: true,\n    grid(\n      inset: (x: 10pt, y: 8pt),\n      columns: (auto, 1fr),\n      column-gutter: 0.6em,\n      row-gutter: 0pt,\n      ..it.lines.enumerate().map(((i, line)) => (\n        text("@;
        reveal_strlit(",\n    width: 100%,\n    clip: true,\n    grid(\n      inset: (x: 10pt, y: 8pt),\n      columns: (auto, 1fr),\n      column-gutter: 0.6em,\n      row-gutter: 0pt,\n      ..it.lines.enumerate().map(((i, line)) => (\n        text(");
        reveal_strlit("font: \"");
        reveal_strlit("\", size: ");
        reveal_strlit(", size: ");
        assert(l2 =~= a2f + "font: \""@);
        assert(l3 =~= "\""@ + ", size: "@);
        let font = "font: \""@ + fam + "\""@;
        lemma_contains_middle(
            l0 + bg + l1 + br + a2f,
            font,
            ", size: "@ + size + l4 + fam + l5 + size + l6,
        );
        assert(r =~= (l0 + bg + l1 + br + a2f) + font + (", size: "@ + size + l4 + fam + l5 + size
            + l6));
    } else {
        let p1 = "\"),\n    inset: 10pt,\n    radius: "@;
        let p2 = ",\n    width: 100%,\n    text(font: \""@;
        let p3 = "\", size: "@;
        let p4 = ", it),\n  )\n}"@;
        let r = spec_code_block_rule(code, f, c);
        assert(r == l0 + bg + p1 + br + p2 + fam + p3 + size + p4);
        assert(r.take(head.len() as int) =~= head);
        reveal_strlit(",\n    width: 100%,\n    text(font: \"");
        reveal_strlit(",\n    width: 100%,\n    ");
        reveal_strlit("text(font: \"");
        reveal_strlit(", it),\n  )\n}");
        reveal_strlit(", it)");
        reveal_strlit(",\n  )\n}");
        assert(p2 =~= ",\n    width: 100%,\n    "@ + "text(font: \""@);
        assert(p4 =~= ", it)"@ + ",\n  )\n}"@);
        let text = "text(font: \""@ + fam + "\", size: "@ + size + ", it)"@;
        lemma_contains_middle(l0 + bg + p1 + br + ",\n    width: 100%,\n    "@, text, ",\n  )\n}"@);
        assert(r =~= (l0 + bg + p1 + br + ",\n    width: 100%,\n    "@) + text + ",\n  )\n}"@);
    }
}

/// Builds the `#show raw.where(block: true)` rule.
pub fn build_code_block_rule(code: &CodeSection, f: &FontSection, c: &ColorSection) -> (r: String)
    ensures
        r@ == spec_code_block_rule(*code, *f, *c),
{
    if code.line_numbers {
        line_numbered_code_rule_text(code, f, c)
    } else {
        plain_code_rule_text(code, f, c)
    }
}

/// The header grid of three cells.
pub open spec fn header_grid(left: Seq<char>, center: Seq<char>, right: Seq<char>) -> Seq<char> {
    "header: grid(\n    columns: (1fr, 1fr, 1fr),\n    align(left, text(size: 9pt, \""@
        + left
        + "\")),\n    align(center, text(size: 9pt, \""@
        + center
        + "\")),\n    align(right, text(size: 9pt, \""@
        + right
        + "\")),\n  ),"@
}

/// The header grid of three cells.
fn header_grid_text(left: &String, center: &String, right: &String) -> (r: String)
    ensures
        r@ == header_grid(left@, center@, right@),
{
    let mut out = "header: grid(\n    columns: (1fr, 1fr, 1fr),\n    align(left, text(size: 9pt, \"".to_owned();
    out.append(left.as_str());
    out.append("\")),\n    align(center, text(size: 9pt, \"");
    out.append(center.as_str());
    out.append("\")),\n    align(right, text(size: 9pt, \"");
    out.append(right.as_str());
    out.append("\")),\n  ),");
    out
}

/// The footer grid of three cells.
pub open spec fn footer_grid(left: Seq<char>, center_expr: Seq<char>, right: Seq<char>) -> Seq<char> {
    "footer: context grid(\n    columns: (1fr, 1fr, 1fr),\n    align(left, text(size: 9pt, \""@
        + left
        + "\")),\n    "@
        + center_expr
        + ",\n    align(right, text(size: 9pt, \""@
        + right
        + "\")),\n  ),"@
}

/// The footer grid of three cells.
fn footer_grid_text(left: &String, center_expr: &String, right: &String) -> (r: String)
    ensures
        r@ == footer_grid(left@, center_expr@, right@),
{
    let mut out = "footer: context grid(\n    columns: (1fr, 1fr, 1fr),\n    align(left, text(size: 9pt, \"".to_owned();
    out.append(left.as_str());
    out.append("\")),\n    ");
    out.append(center_expr.as_str());
    out.append(",\n    align(right, text(size: 9pt, \"");
    out.append(right.as_str());
    out.append("\")),\n  ),");
    out
}


/// A header cell: its text with every `{title}` replaced by the title.
pub open spec fn header_cell(cell: Seq<char>, title: Seq<char>) -> Seq<char> {
    replace(cell, "{title}"@, title)
}

/// The page header: empty when all three cells are empty, else a grid of the
/// three cells.
pub open spec fn spec_page_header(hf: HeaderFooterSection, title: Seq<char>) -> Seq<char> {
    let left = header_cell(hf.header_left@, title);
    let center = header_cell(hf.header_center@, title);
    let right = header_cell(hf.header_right@, title);
    if left.len() == 0 && center.len() == 0 && right.len() == 0 {
        seq![]
    } else {
        header_grid(left, center, right)
    }
}

fn header_cell_text(cell: &String, title: &Vec<char>) -> (r: String)
    ensures
        r@ == header_cell(cell@, title@),
{
    string_of(&replace_chars(&chars_of(cell.as_str()), &chars_of("{title}"), title))
}

/// Builds the `header:` argument of `#set page`.
pub fn build_page_header(hf: &HeaderFooterSection, title: &str) -> (r: String)
    ensures
        r@ == spec_page_header(*hf, title@),
{
    let t = chars_of(title);
    let right = header_cell_text(&hf.header_right, &t);
    let left = header_cell_text(&hf.header_left, &t);
    let center = header_cell_text(&hf.header_center, &t);
    if left.as_str().is_empty() && center.as_str().is_empty() && right.as_str().is_empty() {
        return String::new();
    }
    header_grid_text(&left, &center, &right)
}

/// The middle cell of the footer: the page number where the centre text holds
/// `{page}`, else the centre text itself.
pub open spec fn footer_center_expr(center: Seq<char>) -> Seq<char> {
    if contains(center, "{page}"@) {
        "align(center, text(size: 9pt, str(counter(page).display())))"@
    } else {
        "align(center, text(size: 9pt, \""@ + center + "\"))"@
    }
}

/// The page footer: empty when all three cells are empty, else a grid of the
/// three cells.
pub open spec fn spec_page_footer(hf: HeaderFooterSection) -> Seq<char> {
    if hf.footer_left@.len() == 0 && hf.footer_center@.len() == 0 && hf.footer_right@.len() == 0 {
        seq![]
    } else {
        footer_grid(hf.footer_left@, footer_center_expr(hf.footer_center@), hf.footer_right@)
    }
}

/// Builds the `footer:` argument of `#set page`.
pub fn build_page_footer(hf: &HeaderFooterSection) -> (r: String)
    ensures
        r@ == spec_page_footer(*hf),
{
    let left = &hf.footer_left;
    let right = &hf.footer_right;
    let center = &hf.footer_center;
    if left.as_str().is_empty() && center.as_str().is_empty() && right.as_str().is_empty() {
        return String::new();
    }
    let center_expr = if contains_chars(&chars_of(center.as_str()), &chars_of("{page}")) {
        "align(center, text(size: 9pt, str(counter(page).display())))".to_owned()
    } else {
        let mut e = "align(center, text(size: 9pt, \"".to_owned();
        e.append(center.as_str());
        e.append("\"))");
        e
    };
    footer_grid_text(left, &center_expr, right)
}

/// What a text holds inside a part of it, the whole text holds too.
pub proof fn lemma_contains_within(hay: Seq<char>, part: Seq<char>, needle: Seq<char>)
    requires
        contains(hay, part),
        contains(part, needle),
    ensures
        contains(hay, needle),
{
    let i = choose|i: int| occurs_at(hay, part, i);
    let j = choose|j: int| occurs_at(part, needle, j);
    assert(hay.subrange(i + j, i + j + needle.len()) =~= part.subrange(j, j + needle.len()));
    assert(occurs_at(hay, needle, i + j));
}

/// The page settings hold the page footer.
proof fn lemma_settings_hold_footer(theme: Theme, title: Seq<char>)
    ensures
        contains(spec_settings(theme, title), spec_page_footer(theme.header_footer)),
{
    reveal(spec_settings);
    let p = theme.page;
    let hf = theme.header_footer;
    let footer = spec_page_footer(hf);
    let st = spec_settings(theme, title);
    let pre = "#set page(\n  paper: \""@ + p.paper@ + "\",\n  margin: (top: "@ + p.margin_top@
        + ", bottom: "@ + p.margin_bottom@ + ", left: "@ + p.margin_left@ + ", right: "@
        + p.margin_right@ + ")"@ + spec_columns_setting(p.columns) + ",\n  "@ + spec_page_header(
        hf,
        title,
    ) + "\n  "@;
    assert(st.subrange(pre.len() as int, (pre.len() + footer.len()) as int) =~= footer);
    assert(occurs_at(st, footer, pre.len() as int));
}

/// The footer shows the page number where the theme's footer centre text
/// asks for it with `{page}`, and otherwise shows that text itself; and the
/// preamble's page settings hold the footer.
pub proof fn lemma_footer_page_number(theme: Theme, title: Seq<char>, author: Seq<char>, date: Seq<char>, cover: bool)
    ensures
        contains(theme.header_footer.footer_center@, "{page}"@) ==> contains(
            spec_page_footer(theme.header_footer),
            "align(center, text(size: 9pt, str(counter(page).display())))"@,
        ),
        !contains(theme.header_footer.footer_center@, "{page}"@)
            && theme.header_footer.footer_center@.len() > 0 ==> contains(
            spec_page_footer(theme.header_footer),
            "align(center, text(size: 9pt, \""@ + theme.header_footer.footer_center@ + "\"))"@,
        ),
        contains(spec_preamble(theme, title, author, date, cover), spec_page_footer(theme.header_footer)),
        contains(theme.header_footer.footer_center@, "{page}"@) ==> contains(
            spec_preamble(theme, title, author, date, cover),
            "align(center, text(size: 9pt, str(counter(page).display())))"@,
        ),
{
    let hf = theme.header_footer;
    let center = hf.footer_center@;
    reveal_strlit("{page}");
    if contains(center, "{page}"@) {
        let i = choose|i: int| occurs_at(center, "{page}"@, i);
        assert(center.len() > 0);
    }
    let footer = spec_page_footer(hf);
    if center.len() > 0 {
        let expr = footer_center_expr(center);
        let l0 = "footer: context grid(\n    columns: (1fr, 1fr, 1fr),\n    align(left, text(size: 9pt, \""@
            + hf.footer_left@ + "\")),\n    "@;
        let l1 = ",\n    align(right, text(size: 9pt, \""@ + hf.footer_right@ + "\")),\n  ),"@;
        assert(footer =~= l0 + expr + l1);
        lemma_contains_middle(l0, expr, l1);
    }
    lemma_settings_hold_footer(theme, title);
    let st = spec_settings(theme, title);
    let whole = spec_preamble(theme, title, author, date, cover);
    let k = choose|k: int| occurs_at(st, footer, k);
    assert(whole == st + spec_title_block(title, author, date, cover));
    assert(whole.subrange(k, k + footer.len()) =~= st.subrange(k, k + footer.len()));
    assert(occurs_at(whole, footer, k));
    if contains(center, "{page}"@) {
        lemma_contains_within(whole, footer, "align(center, text(size: 9pt, str(counter(page).display())))"@);
    }
}

/// The lines of the cover page: title, author and date, each where present.
pub open spec fn cover_parts(title: Seq<char>, author: Seq<char>, date: Seq<char>) -> Seq<Seq<char>> {
    (if title.len() > 0 { seq!["    text(size: 28pt, weight: \"bold\", \""@ + title + "\")"@] } else { seq![] })
        + (if author.len() > 0 { seq!["    v(1em)\n    text(size: 14pt, \""@ + author + "\")"@] } else { seq![] })
        + (if date.len() > 0 { seq!["    v(0.5em)\n    text(size: 11pt, style: \"italic\", \""@ + date + "\")"@] } else { seq![] })
}

/// The lines of the title block above the content: title, author and date,
/// each where present.
pub open spec fn inline_parts(title: Seq<char>, author: Seq<char>, date: Seq<char>) -> Seq<Seq<char>> {
    (if title.len() > 0 { seq!["  align(center, text(size: 20pt, weight: \"bold\", \""@ + title + "\"))"@] } else { seq![] })
        + (if author.len() > 0 { seq!["  align(center, text(size: 12pt, \""@ + author + "\"))"@] } else { seq![] })
        + (if date.len() > 0 { seq!["  align(center, text(size: 10pt, style: \"italic\", \""@ + date + "\"))"@] } else { seq![] })
}

/// Parts joined with a separator hold each of the parts.
proof fn lemma_join_holds_parts(parts: Seq<Seq<char>>, sep: Seq<char>, i: int)
    requires
        0 <= i < parts.len(),
    ensures
        contains(join(parts, sep), parts[i]),
    decreases parts.len(),
{
    if parts.len() == 1 {
        lemma_contains_middle(seq![], parts[0], seq![]);
        assert(Seq::<char>::empty() + parts[0] + Seq::<char>::empty() =~= parts[0]);
    } else {
        let front = join(parts.drop_last(), sep);
        if i == parts.len() - 1 {
            lemma_contains_middle(front + sep, parts.last(), seq![]);
            assert(front + sep + parts.last() + Seq::<char>::empty() =~= front + sep + parts.last());
        } else {
            lemma_join_holds_parts(parts.drop_last(), sep, i);
            lemma_contains_middle(seq![], front, sep + parts.last());
            assert(Seq::<char>::empty() + front + (sep + parts.last()) =~= front + sep + parts.last());
            lemma_contains_within(front + sep + parts.last(), front, parts[i]);
        }
    }
}

/// The title block: a cover page followed by a page break when a cover is
/// asked for, else a centred block above the content; nothing when neither a
/// title nor an author is given.
pub open spec fn spec_title_block(title: Seq<char>, author: Seq<char>, date: Seq<char>, cover: bool) -> Seq<char> {
    if cover && (title.len() > 0 || author.len() > 0) {
        "#align(center + horizon)[\n"@ + join(cover_parts(title, author, date), "\n"@) + "\n]\n#pagebreak()\n\n"@
    } else if !cover && (title.len() > 0 || author.len() > 0) {
        join(inline_parts(title, author, date), "\n"@) + "\n\n"@
    } else {
        seq![]
    }
}

/// The title block is empty without a title and an author, whatever the
/// date and the cover; a cover page (ending with a page break) comes
/// exactly where a cover is asked for and there is a title or an author.
pub proof fn lemma_title_block_shape(title: Seq<char>, author: Seq<char>, date: Seq<char>, cover: bool)
    ensures
        title.len() == 0 && author.len() == 0 ==> spec_title_block(title, author, date, cover)
            == Seq::<char>::empty(),
        cover && (title.len() > 0 || author.len() > 0) ==> ends_with(
            spec_title_block(title, author, date, cover),
            "\n]\n#pagebreak()\n\n"@,
        ),
        !cover ==> !ends_with(spec_title_block(title, author, date, cover), "#pagebreak()\n\n"@),
        !cover && (title.len() > 0 || author.len() > 0) ==> spec_title_block(title, author, date, cover).len() >= 4
            && spec_title_block(title, author, date, cover)[spec_title_block(title, author, date, cover).len() - 4] == ')',
{
    reveal_strlit("\n]\n#pagebreak()\n\n");
    reveal_strlit("#pagebreak()\n\n");
    reveal_strlit("\n\n");
    let b = spec_title_block(title, author, date, cover);
    let p = "#pagebreak()\n\n"@;
    if cover && (title.len() > 0 || author.len() > 0) {
        let q = "\n]\n#pagebreak()\n\n"@;
        let head = "#align(center + horizon)[\n"@ + join(cover_parts(title, author, date), "\n"@);
        assert(b == head + q);
        assert(b.skip(b.len() - q.len()) =~= q);
    } else if !cover && (title.len() > 0 || author.len() > 0) {
        let parts = inline_parts(title, author, date);
        let j = join(parts, "\n"@);
        assert(b == j + "\n\n"@);
        let last = parts.last();
        reveal_strlit("\"))");
        let tail = "\"))"@;
        assert(last[last.len() - 2] == ')') by {
            reveal_strlit("  align(center, text(size: 20pt, weight: \"bold\", \"");
            reveal_strlit("  align(center, text(size: 12pt, \"");
            reveal_strlit("  align(center, text(size: 10pt, style: \"italic\", \"");
            if date.len() > 0 {
                let d = "  align(center, text(size: 10pt, style: \"italic\", \""@ + date + tail;
                assert(last == d);
                assert(d[d.len() - 2] == tail[1]);
            } else if author.len() > 0 {
                let d = "  align(center, text(size: 12pt, \""@ + author + tail;
                assert(last == d);
                assert(d[d.len() - 2] == tail[1]);
            } else {
                let d = "  align(center, text(size: 20pt, weight: \"bold\", \""@ + title + tail;
                assert(last == d);
                assert(d[d.len() - 2] == tail[1]);
            }
        }
        if parts.len() == 1 {
            assert(j == last);
        } else {
            assert(j == join(parts.drop_last(), "\n"@) + "\n"@ + last);
        }
        assert(j[j.len() - 2] == last[last.len() - 2]);
        if ends_with(b, p) {
            assert(b.skip(b.len() - p.len())[p.len() - 4] == b[b.len() - 4]);
            assert(p[p.len() - 4] == '(');
            assert(b[b.len() - 4] == j[j.len() - 2]);
        }
    } else {
        assert(b.len() == 0);
    }
}

fn wrap(pre: &str, mid: &str, post: &str) -> (r: String)
    ensures
        r@ == pre@ + mid@ + post@,
{
    let mut r = pre.to_owned();
    r.append(mid);
    r.append(post);
    r
}

/// Builds the title block.
pub fn build_title_block(title: &str, author: &str, date: &str, cover: bool) -> (r: String)
    ensures
        r@ == spec_title_block(title@, author@, date@, cover),
{
    let has_title = !title.is_empty();
    let has_author = !author.is_empty();
    let has_date = !date.is_empty();
    if !(has_title || has_author) {
        return String::new();
    }
    let mut parts: Vec<String> = Vec::new();
    if cover {
        if has_title {
            parts.push(wrap("    text(size: 28pt, weight: \"bold\", \"", title, "\")"));
        }
        if has_author {
            parts.push(wrap("    v(1em)\n    text(size: 14pt, \"", author, "\")"));
        }
        if has_date {
            parts.push(wrap("    v(0.5em)\n    text(size: 11pt, style: \"italic\", \"", date, "\")"));
        }
        assert(views(parts@) =~= cover_parts(title@, author@, date@));
        let mut r = "#align(center + horizon)[\n".to_owned();
        push_joined(&mut r, &parts, "\n");
        r.append("\n]\n#pagebreak()\n\n");
        r
    } else {
        if has_title {
            parts.push(wrap("  align(center, text(size: 20pt, weight: \"bold\", \"", title, "\"))"));
        }
        if has_author {
            parts.push(wrap("  align(center, text(size: 12pt, \"", author, "\"))"));
        }
        if has_date {
            parts.push(wrap("  align(center, text(size: 10pt, style: \"italic\", \"", date, "\"))"));
        }
        assert(views(parts@) =~= inline_parts(title@, author@, date@));
        let mut r = String::new();
        push_joined(&mut r, &parts, "\n");
        r.append("\n\n");
        assert(r@ =~= join(inline_parts(title@, author@, date@), "\n"@) + "\n\n"@);
        r
    }
}

/// The fallback fonts, each quoted, each preceded by `, `: empty when there
/// is no fallback font.
pub open spec fn spec_fallback_list(fallback: Seq<Seq<char>>) -> Seq<char> {
    if fallback.len() == 0 {
        seq![]
    } else {
        ", "@ + join(fallback.map_values(|s: Seq<char>| "\""@ + s + "\""@), ", "@)
    }
}

fn build_fallback_list(fallback: &Vec<String>) -> (r: String)
    ensures
        r@ == spec_fallback_list(views(fallback@)),
{
    if fallback.len() == 0 {
        return String::new();
    }
    let mut quoted: Vec<String> = Vec::new();
    let n = fallback.len();
    for i in 0..n
        invariant
            n == fallback@.len(),
            quoted@.len() == i,
            forall|j: int| 0 <= j < i ==> #[trigger] quoted@[j]@ == "\""@ + fallback@[j]@ + "\""@,
    {
        quoted.push(wrap("\"", fallback[i].as_str(), "\""));
    }
    assert(views(quoted@) =~= views(fallback@).map_values(|s: Seq<char>| "\""@ + s + "\""@));
    let mut r = ", ".to_owned();
    push_joined(&mut r, &quoted, ", ");
    r
}

/// The `columns:` setting of the page: present only for more than one column.
pub open spec fn spec_columns_setting(columns: u8) -> Seq<char> {
    if columns > 1 {
        ", columns: "@ + decimal(columns as nat)
    } else {
        seq![]
    }
}

/// A page sets its columns only for more than one column, and then to
/// their number.
pub proof fn lemma_columns_setting(n: u8)
    ensures
        (spec_columns_setting(n).len() > 0) == (n > 1),
        n > 1 ==> spec_columns_setting(n) == ", columns: "@ + decimal(n as nat),
{
    reveal_strlit(", columns: ");
}

fn build_columns_setting(columns: u8) -> (r: String)
    ensures
        r@ == spec_columns_setting(columns),
{
    if columns > 1 {
        let mut r = ", columns: ".to_owned();
        push_decimal(&mut r, columns);
        r
    } else {
        String::new()
    }
}

/// The settings of the preamble, before the title block: page, text and
/// paragraph settings, and the heading, link, code and quote rules.
#[verifier::opaque]
pub open spec fn spec_settings(theme: Theme, title: Seq<char>) -> Seq<char> {
    let p = theme.page;
    let f = theme.font;
    let s = theme.spacing;
    let c = theme.color;
    "#set page(\n  paper: \""@
        + p.paper@
        + "\",\n  margin: (top: "@
        + p.margin_top@
        + ", bottom: "@
        + p.margin_bottom@
        + ", left: "@
        + p.margin_left@
        + ", right: "@
        + p.margin_right@
        + ")"@
        + spec_columns_setting(p.columns)
        + ",\n  "@
        + spec_page_header(theme.header_footer, title)
        + "\n  "@
        + spec_page_footer(theme.header_footer)
        + "\n)\n#set text(\n  font: (\""@
        + f.body_family@
        + "\""@
        + spec_fallback_list(views(f.fallback@))
        + "),\n  size: "@
        + f.body_size@
        + ",\n  weight: \""@
        + f.body_weight@
        + "\",\n  fill: rgb(\""@
        + c.body_text@
        + "\"),\n  tracking: "@
        + s.letter_spacing@
        + ",\n)\n#set par(\n  leading: "@
        + s.line_height@
        + "em,\n  spacing: "@
        + s.paragraph_spacing@
        + ",\n  justify: true,\n)\n#set raw(tab-size: 2)\n#show heading: it => {\n  let sizes = (24pt, 18pt, 14pt, 12pt)\n  let sz = if it.level <= 4 { sizes.at(it.level - 1) } else { 11pt }\n  block(\n    above: "@
        + s.heading_above@
        + ",\n    below: "@
        + s.heading_below@
        + ",\n    text(\n      font: \""@
        + f.heading_family@
        + "\",\n      size: sz,\n      weight: \""@
        + f.heading_weight@
        + "\",\n      fill: rgb(\""@
        + c.heading@
        + "\"),\n      it.body,\n    )\n  )\n}\n#show link: it => {\n  text(fill: rgb(\""@
        + c.link@
        + "\"), it)\n}\n#show raw.where(block: false): it => {\n  box(\n    fill: rgb(\""@
        + c.code_background@
        + "\"),\n    inset: (x: 3pt, y: 0pt),\n    outset: (y: 3pt),\n    radius: "@
        + theme.code.border_radius@
        + ",\n    text(font: \""@
        + f.code_family@
        + "\", size: "@
        + f.code_size@
        + ", fill: rgb(\""@
        + c.code_text@
        + "\"), it),\n  )\n}\n"@
        + spec_code_block_rule(theme.code, theme.font, theme.color)
        + "\n#show quote: it => {\n  block(\n    inset: (left: 12pt),\n    stroke: (left: 3pt + rgb(\""@
        + c.blockquote_border@
        + "\")),\n    text(fill: rgb(\""@
        + c.blockquote_text@
        + "\"), style: \"italic\", it.body),\n  )\n}\n"@
}

/// The Typst preamble for a theme and a document's title, author and date:
/// page, text and paragraph settings, the heading, link, code and quote
/// rules, and the title block.
pub open spec fn spec_preamble(theme: Theme, title: Seq<char>, author: Seq<char>, date: Seq<char>, cover: bool) -> Seq<char> {
    spec_settings(theme, title) + spec_title_block(title, author, date, cover)
}

/// The preamble shows the title and the author each in its own place: on
/// the cover page (28pt bold title, 14pt author) where a cover is asked
/// for, else in the block above the content (20pt bold title, 12pt author).
pub proof fn lemma_preamble_shows_title_and_author(
    theme: Theme,
    title: Seq<char>,
    author: Seq<char>,
    date: Seq<char>,
    cover: bool,
)
    ensures
        !cover && title.len() > 0 ==> contains(
            spec_preamble(theme, title, author, date, cover),
            "  align(center, text(size: 20pt, weight: \"bold\", \""@ + title + "\"))"@,
        ),
        !cover && author.len() > 0 ==> contains(
            spec_preamble(theme, title, author, date, cover),
            "  align(center, text(size: 12pt, \""@ + author + "\"))"@,
        ),
        cover && title.len() > 0 ==> contains(
            spec_preamble(theme, title, author, date, cover),
            "    text(size: 28pt, weight: \"bold\", \""@ + title + "\")"@,
        ),
        cover && author.len() > 0 ==> contains(
            spec_preamble(theme, title, author, date, cover),
            "    v(1em)\n    text(size: 14pt, \""@ + author + "\")"@,
        ),
{
    let st = spec_settings(theme, title);
    let tb = spec_title_block(title, author, date, cover);
    let whole = spec_preamble(theme, title, author, date, cover);
    assert(whole == st + tb);
    lemma_contains_middle(st, tb, seq![]);
    assert(st + tb + Seq::<char>::empty() =~= st + tb);
    if title.len() > 0 || author.len() > 0 {
        let parts = if cover {
            cover_parts(title, author, date)
        } else {
            inline_parts(title, author, date)
        };
        let j = join(parts, "\n"@);
        if cover {
            let head = "#align(center + horizon)[\n"@;
            let tail = "\n]\n#pagebreak()\n\n"@;
            assert(tb == head + j + tail);
            lemma_contains_middle(head, j, tail);
        } else {
            assert(tb == j + "\n\n"@);
            lemma_contains_middle(seq![], j, "\n\n"@);
            assert(Seq::<char>::empty() + j + "\n\n"@ =~= j + "\n\n"@);
        }
        lemma_contains_within(whole, tb, j);
        if title.len() > 0 {
            lemma_join_holds_parts(parts, "\n"@, 0);
            lemma_contains_within(whole, j, parts[0]);
        }
        if author.len() > 0 {
            let k: int = if title.len() > 0 { 1 } else { 0 };
            lemma_join_holds_parts(parts, "\n"@, k);
            lemma_contains_within(whole, j, parts[k]);
        }
    }
}

/// The settings end with the quote rule.
proof fn lemma_settings_end(theme: Theme, title: Seq<char>)
    ensures
        spec_settings(theme, title).len() >= "\"), style: \"italic\", it.body),\n  )\n}\n"@.len(),
        spec_settings(theme, title).skip(
            spec_settings(theme, title).len() - "\"), style: \"italic\", it.body),\n  )\n}\n"@.len(),
        ) == "\"), style: \"italic\", it.body),\n  )\n}\n"@,
{
    reveal(spec_settings);
    let st = spec_settings(theme, title);
    let lit = "\"), style: \"italic\", it.body),\n  )\n}\n"@;
    assert(st.skip(st.len() - lit.len()) =~= lit);
}

/// How the preamble ends: with the quote rule when there is neither a
/// title nor an author (whatever the date and the cover), with the cover
/// page and its page break when a cover is asked for and there is a title
/// or an author, and never with a page break when no cover is asked for.
pub proof fn lemma_preamble_ending(theme: Theme, title: Seq<char>, author: Seq<char>, date: Seq<char>, cover: bool)
    ensures
        title.len() == 0 && author.len() == 0 ==> ends_with(
            spec_preamble(theme, title, author, date, cover),
            "it.body),\n  )\n}\n"@,
        ),
        cover && (title.len() > 0 || author.len() > 0) ==> ends_with(
            spec_preamble(theme, title, author, date, cover),
            "\n]\n#pagebreak()\n\n"@,
        ),
        !cover ==> !ends_with(spec_preamble(theme, title, author, date, cover), "#pagebreak()\n\n"@),
{
    let st = spec_settings(theme, title);
    let tb = spec_title_block(title, author, date, cover);
    let pre = spec_preamble(theme, title, author, date, cover);
    let lit = "\"), style: \"italic\", it.body),\n  )\n}\n"@;
    let quote_end = "it.body),\n  )\n}\n"@;
    let cover_end = "\n]\n#pagebreak()\n\n"@;
    let page_break = "#pagebreak()\n\n"@;
    reveal_strlit("\"), style: \"italic\", it.body),\n  )\n}\n");
    reveal_strlit("it.body),\n  )\n}\n");
    reveal_strlit("\n]\n#pagebreak()\n\n");
    reveal_strlit("#pagebreak()\n\n");
    lemma_title_block_shape(title, author, date, cover);
    lemma_settings_end(theme, title);
    assert(pre == st + tb);
    assert(st[st.len() - 4] == ')') by {
        assert(st[st.len() - 4] == lit[lit.len() - 4]);
    }
    if title.len() == 0 && author.len() == 0 {
        assert(pre =~= st);
        assert(pre.skip(pre.len() - quote_end.len()) =~= lit.skip(lit.len() - quote_end.len()));
        assert(lit.skip(lit.len() - quote_end.len()) =~= quote_end);
    }
    if cover && (title.len() > 0 || author.len() > 0) {
        assert(pre.skip(pre.len() - cover_end.len()) =~= tb.skip(tb.len() - cover_end.len()));
    }
    if !cover {
        assert(pre[pre.len() - 4] == ')') by {
            if tb.len() > 0 {
                assert(pre[pre.len() - 4] == tb[tb.len() - 4]);
            } else {
                assert(pre =~= st);
            }
        }
        if ends_with(pre, page_break) {
            assert(pre.skip(pre.len() - page_break.len())[page_break.len() - 4] == pre[pre.len() - 4]);
        }
    }
}

/// The Typst preamble for a theme and a document's title, author and date:
/// page, text and paragraph settings, the heading, link, code and quote
/// rules, and the title block.
pub fn generate_preamble(theme: &Theme, doc_title: &str, doc_author: &str, doc_date: &str, cover: bool) -> (r: String)
    ensures
        r@ == spec_preamble(*theme, doc_title@, doc_author@, doc_date@, cover),
{
    proof {
        reveal(spec_settings);
    }
    let p = &theme.page;
    let f = &theme.font;
    let s = &theme.spacing;
    let c = &theme.color;
    let fallback = build_fallback_list(&f.fallback);
    let columns_setting = build_columns_setting(p.columns);
    let header = build_page_header(&theme.header_footer, doc_title);
    let footer = build_page_footer(&theme.header_footer);
    let title_block = build_title_block(doc_title, doc_author, doc_date, cover);
    let code_block_rule = build_code_block_rule(&theme.code, &theme.font, &theme.color);
    let mut out = "#set page(\n  paper: \"".to_owned();
    out.append(p.paper.as_str());
    out.append("\",\n  margin: (top: ");
    out.append(p.margin_top.as_str());
    out.append(", bottom: ");
    out.append(p.margin_bottom.as_str());
    out.append(", left: ");
    out.append(p.margin_left.as_str());
    out.append(", right: ");
    out.append(p.margin_right.as_str());
    out.append(")");
    out.append(columns_setting.as_str());
    out.append(",\n  ");
    out.append(header.as_str());
    out.append("\n  ");
    out.append(footer.as_str());
    out.append("\n)\n#set text(\n  font: (\"");
    out.append(f.body_family.as_str());
    out.append("\"");
    out.append(fallback.as_str());
    out.append("),\n  size: ");
    out.append(f.body_size.as_str());
    out.append(",\n  weight: \"");
    out.append(f.body_weight.as_str());
    out.append("\",\n  fill: rgb(\"");
    out.append(c.body_text.as_str());
    out.append("\"),\n  tracking: ");
    out.append(s.letter_spacing.as_str());
    out.append(",\n)\n#set par(\n  leading: ");
    out.append(s.line_height.as_str());
    out.append("em,\n  spacing: ");
    out.append(s.paragraph_spacing.as_str());
    out.append(",\n  justify: true,\n)\n#set raw(tab-size: 2)\n#show heading: it => {\n  let sizes = (24pt, 18pt, 14pt, 12pt)\n  let sz = if it.level <= 4 { sizes.at(it.level - 1) } else { 11pt }\n  block(\n    above: ");
    out.append(s.heading_above.as_str());
    out.append(",\n    below: ");
    out.append(s.heading_below.as_str());
    out.append(",\n    text(\n      font: \"");
    out.append(f.heading_family.as_str());
    out.append("\",\n      size: sz,\n      weight: \"");
    out.append(f.heading_weight.as_str());
    out.append("\",\n      fill: rgb(\"");
    out.append(c.heading.as_str());
    out.append("\"),\n      it.body,\n    )\n  )\n}\n#show link: it => {\n  text(fill: rgb(\"");
    out.append(c.link.as_str());
    out.append("\"), it)\n}\n#show raw.where(block: false): it => {\n  box(\n    fill: rgb(\"");
    out.append(c.code_background.as_str());
    out.append("\"),\n    inset: (x: 3pt, y: 0pt),\n    outset: (y: 3pt),\n    radius: ");
    out.append(theme.code.border_radius.as_str());
    out.append(",\n    text(font: \"");
    out.append(f.code_family.as_str());
    out.append("\", size: ");
    out.append(f.code_size.as_str());
    out.append(", fill: rgb(\"");
    out.append(c.code_text.as_str());
    out.append("\"), it),\n  )\n}\n");
    out.append(code_block_rule.as_str());
    out.append("\n#show quote: it => {\n  block(\n    inset: (left: 12pt),\n    stroke: (left: 3pt + rgb(\"");
    out.append(c.blockquote_border.as_str());
    out.append("\")),\n    text(fill: rgb(\"");
    out.append(c.blockquote_text.as_str());
    out.append("\"), style: \"italic\", it.body),\n  )\n}\n");
    out.append(title_block.as_str());
    out
}


} // verus!
