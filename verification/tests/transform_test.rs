use md2paper::ast::MdNode;
use md2paper::ast_to_typst;

fn text(s: &str) -> MdNode {
    MdNode::Text(s.to_string())
}

fn para(children: Vec<MdNode>) -> MdNode {
    MdNode::Paragraph(children)
}

fn doc(children: Vec<MdNode>) -> MdNode {
    MdNode::Document(children)
}

#[test]
fn headings_paragraphs_and_inline_markup() {
    let tree = doc(vec![
        MdNode::Heading(2, vec![text("Title")]),
        para(vec![
            MdNode::Strong(vec![text("b")]),
            MdNode::SoftBreak,
            MdNode::Emph(vec![text("i")]),
            MdNode::LineBreak,
            MdNode::Strikethrough(vec![text("s")]),
            MdNode::Code("x#y".to_string()),
        ]),
    ]);
    assert_eq!(
        ast_to_typst(&tree),
        "== Title\n\n*b* _i_\\\n#strike[s]`x#y`\n\n"
    );
}

#[test]
fn text_is_escaped() {
    let tree = doc(vec![para(vec![text("a\\b@c#d<e>f~g$h`i")])]);
    assert_eq!(ast_to_typst(&tree), "a\\\\b\\@c\\#d\\<e\\>f\\~g\\$h\\`i\n\n");
}

#[test]
fn code_blocks_with_and_without_language() {
    let tree = doc(vec![
        MdNode::CodeBlock("rust extra".to_string(), "fn main() {}\n".to_string()),
        MdNode::CodeBlock(String::new(), "plain\n".to_string()),
        MdNode::CodeBlock("  typst ".to_string(), "#set text(red)".to_string()),
        MdNode::CodeBlock("typst".to_string(), "#v(1em)\n".to_string()),
    ]);
    assert_eq!(
        ast_to_typst(&tree),
        "```rust\nfn main() {}\n```\n\n```\nplain\n```\n\n#set text(red)\n\n#v(1em)\n\n"
    );
}

#[test]
fn lists_nested_and_tasks() {
    let tree = doc(vec![MdNode::List(
        false,
        vec![
            MdNode::Item(vec![para(vec![text("one")])]),
            MdNode::Item(vec![
                para(vec![text("two")]),
                MdNode::List(true, vec![MdNode::Item(vec![para(vec![text("inner")])])]),
                para(vec![text("more")]),
            ]),
            MdNode::TaskItem(true, vec![para(vec![text("done")])]),
            MdNode::TaskItem(false, vec![para(vec![text("todo")])]),
        ],
    )]);
    assert_eq!(
        ast_to_typst(&tree),
        "- one\n- two\n  + inner\n\n  more\n- [x] done\n- [ ] todo\n\n"
    );
}

#[test]
fn links_images_quotes_rules_and_html() {
    let tree = doc(vec![
        para(vec![MdNode::Link("https://a.b/\"q\"".to_string(), vec![text("site")])]),
        MdNode::Image("img/x.png".to_string(), vec![text("An \"alt\"")]),
        MdNode::Image("y.png".to_string(), vec![]),
        MdNode::BlockQuote(vec![para(vec![text("q")])]),
        MdNode::ThematicBreak,
        MdNode::HtmlBlock("<div>".to_string()),
        para(vec![MdNode::HtmlInline("<b>".to_string()), text("t")]),
    ]);
    assert_eq!(
        ast_to_typst(&tree),
        "#link(\"https://a.b/\\\"q\\\"\")[site]\n\n#image(\"img/x.png\", alt: \"An \\\"alt\\\"\")\n#image(\"y.png\")\n#quote[\nq\n\n]\n\n#line(length: 100%)\n\nt\n\n"
    );
}

#[test]
fn tables_have_a_header_row() {
    let cell = |s: &str| MdNode::TableCell(vec![text(s)]);
    let tree = doc(vec![MdNode::Table(vec![
        MdNode::TableRow(true, vec![cell("A"), cell("B")]),
        MdNode::TableRow(false, vec![cell(" 1 "), cell("2")]),
    ])]);
    assert_eq!(
        ast_to_typst(&tree),
        "#table(\n  columns: (1fr, 1fr),\n  stroke: 0.5pt,\n  table.cell(fill: rgb(\"#f3f4f6\"))[*A*],\n  table.cell(fill: rgb(\"#f3f4f6\"))[*B*],\n  [1],\n  [2],\n)\n\n"
    );
    assert_eq!(ast_to_typst(&doc(vec![MdNode::Table(vec![])])), "");
}

#[test]
fn footnotes_take_the_last_definition() {
    let tree = doc(vec![
        para(vec![text("x"), MdNode::FootnoteReference("n".to_string())]),
        para(vec![MdNode::FootnoteReference("missing#".to_string())]),
        MdNode::FootnoteDefinition("n".to_string(), vec![para(vec![text("first")])]),
        MdNode::FootnoteDefinition("n".to_string(), vec![para(vec![MdNode::Emph(vec![text("second")])])]),
    ]);
    assert_eq!(
        ast_to_typst(&tree),
        "x#footnote[_second_]\n\n#footnote[missing\\#]\n\n"
    );
}

#[test]
fn math_inline_and_display() {
    let tree = doc(vec![para(vec![
        MdNode::Math(false, " x^2 ".to_string()),
        MdNode::Math(true, "\n sum_i i \n".to_string()),
    ])]);
    assert_eq!(ast_to_typst(&tree), "$x^2$$ sum_i i $\n\n\n\n");
}

#[test]
fn other_nodes_render_their_children() {
    let tree = doc(vec![MdNode::Other(vec![para(vec![text("kept")])])]);
    assert_eq!(ast_to_typst(&tree), "kept\n\n");
}
