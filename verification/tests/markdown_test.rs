use md2paper::ast::MdNode;
use md2paper::markdown::{make_options, parse_markdown, tree_from_xml};
use md2paper::xml::parse_document_xml;

const HEADER: &str = "<?xml version=\"1.0\" encoding=\"UTF-8\"?>\n<!DOCTYPE document SYSTEM \"CommonMark.dtd\">\n";

#[test]
fn options_enable_the_extensions() {
    let o = make_options();
    assert!(o.strikethrough && o.table && o.autolink && o.tasklist && o.footnotes && o.math_dollars);
    assert!(!o.smart);
}

#[test]
fn xml_is_read_back_with_entities() {
    let xml = format!(
        "{HEADER}<document xmlns=\"http://commonmark.org/xml/1.0\">\n  <paragraph>\n    <text xml:space=\"preserve\">a &lt;b&gt; &amp; &quot;c&quot;</text>\n    <link destination=\"x?a=1&amp;b=2\" title=\"\">\n      <text xml:space=\"preserve\">l</text>\n    </link>\n  </paragraph>\n  <thematic_break />\n</document>\n"
    );
    let e = parse_document_xml(&xml).expect("well-formed XML is read");
    assert_eq!(e.name, "document");
    assert_eq!(e.children.len(), 2);
    let p = &e.children[0];
    assert_eq!(p.children[0].literal.as_deref(), Some("a <b> & \"c\""));
    assert_eq!(p.children[1].attrs[0], ("destination".to_string(), "x?a=1&b=2".to_string()));
    assert_eq!(e.children[1].name, "thematic_break");
}

#[test]
fn malformed_xml_is_refused() {
    assert!(parse_document_xml("").is_none());
    let bad_indent = format!("{HEADER}<document>\n<paragraph />\n</document>\n");
    assert!(parse_document_xml(&bad_indent).is_none());
    let bad_entity = format!("{HEADER}<text xml:space=\"preserve\">a &nbsp; b</text>\n");
    assert!(parse_document_xml(&bad_entity).is_none());
    let trailing = format!("{HEADER}<document />\nmore");
    assert!(parse_document_xml(&trailing).is_none());
    let empty_parent = format!("{HEADER}<document>\n</document>\n");
    assert!(parse_document_xml(&empty_parent).is_none());
}

#[test]
fn code_block_info_is_raw() {
    let xml = format!(
        "{HEADER}<document>\n  <code_block info=\"c&d\" xml:space=\"preserve\">x &amp; y\n</code_block>\n</document>\n"
    );
    match tree_from_xml(&xml) {
        Some(MdNode::Document(ch)) => match &ch[0] {
            MdNode::CodeBlock(info, lit) => {
                assert_eq!(info, "c&d");
                assert_eq!(lit, "x & y\n");
            }
            other => panic!("code block expected, got {:?}", other),
        },
        other => panic!("document expected, got {:?}", other),
    }
}

#[test]
fn markdown_is_parsed_into_the_tree() {
    let tree = parse_markdown("# Hi *there*\n\n- [x] done\n\n| a |\n|---|\n| 1 |\n\n$$m$$ and [^f]\n\n[^f]: note\n").unwrap();
    let ch = match tree {
        MdNode::Document(ch) => ch,
        other => panic!("document expected, got {:?}", other),
    };
    match &ch[0] {
        MdNode::Heading(1, h) => {
            assert!(matches!(&h[0], MdNode::Text(t) if t == "Hi "));
            assert!(matches!(&h[1], MdNode::Emph(_)));
        }
        other => panic!("heading expected, got {:?}", other),
    }
    match &ch[1] {
        MdNode::List(false, items) => assert!(matches!(&items[0], MdNode::TaskItem(true, _))),
        other => panic!("list expected, got {:?}", other),
    }
    match &ch[2] {
        MdNode::Table(rows) => {
            assert!(matches!(&rows[0], MdNode::TableRow(true, _)));
            assert!(matches!(&rows[1], MdNode::TableRow(false, _)));
        }
        other => panic!("table expected, got {:?}", other),
    }
    match &ch[3] {
        MdNode::Paragraph(p) => {
            assert!(matches!(&p[0], MdNode::Math(true, m) if m == "m"));
            assert!(matches!(&p[2], MdNode::FootnoteReference(l) if l == "f"));
        }
        other => panic!("paragraph expected, got {:?}", other),
    }
    assert!(matches!(&ch[4], MdNode::FootnoteDefinition(l, _) if l == "f"));
}

#[test]
fn code_block_info_with_quotes_is_read() {
    let tree = parse_markdown("```rust title=\"main.rs\"\nfn main() {}\n```\n").unwrap();
    match tree {
        MdNode::Document(ch) => match &ch[0] {
            MdNode::CodeBlock(info, lit) => {
                assert_eq!(info, "rust title=\"main.rs\"");
                assert_eq!(lit, "fn main() {}\n");
            }
            other => panic!("code block expected, got {:?}", other),
        },
        other => panic!("document expected, got {:?}", other),
    }
}

#[test]
fn attributes_that_cannot_be_read_back_are_refused() {
    let colon = format!("{HEADER}<document>\n  <thematic_break a:b=\"c\" />\n</document>\n");
    assert!(parse_document_xml(&colon).is_none());
    let slash = format!("{HEADER}<document>\n  <thematic_break /a=\"c\" />\n</document>\n");
    assert!(parse_document_xml(&slash).is_none());
    let nul_info = format!("{HEADER}<code_block info=\"a\0b\" xml:space=\"preserve\">x</code_block>\n");
    assert!(parse_document_xml(&nul_info).is_none());
    let fine = format!("{HEADER}<document>\n  <thematic_break a=\"c\" />\n</document>\n");
    assert!(parse_document_xml(&fine).is_some());
}

#[test]
fn code_block_info_with_several_quoted_values_is_read() {
    let tree = parse_markdown("```py title=\"bubble_sort.py\" linenums=\"1\"\nx = 1\n```\n\n```math\na\n```\n").unwrap();
    match tree {
        MdNode::Document(ch) => {
            match &ch[0] {
                MdNode::CodeBlock(info, lit) => {
                    assert_eq!(info, "py title=\"bubble_sort.py\" linenums=\"1\"");
                    assert_eq!(lit, "x = 1\n");
                }
                other => panic!("code block expected, got {:?}", other),
            }
            match &ch[1] {
                MdNode::CodeBlock(info, lit) => {
                    assert_eq!(info, "math");
                    assert_eq!(lit, "a\n");
                }
                other => panic!("code block expected, got {:?}", other),
            }
        }
        other => panic!("document expected, got {:?}", other),
    }
}
