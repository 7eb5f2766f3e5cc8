use md2paper::convert;

const BASIC_MD: &str = "# Basic Document\n\nThis is a paragraph with **bold**, *italic* and `code`.\n\n## A list\n\n- one\n- two\n- three\n\n1. first\n2. second\n\n> A quotation.\n\n[A link](https://example.com)\n\n```rust\nfn main() {\n    println!(\"hello\");\n}\n```\n";

const GFM_TABLE_MD: &str = "# Tables\n\n| Name | Value | Notes |\n|:-----|:-----:|------:|\n| a    | 1     | first |\n| b    | 2     | second |\n\nAfter the table.\n";

#[test]
fn test_simple_convert() {
    let pdf = convert("# Hello\n\nWorld").expect("convert should succeed");
    assert!(!pdf.is_empty(), "PDF should not be empty");
    assert!(pdf.starts_with(b"%PDF"), "Output should be a PDF");
}

#[test]
fn test_convert_fixtures_basic() {
    let md = BASIC_MD;
    let pdf = convert(md).expect("basic.md should convert");
    assert!(pdf.starts_with(b"%PDF"));
}

#[test]
fn test_convert_fixtures_table() {
    let md = GFM_TABLE_MD;
    let pdf = convert(md).expect("gfm_table.md should convert");
    assert!(pdf.starts_with(b"%PDF"));
}
