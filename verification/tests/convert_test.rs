use md2paper::{convert, convert_with_config, load_builtin, to_typst, Config};

const BASIC_MD: &str = "# Basic Document\n\nThis is a paragraph with **bold**, *italic* and `code`.\n\n## A list\n\n- one\n- two\n- three\n\n1. first\n2. second\n\n> A quotation.\n\n[A link](https://example.com)\n\n```rust\nfn main() {\n    println!(\"hello\");\n}\n```\n";

const GFM_TABLE_MD: &str = "# Tables\n\n| Name | Value | Notes |\n|:-----|:-----:|------:|\n| a    | 1     | first |\n| b    | 2     | second |\n\nAfter the table.\n";

const MATH_MD: &str = "# Math\n\nInline: $a^2 + b^2 = c^2$ and $x_1 + x_2$.\n\n$$\nsum_(i=1)^n i = (n(n+1))/2\n$$\n";

const CJK_MD: &str = "# 한국어 문서\n\n이것은 한국어 문단입니다. 日本語のテキストと中文文本も含みます。\n\n- 첫째\n- 둘째\n";

const FULL_FEATURED_MD: &str = "---\ntitle: \"Full-Featured Test\"\nauthor: \"Test Author\"\ndate: \"2026-03-19\"\ntheme: default\nspacing:\n  line_height: 1.7\n---\n\n# Full-Featured Document\n\nThis document exercises most md2paper features.\n\n## Typography\n\nNormal, **bold**, *italic*, ~~strikethrough~~, `inline code`.\n\n## Code Block\n\n```python\ndef fibonacci(n):\n    if n <= 1:\n        return n\n    return fibonacci(n-1) + fibonacci(n-2)\n\nprint(fibonacci(10))\n```\n\n## Table\n\n| Feature      | Status  | Notes           |\n|--------------|---------|-----------------|\n| Headings     | ✅      | H1–H6           |\n| Bold/Italic  | ✅      | CommonMark      |\n| Tables       | ✅      | GFM             |\n| Code blocks  | ✅      | With lang hint  |\n| Math         | ✅      | Dollar syntax   |\n| Images       | ✅      | Relative paths  |\n\n## Math\n\nEuler's identity: $e^{i\\pi} + 1 = 0$\n\n$$\n\\nabla \\cdot \\mathbf{E} = \\frac{\\rho}{\\varepsilon_0}\n$$\n\n## Blockquote\n\n> \"The best way to predict the future is to invent it.\"\n> — Alan Kay\n\n## Lists\n\n### Unordered\n\n- First item\n- Second item\n  - Nested A\n  - Nested B\n- Third item\n\n### Ordered\n\n1. Step one\n2. Step two\n3. Step three\n\n## Horizontal Rule\n\n---\n\n*End of full-featured test document.*\n";

#[test]
fn convert_test_test_simple_convert() {
    let pdf = convert("# Hello\n\nWorld").expect("convert should succeed");
    assert!(!pdf.is_empty(), "PDF should not be empty");
    assert!(pdf.starts_with(b"%PDF"), "Output should be a PDF");
}

#[test]
fn convert_test_test_convert_with_default_theme() {
    let theme = load_builtin("default").unwrap();
    let config = Config::builder().theme(theme).build();
    let pdf = convert_with_config("# Test\n\nContent.", &config).expect("should succeed");
    assert!(pdf.starts_with(b"%PDF"));
}

#[test]
fn convert_test_test_to_typst_heading() {
    let config = Config::builder().build();
    let typst = to_typst("# Hello\n\n## World", &config).unwrap();
    assert!(typst.contains("= Hello"));
    assert!(typst.contains("== World"));
}

#[test]
fn convert_test_test_to_typst_bold_italic() {
    let config = Config::builder().build();
    let typst = to_typst("**bold** and *italic*", &config).unwrap();
    assert!(typst.contains("*bold*"));
    assert!(typst.contains("_italic_"));
}

#[test]
fn convert_test_test_to_typst_code_block() {
    let config = Config::builder().build();
    let typst = to_typst("```rust\nfn main() {}\n```", &config).unwrap();
    assert!(typst.contains("```rust"));
}

#[test]
fn convert_test_test_front_matter_extraction() {
    let md = "---\ntitle: My Title\nauthor: Test Author\n---\n\n# Body";
    let config = Config::builder().build();
    let typst = to_typst(md, &config).unwrap();
    assert!(typst.contains("My Title"));
    assert!(typst.contains("Test Author"));
}

#[test]
fn convert_test_test_toc_generation() {
    let config = Config::builder().toc(true).toc_depth(2).build();
    let typst = to_typst("# Heading 1\n\n## Heading 2", &config).unwrap();
    assert!(typst.contains("#outline"));
}

#[test]
fn convert_test_test_convert_fixtures_basic() {
    let md = BASIC_MD;
    let pdf = convert(md).expect("basic.md should convert");
    assert!(pdf.starts_with(b"%PDF"));
}

#[test]
fn convert_test_test_convert_fixtures_table() {
    let md = GFM_TABLE_MD;
    let pdf = convert(md).expect("gfm_table.md should convert");
    assert!(pdf.starts_with(b"%PDF"));
}

#[test]
fn test_all_themes_load_and_render() {
    for name in ["default", "academic", "minimal", "newspaper"] {
        let theme = load_builtin(name).expect(&format!("theme '{}' should load", name));
        let config = Config::builder().theme(theme).build();
        let pdf = convert_with_config("# Test\n\nContent.", &config)
            .expect(&format!("theme '{}' should render", name));
        assert!(pdf.starts_with(b"%PDF"), "theme '{}' should produce valid PDF", name);
    }
}

#[test]
fn test_all_themes_load() {
    for name in ["default", "academic", "minimal", "newspaper"] {
        let theme = load_builtin(name).expect(&format!("theme '{}' should load", name));
        let config = Config::builder().theme(theme).build();
        let pdf = convert_with_config("# Test\n\nContent.", &config)
            .expect(&format!("theme '{}' should render", name));
        assert!(pdf.starts_with(b"%PDF"), "theme '{}' should produce valid PDF", name);
    }
}

#[test]
fn test_convert_fixtures_math() {
    let md = MATH_MD;
    let pdf = convert(md).expect("math.md should convert to PDF");
    assert!(pdf.starts_with(b"%PDF"));
}

#[test]
fn test_convert_fixtures_cjk() {
    let md = CJK_MD;
    let pdf = convert(md).expect("cjk.md should convert to PDF");
    assert!(pdf.starts_with(b"%PDF"));
}

#[test]
fn test_convert_fixtures_full_featured() {
    let md = FULL_FEATURED_MD;
    let pdf = convert(md).expect("full_featured.md should convert to PDF");
    assert!(pdf.starts_with(b"%PDF"));
}

#[test]
fn latex_math_becomes_typst_math() {
    let config = Config::builder().build();
    let typst = to_typst("Euler: $e^{i\\pi} + 1 = 0$", &config).unwrap();
    assert!(typst.contains("$e^(i pi) + 1 = 0$"), "got {}", typst);
    let typst = to_typst(
        "$$\n\\nabla \\cdot \\mathbf{E} = \\frac{\\rho}{\\varepsilon_0}\n$$",
        &config,
    )
    .unwrap();
    assert!(typst.contains("$ nabla dot.op bold(E) = frac(rho, epsilon_0) $"), "got {}", typst);
}

#[test]
fn test_inline_math_to_typst() {
    let config = Config::builder().build();
    let typst = to_typst("$E = mc^2$", &config).unwrap();
    assert!(typst.contains('$'), "inline math must be preserved: got {}", typst);
}

#[test]
fn test_display_math_to_typst() {
    let config = Config::builder().build();
    let typst = to_typst("$$\n\\int x dx\n$$", &config).unwrap();
    assert!(typst.contains('$'), "display math must be preserved: got {}", typst);
}

#[test]
fn test_tilde_escaped_in_text() {
    let config = Config::builder().build();
    let typst = to_typst("foo~bar", &config).unwrap();
    assert!(typst.contains("foo\\~bar"), "tilde must be escaped: got {}", typst);
}

#[test]
fn test_backtick_in_text_escaped() {
    let config = Config::builder().build();
    let typst = to_typst("foo\\`bar", &config).unwrap();
    assert!(typst.contains("foo\\`bar"), "backtick in text must be escaped: got {}", typst);
}

#[test]
fn test_code_block_preamble_uses_set_raw() {
    let config = Config::builder().build();
    let typst = to_typst("# Hello", &config).unwrap();
    assert!(typst.contains("#set raw("), "preamble must configure raw blocks via #set raw");
}

#[test]
fn test_code_block_show_rule_does_not_override_fill() {
    let config = Config::builder().build();
    let typst = to_typst("# Hello", &config).unwrap();
    let block_rule_start = typst
        .find("raw.where(block: true)")
        .expect("preamble must contain raw.where(block: true) rule");
    let block_rule_section = &typst[block_rule_start..];
    let block_rule_end = block_rule_section
        .find("\n#")
        .unwrap_or(block_rule_section.len());
    let rule = &block_rule_section[..block_rule_end];
    assert!(
        !rule.contains(", fill: rgb("),
        "block code show rule must not contain fill override: got {}",
        rule
    );
}

#[test]
fn test_line_numbers_enabled_in_preamble() {
    let mut theme = load_builtin("default").unwrap();
    theme.code.line_numbers = true;
    let config = Config::builder().theme(theme).build();
    let typst = to_typst("# Hello", &config).unwrap();
    assert!(
        typst.contains("it.lines"),
        "line_numbers=true must produce a raw.lines show rule: got {}",
        &typst[..typst.len().min(1000)]
    );
}

#[test]
fn test_footnote_renders_actual_content() {
    let md = "See this note[^1] for details.\n\n[^1]: This is the footnote content.";
    let config = Config::builder().build();
    let typst = to_typst(md, &config).unwrap();
    assert!(typst.contains("#footnote["), "must emit #footnote[: got {}", typst);
    assert!(
        typst.contains("This is the footnote content"),
        "footnote body must appear inside #footnote[]: got {}",
        typst
    );
}

#[test]
fn test_footnote_converts_to_pdf() {
    let md = "Text with note[^a].\n\n[^a]: Footnote body.";
    let pdf = convert(md).expect("footnote doc should convert to PDF");
    assert!(pdf.starts_with(b"%PDF"));
}

#[test]
fn test_http_image_url_in_typst_markup() {
    let config = Config::builder().build();
    let typst = to_typst("![alt](https://example.com/image.png)", &config).unwrap();
    assert!(
        typst.contains("https://example.com/image.png"),
        "HTTP image URL must be preserved in Typst output: got {}",
        typst
    );
}

#[test]
fn test_cover_adds_pagebreak() {
    let config = Config::builder().cover(true).title("My Paper Title").build();
    let typst = to_typst("# Content", &config).unwrap();
    assert!(typst.contains("#pagebreak()"), "cover must include pagebreak: got {}", typst);
    assert!(typst.contains("My Paper Title"), "cover must include title: got {}", typst);
}

#[test]
fn test_no_cover_no_pagebreak() {
    let config = Config::builder().cover(false).title("My Paper Title").build();
    let typst = to_typst("# Content", &config).unwrap();
    assert!(!typst.contains("#pagebreak()"), "without cover there should be no pagebreak: got {}", typst);
}

#[test]
fn test_cover_page_converts_to_pdf() {
    let config = Config::builder()
        .cover(true)
        .title("Test Cover")
        .author("Test Author")
        .date("2026-03-20")
        .build();
    let pdf = convert_with_config("# Content\n\nBody.", &config).expect("cover doc should render");
    assert!(pdf.starts_with(b"%PDF"));
}

#[test]
fn code_block_with_quoted_info_takes_its_first_word() {
    let config = Config::builder().build();
    let typst = to_typst("```rust title=\"main.rs\"\nfn main() {}\n```", &config).unwrap();
    assert!(typst.contains("```rust\nfn main() {}\n```"));
}
