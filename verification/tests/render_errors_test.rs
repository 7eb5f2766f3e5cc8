use md2paper::escape::{escape_typst, escape_typst_str};
use md2paper::render::{
    compile_failure, export_failure, render_to_pdf_with_base, render_with_warnings, RenderError,
};
use md2paper::date::today_ymd;
use md2paper::theme::{is_theme_file, load};
use md2paper::{render_to_pdf, ThemeError};

#[test]
fn compile_failure_lists_messages_and_hints_at_latex() {
    let e = compile_failure(&vec!["unknown variable: frac".to_string(), "second".to_string()]);
    match e {
        RenderError::Compile(m) => {
            assert!(m.starts_with("Typst compilation failed:\nunknown variable: frac\nsecond"));
            assert!(m.contains("\n\nHint: md2paper uses Typst math syntax, not LaTeX."));
        }
        _ => panic!("compile error expected"),
    }
    match compile_failure(&vec!["expected expression".to_string()]) {
        RenderError::Compile(m) => assert_eq!(m, "Typst compilation failed:\nexpected expression"),
        _ => panic!("compile error expected"),
    }
    match export_failure(&vec!["a".to_string(), "b".to_string()]) {
        RenderError::Export(m) => assert_eq!(m, "PDF export failed:\na\nb"),
        _ => panic!("export error expected"),
    }
}

#[test]
fn rendering_reports_bad_markup() {
    let err = render_to_pdf("#let x = ").expect_err("incomplete markup does not compile");
    assert!(err.message().starts_with("Typst compilation failed:\n"));
}

#[test]
fn rendering_reads_only_the_given_files() {
    let src = "#read(\"data.txt\")";
    assert!(render_to_pdf(src).is_err());
    let files = vec![("data.txt".to_string(), b"hello".to_vec())];
    let pdf = render_to_pdf_with_base(src, files).expect("the file is given");
    assert!(pdf.starts_with(b"%PDF"));
}

#[test]
fn escaping_for_markup_and_strings() {
    assert_eq!(escape_typst("50$ #1 <a> @me ~ `x` \\"), "50\\$ \\#1 \\<a\\> \\@me \\~ \\`x\\` \\\\");
    assert_eq!(escape_typst_str("say \"hi\" \\ bye"), "say \\\"hi\\\" \\\\ bye");
}

#[test]
fn today_with_offsets() {
    assert_eq!(today_ymd(0, None), Some((1970, 1, 1)));
    assert_eq!(today_ymd(0, Some(-1)), Some((1969, 12, 31)));
    assert_eq!(today_ymd(86_399, Some(1)), Some((1970, 1, 2)));
    assert_eq!(today_ymd(u64::MAX, None), None);
    assert_eq!(today_ymd(0, Some(i64::MAX)), None);
}

#[test]
fn theme_values_naming_files() {
    assert!(is_theme_file("my.toml") && is_theme_file("dir/x") && is_theme_file("a\\b"));
    assert!(!is_theme_file("academic"));
    match load("./my-theme.toml") {
        Err(ThemeError::ThemeFile(p)) => assert_eq!(p, "./my-theme.toml"),
        other => panic!("theme file expected, got {:?}", other.is_ok()),
    }
    match load("fancy") {
        Err(e) => assert_eq!(
            e.message(),
            "Unknown built-in theme: 'fancy'. Available: default, academic, minimal, newspaper"
        ),
        Ok(_) => panic!("no such built-in theme"),
    }
}

#[test]
fn rendering_gives_the_warnings() {
    let (pdf, warnings) = render_with_warnings("#set text(font: \"NoSuchFontAnywhere\")\nHi", Vec::new());
    assert!(pdf.expect("an unknown font is only a warning").starts_with(b"%PDF"));
    assert!(warnings.iter().any(|w| w.contains("unknown font family")), "got {:?}", warnings);
    let (pdf, warnings) = render_with_warnings("Hi", Vec::new());
    assert!(pdf.unwrap().starts_with(b"%PDF"));
    assert!(warnings.is_empty(), "got {:?}", warnings);
}
