use md2paper::inject::generate_preamble;
use md2paper::{load, load_builtin};

#[test]
fn test_load_builtin_default() {
    let theme = load_builtin("default").unwrap();
    assert_eq!(theme.meta.name, "default");
    assert_eq!(theme.page.paper, "a4");
    assert_eq!(theme.page.columns, 1);
}

#[test]
fn test_load_builtin_academic() {
    let theme = load_builtin("academic").unwrap();
    assert_eq!(theme.meta.name, "academic");
}

#[test]
fn test_load_builtin_minimal() {
    let theme = load_builtin("minimal").unwrap();
    assert_eq!(theme.meta.name, "minimal");
}

#[test]
fn test_load_builtin_newspaper() {
    let theme = load_builtin("newspaper").unwrap();
    assert_eq!(theme.meta.name, "newspaper");
    assert_eq!(theme.page.columns, 2);
}

#[test]
fn test_load_unknown_builtin_fails() {
    assert!(load_builtin("nonexistent").is_err());
}

#[test]
fn test_load_by_name() {
    let theme = load("default").unwrap();
    assert_eq!(theme.meta.name, "default");
}

#[test]
fn test_generate_preamble_contains_key_elements() {
    let theme = load_builtin("default").unwrap();
    let preamble = generate_preamble(&theme, "My Title", "Author", "2026", false);
    assert!(preamble.contains("#set page("));
    assert!(preamble.contains("#set text("));
    assert!(preamble.contains("#show heading:"));
    assert!(preamble.contains("My Title"));
    assert!(preamble.contains("Author"));
}

#[test]
fn the_preamble_ends_with_the_title_block() {
    let theme = load_builtin("default").unwrap();
    let bare = generate_preamble(&theme, "", "", "2024-01-01", true);
    assert!(bare.ends_with("it.body),\n  )\n}\n"), "got {}", bare);
    assert!(!bare.contains("#pagebreak()"));
    let covered = generate_preamble(&theme, "T", "", "", true);
    assert!(covered.ends_with("\n]\n#pagebreak()\n\n"), "got {}", covered);
    let inline = generate_preamble(&theme, "T", "A", "D", false);
    assert!(!inline.ends_with("#pagebreak()\n\n"));
    assert!(!inline.contains("#pagebreak()"));
}
