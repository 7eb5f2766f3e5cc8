use md2paper::ast_as_debug_string;

#[test]
fn test_ast_dump_contains_node_types() {
    let dump = ast_as_debug_string("# Hello\n\nWorld");
    assert!(!dump.is_empty(), "dump must not be empty");
    assert!(dump.contains("Heading") || dump.contains("heading"), "must mention heading node");
}

#[test]
fn test_ast_dump_is_valid_json() {
    let dump = ast_as_debug_string("# Hello\n\nWorld");
    let parsed: serde_json::Value =
        serde_json::from_str(&dump).expect("ast dump must be valid JSON");
    assert_eq!(parsed["type"], "Document", "root must be Document");
    let children = parsed["children"].as_array().expect("Document must have children");
    assert!(!children.is_empty(), "must have at least one child");
    let first = &children[0];
    assert_eq!(first["type"], "Heading", "first child of '# Hello' must be Heading");
}

#[test]
fn ast_dump_shows_heading_level_and_text() {
    let dump = ast_as_debug_string("## Two \"quoted\"\n");
    let parsed: serde_json::Value = serde_json::from_str(&dump).unwrap();
    let heading = &parsed["children"][0];
    assert_eq!(heading["data"]["level"], 2);
    assert_eq!(heading["children"][0]["data"]["value"], "Two \"quoted\"");
}

#[test]
fn ast_dump_ignores_front_matter_and_shows_math() {
    let dump = ast_as_debug_string("---\ntitle: T\n---\n$$x$$\n");
    let parsed: serde_json::Value = serde_json::from_str(&dump).unwrap();
    let para = &parsed["children"][0];
    assert_eq!(para["type"], "Paragraph");
    assert_eq!(para["children"][0]["type"], "Math");
    assert_eq!(para["children"][0]["data"]["display"], true);
    assert_eq!(para["children"][0]["data"]["literal"], "x");
}
