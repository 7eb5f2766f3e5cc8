use md2paper::cli::{base_dir_of, join_inputs};
use md2paper::determine_output;

#[test]
fn explicit_output_path_wins() {
    let inputs = vec!["notes.md".to_string()];
    assert_eq!(determine_output(&inputs, Some("out/x.pdf")), "out/x.pdf");
}

#[test]
fn output_beside_first_input() {
    let inputs = vec!["docs/paper.md".to_string(), "more.md".to_string()];
    assert_eq!(determine_output(&inputs, None), "docs/paper.pdf");
    let inputs = vec!["paper.md".to_string()];
    assert_eq!(determine_output(&inputs, None), "paper.pdf");
}

#[test]
fn output_for_stdin_or_nothing() {
    let inputs = vec!["-".to_string()];
    assert_eq!(determine_output(&inputs, None), "output.pdf");
    let none: Vec<String> = Vec::new();
    assert_eq!(determine_output(&none, None), "output.pdf");
}

#[test]
fn base_dir_of_an_input() {
    assert_eq!(base_dir_of("paper.md"), Some(".".to_string()));
    assert_eq!(base_dir_of("docs/paper.md"), Some("docs".to_string()));
    assert_eq!(base_dir_of("/"), None);
}

#[test]
fn inputs_join_with_a_blank_line() {
    let parts = vec!["# A".to_string(), "# B".to_string()];
    assert_eq!(join_inputs(&parts), "# A\n\n# B");
    assert_eq!(join_inputs(&vec!["only".to_string()]), "only");
}
