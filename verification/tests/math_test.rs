use md2paper::math::{tex_to_typst, tex_word_chars};

fn tex(s: &str) -> String {
    tex_to_typst(&s.chars().collect()).into_iter().collect()
}

#[test]
fn commands_lose_their_backslash() {
    assert_eq!(tex("\\alpha + \\beta"), "alpha + beta");
    assert_eq!(tex("\\sum_{i=1}^{n} i"), "sum_(i=1)^(n) i");
}

#[test]
fn commands_take_their_typst_names() {
    assert_eq!(tex("\\int_0^\\infty f"), "integral_0^infinity f");
    assert_eq!(tex("a \\leq b \\neq c"), "a <= b != c");
    assert_eq!(tex("\\partial x \\to 0"), "diff x -> 0");
    assert_eq!(tex("\\left( x \\right)"), "( x )");
}

#[test]
fn command_names_are_set_off_from_letters() {
    assert_eq!(tex("2\\pi r"), "2 pi r");
    assert_eq!(tex("\\pi\\cdot\\pi"), "pi dot.op pi");
}

#[test]
fn arguments_become_parentheses() {
    assert_eq!(tex("\\frac{a}{b}"), "frac(a, b)");
    assert_eq!(tex("\\sqrt{x}"), "sqrt(x)");
    assert_eq!(tex("\\mathbf{E}"), "bold(E)");
}

#[test]
fn escaped_characters_are_kept() {
    assert_eq!(tex("\\{x\\}"), "\\{x\\}");
    assert_eq!(tex("a\\,b"), "a\\,b");
    assert_eq!(tex("x\\"), "x\\");
}

#[test]
fn typst_math_passes_through() {
    let m = "sum_(i=1)^n i = (n(n+1))/2";
    assert_eq!(tex(m), m);
    assert_eq!(tex(""), "");
}

#[test]
fn the_table_of_typst_names() {
    let word = |s: &str| -> String { tex_word_chars(&s.chars().collect()).into_iter().collect() };
    assert_eq!(word("cdot"), "dot.op");
    assert_eq!(word("varepsilon"), "epsilon");
    assert_eq!(word("epsilon"), "epsilon.alt");
    assert_eq!(word("mathrm"), "upright");
    assert_eq!(word("left"), "");
    assert_eq!(word("alpha"), "alpha");
}
