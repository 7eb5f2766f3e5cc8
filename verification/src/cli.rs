//! The decisions of the command line: how several inputs are joined, which
//! directory assets are resolved against, and where the PDF is written.
use vstd::prelude::*;
use crate::text::{join, push_joined, str_eq, views};

verus! {

/// The text of an optional string.
pub open spec fn opt_chars(o: Option<String>) -> Option<Seq<char>> {
    match o {
        Some(s) => Some(s@),
        None => None,
    }
}

/// The file name of `path` without its extension, as `Path::file_stem`
/// gives it.
pub uninterp spec fn path_stem(path: Seq<char>) -> Option<Seq<char>>;

/// The directory part of `path`, as `Path::parent` gives it.
pub uninterp spec fn path_parent(path: Seq<char>) -> Option<Seq<char>>;

/// `name` joined onto `dir`, as `Path::join` gives it.
pub uninterp spec fn path_join(dir: Seq<char>, name: Seq<char>) -> Seq<char>;

/// The stem of a path's file name.
///
/// Trusted: calls `Path::file_stem`, taking the result lossily as text;
/// claimed only to be a function of the path.
#[verifier::external_body]
fn file_stem(path: &str) -> (r: Option<String>)
    ensures
        opt_chars(r) == path_stem(path@),
{
    std::path::Path::new(path).file_stem().map(|s| s.to_string_lossy().into_owned())
}

/// The directory part of a path.
///
/// Trusted: calls `Path::parent`, taking the result lossily as text;
/// claimed only to be a function of the path.
#[verifier::external_body]
fn parent_dir(path: &str) -> (r: Option<String>)
    ensures
        opt_chars(r) == path_parent(path@),
{
    std::path::Path::new(path).parent().map(|p| p.to_string_lossy().into_owned())
}

/// A file name joined onto a directory.
///
/// Trusted: calls `Path::join`, taking the result lossily as text; claimed
/// only to be a function of its arguments.
#[verifier::external_body]
fn join_path(dir: &str, name: &str) -> (r: String)
    ensures
        r@ == path_join(dir@, name@),
{
    std::path::Path::new(dir).join(name).to_string_lossy().into_owned()
}

/// Where the PDF goes: the explicit path if there is one; else beside the
/// first input, named by its stem with `.pdf`; else `output.pdf` (no input,
/// or standard input first).
pub open spec fn output_path(inputs: Seq<Seq<char>>, explicit: Option<Seq<char>>) -> Seq<char> {
    match explicit {
        Some(p) => p,
        None => if inputs.len() > 0 && inputs[0] != "-"@ {
            let stem = match path_stem(inputs[0]) {
                Some(s) => s,
                None => seq![],
            };
            let dir = match path_parent(inputs[0]) {
                Some(d) => d,
                None => "."@,
            };
            path_join(dir, stem + ".pdf"@)
        } else {
            "output.pdf"@
        },
    }
}

/// Decides the output path of the PDF.
pub fn determine_output(inputs: &Vec<String>, explicit: Option<&str>) -> (r: String)
    ensures
        r@ == output_path(views(inputs@), match explicit {
            Some(p) => Some(p@),
            None => None,
        }),
{
    match explicit {
        Some(p) => {
            let mut r = String::new();
            r.append(p);
            return r;
        },
        None => {},
    }
    if inputs.len() > 0 && !str_eq(inputs[0].as_str(), "-") {
        let first = inputs[0].as_str();
        let mut name = match file_stem(first) {
            Some(s) => s,
            None => String::new(),
        };
        name.append(".pdf");
        let dir = match parent_dir(first) {
            Some(d) => d,
            None => {
                let mut d = String::new();
                d.append(".");
                d
            },
        };
        join_path(dir.as_str(), name.as_str())
    } else {
        let mut r = String::new();
        r.append("output.pdf");
        r
    }
}

/// The directory that assets of an input file are resolved against: the
/// file's directory, `.` where that is empty.
pub open spec fn input_base_dir(path: Seq<char>) -> Option<Seq<char>> {
    match path_parent(path) {
        Some(d) => if d.len() == 0 {
            Some("."@)
        } else {
            Some(d)
        },
        None => None,
    }
}

/// The base directory of an input file, where it has one.
pub fn base_dir_of(path: &str) -> (r: Option<String>)
    ensures
        opt_chars(r) == input_base_dir(path@),
{
    match parent_dir(path) {
        Some(d) => {
            if d.as_str().unicode_len() == 0 {
                let mut dot = String::new();
                dot.append(".");
                Some(dot)
            } else {
                Some(d)
            }
        },
        None => None,
    }
}

/// Several inputs are read as one document, separated by a blank line.
pub fn join_inputs(parts: &Vec<String>) -> (r: String)
    ensures
        r@ == join(views(parts@), "\n\n"@),
{
    let mut r = String::new();
    push_joined(&mut r, parts, "\n\n");
    r
}

} // verus!
