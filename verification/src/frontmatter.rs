//! Finding a document's front matter: a block of YAML between a first line
//! `---` and a later line `---`.
use vstd::prelude::*;
use crate::text::{
    chars_of, contains, find, find_chars, lemma_find_from, lemma_occurs_at_split, occurs_at, starts_with,
    starts_with_chars, string_of,
};

verus! {

/// The document split into the body and the text of its front matter, where
/// it has front matter.
///
/// A document has front matter when it starts with `---` and a line break
/// and a later line is `---`; that line ends with a line break (`\n` or
/// `\r`, one character of which is dropped) or ends the document. The
/// first `\n---\n` after the opening line closes the front matter; failing
/// that, the first `\n---` that is followed by a line break or by the end.
pub open spec fn spec_split_front_matter(s: Seq<char>) -> (Seq<char>, Option<Seq<char>>) {
    if starts_with(s, "---\n"@) {
        let rest = s.skip(4);
        match find(rest, "\n---\n"@) {
            Some(e) => (rest.skip(e + 5), Some(rest.take(e))),
            None => match find(rest, "\n---"@) {
                Some(e) => if e + 4 >= rest.len() || rest[e + 4] == '\n' || rest[e + 4] == '\r' {
                    (if e + 4 < rest.len() { rest.skip(e + 5) } else { seq![] }, Some(rest.take(e)))
                } else {
                    (s, None)
                },
                None => (s, None),
            },
        }
    } else {
        (s, None)
    }
}

fn suffix(v: &Vec<char>, from: usize) -> (r: String)
    requires
        from <= v@.len(),
    ensures
        r@ == v@.skip(from as int),
{
    let mut r: Vec<char> = Vec::new();
    let mut i = from;
    while i < v.len()
        invariant
            from <= i <= v@.len(),
            r@ == v@.subrange(from as int, i as int),
        decreases v@.len() - i,
    {
        r.push(v[i]);
        assert(v@.subrange(from as int, i + 1) =~= v@.subrange(from as int, i as int).push(v@[i as int]));
        i = i + 1;
    }
    assert(v@.subrange(from as int, v@.len() as int) =~= v@.skip(from as int));
    string_of(&r)
}

fn prefix(v: &Vec<char>, to: usize) -> (r: String)
    requires
        to <= v@.len(),
    ensures
        r@ == v@.take(to as int),
{
    let mut r: Vec<char> = Vec::new();
    let mut i: usize = 0;
    while i < to
        invariant
            i <= to <= v@.len(),
            r@ == v@.take(i as int),
        decreases to - i,
    {
        r.push(v[i]);
        assert(v@.take(i + 1) =~= v@.take(i as int).push(v@[i as int]));
        i = i + 1;
    }
    string_of(&r)
}

/// Splits a document into its body and the YAML text of its front matter.
pub fn split_front_matter(source: &str) -> (r: (String, Option<String>))
    ensures
        r.0@ == spec_split_front_matter(source@).0,
        match r.1 {
            Some(y) => spec_split_front_matter(source@).1 == Some(y@),
            None => spec_split_front_matter(source@).1 is None,
        },
{
    let s = chars_of(source);
    proof {
        reveal_strlit("---\n");
    }
    if !starts_with_chars(&s, &chars_of("---\n")) {
        return (source.to_owned(), None);
    }
    let rest_str = suffix(&s, 4);
    let rest = chars_of(rest_str.as_str());
    assert(rest@ == s@.skip(4));
    match find_chars(&rest, &chars_of("\n---\n")) {
        Some(end) => {
            proof {
                lemma_find_from(rest@, "\n---\n"@, 0);
                reveal_strlit("\n---\n");
                assert(occurs_at(rest@, "\n---\n"@, end as int));
                assert("\n---\n"@.len() == 5);
                assert(end + 5 <= rest.len());
            }
            return (suffix(&rest, end + 5), Some(prefix(&rest, end)));
        },
        None => {},
    }
    match find_chars(&rest, &chars_of("\n---")) {
        Some(end) => {
            proof {
                lemma_find_from(rest@, "\n---"@, 0);
                reveal_strlit("\n---");
                assert(occurs_at(rest@, "\n---"@, end as int));
                assert("\n---"@.len() == 4);
                assert(end + 4 <= rest.len());
            }
            let next = end + 4;
            if next >= rest.len() || rest[next] == '\n' || rest[next] == '\r' {
                let after = if next < rest.len() {
                    suffix(&rest, next + 1)
                } else {
                    String::new()
                };
                return (after, Some(prefix(&rest, end)));
            }
        },
        None => {},
    }
    (source.to_owned(), None)
}

/// A document that does not start with `---` and a line break, or has no
/// `---` on a later line, has no front matter and passes through unchanged.
pub proof fn lemma_no_front_matter_passes_through(s: Seq<char>)
    requires
        !starts_with(s, "---\n"@) || !contains(s.skip(4), "\n---"@),
    ensures
        spec_split_front_matter(s) == (s, Option::<Seq<char>>::None),
{
    reveal_strlit("\n---\n");
    reveal_strlit("\n---");
    if starts_with(s, "---\n"@) {
        let rest = s.skip(4);
        lemma_find_from(rest, "\n---\n"@, 0);
        lemma_find_from(rest, "\n---"@, 0);
        if let Some(e) = find(rest, "\n---\n"@) {
            assert(rest.subrange(e, e + 5).subrange(0, 4) =~= rest.subrange(e, e + 4));
            assert("\n---\n"@.subrange(0, 4) =~= "\n---"@);
            assert(rest.subrange(e, e + 4) == "\n---"@);
            assert(occurs_at(rest, "\n---"@, e));
        }
        if let Some(e) = find(rest, "\n---"@) {
            assert(occurs_at(rest, "\n---"@, e));
        }
    }
}

/// When front matter is found, nothing of the document is lost or added:
/// the document is the opening line, the front matter, the closing `---`, at
/// most one line-break character, and the body.
pub proof fn lemma_split_front_matter_reassembles(s: Seq<char>)
    ensures
        spec_split_front_matter(s).1 matches Some(y) ==> {
            let b = spec_split_front_matter(s).0;
            ||| s == "---\n"@ + y + "\n---\n"@ + b
            ||| s == "---\n"@ + y + "\n---\r"@ + b
            ||| s == "---\n"@ + y + "\n---"@ && b.len() == 0
        },
        spec_split_front_matter(s).1 is None ==> spec_split_front_matter(s).0 == s,
{
    if starts_with(s, "---\n"@) {
        reveal_strlit("---\n");
        let rest = s.skip(4);
        assert(s =~= "---\n"@ + rest);
        lemma_find_from(rest, "\n---\n"@, 0);
        lemma_find_from(rest, "\n---"@, 0);
        match find(rest, "\n---\n"@) {
            Some(e) => {
                lemma_occurs_at_split(rest, "\n---\n"@, e);
                reveal_strlit("\n---\n");
                assert(s =~= "---\n"@ + rest.take(e) + "\n---\n"@ + rest.skip(e + 5));
            },
            None => match find(rest, "\n---"@) {
                Some(e) => {
                    lemma_occurs_at_split(rest, "\n---"@, e);
                    reveal_strlit("\n---");
                    let head = "---\n"@ + rest.take(e);
                    if e + 4 >= rest.len() {
                        assert(rest.skip(e + 4) =~= Seq::<char>::empty());
                        assert(s =~= head + "\n---"@);
                    } else if rest[e + 4] == '\n' {
                        reveal_strlit("\n---\n");
                        assert(rest.skip(e + 4) =~= seq!['\n'] + rest.skip(e + 5));
                        assert(s =~= head + "\n---\n"@ + rest.skip(e + 5));
                    } else if rest[e + 4] == '\r' {
                        reveal_strlit("\n---\r");
                        assert(rest.skip(e + 4) =~= seq!['\r'] + rest.skip(e + 5));
                        assert(s =~= head + "\n---\r"@ + rest.skip(e + 5));
                    }
                },
                None => {},
            },
        }
    }
}

} // verus!
