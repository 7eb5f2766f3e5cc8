//! Escaping of text for Typst markup and for Typst string literals.
use vstd::prelude::*;
use crate::text::{chars_of, flat_map_chars, lemma_flat_map_take, push_char};

verus! {

/// Characters that have a meaning in Typst markup and are written with a
/// preceding backslash when they stand for themselves.
pub open spec fn is_markup_special(c: char) -> bool {
    c == '\\' || c == '@' || c == '#' || c == '<' || c == '>' || c == '~' || c == '$' || c == '`'
}

/// How one character of body text is written in Typst markup.
pub open spec fn escape_markup_char(c: char) -> Seq<char> {
    if is_markup_special(c) {
        seq!['\\', c]
    } else {
        seq![c]
    }
}

/// Body text escaped for Typst markup.
pub open spec fn spec_escape_typst(s: Seq<char>) -> Seq<char> {
    flat_map_chars(s, |c: char| escape_markup_char(c))
}

/// Characters written with a preceding backslash inside a Typst string literal.
pub open spec fn is_string_special(c: char) -> bool {
    c == '\\' || c == '"'
}

pub open spec fn escape_string_char(c: char) -> Seq<char> {
    if is_string_special(c) {
        seq!['\\', c]
    } else {
        seq![c]
    }
}

/// Text escaped for the inside of a Typst string literal.
pub open spec fn spec_escape_typst_str(s: Seq<char>) -> Seq<char> {
    flat_map_chars(s, |c: char| escape_string_char(c))
}

/// Undoes a backslash escape: a backslash followed by any character stands
/// for that character.
pub open spec fn unescape(s: Seq<char>) -> Seq<char>
    decreases s.len(),
{
    if s.len() == 0 {
        seq![]
    } else if s[0] == '\\' && s.len() >= 2 {
        seq![s[1]] + unescape(s.skip(2))
    } else {
        seq![s[0]] + unescape(s.drop_first())
    }
}

fn is_markup_special_exec(c: char) -> (r: bool)
    ensures
        r == is_markup_special(c),
{
    c == '\\' || c == '@' || c == '#' || c == '<' || c == '>' || c == '~' || c == '$' || c == '`'
}

/// Escapes the characters of `v` that are special in Typst markup, appending
/// the result to `out`.
pub fn push_escaped_typst(out: &mut String, v: &Vec<char>)
    ensures
        final(out)@ == old(out)@ + spec_escape_typst(v@),
{
    let n = v.len();
    for i in 0..n
        invariant
            n == v@.len(),
            out@ == old(out)@ + spec_escape_typst(v@.take(i as int)),
    {
        let c = v[i];
        if is_markup_special_exec(c) {
            push_char(out, '\\');
        }
        push_char(out, c);
        proof {
            lemma_flat_map_take(v@, i as int, |c: char| escape_markup_char(c));
            assert(out@ =~= old(out)@ + spec_escape_typst(v@.take(i as int)) + escape_markup_char(c));
        }
    }
    assert(v@.take(n as int) =~= v@);
}

/// Escapes special Typst characters in body text.
pub fn escape_typst(s: &str) -> (r: String)
    ensures
        r@ == spec_escape_typst(s@),
{
    let v = chars_of(s);
    let mut out = String::new();
    push_escaped_typst(&mut out, &v);
    out
}

/// Escapes the characters of `v` for a Typst string literal, appending the
/// result to `out`.
pub fn push_escaped_typst_str(out: &mut String, v: &Vec<char>)
    ensures
        final(out)@ == old(out)@ + spec_escape_typst_str(v@),
{
    let n = v.len();
    for i in 0..n
        invariant
            n == v@.len(),
            out@ == old(out)@ + spec_escape_typst_str(v@.take(i as int)),
    {
        let c = v[i];
        if c == '\\' || c == '"' {
            push_char(out, '\\');
        }
        push_char(out, c);
        proof {
            lemma_flat_map_take(v@, i as int, |c: char| escape_string_char(c));
            assert(out@ =~= old(out)@ + spec_escape_typst_str(v@.take(i as int))
                + escape_string_char(c));
        }
    }
    assert(v@.take(n as int) =~= v@);
}

/// Escapes characters inside Typst string literals.
pub fn escape_typst_str(s: &str) -> (r: String)
    ensures
        r@ == spec_escape_typst_str(s@),
{
    let v = chars_of(s);
    let mut out = String::new();
    push_escaped_typst_str(&mut out, &v);
    out
}

proof fn lemma_unescape_prepend(c: char, rest: Seq<char>, f: spec_fn(char) -> Seq<char>, special: bool)
    requires
        special ==> f(c) == seq!['\\', c],
        !special ==> f(c) == seq![c] && c != '\\',
    ensures
        unescape(f(c) + rest) == seq![c] + unescape(rest),
{
    let s = f(c) + rest;
    if special {
        assert(s[0] == '\\');
        assert(s[1] == c);
        assert(s.skip(2) =~= rest);
    } else {
        assert(s[0] == c);
        assert(s.drop_first() =~= rest);
    }
}

/// Escaping body text loses nothing: removing the backslash escapes from the
/// escaped text gives back the original text.
pub proof fn lemma_escape_typst_roundtrip(s: Seq<char>)
    ensures
        unescape(spec_escape_typst(s)) == s,
    decreases s.len(),
{
    if s.len() > 0 {
        let f = |c: char| escape_markup_char(c);
        lemma_escape_typst_roundtrip(s.drop_first());
        lemma_unescape_prepend(s[0], spec_escape_typst(s.drop_first()), f, is_markup_special(s[0]));
        assert(seq![s[0]] + s.drop_first() =~= s);
    }
}

/// Escaping for string literals loses nothing either.
pub proof fn lemma_escape_typst_str_roundtrip(s: Seq<char>)
    ensures
        unescape(spec_escape_typst_str(s)) == s,
    decreases s.len(),
{
    if s.len() > 0 {
        let f = |c: char| escape_string_char(c);
        lemma_escape_typst_str_roundtrip(s.drop_first());
        lemma_unescape_prepend(s[0], spec_escape_typst_str(s.drop_first()), f, is_string_special(s[0]));
        assert(seq![s[0]] + s.drop_first() =~= s);
    }
}

} // verus!
