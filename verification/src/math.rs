//! Math in LaTeX notation, as KaTeX reads it, turned into Typst math:
//! commands lose their backslash (and take their Typst name where it
//! differs), braces become parentheses, and `}{` between two arguments
//! becomes a comma.  Math that holds no backslash and no brace is Typst math
//! already and is left as it is.
use vstd::prelude::*;
use crate::text::{chars_of, eq_chars};

verus! {

/// Whether a character is an ASCII letter.
pub open spec fn is_ascii_letter(c: char) -> bool {
    ('a' <= c && c <= 'z') || ('A' <= c && c <= 'Z')
}

/// Whether a character is an ASCII letter or digit.
pub open spec fn is_ascii_alnum(c: char) -> bool {
    is_ascii_letter(c) || ('0' <= c && c <= '9')
}

fn letter(c: char) -> (r: bool)
    ensures
        r == is_ascii_letter(c),
{
    ('a' <= c && c <= 'z') || ('A' <= c && c <= 'Z')
}

fn alnum(c: char) -> (r: bool)
    ensures
        r == is_ascii_alnum(c),
{
    letter(c) || ('0' <= c && c <= '9')
}

/// Where the run of letters that starts at `k` ends.
pub open spec fn letters_end(s: Seq<char>, k: int) -> int
    decreases s.len() - k,
{
    if 0 <= k < s.len() && is_ascii_letter(s[k]) {
        letters_end(s, k + 1)
    } else {
        k
    }
}

/// The Typst name of a LaTeX command, without its backslash: the commands
/// whose Typst name differs are listed, every other keeps its name.
pub open spec fn tex_word(name: Seq<char>) -> Seq<char> {
    if name == "cdot"@ {
        "dot.op"@
    } else if name == "cdots"@ {
        "dots.h.c"@
    } else if name == "ldots"@ || name == "dots"@ {
        "dots.h"@
    } else if name == "varepsilon"@ {
        "epsilon"@
    } else if name == "epsilon"@ {
        "epsilon.alt"@
    } else if name == "varphi"@ {
        "phi"@
    } else if name == "phi"@ {
        "phi.alt"@
    } else if name == "infty"@ {
        "infinity"@
    } else if name == "int"@ {
        "integral"@
    } else if name == "iint"@ {
        "integral.double"@
    } else if name == "oint"@ {
        "integral.cont"@
    } else if name == "partial"@ {
        "diff"@
    } else if name == "pm"@ {
        "plus.minus"@
    } else if name == "mp"@ {
        "minus.plus"@
    } else if name == "leq"@ || name == "le"@ {
        "<="@
    } else if name == "geq"@ || name == "ge"@ {
        ">="@
    } else if name == "neq"@ || name == "ne"@ {
        "!="@
    } else if name == "to"@ || name == "rightarrow"@ {
        "->"@
    } else if name == "leftarrow"@ {
        "<-"@
    } else if name == "Rightarrow"@ {
        "=>"@
    } else if name == "mathbf"@ {
        "bold"@
    } else if name == "mathrm"@ {
        "upright"@
    } else if name == "mathit"@ {
        "italic"@
    } else if name == "mathcal"@ {
        "cal"@
    } else if name == "operatorname"@ {
        "op"@
    } else if name == "vec"@ {
        "arrow"@
    } else if name == "left"@ || name == "right"@ {
        seq![]
    } else {
        name
    }
}

/// The Typst name of a LaTeX command.
pub fn tex_word_chars(name: &Vec<char>) -> (r: Vec<char>)
    ensures
        r@ == tex_word(name@),
{
    if eq_chars(name, &chars_of("cdot")) {
        chars_of("dot.op")
    } else if eq_chars(name, &chars_of("cdots")) {
        chars_of("dots.h.c")
    } else if eq_chars(name, &chars_of("ldots")) || eq_chars(name, &chars_of("dots")) {
        chars_of("dots.h")
    } else if eq_chars(name, &chars_of("varepsilon")) {
        chars_of("epsilon")
    } else if eq_chars(name, &chars_of("epsilon")) {
        chars_of("epsilon.alt")
    } else if eq_chars(name, &chars_of("varphi")) {
        chars_of("phi")
    } else if eq_chars(name, &chars_of("phi")) {
        chars_of("phi.alt")
    } else if eq_chars(name, &chars_of("infty")) {
        chars_of("infinity")
    } else if eq_chars(name, &chars_of("int")) {
        chars_of("integral")
    } else if eq_chars(name, &chars_of("iint")) {
        chars_of("integral.double")
    } else if eq_chars(name, &chars_of("oint")) {
        chars_of("integral.cont")
    } else if eq_chars(name, &chars_of("partial")) {
        chars_of("diff")
    } else if eq_chars(name, &chars_of("pm")) {
        chars_of("plus.minus")
    } else if eq_chars(name, &chars_of("mp")) {
        chars_of("minus.plus")
    } else if eq_chars(name, &chars_of("leq")) || eq_chars(name, &chars_of("le")) {
        chars_of("<=")
    } else if eq_chars(name, &chars_of("geq")) || eq_chars(name, &chars_of("ge")) {
        chars_of(">=")
    } else if eq_chars(name, &chars_of("neq")) || eq_chars(name, &chars_of("ne")) {
        chars_of("!=")
    } else if eq_chars(name, &chars_of("to")) || eq_chars(name, &chars_of("rightarrow")) {
        chars_of("->")
    } else if eq_chars(name, &chars_of("leftarrow")) {
        chars_of("<-")
    } else if eq_chars(name, &chars_of("Rightarrow")) {
        chars_of("=>")
    } else if eq_chars(name, &chars_of("mathbf")) {
        chars_of("bold")
    } else if eq_chars(name, &chars_of("mathrm")) {
        chars_of("upright")
    } else if eq_chars(name, &chars_of("mathit")) {
        chars_of("italic")
    } else if eq_chars(name, &chars_of("mathcal")) {
        chars_of("cal")
    } else if eq_chars(name, &chars_of("operatorname")) {
        chars_of("op")
    } else if eq_chars(name, &chars_of("vec")) {
        chars_of("arrow")
    } else if eq_chars(name, &chars_of("left")) || eq_chars(name, &chars_of("right")) {
        Vec::new()
    } else {
        name.clone()
    }
}

/// One step of the translation at position `i` of `s`, after `out` was
/// written: the position after what was read, and `out` with what it
/// became.  A command becomes its Typst name, set off by a space from a
/// letter or digit before or after it; a backslash before any other
/// character is kept with it; `}{` becomes `, `, `{` becomes `(`, `}`
/// becomes `)`, and any other character is kept.
pub open spec fn tex_step(s: Seq<char>, i: int, out: Seq<char>) -> (int, Seq<char>) {
    let c = s[i];
    if c == '\\' && i + 1 < s.len() && is_ascii_letter(s[i + 1]) {
        let j = letters_end(s, i + 1);
        let word = tex_word(s.subrange(i + 1, j));
        let before: Seq<char> = if word.len() > 0 && out.len() > 0 && is_ascii_alnum(out.last()) {
            seq![' ']
        } else {
            seq![]
        };
        let after: Seq<char> = if word.len() > 0 && j < s.len() && is_ascii_alnum(s[j]) {
            seq![' ']
        } else {
            seq![]
        };
        (j, out + before + word + after)
    } else if c == '\\' && i + 1 < s.len() {
        (i + 2, out + seq![c, s[i + 1]])
    } else if c == '}' && i + 1 < s.len() && s[i + 1] == '{' {
        (i + 2, out + seq![',', ' '])
    } else if c == '{' {
        (i + 1, out.push('('))
    } else if c == '}' {
        (i + 1, out.push(')'))
    } else {
        (i + 1, out.push(c))
    }
}

/// The translation of `s` from position `i` on, after `out` was written.
pub open spec fn tex_from(s: Seq<char>, i: int, out: Seq<char>) -> Seq<char>
    decreases s.len() - i,
{
    if 0 <= i < s.len() {
        let (j, o) = tex_step(s, i, out);
        if i < j <= s.len() {
            tex_from(s, j, o)
        } else {
            out
        }
    } else {
        out
    }
}

/// The Typst math that the LaTeX math `s` becomes.
pub open spec fn tex_math(s: Seq<char>) -> Seq<char> {
    tex_from(s, 0, seq![])
}

proof fn lemma_letters_end_bounds(s: Seq<char>, k: int)
    requires
        0 <= k <= s.len(),
    ensures
        k <= letters_end(s, k) <= s.len(),
    decreases s.len() - k,
{
    if k < s.len() && is_ascii_letter(s[k]) {
        lemma_letters_end_bounds(s, k + 1);
    }
}

/// Turns LaTeX math into Typst math.
pub fn tex_to_typst(s: &Vec<char>) -> (r: Vec<char>)
    ensures
        r@ == tex_math(s@),
{
    let mut out: Vec<char> = Vec::new();
    let n = s.len();
    let mut i: usize = 0;
    while i < n
        invariant
            n == s@.len(),
            i <= n,
            tex_from(s@, i as int, out@) == tex_math(s@),
        decreases n - i,
    {
        let ghost before = out@;
        let c = s[i];
        let next: usize;
        if c == '\\' && i + 1 < n && letter(s[i + 1]) {
            let mut name: Vec<char> = Vec::new();
            let mut j: usize = i + 1;
            while j < n && letter(s[j])
                invariant
                    n == s@.len(),
                    i + 1 <= j <= n,
                    name@ == s@.subrange(i + 1, j as int),
                    letters_end(s@, i + 1) == letters_end(s@, j as int),
                decreases n - j,
            {
                name.push(s[j]);
                j = j + 1;
                assert(name@ =~= s@.subrange(i + 1, j as int));
            }
            assert(letters_end(s@, j as int) == j);
            assert(j >= i + 2) by {
                assert(is_ascii_letter(s@[i + 1]));
                lemma_letters_end_bounds(s@, i + 2);
            }
            let mut word = tex_word_chars(&name);
            if word.len() > 0 && out.len() > 0 && alnum(out[out.len() - 1]) {
                out.push(' ');
            }
            let spaced = word.len() > 0 && j < n && alnum(s[j]);
            out.append(&mut word);
            if spaced {
                out.push(' ');
            }
            next = j;
            proof {
                let (sj, so) = tex_step(s@, i as int, before);
                assert(sj == j);
                assert(out@ =~= so);
            }
        } else if c == '\\' && i + 1 < n {
            out.push(c);
            out.push(s[i + 1]);
            next = i + 2;
            assert(out@ =~= before + seq![c, s@[i + 1]]);
        } else if c == '}' && i + 1 < n && s[i + 1] == '{' {
            out.push(',');
            out.push(' ');
            next = i + 2;
            assert(out@ =~= before + seq![',', ' ']);
        } else if c == '{' {
            out.push('(');
            next = i + 1;
        } else if c == '}' {
            out.push(')');
            next = i + 1;
        } else {
            out.push(c);
            next = i + 1;
        }
        proof {
            let (sj, so) = tex_step(s@, i as int, before);
            assert(sj == next && so == out@);
            assert(tex_from(s@, i as int, before) == tex_from(s@, next as int, out@));
        }
        i = next;
    }
    out
}

/// Math with no backslash and no brace is left as it is: Typst math passes
/// through unchanged.
pub proof fn lemma_plain_math_unchanged(s: Seq<char>)
    requires
        forall|k: int| 0 <= k < s.len() ==> #[trigger] s[k] != '\\' && s[k] != '{' && s[k] != '}',
    ensures
        tex_math(s) == s,
{
    lemma_plain_from(s, 0);
    assert(s.take(0) =~= seq![]);
}

proof fn lemma_plain_from(s: Seq<char>, i: int)
    requires
        0 <= i <= s.len(),
        forall|k: int| 0 <= k < s.len() ==> #[trigger] s[k] != '\\' && s[k] != '{' && s[k] != '}',
    ensures
        tex_from(s, i, s.take(i)) == s,
    decreases s.len() - i,
{
    if i < s.len() {
        assert(s[i] != '\\' && s[i] != '{' && s[i] != '}');
        assert(s.take(i).push(s[i]) =~= s.take(i + 1));
        lemma_plain_from(s, i + 1);
    } else {
        assert(s.take(i) =~= s);
    }
}

} // verus!
