//! The CommonMark XML form of a parsed Markdown document, and a reader for
//! it.
//!
//! The Markdown parser hands the library its syntax tree as CommonMark XML:
//! two header lines, then one element per node, each on its own line(s),
//! indented by two spaces per level (at most forty).  `document_xml` states
//! that layout; `parse_document_xml` reads it back: what it returns prints
//! to exactly the text it read, and the form of any element that can be
//! read back is read back as that element.
//!
//! The readers take up to two written elements as ghost arguments and read
//! each of them back; given two elements with the same form, the one thing
//! they read is both, so the two hold the same texts.
use vstd::prelude::*;
use crate::text::{
    chars_of, contains, flat_map_chars, lemma_flat_map_append, matches_at, occurs_at, repeat,
    string_of,
};

verus! {

/// One element of the XML form: its name, its attributes in order, the text
/// of a literal element (`xml:space="preserve"`), and its child elements.
#[derive(Debug)]
pub struct XmlElement {
    pub name: String,
    pub attrs: Vec<(String, String)>,
    pub literal: Option<String>,
    pub children: Vec<XmlElement>,
}

/// How one character of text or of an attribute value is written.
pub open spec fn escape_xml_char(c: char) -> Seq<char> {
    if c == '"' {
        "&quot;"@
    } else if c == '&' {
        "&amp;"@
    } else if c == '<' {
        "&lt;"@
    } else if c == '>' {
        "&gt;"@
    } else if c == '\0' {
        seq!['\u{fffd}']
    } else {
        seq![c]
    }
}

/// Text as it is written in the XML form.
pub open spec fn escape_xml(s: Seq<char>) -> Seq<char> {
    flat_map_chars(s, |c: char| escape_xml_char(c))
}

/// The indentation of an element at nesting depth `depth`.
pub open spec fn indent(depth: nat) -> Seq<char> {
    repeat(" "@, if depth >= 20 { 40 } else { 2 * depth })
}

/// One attribute: the `info` of a code block is written as it is, every
/// other value escaped.
pub open spec fn attr_xml(a: (String, String)) -> Seq<char> {
    " "@ + a.0@ + "=\""@ + (if a.0@ == "info"@ {
        a.1@
    } else {
        escape_xml(a.1@)
    }) + "\""@
}

pub open spec fn attrs_xml(s: Seq<(String, String)>) -> Seq<char>
    decreases s.len(),
{
    if s.len() == 0 {
        seq![]
    } else {
        attrs_xml(s.drop_last()) + attr_xml(s.last())
    }
}

/// The marker that opens the text of a literal element.
pub open spec fn preserve_marker() -> Seq<char> {
    " xml:space=\"preserve\">"@
}

/// The closing tag of an element named `name` at depth `depth`.
pub open spec fn close_tag(name: Seq<char>, depth: nat) -> Seq<char> {
    indent(depth) + "</"@ + name + ">\n"@
}

/// An element at depth `depth`: a literal element on one line, an element
/// without children as one self-closing line, any other element as an
/// opening line, its children one level deeper, and a closing line.
pub open spec fn element_xml(e: XmlElement, depth: nat) -> Seq<char>
    decreases e, 0nat,
{
    indent(depth) + "<"@ + e.name@ + attrs_xml(e.attrs@) + match e.literal {
        Some(l) => preserve_marker() + escape_xml(l@) + "</"@ + e.name@ + ">\n"@,
        None => if e.children@.len() == 0 {
            " />\n"@
        } else {
            ">\n"@ + elements_xml(e.children@, depth + 1) + close_tag(e.name@, depth)
        },
    }
}

pub open spec fn elements_xml(s: Seq<XmlElement>, depth: nat) -> Seq<char>
    decreases s, 0nat,
{
    if s.len() == 0 {
        seq![]
    } else {
        elements_xml(s.drop_last(), depth) + element_xml(s.last(), depth)
    }
}

/// The two header lines of the XML form.
pub open spec fn xml_header() -> Seq<char> {
    "<?xml version=\"1.0\" encoding=\"UTF-8\"?>\n<!DOCTYPE document SYSTEM \"CommonMark.dtd\">\n"@
}

/// A whole document in the XML form.
pub open spec fn document_xml(root: XmlElement) -> Seq<char> {
    xml_header() + element_xml(root, 0)
}

/// Whether a text holds no NUL character (which is written as U+FFFD).
pub open spec fn no_nul(s: Seq<char>) -> bool {
    forall|i: int| 0 <= i < s.len() ==> s[i] != '\0'
}

/// Whether an element name can be read back: not empty, and without a
/// space, `>`, `/` or line break.
pub open spec fn name_ok(n: Seq<char>) -> bool {
    &&& n.len() > 0
    &&& !n.contains(' ')
    &&& !n.contains('>')
    &&& !n.contains('/')
    &&& !n.contains('\n')
}

/// How the literal marker starts.
pub open spec fn space_prefix() -> Seq<char> {
    " xml:space=\""@
}

/// How a `math_style` attribute starts.
pub open spec fn math_style_prefix() -> Seq<char> {
    " math_style=\""@
}

/// Whether the unescaped `info` value ends at `k`: a `"` stands there, and
/// after it the literal marker or a `math_style` attribute starts.
pub open spec fn quote_stop(s: Seq<char>, k: int) -> bool {
    &&& 0 <= k < s.len()
    &&& s[k] == '"'
    &&& (occurs_at(s, space_prefix(), k + 1) || occurs_at(s, math_style_prefix(), k + 1))
}

/// Whether an unescaped `info` value can be read back: it holds neither
/// `" xml:space=` nor `" math_style=`.
pub open spec fn info_ok(v: Seq<char>) -> bool {
    !contains(v, "\" xml:space="@) && !contains(v, "\" math_style="@)
}

/// Whether an attribute can be read back: a name that is not empty, does
/// not start with `/` and holds no `=` and no `:`; a value without NUL,
/// and, for the unescaped `info`, one that `info_ok` admits.
pub open spec fn attr_ok(a: (String, String)) -> bool {
    let n = a.0@;
    &&& n.len() > 0
    &&& n[0] != '/'
    &&& !n.contains('=')
    &&& !n.contains(':')
    &&& no_nul(a.1@)
    &&& (n == "info"@ ==> info_ok(a.1@))
}

pub open spec fn attrs_ok(s: Seq<(String, String)>) -> bool {
    forall|i: int| 0 <= i < s.len() ==> attr_ok(#[trigger] s[i])
}

/// Whether the attribute after an `info` attribute at `i` is `math_style`.
pub open spec fn follows_info(s: Seq<(String, String)>, i: int) -> bool {
    s[i].0@ == "info"@ ==> s[i + 1].0@ == "math_style"@
}

/// Whether each `info` attribute (whose value is written unescaped) is
/// followed by a `math_style` attribute, or is the last one of a literal
/// element.
pub open spec fn info_placed(s: Seq<(String, String)>, literal: bool) -> bool {
    &&& forall|i: int| 0 <= i < s.len() - 1 ==> #[trigger] follows_info(s, i)
    &&& (s.len() > 0 && s.last().0@ == "info"@ ==> literal)
}

/// Whether an element can be read back from its XML form: its name and
/// attributes can, its `info` attributes stand where the reader looks for
/// their end, a literal element has no children and its text no NUL, and
/// so for all its children.
pub open spec fn wf_element(e: XmlElement) -> bool
    decreases e, 0nat,
{
    &&& name_ok(e.name@)
    &&& attrs_ok(e.attrs@)
    &&& info_placed(e.attrs@, e.literal is Some)
    &&& match e.literal {
        Some(l) => no_nul(l@) && e.children@.len() == 0,
        None => true,
    }
    &&& wf_elements(e.children@)
}

pub open spec fn wf_elements(s: Seq<XmlElement>) -> bool
    decreases s, 0nat,
{
    s.len() == 0 || (wf_elements(s.drop_last()) && wf_element(s.last()))
}

/// The text of an optional string.
pub open spec fn opt_text(o: Option<String>) -> Option<Seq<char>> {
    match o {
        Some(s) => Some(s@),
        None => None,
    }
}

/// The attributes as pairs of texts.
pub open spec fn attr_views(s: Seq<(String, String)>) -> Seq<(Seq<char>, Seq<char>)> {
    s.map_values(|a: (String, String)| (a.0@, a.1@))
}

/// Whether two elements hold the same texts, all the way down.
pub open spec fn same_element(a: XmlElement, b: XmlElement) -> bool
    decreases a, 0nat,
{
    &&& a.name@ == b.name@
    &&& attr_views(a.attrs@) == attr_views(b.attrs@)
    &&& opt_text(a.literal) == opt_text(b.literal)
    &&& same_elements(a.children@, b.children@)
}

pub open spec fn same_elements(a: Seq<XmlElement>, b: Seq<XmlElement>) -> bool
    decreases a, 0nat,
{
    a.len() == b.len() && (a.len() == 0 || (same_elements(a.drop_last(), b.drop_last())
        && same_element(a.last(), b.last())))
}

proof fn lemma_escape_char_cases(c: char)
    ensures
        c == '"' ==> escape_xml_char(c) == "&quot;"@,
        c == '&' ==> escape_xml_char(c) == "&amp;"@,
        c == '<' ==> escape_xml_char(c) == "&lt;"@,
        c == '>' ==> escape_xml_char(c) == "&gt;"@,
        escape_xml_char(c).len() > 0,
        c != '"' && c != '&' && c != '<' && c != '>' && c != '\0' ==> escape_xml_char(c) == seq![c],
        escape_xml_char(c)[0] != '"' && escape_xml_char(c)[0] != '<' && escape_xml_char(c)[0] != '>'
            && escape_xml_char(c)[0] != '\0',
        escape_xml_char(c)[0] == '&' <==> (c == '"' || c == '&' || c == '<' || c == '>'),
        !escape_xml_char(c).contains('<') && !escape_xml_char(c).contains('"'),
{
    reveal_strlit("&quot;");
    reveal_strlit("&amp;");
    reveal_strlit("&lt;");
    reveal_strlit("&gt;");
}

/// Escaped text splits as the escape of its first character and the
/// escape of the rest.
proof fn lemma_escape_first(v: Seq<char>)
    requires
        v.len() > 0,
    ensures
        escape_xml(v) == escape_xml_char(v[0]) + escape_xml(v.drop_first()),
{
}

/// Escaped text holds no `<` and no `"`.
proof fn lemma_escape_plain(v: Seq<char>)
    ensures
        !escape_xml(v).contains('<'),
        !escape_xml(v).contains('"'),
    decreases v.len(),
{
    if v.len() > 0 {
        lemma_escape_plain(v.drop_first());
        lemma_escape_char_cases(v[0]);
        let a = escape_xml_char(v[0]);
        let b = escape_xml(v.drop_first());
        assert forall|i: int| 0 <= i < (a + b).len() implies (a + b)[i] != '<' && (a + b)[i]
            != '"' by {
            if i < a.len() {
                assert(a[i] == (a + b)[i]);
            } else {
                assert(b[i - a.len()] == (a + b)[i]);
            }
        }
    }
}

/// Appends the characters of `w` to `v`.
fn push_all(v: &mut Vec<char>, w: &Vec<char>)
    ensures
        final(v)@ == old(v)@ + w@,
{
    let n = w.len();
    for i in 0..n
        invariant
            n == w@.len(),
            v@ == old(v)@ + w@.take(i as int),
    {
        v.push(w[i]);
        assert(w@.take(i + 1) =~= w@.take(i as int).push(w@[i as int]));
    }
    assert(w@.take(n as int) =~= w@);
}

/// The indentation of depth `depth`, as characters.
fn indent_chars(depth: usize) -> (r: Vec<char>)
    ensures
        r@ == indent(depth as nat),
{
    let n: usize = if depth >= 20 { 40 } else { 2 * depth };
    let mut r: Vec<char> = Vec::new();
    let space = chars_of(" ");
    for k in 0..n
        invariant
            r@ == repeat(" "@, k as nat),
            space@ == " "@,
    {
        push_all(&mut r, &space);
    }
    r
}

/// The characters of `s` from `start` up to the first of `stops`, or to the
/// end.
fn read_until(s: &Vec<char>, start: usize, stops: &Vec<char>) -> (r: usize)
    requires
        start <= s@.len(),
    ensures
        start <= r <= s@.len(),
        forall|k: int| start <= k < r ==> !stops@.contains(#[trigger] s@[k]),
        r < s@.len() ==> stops@.contains(s@[r as int]),
{
    let mut i = start;
    while i < s.len()
        invariant
            start <= i <= s@.len(),
            forall|k: int| start <= k < i ==> !stops@.contains(#[trigger] s@[k]),
        decreases s@.len() - i,
    {
        if contains_char(stops, s[i]) {
            return i;
        }
        i = i + 1;
    }
    i
}

/// The first position from `start` at which the unescaped `info` value
/// ends (see `quote_stop`), or the end of `s`.
fn read_info_end(s: &Vec<char>, start: usize) -> (r: usize)
    requires
        start <= s@.len(),
    ensures
        start <= r <= s@.len(),
        forall|k: int| start <= k < r ==> !quote_stop(s@, k),
        r < s@.len() ==> quote_stop(s@, r as int),
{
    let space = chars_of(" xml:space=\"");
    let math = chars_of(" math_style=\"");
    let mut i = start;
    while i < s.len()
        invariant
            start <= i <= s@.len(),
            space@ == space_prefix(),
            math@ == math_style_prefix(),
            forall|k: int| start <= k < i ==> !quote_stop(s@, k),
        decreases s@.len() - i,
    {
        if s[i] == '"' && (matches_at(s, &space, i + 1) || matches_at(s, &math, i + 1)) {
            return i;
        }
        i = i + 1;
    }
    i
}

/// Whether `c` occurs in `v`.
fn contains_char(v: &Vec<char>, c: char) -> (r: bool)
    ensures
        r == v@.contains(c),
{
    let mut j: usize = 0;
    while j < v.len()
        invariant
            j <= v@.len(),
            forall|m: int| 0 <= m < j ==> v@[m] != c,
        decreases v@.len() - j,
    {
        if v[j] == c {
            assert(v@[j as int] == c);
            return true;
        }
        j = j + 1;
    }
    false
}

/// The characters of `s` between `start` and `end`.
fn slice_chars(s: &Vec<char>, start: usize, end: usize) -> (r: Vec<char>)
    requires
        start <= end <= s@.len(),
    ensures
        r@ == s@.subrange(start as int, end as int),
{
    let mut r: Vec<char> = Vec::new();
    let mut i = start;
    while i < end
        invariant
            start <= i <= end <= s@.len(),
            r@ == s@.subrange(start as int, i as int),
        decreases end - i,
    {
        r.push(s[i]);
        assert(s@.subrange(start as int, i + 1) =~= s@.subrange(start as int, i as int).push(
            s@[i as int],
        ));
        i = i + 1;
    }
    r
}

/// Reads escaped text back: fails on a character that is never written
/// unescaped, or on an `&` that starts no known entity.  Escaped text
/// without NUL is always read back (`target` and `target2` name such
/// texts: both are read back as the one result).
fn unescape_xml(raw: &Vec<char>, Ghost(target): Ghost<Option<Seq<char>>>, Ghost(target2): Ghost<Option<Seq<char>>>) -> (r: Option<Vec<char>>)
    requires
        target matches Some(v) ==> no_nul(v) && escape_xml(v) == raw@,
        target2 matches Some(v) ==> no_nul(v) && escape_xml(v) == raw@,
    ensures
        r matches Some(v) ==> escape_xml(v@) == raw@ && no_nul(v@),
        target matches Some(v) ==> (r matches Some(w) && w@ == v),
        target2 matches Some(v) ==> (r matches Some(w) && w@ == v),
{
    proof {
        reveal_strlit("&quot;");
        reveal_strlit("&amp;");
        reveal_strlit("&lt;");
        reveal_strlit("&gt;");
    }
    let quot = chars_of("&quot;");
    let amp = chars_of("&amp;");
    let lt = chars_of("&lt;");
    let gt = chars_of("&gt;");
    let mut v: Vec<char> = Vec::new();
    let mut i: usize = 0;
    let ghost mut k: int = 0;
    assert(escape_xml(v@) =~= Seq::<char>::empty()) by {
        assert(flat_map_chars(Seq::<char>::empty(), |c: char| escape_xml_char(c)) == Seq::<
            char,
        >::empty());
    }
    proof {
        if target is Some {
            assert(target.unwrap().take(0) =~= v@);
            assert(target.unwrap().skip(0) =~= target.unwrap());
            assert(raw@.subrange(0, raw@.len() as int) =~= raw@);
        }
        if target2 is Some {
            assert(target2.unwrap().take(0) =~= v@);
            assert(target2.unwrap().skip(0) =~= target2.unwrap());
            assert(raw@.subrange(0, raw@.len() as int) =~= raw@);
        }
    }
    while i < raw.len()
        invariant
            i <= raw@.len(),
            escape_xml(v@) == raw@.subrange(0, i as int),
            no_nul(v@),
            quot@ == "&quot;"@,
            amp@ == "&amp;"@,
            lt@ == "&lt;"@,
            gt@ == "&gt;"@,
            target matches Some(t) ==> no_nul(t) && 0 <= k <= t.len() && v@ == t.take(k)
                && raw@.subrange(i as int, raw@.len() as int) == escape_xml(t.skip(k)),
            target2 matches Some(t) ==> no_nul(t) && 0 <= k <= t.len() && v@ == t.take(k)
                && raw@.subrange(i as int, raw@.len() as int) == escape_xml(t.skip(k)),
        decreases raw@.len() - i,
    {
        proof {
            reveal_strlit("&quot;");
            reveal_strlit("&amp;");
            reveal_strlit("&lt;");
            reveal_strlit("&gt;");
            if let Some(t) = target {
                if k == t.len() {
                    assert(t.skip(k) =~= Seq::<char>::empty());
                    assert(raw@.subrange(i as int, raw@.len() as int).len() > 0);
                }
                assert(k < t.len());
                lemma_escape_first(t.skip(k));
                assert(t.skip(k)[0] == t[k]);
                assert(t.skip(k).drop_first() =~= t.skip(k + 1));
                lemma_escape_char_cases(t[k]);
                let e = escape_xml_char(t[k]);
                assert(raw@.subrange(i as int, raw@.len() as int) == e + escape_xml(t.skip(k + 1)));
                assert(raw@.subrange(i as int, raw@.len() as int)[0] == raw@[i as int]);
                assert(raw@[i as int] == e[0]);
                assert forall|j: int| 0 <= j < e.len() implies i + j < raw@.len() && raw@[i + j]
                    == e[j] by {
                    assert(raw@.subrange(i as int, raw@.len() as int)[j] == e[j]);
                }
            }
            if let Some(t) = target2 {
                if k == t.len() {
                    assert(t.skip(k) =~= Seq::<char>::empty());
                    assert(raw@.subrange(i as int, raw@.len() as int).len() > 0);
                }
                assert(k < t.len());
                lemma_escape_first(t.skip(k));
                assert(t.skip(k)[0] == t[k]);
                assert(t.skip(k).drop_first() =~= t.skip(k + 1));
                lemma_escape_char_cases(t[k]);
                let e = escape_xml_char(t[k]);
                assert(raw@.subrange(i as int, raw@.len() as int) == e + escape_xml(t.skip(k + 1)));
                assert(raw@.subrange(i as int, raw@.len() as int)[0] == raw@[i as int]);
                assert(raw@[i as int] == e[0]);
                assert forall|j: int| 0 <= j < e.len() implies i + j < raw@.len() && raw@[i + j]
                    == e[j] by {
                    assert(raw@.subrange(i as int, raw@.len() as int)[j] == e[j]);
                }
            }
        }
        let c = raw[i];
        let (d, width): (char, usize) = if c == '&' {
            if matches_at(raw, &quot, i) {
                ('"', quot.len())
            } else if matches_at(raw, &amp, i) {
                ('&', amp.len())
            } else if matches_at(raw, &lt, i) {
                ('<', lt.len())
            } else if matches_at(raw, &gt, i) {
                ('>', gt.len())
            } else {
                proof {
                    if let Some(t) = target {
                        let e = escape_xml_char(t[k]);
                        if t[k] == '"' {
                            assert(raw@.subrange(i as int, i + 6) =~= e);
                        } else if t[k] == '&' {
                            assert(raw@.subrange(i as int, i + 5) =~= e);
                        } else if t[k] == '<' {
                            assert(raw@.subrange(i as int, i + 4) =~= e);
                        } else {
                            assert(raw@.subrange(i as int, i + 4) =~= e);
                        }
                    }
                    if let Some(t) = target2 {
                        let e = escape_xml_char(t[k]);
                        if t[k] == '"' {
                            assert(raw@.subrange(i as int, i + 6) =~= e);
                        } else if t[k] == '&' {
                            assert(raw@.subrange(i as int, i + 5) =~= e);
                        } else if t[k] == '<' {
                            assert(raw@.subrange(i as int, i + 4) =~= e);
                        } else {
                            assert(raw@.subrange(i as int, i + 4) =~= e);
                        }
                    }
                }
                return None;
            }
        } else if c == '"' || c == '<' || c == '>' || c == '\0' {
            return None;
        } else {
            (c, 1)
        };
        proof {
            let f = |c: char| escape_xml_char(c);
            lemma_flat_map_append(v@, seq![d], f);
            assert(seq![d].drop_first() =~= Seq::<char>::empty());
            assert(flat_map_chars(seq![d], f) == f(d) + flat_map_chars(Seq::<char>::empty(), f));
            assert(f(d) + Seq::<char>::empty() =~= f(d));
            if c == '&' {
                assert(raw@.subrange(i as int, i + width) == f(d));
            } else {
                assert(f(d) =~= raw@.subrange(i as int, i + 1));
            }
            assert(raw@.subrange(0, i + width) =~= raw@.subrange(0, i as int) + raw@.subrange(
                i as int,
                i + width,
            ));
            if let Some(t) = target {
                let e = escape_xml_char(t[k]);
                if c == '&' {
                    if t[k] == '"' {
                        assert(raw@.subrange(i as int, i + 6) =~= e);
                    } else if t[k] == '&' {
                        assert(raw@.subrange(i as int, i + 5) =~= e);
                        assert(raw@.subrange(i as int, i + 5)[1] == raw@[i + 1]);
                        assert(raw@[i + 1] != 'q');
                    } else if t[k] == '<' {
                        assert(raw@.subrange(i as int, i + 4) =~= e);
                        assert(raw@.subrange(i as int, i + 4)[1] == raw@[i + 1]);
                        assert(raw@[i + 1] != 'q' && raw@[i + 1] != 'a');
                    } else {
                        assert(raw@.subrange(i as int, i + 4) =~= e);
                        assert(raw@.subrange(i as int, i + 4)[1] == raw@[i + 1]);
                        assert(raw@[i + 1] != 'q' && raw@[i + 1] != 'a' && raw@[i + 1] != 'l');
                    }
                }
                assert(d == t[k]);
                assert(width == e.len());
                assert(raw@.subrange(i + width, raw@.len() as int) =~= escape_xml(t.skip(k + 1)))
                    by {
                    assert(raw@.subrange(i as int, raw@.len() as int) == e + escape_xml(
                        t.skip(k + 1),
                    ));
                    assert(raw@.subrange(i + width, raw@.len() as int) =~= raw@.subrange(
                        i as int,
                        raw@.len() as int,
                    ).skip(e.len() as int));
                }
                assert(t.take(k + 1) =~= t.take(k).push(t[k]));
            }
            if let Some(t) = target2 {
                let e = escape_xml_char(t[k]);
                if c == '&' {
                    if t[k] == '"' {
                        assert(raw@.subrange(i as int, i + 6) =~= e);
                    } else if t[k] == '&' {
                        assert(raw@.subrange(i as int, i + 5) =~= e);
                        assert(raw@.subrange(i as int, i + 5)[1] == raw@[i + 1]);
                        assert(raw@[i + 1] != 'q');
                    } else if t[k] == '<' {
                        assert(raw@.subrange(i as int, i + 4) =~= e);
                        assert(raw@.subrange(i as int, i + 4)[1] == raw@[i + 1]);
                        assert(raw@[i + 1] != 'q' && raw@[i + 1] != 'a');
                    } else {
                        assert(raw@.subrange(i as int, i + 4) =~= e);
                        assert(raw@.subrange(i as int, i + 4)[1] == raw@[i + 1]);
                        assert(raw@[i + 1] != 'q' && raw@[i + 1] != 'a' && raw@[i + 1] != 'l');
                    }
                }
                assert(d == t[k]);
                assert(width == e.len());
                assert(raw@.subrange(i + width, raw@.len() as int) =~= escape_xml(t.skip(k + 1)))
                    by {
                    assert(raw@.subrange(i as int, raw@.len() as int) == e + escape_xml(
                        t.skip(k + 1),
                    ));
                    assert(raw@.subrange(i + width, raw@.len() as int) =~= raw@.subrange(
                        i as int,
                        raw@.len() as int,
                    ).skip(e.len() as int));
                }
                assert(t.take(k + 1) =~= t.take(k).push(t[k]));
            }
        }
        let ghost before = v@;
        v.push(d);
        assert(v@ =~= before + seq![d]);
        i = i + width;
        proof {
            k = k + 1;
        }
    }
    proof {
        if let Some(t) = target {
            if k < t.len() {
                lemma_escape_first(t.skip(k));
                lemma_escape_char_cases(t.skip(k)[0]);
                assert(raw@.subrange(i as int, raw@.len() as int) =~= Seq::<char>::empty());
            }
            assert(t.take(k) =~= t);
        }
        if let Some(t) = target2 {
            if k < t.len() {
                lemma_escape_first(t.skip(k));
                lemma_escape_char_cases(t.skip(k)[0]);
                assert(raw@.subrange(i as int, raw@.len() as int) =~= Seq::<char>::empty());
            }
            assert(t.take(k) =~= t);
        }
    }
    Some(v)
}

/// Whether one of the three endings of an element's attributes starts at
/// `q`: the literal marker, ` />` and a line break, or `>` and a line break.
pub open spec fn at_attrs_end(s: Seq<char>, q: int) -> bool {
    occurs_at(s, preserve_marker(), q) || occurs_at(s, " />\n"@, q) || occurs_at(s, ">\n"@, q)
}

/// How an attribute's value is written.
pub open spec fn written_value(a: (String, String)) -> Seq<char> {
    if a.0@ == "info"@ {
        a.1@
    } else {
        escape_xml(a.1@)
    }
}

proof fn lemma_attrs_xml_append(a: Seq<(String, String)>, b: Seq<(String, String)>)
    ensures
        attrs_xml(a + b) == attrs_xml(a) + attrs_xml(b),
    decreases b.len(),
{
    if b.len() == 0 {
        assert(a + b =~= a);
        assert(attrs_xml(a) + attrs_xml(b) =~= attrs_xml(a));
    } else {
        assert((a + b).drop_last() =~= a + b.drop_last());
        assert((a + b).last() == b.last());
        lemma_attrs_xml_append(a, b.drop_last());
        assert(attrs_xml(a + b) =~= attrs_xml(a) + attrs_xml(b));
    }
}

proof fn lemma_attrs_xml_single(x: (String, String))
    ensures
        attrs_xml(seq![x]) == attr_xml(x),
{
    assert(seq![x].drop_last() =~= Seq::<(String, String)>::empty());
    assert(attrs_xml(Seq::<(String, String)>::empty()) == Seq::<char>::empty());
    assert(attrs_xml(seq![x]) =~= attr_xml(x));
}

/// Where each part of a written attribute stands, and that no ending of
/// the attributes starts where it does.
proof fn lemma_attr_layout(s: Seq<char>, p: int, a: (String, String))
    requires
        attr_ok(a),
        0 <= p,
        p + attr_xml(a).len() <= s.len(),
        s.subrange(p, p + attr_xml(a).len()) == attr_xml(a),
    ensures
        attr_xml(a).len() == a.0@.len() + written_value(a).len() + 4,
        s[p] == ' ',
        forall|i: int| 0 <= i < a.0@.len() ==> s[p + 1 + i] == a.0@[i],
        s[p + 1 + a.0@.len()] == '=',
        s[p + 2 + a.0@.len()] == '"',
        forall|j: int| 0 <= j < written_value(a).len() ==> s[p + 3 + a.0@.len() + j] == written_value(
            a,
        )[j],
        s[p + 3 + a.0@.len() + written_value(a).len()] == '"',
        !occurs_at(s, preserve_marker(), p),
        !occurs_at(s, " />\n"@, p),
        !occurs_at(s, ">\n"@, p),
        occurs_at(s, " "@, p),
{
    reveal_strlit(" ");
    reveal_strlit("=\"");
    reveal_strlit("\"");
    reveal_strlit(" />\n");
    reveal_strlit(">\n");
    reveal_strlit(" xml:space=\"preserve\">");
    let n = a.0@;
    let w = written_value(a);
    let t = attr_xml(a);
    assert(t =~= seq![' '] + n + seq!['=', '"'] + w + seq!['"']);
    assert forall|i: int| 0 <= i < t.len() implies s[p + i] == t[i] by {
        assert(s.subrange(p, p + t.len())[i] == s[p + i]);
    }
    assert(s[p] == t[0]);
    assert forall|i: int| 0 <= i < n.len() implies s[p + 1 + i] == n[i] by {
        assert(t[1 + i] == n[i]);
    }
    assert(t[1 + n.len() as int] == '=');
    assert(t[2 + n.len() as int] == '"');
    assert forall|j: int| 0 <= j < w.len() implies s[p + 3 + n.len() + j] == w[j] by {
        assert(t[3 + n.len() + j] == w[j]);
    }
    assert(t[3 + n.len() as int + w.len() as int] == '"');
    let m = preserve_marker();
    if occurs_at(s, m, p) {
        assert(s.subrange(p, p + m.len()) == m);
        assert forall|i: int| 0 <= i < m.len() implies s[p + i] == m[i] by {
            assert(s.subrange(p, p + m.len())[i] == s[p + i]);
        }
        assert(m[4] == ':');
        if n.len() >= 4 {
            assert(s[p + 4] == n[3]);
            assert(n.contains(n[3]));
        } else if n.len() == 1 {
            assert(s[p + 2] == m[2]);
        } else if n.len() == 2 {
            assert(s[p + 3] == m[3]);
        } else {
            assert(s[p + 4] == m[4]);
        }
    }
    if occurs_at(s, " />\n"@, p) {
        assert(s.subrange(p, p + 4)[1] == s[p + 1]);
        assert(n.len() > 0);
        assert(s[p + 1] == n[0]);
    }
    if occurs_at(s, ">\n"@, p) {
        assert(s.subrange(p, p + 2)[0] == s[p]);
    }
    assert(s.subrange(p, p + 1) =~= " "@);
}

/// The first index from `start` at which `c` stands, given that it stands
/// at `at` and nowhere between.
proof fn lemma_first_stop(s: Seq<char>, start: int, at: int, stops: Seq<char>, r: int)
    requires
        0 <= start <= at < s.len(),
        stops.contains(s[at]),
        forall|k: int| start <= k < at ==> !stops.contains(#[trigger] s[k]),
        start <= r <= s.len(),
        forall|k: int| start <= k < r ==> !stops.contains(#[trigger] s[k]),
        r < s.len() ==> stops.contains(s[r]),
    ensures
        r == at,
{
}

/// A `"` in an `info` value that a pattern ending in its only `"` follows
/// means the value holds that `"` and the pattern but for its last `"`.
proof fn lemma_quote_pattern_in_value(
    s: Seq<char>,
    vs: int,
    v: Seq<char>,
    j: int,
    r: Seq<char>,
    q: Seq<char>,
)
    requires
        0 <= vs <= j < vs + v.len() < s.len(),
        s.subrange(vs, vs + v.len()) == v,
        s[vs + v.len()] == '"',
        s[j] == '"',
        occurs_at(s, r, j + 1),
        r.len() >= 2,
        r[r.len() - 1] == '"',
        forall|m: int| 0 <= m < r.len() - 1 ==> r[m] != '"',
        q == seq!['"'] + r.take(r.len() - 1),
    ensures
        contains(v, q),
{
    let ve = vs + v.len();
    let m0 = ve - (j + 1);
    assert forall|m: int| 0 <= m < r.len() implies s[j + 1 + m] == r[m] by {
        assert(s.subrange(j + 1, j + 1 + r.len())[m] == s[j + 1 + m]);
    }
    if m0 < r.len() {
        assert(s[j + 1 + m0] == r[m0]);
        assert(m0 == r.len() - 1);
    }
    assert(j + r.len() <= ve);
    let k = j - vs;
    assert forall|i: int| 0 <= i < q.len() implies v[k + i] == q[i] by {
        assert(v[k + i] == s.subrange(vs, ve)[k + i]);
        assert(s.subrange(vs, ve)[k + i] == s[j + i]);
        if i > 0 {
            assert(q[i] == r[i - 1]);
        }
    }
    assert(v.subrange(k, k + q.len()) =~= q);
    assert(occurs_at(v, q, k));
}

/// Where an `info` value that can be read back ends: nowhere within it,
/// and right after it, where the literal marker or a `math_style`
/// attribute follows its closing `"`.
proof fn lemma_info_value_end(s: Seq<char>, vs: int, v: Seq<char>)
    requires
        0 <= vs,
        vs + v.len() < s.len(),
        s.subrange(vs, vs + v.len()) == v,
        s[vs + v.len()] == '"',
        info_ok(v),
        occurs_at(s, space_prefix(), vs + v.len() + 1) || occurs_at(
            s,
            math_style_prefix(),
            vs + v.len() + 1,
        ),
    ensures
        forall|j: int| vs <= j < vs + v.len() ==> !quote_stop(s, j),
        quote_stop(s, vs + v.len()),
{
    reveal_strlit(" xml:space=\"");
    reveal_strlit(" math_style=\"");
    reveal_strlit("\" xml:space=");
    reveal_strlit("\" math_style=");
    let ve = vs + v.len();
    let sp = space_prefix();
    let mp = math_style_prefix();
    assert(seq!['"'] + sp.take(sp.len() - 1) =~= "\" xml:space="@);
    assert(seq!['"'] + mp.take(mp.len() - 1) =~= "\" math_style="@);
    assert forall|j: int| vs <= j < ve implies !quote_stop(s, j) by {
        if quote_stop(s, j) {
            if occurs_at(s, sp, j + 1) {
                lemma_quote_pattern_in_value(s, vs, v, j, sp, "\" xml:space="@);
            } else {
                lemma_quote_pattern_in_value(s, vs, v, j, mp, "\" math_style="@);
            }
        }
    }
}

/// The name read after a space at `p` where `" "`, `n0`, `="` stand there.
proof fn lemma_name_at_prefix(s: Seq<char>, p: int, n0: Seq<char>, name_end: int)
    requires
        0 <= p,
        occurs_at(s, " "@ + n0 + "=\""@, p),
        !n0.contains('='),
        p + 1 <= name_end <= s.len(),
        forall|k: int| p + 1 <= k < name_end ==> s[k] != '=',
        name_end < s.len() ==> s[name_end] == '=',
    ensures
        name_end == p + 1 + n0.len(),
        s.subrange(p + 1, name_end) == n0,
{
    reveal_strlit(" ");
    reveal_strlit("=\"");
    let t = " "@ + n0 + "=\""@;
    assert forall|i: int| 0 <= i < t.len() implies s[p + i] == t[i] by {
        assert(s.subrange(p, p + t.len())[i] == s[p + i]);
    }
    let at = p + 1 + n0.len();
    assert(s[at] == t[1 + n0.len() as int]);
    assert forall|k: int| p + 1 <= k < at implies s[k] != '=' by {
        assert(s[k] == t[k - p]);
        assert(t[k - p] == n0[k - p - 1]);
        if s[k] == '=' {
            assert(n0.contains(n0[k - p - 1]));
        }
    }
    if name_end < at {
        assert(s[name_end] == '=');
    }
    assert forall|i: int| 0 <= i < n0.len() implies s[p + 1 + i] == n0[i] by {
        assert(t[1 + i] == n0[i]);
    }
    assert(s.subrange(p + 1, name_end) =~= n0);
}

/// One attribute, read from `p`, where a space starts it.  Returns it and
/// the position after it; after an `info` attribute the literal marker or
/// a `math_style` attribute starts.  A written attribute that can be read
/// back (`target`, `target2`) is read back.
#[verifier::rlimit(100)]
fn read_attr(s: &Vec<char>, p: usize, Ghost(target): Ghost<Option<(String, String)>>, Ghost(target2): Ghost<Option<(String, String)>>) -> (r: Option<((String, String), usize)>)
    requires
        p <= s@.len(),
        target matches Some(a) ==> attr_ok(a) && p + attr_xml(a).len() <= s@.len() && s@.subrange(
            p as int,
            p + attr_xml(a).len(),
        ) == attr_xml(a) && (a.0@ == "info"@ ==> (occurs_at(s@, space_prefix(), p + attr_xml(a).len())
            || occurs_at(s@, math_style_prefix(), p + attr_xml(a).len()))),
        target2 matches Some(a) ==> attr_ok(a) && p + attr_xml(a).len() <= s@.len() && s@.subrange(
            p as int,
            p + attr_xml(a).len(),
        ) == attr_xml(a) && (a.0@ == "info"@ ==> (occurs_at(s@, space_prefix(), p + attr_xml(a).len())
            || occurs_at(s@, math_style_prefix(), p + attr_xml(a).len()))),
    ensures
        r matches Some((pair, next)) ==> p < next <= s@.len() && s@.subrange(p as int, next as int)
            == attr_xml(pair) && attr_ok(pair),
        r matches Some((pair, next)) ==> (pair.0@ == "info"@ ==> (occurs_at(s@, space_prefix(), next as int)
            || occurs_at(s@, math_style_prefix(), next as int))),
        occurs_at(s@, space_prefix(), p as int) ==> r is None,
        occurs_at(s@, math_style_prefix(), p as int) ==> (r matches Some((pair, next)) ==> pair.0@
            == "math_style"@),
        target matches Some(a) ==> (r matches Some((pair, next)) && pair.0@ == a.0@ && pair.1@
            == a.1@ && next == p + attr_xml(a).len()),
        target2 matches Some(a) ==> (r matches Some((pair, next)) && pair.0@ == a.0@ && pair.1@
            == a.1@ && next == p + attr_xml(a).len()),
{
    proof {
        reveal_strlit(" ");
        reveal_strlit("=\"");
        reveal_strlit("\"");
        reveal_strlit("=");
        reveal_strlit(":");
        reveal_strlit("xml:space");
        reveal_strlit("math_style");
        reveal_strlit(" xml:space=\"");
        reveal_strlit(" math_style=\"");
        if let Some(a) = target {
            lemma_attr_layout(s@, p as int, a);
        }
        if let Some(a) = target2 {
            lemma_attr_layout(s@, p as int, a);
        }
    }
    let space = chars_of(" ");
    let eq_quote = chars_of("=\"");
    let quote = chars_of("\"");
    let name_stops = chars_of("=");
    let value_stops = chars_of("\"");
    let info = chars_of("info");
    let slen = s.len();
    if !matches_at(s, &space, p) {
        return None;
    }
    let name_start = p + space.len();
    let name_end = read_until(s, name_start, &name_stops);
    proof {
        assert(name_stops@ =~= seq!['=']);
        assert forall|k: int| name_start <= k < name_end implies s@[k] != '=' by {
            if s@[k] == '=' {
                assert(name_stops@[0] == s@[k]);
                assert(name_stops@.contains(s@[k]));
            }
        }
        if let Some(a) = target {
            let n = a.0@;
            assert forall|j: int| name_start <= j < name_start + n.len() implies !name_stops@.contains(
                #[trigger] s@[j],
            ) by {
                assert(s@[j] == n[j - name_start]);
                if s@[j] == '=' {
                    assert(n.contains(n[j - name_start]));
                }
            }
            assert(name_stops@.contains(s@[name_start + n.len()]));
            lemma_first_stop(s@, name_start as int, name_start + n.len(), name_stops@, name_end as int);
        }
        if let Some(a) = target2 {
            let n = a.0@;
            assert forall|j: int| name_start <= j < name_start + n.len() implies !name_stops@.contains(
                #[trigger] s@[j],
            ) by {
                assert(s@[j] == n[j - name_start]);
                if s@[j] == '=' {
                    assert(n.contains(n[j - name_start]));
                }
            }
            assert(name_stops@.contains(s@[name_start + n.len()]));
            lemma_first_stop(s@, name_start as int, name_start + n.len(), name_stops@, name_end as int);
        }
        if occurs_at(s@, space_prefix(), p as int) {
            assert(space_prefix() =~= " "@ + "xml:space"@ + "=\""@);
            assert(!"xml:space"@.contains('=')) by {
                if "xml:space"@.contains('=') {
                    let i = choose|i: int| 0 <= i < "xml:space"@.len() && "xml:space"@[i] == '=';
                }
            }
            lemma_name_at_prefix(s@, p as int, "xml:space"@, name_end as int);
        }
        if occurs_at(s@, math_style_prefix(), p as int) {
            assert(math_style_prefix() =~= " "@ + "math_style"@ + "=\""@);
            assert(!"math_style"@.contains('=')) by {
                if "math_style"@.contains('=') {
                    let i = choose|i: int| 0 <= i < "math_style"@.len() && "math_style"@[i] == '=';
                }
            }
            lemma_name_at_prefix(s@, p as int, "math_style"@, name_end as int);
        }
    }
    if !matches_at(s, &eq_quote, name_end) {
        proof {
            if let Some(a) = target {
                assert(s@.subrange(name_end as int, name_end + 2) =~= "=\""@);
            }
            if let Some(a) = target2 {
                assert(s@.subrange(name_end as int, name_end + 2) =~= "=\""@);
            }
        }
        return None;
    }
    let value_start = name_end + eq_quote.len();
    let name = slice_chars(s, name_start, name_end);
    proof {
        if let Some(a) = target {
            assert(name@ =~= a.0@);
        }
        if let Some(a) = target2 {
            assert(name@ =~= a.0@);
        }
        assert forall|j: int| 0 <= j < name@.len() implies name@[j] != '=' by {
            assert(name@[j] == s@[name_start + j]);
        }
        if occurs_at(s@, space_prefix(), p as int) {
            assert(name@ == "xml:space"@);
            assert(name@[3] == ':');
        }
    }
    if name.len() == 0 || name[0] == '/' || contains_char(&name, ':') {
        return None;
    }
    let is_info = crate::text::eq_chars(&name, &info);
    let value_end = if is_info {
        let e = read_info_end(s, value_start);
        proof {
            if let Some(a) = target {
                let w = a.1@;
                assert(written_value(a) == w);
                assert(s@.subrange(value_start as int, value_start + w.len()) =~= w);
                lemma_info_value_end(s@, value_start as int, w);
            }
            if let Some(a) = target2 {
                let w = a.1@;
                assert(written_value(a) == w);
                assert(s@.subrange(value_start as int, value_start + w.len()) =~= w);
                lemma_info_value_end(s@, value_start as int, w);
            }
        }
        e
    } else {
        let e = read_until(s, value_start, &value_stops);
        proof {
            if let Some(a) = target {
                let w = written_value(a);
                lemma_escape_plain(a.1@);
                assert forall|j: int| value_start <= j < value_start + w.len() implies !value_stops@.contains(
                    #[trigger] s@[j],
                ) by {
                    assert(s@[j] == w[j - value_start]);
                    if s@[j] == '"' {
                        assert(w.contains(w[j - value_start]));
                    }
                }
                assert(value_stops@[0] == '"');
                assert(value_stops@.contains(s@[value_start + w.len()]));
                lemma_first_stop(s@, value_start as int, value_start + w.len(), value_stops@, e as int);
            }
            if let Some(a) = target2 {
                let w = written_value(a);
                lemma_escape_plain(a.1@);
                assert forall|j: int| value_start <= j < value_start + w.len() implies !value_stops@.contains(
                    #[trigger] s@[j],
                ) by {
                    assert(s@[j] == w[j - value_start]);
                    if s@[j] == '"' {
                        assert(w.contains(w[j - value_start]));
                    }
                }
                assert(value_stops@[0] == '"');
                assert(value_stops@.contains(s@[value_start + w.len()]));
                lemma_first_stop(s@, value_start as int, value_start + w.len(), value_stops@, e as int);
            }
        }
        e
    };
    if !matches_at(s, &quote, value_end) {
        proof {
            if let Some(a) = target {
                assert(s@.subrange(value_end as int, value_end + 1) =~= "\""@);
            }
            if let Some(a) = target2 {
                assert(s@.subrange(value_end as int, value_end + 1) =~= "\""@);
            }
        }
        return None;
    }
    let raw = slice_chars(s, value_start, value_end);
    proof {
        if let Some(a) = target {
            assert(raw@ =~= written_value(a));
        }
        if let Some(a) = target2 {
            assert(raw@ =~= written_value(a));
        }
    }
    let value = if is_info {
        if contains_char(&raw, '\0') || crate::text::contains_chars(&raw, &chars_of("\" xml:space="))
            || crate::text::contains_chars(&raw, &chars_of("\" math_style=")) {
            return None;
        }
        proof {
            assert forall|i: int| 0 <= i < raw@.len() implies raw@[i] != '\0' by {
                if raw@[i] == '\0' {
                    assert(raw@.contains(raw@[i]));
                }
            }
        }
        raw
    } else {
        let ghost want: Option<Seq<char>> = match target {
            Some(a) => Some(a.1@),
            None => None,
        };
        let ghost want2: Option<Seq<char>> = match target2 {
            Some(a) => Some(a.1@),
            None => None,
        };
        match unescape_xml(&raw, Ghost(want), Ghost(want2)) {
            Some(v) => v,
            None => {
                return None;
            },
        }
    };
    let pair = (string_of(&name), string_of(&value));
    let next = value_end + quote.len();
    assert(s@.subrange(p as int, next as int) =~= s@.subrange(p as int, name_start as int)
        + s@.subrange(name_start as int, name_end as int) + s@.subrange(
        name_end as int,
        value_start as int,
    ) + s@.subrange(value_start as int, value_end as int) + s@.subrange(
        value_end as int,
        next as int,
    ));
    assert(s@.subrange(p as int, next as int) =~= attr_xml(pair));
    Some((pair, next))
}

/// After an `info` attribute that stands where it can be read back comes
/// a `math_style` attribute, or the literal marker.
proof fn lemma_after_info(s: Seq<char>, p: int, t: Seq<(String, String)>, k: int)
    requires
        0 <= k < t.len(),
        0 <= p,
        p + attrs_xml(t.skip(k)).len() <= s.len(),
        s.subrange(p, p + attrs_xml(t.skip(k)).len()) == attrs_xml(t.skip(k)),
        forall|i: int| 0 <= i < t.len() - 1 ==> #[trigger] follows_info(t, i),
        t.last().0@ == "info"@ ==> occurs_at(s, preserve_marker(), p + attrs_xml(t.skip(k)).len()),
        t[k].0@ == "info"@,
    ensures
        occurs_at(s, space_prefix(), p + attr_xml(t[k]).len()) || occurs_at(
            s,
            math_style_prefix(),
            p + attr_xml(t[k]).len(),
        ),
{
    reveal_strlit(" ");
    reveal_strlit("=\"");
    reveal_strlit("\"");
    reveal_strlit(" xml:space=\"");
    reveal_strlit(" math_style=\"");
    reveal_strlit(" xml:space=\"preserve\">");
    reveal_strlit("math_style");
    let a = t[k];
    let q = p + attr_xml(a).len();
    assert(t.skip(k) =~= seq![a] + t.skip(k + 1));
    lemma_attrs_xml_append(seq![a], t.skip(k + 1));
    lemma_attrs_xml_single(a);
    let rest = attrs_xml(t.skip(k + 1));
    let whole = attrs_xml(t.skip(k));
    assert(whole == attr_xml(a) + rest);
    if k + 1 < t.len() {
        assert(follows_info(t, k));
        let b = t[k + 1];
        assert(b.0@ == "math_style"@);
        assert(t.skip(k + 1) =~= seq![b] + t.skip(k + 2));
        lemma_attrs_xml_append(seq![b], t.skip(k + 2));
        lemma_attrs_xml_single(b);
        let mp = math_style_prefix();
        assert(attr_xml(b).subrange(0, mp.len() as int) =~= mp);
        assert forall|i: int| 0 <= i < mp.len() implies s[q + i] == mp[i] by {
            assert(rest[i] == attr_xml(b)[i]);
            assert(attr_xml(b)[i] == attr_xml(b).subrange(0, mp.len() as int)[i]);
            assert(whole[attr_xml(a).len() + i] == rest[i]);
            assert(s.subrange(p, p + whole.len())[attr_xml(a).len() + i] == s[q + i]);
        }
        assert(s.subrange(q, q + mp.len()) =~= mp);
    } else {
        assert(t.skip(k + 1) =~= Seq::<(String, String)>::empty());
        assert(rest =~= Seq::<char>::empty());
        assert(whole.len() == attr_xml(a).len());
        let m = preserve_marker();
        let sp = space_prefix();
        assert(s.subrange(q, q + m.len()) == m);
        assert forall|i: int| 0 <= i < sp.len() implies s[q + i] == sp[i] by {
            assert(s.subrange(q, q + m.len())[i] == s[q + i]);
            assert(m[i] == sp[i]);
        }
        assert(s.subrange(q, q + sp.len()) =~= sp);
    }
}

/// How far reading the written attributes `t` from `start` has come: the
/// first `k` of them are read (as `attrs`) up to `p`, and the rest are
/// written from `p` on, up to an ending of the attributes.
spec fn attrs_progress(
    s: Seq<char>,
    start: int,
    p: int,
    t: Seq<(String, String)>,
    k: int,
    attrs: Seq<(String, String)>,
) -> bool {
    &&& 0 <= start
    &&& attrs_ok(t)
    &&& 0 <= k <= t.len()
    &&& attr_views(attrs) == attr_views(t.take(k))
    &&& p == start + attrs_xml(t.take(k)).len()
    &&& p + attrs_xml(t.skip(k)).len() <= s.len()
    &&& s.subrange(p, p + attrs_xml(t.skip(k)).len()) == attrs_xml(t.skip(k))
    &&& at_attrs_end(s, p + attrs_xml(t.skip(k)).len())
    &&& forall|i: int| 0 <= i < t.len() - 1 ==> #[trigger] follows_info(t, i)
    &&& (t.len() > 0 && t.last().0@ == "info"@ ==> occurs_at(
        s,
        preserve_marker(),
        p + attrs_xml(t.skip(k)).len(),
    ))
}

proof fn lemma_attrs_start(s: Seq<char>, start: int, t: Seq<(String, String)>)
    requires
        0 <= start,
        attrs_ok(t),
        start + attrs_xml(t).len() <= s.len(),
        s.subrange(start, start + attrs_xml(t).len()) == attrs_xml(t),
        at_attrs_end(s, start + attrs_xml(t).len()),
        info_placed(t, occurs_at(s, preserve_marker(), start + attrs_xml(t).len())),
    ensures
        attrs_progress(s, start, start, t, 0, Seq::empty()),
{
    assert(t.take(0) =~= Seq::<(String, String)>::empty());
    assert(attr_views(Seq::<(String, String)>::empty()) =~= attr_views(t.take(0)));
    assert(attrs_xml(t.take(0)) =~= Seq::<char>::empty());
    assert(t.skip(0) =~= t);
}

/// While attributes remain to be read, the next one is written at `p`,
/// where no ending of the attributes starts.
proof fn lemma_attrs_next(
    s: Seq<char>,
    start: int,
    p: int,
    t: Seq<(String, String)>,
    k: int,
    attrs: Seq<(String, String)>,
)
    requires
        attrs_progress(s, start, p, t, k, attrs),
        k < t.len(),
    ensures
        attr_ok(t[k]),
        p + attr_xml(t[k]).len() <= s.len(),
        s.subrange(p, p + attr_xml(t[k]).len()) == attr_xml(t[k]),
        t[k].0@ == "info"@ ==> (occurs_at(s, space_prefix(), p + attr_xml(t[k]).len()) || occurs_at(
            s,
            math_style_prefix(),
            p + attr_xml(t[k]).len(),
        )),
        !at_attrs_end(s, p),
{
    assert(t.skip(k) =~= seq![t[k]] + t.skip(k + 1));
    lemma_attrs_xml_append(seq![t[k]], t.skip(k + 1));
    lemma_attrs_xml_single(t[k]);
    assert(attr_ok(t[k]));
    let a = t[k];
    let rest = attrs_xml(t.skip(k + 1));
    assert(attrs_xml(t.skip(k)) == attr_xml(a) + rest);
    assert(s.subrange(p, p + attr_xml(a).len()) =~= s.subrange(
        p,
        p + attrs_xml(t.skip(k)).len(),
    ).subrange(0, attr_xml(a).len() as int));
    assert((attr_xml(a) + rest).subrange(0, attr_xml(a).len() as int) =~= attr_xml(a));
    lemma_attr_layout(s, p, a);
    if a.0@ == "info"@ {
        lemma_after_info(s, p, t, k);
    }
}

/// When no more attribute is read, all of them have been.
proof fn lemma_attrs_end(
    s: Seq<char>,
    start: int,
    p: int,
    t: Seq<(String, String)>,
    k: int,
    attrs: Seq<(String, String)>,
)
    requires
        attrs_progress(s, start, p, t, k, attrs),
        k == t.len(),
    ensures
        attr_views(attrs) == attr_views(t),
        p == start + attrs_xml(t).len(),
{
    assert(t.take(k) =~= t);
}

/// Reading the next written attribute moves on by one.
proof fn lemma_attrs_advance(
    s: Seq<char>,
    start: int,
    p: int,
    next: int,
    t: Seq<(String, String)>,
    k: int,
    before: Seq<(String, String)>,
    pair: (String, String),
)
    requires
        attrs_progress(s, start, p, t, k, before),
        k < t.len(),
        pair.0@ == t[k].0@,
        pair.1@ == t[k].1@,
        next == p + attr_xml(t[k]).len(),
    ensures
        attrs_progress(s, start, next, t, k + 1, before.push(pair)),
{
    let attrs = before.push(pair);
    assert(attr_views(attrs) =~= attr_views(before).push((pair.0@, pair.1@)));
    assert(t.take(k + 1) =~= t.take(k).push(t[k]));
    assert(attr_views(t.take(k + 1)) =~= attr_views(t.take(k)).push((t[k].0@, t[k].1@)));
    assert(attr_views(attrs) =~= attr_views(t.take(k + 1)));
    assert(t.take(k + 1) =~= t.take(k) + seq![t[k]]);
    lemma_attrs_xml_append(t.take(k), seq![t[k]]);
    lemma_attrs_xml_single(t[k]);
    assert(t.skip(k) =~= seq![t[k]] + t.skip(k + 1));
    lemma_attrs_xml_append(seq![t[k]], t.skip(k + 1));
    assert(attr_xml(pair) == attr_xml(t[k]));
    assert(s.subrange(next, next + attrs_xml(t.skip(k + 1)).len()) =~= s.subrange(
        p,
        p + attrs_xml(t.skip(k)).len(),
    ).subrange(attr_xml(t[k]).len() as int, attrs_xml(t.skip(k)).len() as int));
    assert((attr_xml(t[k]) + attrs_xml(t.skip(k + 1))).subrange(
        attr_xml(t[k]).len() as int,
        attrs_xml(t.skip(k)).len() as int,
    ) =~= attrs_xml(t.skip(k + 1)));
}

/// An attribute read after an `info` attribute is its `math_style`.
proof fn lemma_follows_push(before: Seq<(String, String)>, pair: (String, String))
    requires
        forall|i: int| 0 <= i < before.len() - 1 ==> #[trigger] follows_info(before, i),
        before.len() > 0 && before.last().0@ == "info"@ ==> pair.0@ == "math_style"@,
    ensures
        forall|i: int| 0 <= i < before.push(pair).len() - 1 ==> #[trigger] follows_info(
            before.push(pair),
            i,
        ),
{
    let attrs = before.push(pair);
    assert forall|i: int| 0 <= i < attrs.len() - 1 implies #[trigger] follows_info(attrs, i) by {
        if i < before.len() - 1 {
            assert(follows_info(before, i));
            assert(attrs[i] == before[i] && attrs[i + 1] == before[i + 1]);
        } else {
            assert(attrs[i] == before.last());
            assert(attrs[i + 1] == pair);
        }
    }
}

/// The attributes of an element, read from `start` up to the ending that
/// follows them.  Returns the attributes and the position after them; each
/// `info` attribute is followed by a `math_style` one, or the literal
/// marker or a `math_style` attribute starts after it.  Written attributes
/// that can be read back (`target`, `target2`) are read back.
fn read_attrs(s: &Vec<char>, start: usize, Ghost(target): Ghost<Option<Seq<(String, String)>>>, Ghost(target2): Ghost<Option<Seq<(String, String)>>>) -> (r: Option<(Vec<(String, String)>, usize)>)
    requires
        start <= s@.len(),
        target matches Some(t) ==> attrs_ok(t) && start + attrs_xml(t).len() <= s@.len()
            && s@.subrange(start as int, start + attrs_xml(t).len()) == attrs_xml(t)
            && at_attrs_end(s@, start + attrs_xml(t).len()) && info_placed(
            t,
            occurs_at(s@, preserve_marker(), start + attrs_xml(t).len()),
        ),
        target2 matches Some(t) ==> attrs_ok(t) && start + attrs_xml(t).len() <= s@.len()
            && s@.subrange(start as int, start + attrs_xml(t).len()) == attrs_xml(t)
            && at_attrs_end(s@, start + attrs_xml(t).len()) && info_placed(
            t,
            occurs_at(s@, preserve_marker(), start + attrs_xml(t).len()),
        ),
    ensures
        r matches Some((attrs, end)) ==> start <= end <= s@.len() && s@.subrange(
            start as int,
            end as int,
        ) == attrs_xml(attrs@) && attrs_ok(attrs@),
        r matches Some((attrs, end)) ==> (forall|i: int|
            0 <= i < attrs@.len() - 1 ==> #[trigger] follows_info(attrs@, i)) && (attrs@.len() > 0
            && attrs@.last().0@ == "info"@ ==> (occurs_at(s@, space_prefix(), end as int) || occurs_at(
            s@,
            math_style_prefix(),
            end as int,
        ))),
        target matches Some(t) ==> (r matches Some((attrs, end)) && attr_views(attrs@)
            == attr_views(t) && end == start + attrs_xml(t).len()),
        target2 matches Some(t) ==> (r matches Some((attrs, end)) && attr_views(attrs@)
            == attr_views(t) && end == start + attrs_xml(t).len()),
{
    let preserve = chars_of(" xml:space=\"preserve\">");
    let empty_end = chars_of(" />\n");
    let open_end = chars_of(">\n");
    let slen = s.len();
    let mut attrs: Vec<(String, String)> = Vec::new();
    let mut p = start;
    let ghost mut k: int = 0;
    assert(s@.subrange(start as int, start as int) =~= attrs_xml(attrs@));
    proof {
        assert(attrs@ =~= Seq::<(String, String)>::empty());
        if let Some(t) = target {
            lemma_attrs_start(s@, start as int, t);
        }
        if let Some(t) = target2 {
            lemma_attrs_start(s@, start as int, t);
        }
    }
    loop
        invariant
            start <= p <= s@.len(),
            slen == s@.len(),
            s@.subrange(start as int, p as int) == attrs_xml(attrs@),
            attrs_ok(attrs@),
            forall|i: int| 0 <= i < attrs@.len() - 1 ==> #[trigger] follows_info(attrs@, i),
            attrs@.len() > 0 && attrs@.last().0@ == "info"@ ==> (occurs_at(s@, space_prefix(), p as int)
                || occurs_at(s@, math_style_prefix(), p as int)),
            preserve@ == preserve_marker(),
            empty_end@ == " />\n"@,
            open_end@ == ">\n"@,
            target matches Some(t) ==> attrs_progress(s@, start as int, p as int, t, k, attrs@),
            target2 matches Some(t) ==> attrs_progress(s@, start as int, p as int, t, k, attrs@),
        decreases s@.len() - p,
    {
        let ghost want: Option<(String, String)> = match target {
            Some(t) => if k < t.len() {
                Some(t[k])
            } else {
                None
            },
            None => None,
        };
        let ghost want2: Option<(String, String)> = match target2 {
            Some(t) => if k < t.len() {
                Some(t[k])
            } else {
                None
            },
            None => None,
        };
        proof {
            if let Some(t) = target {
                if k < t.len() {
                    lemma_attrs_next(s@, start as int, p as int, t, k, attrs@);
                }
            }
            if let Some(t) = target2 {
                if k < t.len() {
                    lemma_attrs_next(s@, start as int, p as int, t, k, attrs@);
                }
            }
        }
        if matches_at(s, &preserve, p) || matches_at(s, &empty_end, p) || matches_at(s, &open_end, p) {
            proof {
                if let Some(t) = target {
                    lemma_attrs_end(s@, start as int, p as int, t, k, attrs@);
                }
                if let Some(t) = target2 {
                    lemma_attrs_end(s@, start as int, p as int, t, k, attrs@);
                }
            }
            return Some((attrs, p));
        }
        let (pair, next) = match read_attr(s, p, Ghost(want), Ghost(want2)) {
            Some(x) => x,
            None => {
                proof {
                    if let Some(t) = target {
                        lemma_attrs_end(s@, start as int, p as int, t, k, attrs@);
                    }
                    if let Some(t) = target2 {
                        lemma_attrs_end(s@, start as int, p as int, t, k, attrs@);
                    }
                }
                return Some((attrs, p));
            },
        };
        let ghost before = attrs@;
        let ghost pair_view = pair;
        attrs.push(pair);
        proof {
            assert(attrs@ =~= before.push(pair_view));
            assert(attrs@.drop_last() =~= before);
            assert(s@.subrange(start as int, next as int) =~= s@.subrange(start as int, p as int)
                + s@.subrange(p as int, next as int));
            lemma_follows_push(before, pair_view);
            if let Some(t) = target {
                lemma_attrs_advance(s@, start as int, p as int, next as int, t, k, before, pair_view);
            }
            if let Some(t) = target2 {
                lemma_attrs_advance(s@, start as int, p as int, next as int, t, k, before, pair_view);
            }
        }
        p = next;
        proof {
            k = k + 1;
        }
    }
}

/// The opening of an element up to its attributes.
pub open spec fn head_xml(e: XmlElement, depth: nat) -> Seq<char> {
    indent(depth) + "<"@ + e.name@ + attrs_xml(e.attrs@)
}

/// The rest of an element after its attributes.
pub open spec fn tail_xml(e: XmlElement, depth: nat) -> Seq<char> {
    match e.literal {
        Some(l) => preserve_marker() + escape_xml(l@) + "</"@ + e.name@ + ">\n"@,
        None => if e.children@.len() == 0 {
            " />\n"@
        } else {
            ">\n"@ + elements_xml(e.children@, depth + 1) + close_tag(e.name@, depth)
        },
    }
}

proof fn lemma_element_split(e: XmlElement, depth: nat)
    ensures
        element_xml(e, depth) == head_xml(e, depth) + tail_xml(e, depth),
{
    assert(element_xml(e, depth) =~= head_xml(e, depth) + tail_xml(e, depth));
}

proof fn lemma_elements_xml_append(a: Seq<XmlElement>, b: Seq<XmlElement>, depth: nat)
    ensures
        elements_xml(a + b, depth) == elements_xml(a, depth) + elements_xml(b, depth),
    decreases b.len(),
{
    if b.len() == 0 {
        assert(a + b =~= a);
        assert(elements_xml(a, depth) + elements_xml(b, depth) =~= elements_xml(a, depth));
    } else {
        assert((a + b).drop_last() =~= a + b.drop_last());
        assert((a + b).last() == b.last());
        lemma_elements_xml_append(a, b.drop_last(), depth);
        assert(elements_xml(a + b, depth) =~= elements_xml(a, depth) + elements_xml(b, depth));
    }
}

proof fn lemma_elements_xml_single(x: XmlElement, depth: nat)
    ensures
        elements_xml(seq![x], depth) == element_xml(x, depth),
{
    assert(seq![x].drop_last() =~= Seq::<XmlElement>::empty());
    assert(elements_xml(Seq::<XmlElement>::empty(), depth) == Seq::<char>::empty());
    assert(elements_xml(seq![x], depth) =~= element_xml(x, depth));
}

proof fn lemma_wf_elements_index(s: Seq<XmlElement>, i: int)
    requires
        wf_elements(s),
        0 <= i < s.len(),
    ensures
        wf_element(s[i]),
    decreases s.len(),
{
    if i < s.len() - 1 {
        assert(s.drop_last()[i] == s[i]);
        lemma_wf_elements_index(s.drop_last(), i);
    }
}

/// What follows the attributes of an element is one of their endings, and
/// the text after its name starts with a space or `>`.
proof fn lemma_tail_starts(e: XmlElement, depth: nat)
    ensures
        tail_xml(e, depth).len() > 0,
        tail_xml(e, depth)[0] == ' ' || tail_xml(e, depth)[0] == '>',
        e.literal is Some ==> tail_xml(e, depth).subrange(0, preserve_marker().len() as int)
            == preserve_marker(),
        e.literal is None && e.children@.len() == 0 ==> tail_xml(e, depth) == " />\n"@,
        e.literal is None && e.children@.len() > 0 ==> tail_xml(e, depth).subrange(0, 2) == ">\n"@,
{
    reveal_strlit(" xml:space=\"preserve\">");
    reveal_strlit(" />\n");
    reveal_strlit(">\n");
    let t = tail_xml(e, depth);
    match e.literal {
        Some(l) => {
            assert(t.subrange(0, preserve_marker().len() as int) =~= preserve_marker());
            assert(t[0] == preserve_marker()[0]);
        },
        None => {
            if e.children@.len() > 0 {
                assert(t.subrange(0, 2) =~= ">\n"@);
                assert(t[0] == '>');
            }
        },
    }
}

/// Whether `s` holds `t` from `p` on.
pub open spec fn holds_at(s: Seq<char>, p: int, t: Seq<char>) -> bool {
    0 <= p && p + t.len() <= s.len() && s.subrange(p, p + t.len()) == t
}

proof fn lemma_holds_split(s: Seq<char>, p: int, a: Seq<char>, b: Seq<char>)
    requires
        holds_at(s, p, a + b),
    ensures
        holds_at(s, p, a),
        holds_at(s, p + a.len(), b),
{
    let whole = s.subrange(p, p + (a + b).len());
    assert(whole == a + b);
    assert(s.subrange(p, p + a.len()) =~= whole.subrange(0, a.len() as int));
    assert(whole.subrange(0, a.len() as int) =~= a);
    assert(s.subrange(p + a.len(), p + a.len() + b.len()) =~= whole.subrange(
        a.len() as int,
        whole.len() as int,
    ));
    assert(whole.subrange(a.len() as int, whole.len() as int) =~= b);
}

proof fn lemma_holds_char(s: Seq<char>, p: int, t: Seq<char>, i: int)
    requires
        holds_at(s, p, t),
        0 <= i < t.len(),
    ensures
        s[p + i] == t[i],
{
    assert(s.subrange(p, p + t.len())[i] == s[p + i]);
}

/// Where the parts of a written element's opening stand.
proof fn lemma_head_layout(s: Seq<char>, pos: int, e: XmlElement, d: nat)
    requires
        wf_element(e),
        holds_at(s, pos, element_xml(e, d)),
    ensures
        holds_at(s, pos, indent(d)),
        holds_at(s, pos + indent(d).len(), "<"@),
        holds_at(s, pos + indent(d).len() + 1, e.name@),
        pos + indent(d).len() + 1 + e.name@.len() < s.len(),
        s[pos + indent(d).len() + 1 + e.name@.len()] == ' ' || s[pos + indent(d).len() + 1
            + e.name@.len()] == '>',
        holds_at(s, pos + indent(d).len() + 1 + e.name@.len(), attrs_xml(e.attrs@) + tail_xml(e, d)),
        holds_at(s, pos + head_xml(e, d).len(), tail_xml(e, d)),
        head_xml(e, d).len() == indent(d).len() + 1 + e.name@.len() + attrs_xml(e.attrs@).len(),
{
    reveal_strlit("<");
    reveal_strlit(" ");
    let n = e.name@;
    let rest = attrs_xml(e.attrs@) + tail_xml(e, d);
    lemma_element_split(e, d);
    assert(element_xml(e, d) =~= indent(d) + ("<"@ + (n + rest)));
    lemma_holds_split(s, pos, indent(d), "<"@ + (n + rest));
    lemma_holds_split(s, pos + indent(d).len(), "<"@, n + rest);
    lemma_holds_split(s, pos + indent(d).len() + 1, n, rest);
    assert(element_xml(e, d) =~= head_xml(e, d) + tail_xml(e, d));
    lemma_holds_split(s, pos, head_xml(e, d), tail_xml(e, d));
    lemma_tail_starts(e, d);
    if e.attrs@.len() > 0 {
        assert(e.attrs@ =~= seq![e.attrs@[0]] + e.attrs@.skip(1));
        lemma_attrs_xml_append(seq![e.attrs@[0]], e.attrs@.skip(1));
        lemma_attrs_xml_single(e.attrs@[0]);
        assert(attr_xml(e.attrs@[0])[0] == ' ');
        assert(rest[0] == ' ');
    } else {
        assert(attrs_xml(e.attrs@) =~= Seq::<char>::empty());
        assert(rest[0] == tail_xml(e, d)[0]);
    }
    lemma_holds_char(s, pos + indent(d).len() + 1 + n.len(), rest, 0);
}

/// Which ending follows the attributes of a written element, and what
/// follows that ending.
proof fn lemma_tail_cases(s: Seq<char>, p: int, e: XmlElement, d: nat)
    requires
        holds_at(s, p, tail_xml(e, d)),
    ensures
        e.literal matches Some(l) ==> occurs_at(s, preserve_marker(), p) && holds_at(
            s,
            p + preserve_marker().len(),
            escape_xml(l@) + "</"@ + e.name@ + ">\n"@,
        ),
        e.literal is None ==> !occurs_at(s, preserve_marker(), p),
        e.literal is None && e.children@.len() == 0 ==> occurs_at(s, " />\n"@, p),
        e.literal is None && e.children@.len() > 0 ==> !occurs_at(s, " />\n"@, p) && occurs_at(
            s,
            ">\n"@,
            p,
        ) && holds_at(s, p + 2, elements_xml(e.children@, d + 1) + close_tag(e.name@, d)),
{
    reveal_strlit(" xml:space=\"preserve\">");
    reveal_strlit(" />\n");
    reveal_strlit(">\n");
    let t = tail_xml(e, d);
    let m = preserve_marker();
    match e.literal {
        Some(l) => {
            assert(t =~= m + (escape_xml(l@) + "</"@ + e.name@ + ">\n"@));
            lemma_holds_split(s, p, m, escape_xml(l@) + "</"@ + e.name@ + ">\n"@);
        },
        None => {
            if e.children@.len() == 0 {
                assert(t == " />\n"@);
                lemma_holds_char(s, p, t, 1);
                if occurs_at(s, m, p) {
                    assert(s.subrange(p, p + m.len())[1] == s[p + 1]);
                }
            } else {
                let rest = elements_xml(e.children@, d + 1) + close_tag(e.name@, d);
                assert(t =~= ">\n"@ + rest);
                lemma_holds_split(s, p, ">\n"@, rest);
                lemma_holds_char(s, p, ">\n"@, 0);
                if occurs_at(s, m, p) {
                    assert(s.subrange(p, p + m.len())[0] == s[p]);
                }
                if occurs_at(s, " />\n"@, p) {
                    assert(s.subrange(p, p + 4)[0] == s[p]);
                }
            }
        },
    }
}

/// Reads the opening of an element at depth `depth`: indentation, `<`, the
/// name and the attributes.  Returns the name, the attributes and the
/// position after them.  The written opening of an element that can be
/// read back (`target`, `target2`) is read back.
fn read_head(s: &Vec<char>, pos: usize, depth: usize, Ghost(target): Ghost<Option<XmlElement>>, Ghost(target2): Ghost<Option<XmlElement>>) -> (r: Option<(Vec<char>, Vec<(String, String)>, usize)>)
    requires
        pos <= s@.len(),
        target matches Some(e) ==> wf_element(e) && holds_at(s@, pos as int, element_xml(e, depth as nat)),
        target2 matches Some(e) ==> wf_element(e) && holds_at(s@, pos as int, element_xml(e, depth as nat)),
    ensures
        r matches Some((name, attrs, p)) ==> pos < p <= s@.len() && s@.subrange(pos as int, p as int)
            == indent(depth as nat) + "<"@ + name@ + attrs_xml(attrs@) && name_ok(name@)
            && attrs_ok(attrs@),
        r matches Some((name, attrs, p)) ==> (forall|i: int|
            0 <= i < attrs@.len() - 1 ==> #[trigger] follows_info(attrs@, i)) && (attrs@.len() > 0
            && attrs@.last().0@ == "info"@ ==> (occurs_at(s@, space_prefix(), p as int) || occurs_at(
            s@,
            math_style_prefix(),
            p as int,
        ))),
        target matches Some(e) ==> (r matches Some((name, attrs, p)) && name@ == e.name@
            && attr_views(attrs@) == attr_views(e.attrs@) && p == pos + head_xml(e, depth as nat).len()),
        target2 matches Some(e) ==> (r matches Some((name, attrs, p)) && name@ == e.name@
            && attr_views(attrs@) == attr_views(e.attrs@) && p == pos + head_xml(e, depth as nat).len()),
{
    proof {
        reveal_strlit("<");
        reveal_strlit(" >/\n");
    }
    let slen = s.len();
    let ind = indent_chars(depth);
    let ghost d = depth as nat;
    proof {
        if let Some(e) = target {
            lemma_head_layout(s@, pos as int, e, d);
        }
        if let Some(e) = target2 {
            lemma_head_layout(s@, pos as int, e, d);
        }
    }
    if !matches_at(s, &ind, pos) {
        return None;
    }
    let lt = pos + ind.len();
    let open = chars_of("<");
    if !matches_at(s, &open, lt) {
        return None;
    }
    let name_start = lt + open.len();
    let stops = chars_of(" >/\n");
    let name_end = read_until(s, name_start, &stops);
    proof {
        if let Some(e) = target {
            let n = e.name@;
            let after = name_start + n.len();
            assert forall|j: int| name_start <= j < after implies !stops@.contains(#[trigger] s@[j]) by {
                lemma_holds_char(s@, name_start as int, n, j - name_start);
                if stops@.contains(s@[j]) {
                    let c = s@[j];
                    assert(c == ' ' || c == '>' || c == '/' || c == '\n');
                    assert(n.contains(n[j - name_start]));
                }
            }
            assert(stops@[0] == ' ' && stops@[1] == '>');
            assert(stops@.contains(s@[after]));
            lemma_first_stop(s@, name_start as int, after, stops@, name_end as int);
        }
        if let Some(e) = target2 {
            let n = e.name@;
            let after = name_start + n.len();
            assert forall|j: int| name_start <= j < after implies !stops@.contains(#[trigger] s@[j]) by {
                lemma_holds_char(s@, name_start as int, n, j - name_start);
                if stops@.contains(s@[j]) {
                    let c = s@[j];
                    assert(c == ' ' || c == '>' || c == '/' || c == '\n');
                    assert(n.contains(n[j - name_start]));
                }
            }
            assert(stops@[0] == ' ' && stops@[1] == '>');
            assert(stops@.contains(s@[after]));
            lemma_first_stop(s@, name_start as int, after, stops@, name_end as int);
        }
    }
    if name_end == name_start {
        return None;
    }
    let name = slice_chars(s, name_start, name_end);
    proof {
        assert(stops@ =~= seq![' ', '>', '/', '\n']);
        assert forall|j: int| 0 <= j < name@.len() implies name@[j] != ' ' && name@[j] != '>'
            && name@[j] != '/' && name@[j] != '\n' by {
            assert(name@[j] == s@[name_start + j]);
            assert(!stops@.contains(s@[name_start + j]));
            if name@[j] == ' ' {
                assert(stops@[0] == ' ');
            } else if name@[j] == '>' {
                assert(stops@[1] == '>');
            } else if name@[j] == '/' {
                assert(stops@[2] == '/');
            } else if name@[j] == '\n' {
                assert(stops@[3] == '\n');
            }
        }
    }
    let ghost want: Option<Seq<(String, String)>> = match target {
        Some(e) => Some(e.attrs@),
        None => None,
    };
    let ghost want2: Option<Seq<(String, String)>> = match target2 {
        Some(e) => Some(e.attrs@),
        None => None,
    };
    proof {
        if let Some(e) = target {
            let q = name_end + attrs_xml(e.attrs@).len();
            lemma_holds_split(s@, name_end as int, attrs_xml(e.attrs@), tail_xml(e, d));
            lemma_tail_cases(s@, q, e, d);
        }
        if let Some(e) = target2 {
            let q = name_end + attrs_xml(e.attrs@).len();
            lemma_holds_split(s@, name_end as int, attrs_xml(e.attrs@), tail_xml(e, d));
            lemma_tail_cases(s@, q, e, d);
        }
    }
    match read_attrs(s, name_end, Ghost(want), Ghost(want2)) {
        Some((attrs, p)) => {
            assert(s@.subrange(pos as int, p as int) =~= s@.subrange(pos as int, lt as int)
                + s@.subrange(lt as int, name_start as int) + s@.subrange(
                name_start as int,
                name_end as int,
            ) + s@.subrange(name_end as int, p as int));
            proof {
                if let Some(e) = target {
                    assert(name@ =~= e.name@);
                }
                if let Some(e) = target2 {
                    assert(name@ =~= e.name@);
                }
            }
            Some((name, attrs, p))
        },
        None => None,
    }
}

/// Neither the literal marker nor a `math_style` attribute starts where
/// the attributes end with ` />` or `>` and a line break.
proof fn lemma_prefixes_not_at_end(s: Seq<char>, p: int)
    requires
        occurs_at(s, " />\n"@, p) || occurs_at(s, ">\n"@, p),
    ensures
        !occurs_at(s, space_prefix(), p),
        !occurs_at(s, math_style_prefix(), p),
{
    reveal_strlit(" />\n");
    reveal_strlit(">\n");
    reveal_strlit(" xml:space=\"");
    reveal_strlit(" math_style=\"");
    if occurs_at(s, " />\n"@, p) {
        assert(s.subrange(p, p + 4)[1] == s[p + 1]);
        if occurs_at(s, space_prefix(), p) {
            assert(s.subrange(p, p + 12)[1] == s[p + 1]);
        }
        if occurs_at(s, math_style_prefix(), p) {
            assert(s.subrange(p, p + 13)[1] == s[p + 1]);
        }
    } else {
        assert(s.subrange(p, p + 2)[0] == s[p]);
        if occurs_at(s, space_prefix(), p) {
            assert(s.subrange(p, p + 12)[0] == s[p]);
        }
        if occurs_at(s, math_style_prefix(), p) {
            assert(s.subrange(p, p + 13)[0] == s[p]);
        }
    }
}

/// Reads the rest of a literal element from `p`, just after its marker:
/// its escaped text and its closing tag.  Returns the text and the position
/// after the closing tag.  Written text without NUL (`target`, `target2`)
/// is read back.
fn read_literal_rest(s: &Vec<char>, p: usize, name: &Vec<char>, Ghost(target): Ghost<Option<Seq<char>>>, Ghost(target2): Ghost<Option<Seq<char>>>) -> (r: Option<(Vec<char>, usize)>)
    requires
        p <= s@.len(),
        target matches Some(l) ==> no_nul(l) && holds_at(s@, p as int, escape_xml(l) + "</"@ + name@ + ">\n"@),
        target2 matches Some(l) ==> no_nul(l) && holds_at(s@, p as int, escape_xml(l) + "</"@ + name@ + ">\n"@),
    ensures
        r matches Some((text, end)) ==> p <= end <= s@.len() && s@.subrange(p as int, end as int)
            == escape_xml(text@) + "</"@ + name@ + ">\n"@ && no_nul(text@),
        target matches Some(l) ==> (r matches Some((text, end)) && text@ == l && end == p + (escape_xml(l) + "</"@ + name@ + ">\n"@).len()),
        target2 matches Some(l) ==> (r matches Some((text, end)) && text@ == l && end == p + (escape_xml(l) + "</"@ + name@ + ">\n"@).len()),
{
    proof {
        reveal_strlit("<");
        reveal_strlit("</");
    }
    let slen = s.len();
    let mut end_tag = chars_of("</");
    push_all(&mut end_tag, name);
    push_all(&mut end_tag, &chars_of(">\n"));
    let stops = chars_of("<");
    let text_end = read_until(s, p, &stops);
    proof {
        if let Some(l) = target {
            let esc = escape_xml(l);
            let tag = "</"@ + name@ + ">\n"@;
            assert(escape_xml(l) + "</"@ + name@ + ">\n"@ =~= esc + tag);
            lemma_holds_split(s@, p as int, esc, tag);
            lemma_escape_plain(l);
            assert forall|j: int| p <= j < p + esc.len() implies !stops@.contains(#[trigger] s@[j]) by {
                lemma_holds_char(s@, p as int, esc, j - p);
                if stops@.contains(s@[j]) {
                    assert(s@[j] == '<');
                    assert(esc.contains(esc[j - p]));
                }
            }
            lemma_holds_char(s@, p + esc.len(), tag, 0);
            assert(stops@[0] == '<');
            assert(stops@.contains(s@[p + esc.len()]));
            lemma_first_stop(s@, p as int, p + esc.len(), stops@, text_end as int);
        }
        if let Some(l) = target2 {
            let esc = escape_xml(l);
            let tag = "</"@ + name@ + ">\n"@;
            assert(escape_xml(l) + "</"@ + name@ + ">\n"@ =~= esc + tag);
            lemma_holds_split(s@, p as int, esc, tag);
            lemma_escape_plain(l);
            assert forall|j: int| p <= j < p + esc.len() implies !stops@.contains(#[trigger] s@[j]) by {
                lemma_holds_char(s@, p as int, esc, j - p);
                if stops@.contains(s@[j]) {
                    assert(s@[j] == '<');
                    assert(esc.contains(esc[j - p]));
                }
            }
            lemma_holds_char(s@, p + esc.len(), tag, 0);
            assert(stops@[0] == '<');
            assert(stops@.contains(s@[p + esc.len()]));
            lemma_first_stop(s@, p as int, p + esc.len(), stops@, text_end as int);
        }
    }
    let raw = slice_chars(s, p, text_end);
    let text = match unescape_xml(&raw, Ghost(target), Ghost(target2)) {
        Some(t) => t,
        None => {
            return None;
        },
    };
    if !matches_at(s, &end_tag, text_end) {
        return None;
    }
    let end = text_end + end_tag.len();
    assert(s@.subrange(p as int, end as int) =~= s@.subrange(p as int, text_end as int)
        + s@.subrange(text_end as int, end as int));
    Some((text, end))
}

/// Whether a closing tag at depth `depth` starts with its indentation and
/// `</`.
pub open spec fn closes_at_depth(close: Seq<char>, depth: nat) -> bool {
    close.len() >= indent(depth).len() + 2 && close.subrange(0, indent(depth).len() as int + 2)
        == indent(depth) + "</"@
}

proof fn lemma_indent_len(depth: nat)
    ensures
        indent(depth).len() == (if depth >= 20 { 40 } else { 2 * depth }),
        forall|i: int| 0 <= i < indent(depth).len() ==> #[trigger] indent(depth)[i] == ' ',
{
    lemma_repeat_spaces(if depth >= 20 { 40 } else { 2 * depth });
}

proof fn lemma_repeat_spaces(n: nat)
    ensures
        repeat(" "@, n).len() == n,
        forall|i: int| 0 <= i < n ==> #[trigger] repeat(" "@, n)[i] == ' ',
    decreases n,
{
    reveal_strlit(" ");
    if n > 0 {
        lemma_repeat_spaces((n - 1) as nat);
        let r = repeat(" "@, (n - 1) as nat);
        assert(repeat(" "@, n) == r + " "@);
        assert forall|i: int| 0 <= i < n implies #[trigger] repeat(" "@, n)[i] == ' ' by {
            if i < n - 1 {
                assert((r + " "@)[i] == r[i]);
            } else {
                assert((r + " "@)[i] == " "@[0]);
            }
        }
    }
}

/// A child one level deeper never starts like the closing tag.
proof fn lemma_child_not_close(s: Seq<char>, q: int, c: XmlElement, depth: nat, close: Seq<char>)
    requires
        wf_element(c),
        holds_at(s, q, element_xml(c, depth + 1)),
        closes_at_depth(close, depth),
    ensures
        !occurs_at(s, close, q),
{
    reveal_strlit("<");
    reveal_strlit("</");
    lemma_indent_len(depth);
    lemma_indent_len(depth + 1);
    let x = element_xml(c, depth + 1);
    let ind: int = indent(depth).len() as int;
    assert(x =~= indent(depth + 1) + ("<"@ + c.name@ + attrs_xml(c.attrs@) + tail_xml(c, depth + 1)));
    if occurs_at(s, close, q) {
        assert(s.subrange(q, q + close.len()) == close);
        assert(close[ind] == (indent(depth) + "</"@)[ind]);
        assert(close[ind + 1] == (indent(depth) + "</"@)[ind + 1]);
        assert(s[q + ind] == close[ind]) by {
            assert(s.subrange(q, q + close.len())[ind] == s[q + ind]);
        }
        assert(s[q + ind + 1] == close[ind + 1]) by {
            assert(s.subrange(q, q + close.len())[ind + 1] == s[q + ind + 1]);
        }
        if depth + 1 < 20 || depth + 1 == 20 {
            lemma_holds_char(s, q, x, ind);
            assert(x[ind] == indent(depth + 1)[ind]);
        } else {
            lemma_holds_char(s, q, x, ind + 1);
            assert(x[ind + 1] == c.name@[0]);
        }
    }
}

/// Reads the children of an element at depth `depth` from `start` up to
/// the closing tag `close`, which must follow at least one child.  Returns
/// the children and the position after the closing tag.  Written children
/// that can be read back (`target`, `target2`) are read back.
#[verifier::rlimit(80)]
fn read_children(s: &Vec<char>, start: usize, depth: usize, close: &Vec<char>, Ghost(target): Ghost<Option<Seq<XmlElement>>>, Ghost(target2): Ghost<Option<Seq<XmlElement>>>) -> (r: Option<(Vec<XmlElement>, usize)>)
    requires
        start <= s@.len(),
        depth < start,
        target matches Some(cs) ==> wf_elements(cs) && cs.len() > 0 && closes_at_depth(close@, depth as nat)
            && holds_at(s@, start as int, elements_xml(cs, depth as nat + 1) + close@),
        target2 matches Some(cs) ==> wf_elements(cs) && cs.len() > 0 && closes_at_depth(close@, depth as nat)
            && holds_at(s@, start as int, elements_xml(cs, depth as nat + 1) + close@),
    ensures
        r matches Some((children, end)) ==> start < end <= s@.len() && children@.len() > 0
            && s@.subrange(start as int, end as int) == elements_xml(children@, depth as nat + 1)
            + close@ && wf_elements(children@),
        target matches Some(cs) ==> (r matches Some((children, end)) && same_elements(children@, cs)
            && end == start + (elements_xml(cs, depth as nat + 1) + close@).len()),
        target2 matches Some(cs) ==> (r matches Some((children, end)) && same_elements(children@, cs)
            && end == start + (elements_xml(cs, depth as nat + 1) + close@).len()),
    decreases s@.len() - start, 1nat,
{
    let slen = s.len();
    let mut children: Vec<XmlElement> = Vec::new();
    let mut q = start;
    let ghost mut k: int = 0;
    let ghost d1 = depth as nat + 1;
    assert(s@.subrange(start as int, q as int) =~= elements_xml(children@, depth as nat + 1));
    proof {
        if let Some(cs) = target {
            assert(cs.take(0) =~= Seq::<XmlElement>::empty());
            assert(cs.skip(0) =~= cs);
            assert(elements_xml(cs.take(0), d1) =~= Seq::<char>::empty());
        }
        if let Some(cs) = target2 {
            assert(cs.take(0) =~= Seq::<XmlElement>::empty());
            assert(cs.skip(0) =~= cs);
            assert(elements_xml(cs.take(0), d1) =~= Seq::<char>::empty());
        }
    }
    loop
        invariant
            start <= q <= s@.len(),
            slen == s@.len(),
            children@.len() > 0 ==> start < q,
            depth < start,
            d1 == depth as nat + 1,
            s@.subrange(start as int, q as int) == elements_xml(children@, depth as nat + 1),
            wf_elements(children@),
            target matches Some(cs) ==> wf_elements(cs) && closes_at_depth(close@, depth as nat)
                && 0 <= k <= cs.len() && children@.len() == k && same_elements(children@, cs.take(k))
                && q == start + elements_xml(cs.take(k), d1).len()
                && holds_at(s@, q as int, elements_xml(cs.skip(k), d1) + close@),
            target2 matches Some(cs) ==> wf_elements(cs) && closes_at_depth(close@, depth as nat)
                && 0 <= k <= cs.len() && children@.len() == k && same_elements(children@, cs.take(k))
                && q == start + elements_xml(cs.take(k), d1).len()
                && holds_at(s@, q as int, elements_xml(cs.skip(k), d1) + close@),
        ensures
            occurs_at(s@, close@, q as int),
            start <= q <= s@.len(),
            slen == s@.len(),
            children@.len() > 0 ==> start < q,
            s@.subrange(start as int, q as int) == elements_xml(children@, depth as nat + 1),
            wf_elements(children@),
            target matches Some(cs) ==> k == cs.len() && same_elements(children@, cs)
                && q == start + elements_xml(cs, d1).len(),
            target2 matches Some(cs) ==> k == cs.len() && same_elements(children@, cs)
                && q == start + elements_xml(cs, d1).len(),
        decreases s@.len() - q,
    {
        proof {
            if let Some(cs) = target {
                if k < cs.len() {
                    assert(cs.skip(k) =~= seq![cs[k]] + cs.skip(k + 1));
                    lemma_elements_xml_append(seq![cs[k]], cs.skip(k + 1), d1);
                    lemma_elements_xml_single(cs[k], d1);
                    lemma_wf_elements_index(cs, k);
                    assert(elements_xml(cs.skip(k), d1) + close@ =~= element_xml(cs[k], d1) + (
                    elements_xml(cs.skip(k + 1), d1) + close@));
                    lemma_holds_split(s@, q as int, element_xml(cs[k], d1), elements_xml(cs.skip(k + 1), d1) + close@);
                    lemma_child_not_close(s@, q as int, cs[k], depth as nat, close@);
                } else {
                    assert(cs.skip(k) =~= Seq::<XmlElement>::empty());
                    assert(elements_xml(cs.skip(k), d1) + close@ =~= close@);
                    assert(cs.take(k) =~= cs);
                }
            }
            if let Some(cs) = target2 {
                if k < cs.len() {
                    assert(cs.skip(k) =~= seq![cs[k]] + cs.skip(k + 1));
                    lemma_elements_xml_append(seq![cs[k]], cs.skip(k + 1), d1);
                    lemma_elements_xml_single(cs[k], d1);
                    lemma_wf_elements_index(cs, k);
                    assert(elements_xml(cs.skip(k), d1) + close@ =~= element_xml(cs[k], d1) + (
                    elements_xml(cs.skip(k + 1), d1) + close@));
                    lemma_holds_split(s@, q as int, element_xml(cs[k], d1), elements_xml(cs.skip(k + 1), d1) + close@);
                    lemma_child_not_close(s@, q as int, cs[k], depth as nat, close@);
                } else {
                    assert(cs.skip(k) =~= Seq::<XmlElement>::empty());
                    assert(elements_xml(cs.skip(k), d1) + close@ =~= close@);
                    assert(cs.take(k) =~= cs);
                }
            }
        }
        if matches_at(s, close, q) {
            break;
        }
        let ghost want: Option<XmlElement> = match target {
            Some(cs) => Some(cs[k]),
            None => None,
        };
        let ghost want2: Option<XmlElement> = match target2 {
            Some(cs) => Some(cs[k]),
            None => None,
        };
        match read_element(s, q, depth + 1, Ghost(want), Ghost(want2)) {
            Some((child, next)) => {
                let ghost before = children@;
                let ghost child_view = child;
                children.push(child);
                proof {
                    assert(children@.drop_last() =~= before);
                    assert(s@.subrange(start as int, next as int) =~= s@.subrange(
                        start as int,
                        q as int,
                    ) + s@.subrange(q as int, next as int));
                    if let Some(cs) = target {
                        assert(cs.take(k + 1).drop_last() =~= cs.take(k));
                        assert(cs.take(k + 1).last() == cs[k]);
                        assert(same_elements(children@, cs.take(k + 1)));
                        assert(cs.take(k + 1) =~= cs.take(k) + seq![cs[k]]);
                        lemma_elements_xml_append(cs.take(k), seq![cs[k]], d1);
                        lemma_elements_xml_single(cs[k], d1);
                        lemma_holds_split(s@, q as int, element_xml(cs[k], d1), elements_xml(cs.skip(k + 1), d1) + close@);
                    }
                    if let Some(cs) = target2 {
                        assert(cs.take(k + 1).drop_last() =~= cs.take(k));
                        assert(cs.take(k + 1).last() == cs[k]);
                        assert(same_elements(children@, cs.take(k + 1)));
                        assert(cs.take(k + 1) =~= cs.take(k) + seq![cs[k]]);
                        lemma_elements_xml_append(cs.take(k), seq![cs[k]], d1);
                        lemma_elements_xml_single(cs[k], d1);
                        lemma_holds_split(s@, q as int, element_xml(cs[k], d1), elements_xml(cs.skip(k + 1), d1) + close@);
                    }
                }
                q = next;
                proof {
                    k = k + 1;
                }
            },
            None => {
                return None;
            },
        }
    }
    if children.len() == 0 {
        return None;
    }
    let end = q + close.len();
    assert(s@.subrange(start as int, end as int) =~= s@.subrange(start as int, q as int)
        + s@.subrange(q as int, end as int));
    Some((children, end))
}

/// Reads one element at depth `depth` starting at `pos`.  Returns it and the
/// position after it.  A written element that can be read back (`target`)
/// is read back; so is a second one written at the same place
/// (`target2`), which therefore holds the same texts as the first.
#[verifier::rlimit(60)]
fn read_element(s: &Vec<char>, pos: usize, depth: usize, Ghost(target): Ghost<Option<XmlElement>>, Ghost(target2): Ghost<Option<XmlElement>>) -> (r: Option<(XmlElement, usize)>)
    requires
        pos <= s@.len(),
        depth <= pos,
        target matches Some(e) ==> wf_element(e) && holds_at(s@, pos as int, element_xml(e, depth as nat)),
        target2 matches Some(e) ==> wf_element(e) && holds_at(s@, pos as int, element_xml(e, depth as nat)),
    ensures
        r matches Some((e, end)) ==> pos < end <= s@.len() && s@.subrange(pos as int, end as int)
            == element_xml(e, depth as nat) && wf_element(e),
        target matches Some(e) ==> (r matches Some((e2, end)) && same_element(e2, e) && end == pos
            + element_xml(e, depth as nat).len()),
        target2 matches Some(e) ==> (r matches Some((e2, end)) && same_element(e2, e) && end == pos
            + element_xml(e, depth as nat).len()),
    decreases s@.len() - pos, 0nat,
{
    let slen = s.len();
    let ghost d = depth as nat;
    let (name, attrs, p) = match read_head(s, pos, depth, Ghost(target), Ghost(target2)) {
        Some(h) => h,
        None => {
            return None;
        },
    };
    proof {
        if let Some(e) = target {
            lemma_head_layout(s@, pos as int, e, d);
            lemma_tail_cases(s@, p as int, e, d);
        }
        if let Some(e) = target2 {
            lemma_head_layout(s@, pos as int, e, d);
            lemma_tail_cases(s@, p as int, e, d);
        }
    }
    let preserve = chars_of(" xml:space=\"preserve\">");
    if matches_at(s, &preserve, p) {
        let text_start = p + preserve.len();
        let ghost want: Option<Seq<char>> = match target {
            Some(e) => match e.literal {
                Some(l) => Some(l@),
                None => None,
            },
            None => None,
        };
        let ghost want2: Option<Seq<char>> = match target2 {
            Some(e) => match e.literal {
                Some(l) => Some(l@),
                None => None,
            },
            None => None,
        };
        let (text, end) = match read_literal_rest(s, text_start, &name, Ghost(want), Ghost(want2)) {
            Some(x) => x,
            None => {
                return None;
            },
        };
        let e = XmlElement {
            name: string_of(&name),
            attrs,
            literal: Some(string_of(&text)),
            children: Vec::new(),
        };
        assert(s@.subrange(pos as int, end as int) =~= s@.subrange(pos as int, p as int)
            + s@.subrange(p as int, text_start as int) + s@.subrange(text_start as int, end as int));
        proof {
            if let Some(t) = target {
                assert(same_elements(e.children@, t.children@));
            }
            if let Some(t) = target2 {
                assert(same_elements(e.children@, t.children@));
            }
        }
        return Some((e, end));
    }
    let empty_end = chars_of(" />\n");
    if matches_at(s, &empty_end, p) {
        proof {
            lemma_prefixes_not_at_end(s@, p as int);
        }
        let end = p + empty_end.len();
        let e = XmlElement { name: string_of(&name), attrs, literal: None, children: Vec::new() };
        assert(s@.subrange(pos as int, end as int) =~= s@.subrange(pos as int, p as int)
            + s@.subrange(p as int, end as int));
        proof {
            if let Some(t) = target {
                assert(same_elements(e.children@, t.children@));
            }
            if let Some(t) = target2 {
                assert(same_elements(e.children@, t.children@));
            }
        }
        return Some((e, end));
    }
    let open_end = chars_of(">\n");
    if !matches_at(s, &open_end, p) {
        return None;
    }
    proof {
        lemma_prefixes_not_at_end(s@, p as int);
    }
    let children_start = p + open_end.len();
    let mut close = indent_chars(depth);
    let mut end_tag = chars_of("</");
    push_all(&mut end_tag, &name);
    push_all(&mut end_tag, &chars_of(">\n"));
    push_all(&mut close, &end_tag);
    assert(close@ =~= close_tag(name@, depth as nat));
    let ghost want: Option<Seq<XmlElement>> = match target {
        Some(e) => Some(e.children@),
        None => None,
    };
    let ghost want2: Option<Seq<XmlElement>> = match target2 {
        Some(e) => Some(e.children@),
        None => None,
    };
    proof {
        reveal_strlit("</");
        reveal_strlit(">\n");
        if let Some(t) = target {
            assert(close@.subrange(0, indent(d).len() as int + 2) =~= indent(d) + "</"@);
            assert(t.literal is None && t.children@.len() > 0);
            assert(wf_elements(t.children@));
            assert(children_start == p + 2);
            assert(close@ == close_tag(t.name@, d));
        }
        if let Some(t) = target2 {
            assert(close@.subrange(0, indent(d).len() as int + 2) =~= indent(d) + "</"@);
            assert(t.literal is None && t.children@.len() > 0);
            assert(wf_elements(t.children@));
            assert(children_start == p + 2);
            assert(close@ == close_tag(t.name@, d));
        }
    }
    let (children, end) = match read_children(s, children_start, depth, &close, Ghost(want), Ghost(want2)) {
        Some(x) => x,
        None => {
            return None;
        },
    };
    let e = XmlElement { name: string_of(&name), attrs, literal: None, children };
    assert(s@.subrange(pos as int, end as int) =~= s@.subrange(pos as int, p as int)
        + s@.subrange(p as int, children_start as int) + s@.subrange(children_start as int, end as int));
    Some((e, end))
}

/// Holding the same texts is symmetric.
proof fn lemma_same_element_symmetric(a: XmlElement, b: XmlElement)
    requires
        same_element(a, b),
    ensures
        same_element(b, a),
    decreases a, 0nat,
{
    lemma_same_elements_symmetric(a.children@, b.children@);
}

proof fn lemma_same_elements_symmetric(a: Seq<XmlElement>, b: Seq<XmlElement>)
    requires
        same_elements(a, b),
    ensures
        same_elements(b, a),
    decreases a, 0nat,
{
    if a.len() > 0 {
        lemma_same_elements_symmetric(a.drop_last(), b.drop_last());
        lemma_same_element_symmetric(a.last(), b.last());
    }
}

/// Holding the same texts is transitive.
proof fn lemma_same_element_transitive(a: XmlElement, b: XmlElement, c: XmlElement)
    requires
        same_element(a, b),
        same_element(b, c),
    ensures
        same_element(a, c),
    decreases a, 0nat,
{
    lemma_same_elements_transitive(a.children@, b.children@, c.children@);
}

proof fn lemma_same_elements_transitive(a: Seq<XmlElement>, b: Seq<XmlElement>, c: Seq<XmlElement>)
    requires
        same_elements(a, b),
        same_elements(b, c),
    ensures
        same_elements(a, c),
    decreases a, 0nat,
{
    if a.len() > 0 {
        lemma_same_elements_transitive(a.drop_last(), b.drop_last(), c.drop_last());
        lemma_same_element_transitive(a.last(), b.last(), c.last());
    }
}

/// Whether a text is the XML form of some element that can be read back.
pub open spec fn readable_document(text: Seq<char>) -> bool {
    exists|e: XmlElement| wf_element(e) && #[trigger] document_xml(e) == text
}

/// Reads a whole document in the XML form.  What it returns can be read
/// back and prints to exactly the text it was given; and the XML form of
/// an element that can be read back is read back as that element, so no
/// two such elements have the same XML form.
pub fn parse_document_xml(text: &str) -> (r: Option<XmlElement>)
    ensures
        r matches Some(e) ==> wf_element(e) && document_xml(e) == text@,
        forall|t: XmlElement| #[trigger] wf_element(t) && document_xml(t) == text@ ==> (r matches Some(
            e,
        ) && same_element(e, t)),
        readable_document(text@) ==> r is Some,
{
    let s = chars_of(text);
    let header = chars_of(
        "<?xml version=\"1.0\" encoding=\"UTF-8\"?>\n<!DOCTYPE document SYSTEM \"CommonMark.dtd\">\n",
    );
    let ghost target: Option<XmlElement> = if readable_document(text@) {
        Some(choose|e: XmlElement| wf_element(e) && #[trigger] document_xml(e) == text@)
    } else {
        None
    };
    // A second element of the same form that is not the same, if there is one.
    let ghost target2: Option<XmlElement> = match target {
        Some(t1) => if exists|e: XmlElement|
            wf_element(e) && #[trigger] document_xml(e) == text@ && !same_element(e, t1) {
            Some(
                choose|e: XmlElement|
                    wf_element(e) && #[trigger] document_xml(e) == text@ && !same_element(e, t1),
            )
        } else {
            None
        },
        None => None,
    };
    proof {
        if let Some(e) = target {
            assert(s@ =~= xml_header() + element_xml(e, 0));
            assert(s@.subrange(0, s@.len() as int) =~= s@);
            assert(holds_at(s@, 0, xml_header() + element_xml(e, 0)));
            lemma_holds_split(s@, 0, xml_header(), element_xml(e, 0));
        }
        if let Some(e) = target2 {
            assert(s@ =~= xml_header() + element_xml(e, 0));
            assert(s@.subrange(0, s@.len() as int) =~= s@);
            assert(holds_at(s@, 0, xml_header() + element_xml(e, 0)));
            lemma_holds_split(s@, 0, xml_header(), element_xml(e, 0));
        }
    }
    if !matches_at(&s, &header, 0) {
        return None;
    }
    let start = header.len();
    match read_element(&s, start, 0, Ghost(target), Ghost(target2)) {
        Some((e, end)) => {
            if end != s.len() {
                return None;
            }
            assert(s@ =~= s@.subrange(0, start as int) + s@.subrange(start as int, end as int));
            proof {
                if let Some(t1) = target {
                    if let Some(t2) = target2 {
                        lemma_same_element_symmetric(e, t2);
                        lemma_same_element_transitive(t2, e, t1);
                    }
                    assert forall|t: XmlElement| #[trigger] wf_element(t) && document_xml(t) == text@
                        implies same_element(e, t) by {
                        if !same_element(t, t1) {
                            assert(target2 is Some);
                        }
                        lemma_same_element_symmetric(t, t1);
                        lemma_same_element_transitive(e, t1, t);
                    }
                }
            }
            Some(e)
        },
        None => None,
    }
}

} // verus!
