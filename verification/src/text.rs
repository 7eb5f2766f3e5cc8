//! Character-level helpers shared by the markup generators: whitespace,
//! trimming, substring search and pattern replacement over `Seq<char>`.
use vstd::prelude::*;

verus! {

/// The characters of a string slice, one element per Unicode scalar value.
pub fn chars_of(s: &str) -> (v: Vec<char>)
    ensures
        v@ == s@,
{
    let mut v: Vec<char> = Vec::new();
    for c in it: s.chars()
        invariant
            v@ == it.seq().take(it.index() as int),
    {
        v.push(c);
    }
    v
}

/// Appends one character to a string.
///
/// Trusted: calls `String::push`, which std documents as appending the
/// given `char` to the end of the `String`.
#[verifier::external_body]
pub(crate) fn push_char(s: &mut String, c: char)
    ensures
        final(s)@ == old(s)@.push(c),
{
    s.push(c);
}

/// Appends a sequence of characters to a string.
pub fn push_chars(s: &mut String, v: &Vec<char>)
    ensures
        final(s)@ == old(s)@ + v@,
{
    let n = v.len();
    for i in 0..n
        invariant
            n == v@.len(),
            s@ == old(s)@ + v@.take(i as int),
    {
        push_char(s, v[i]);
        assert(v@.take(i + 1) =~= v@.take(i as int).push(v@[i as int]));
    }
    assert(v@.take(n as int) =~= v@);
}

/// A string holding exactly the given characters.
pub fn string_of(v: &Vec<char>) -> (s: String)
    ensures
        s@ == v@,
{
    let mut s = String::new();
    push_chars(&mut s, v);
    s
}

/// Whether two character sequences are equal.
pub fn eq_chars(a: &Vec<char>, b: &Vec<char>) -> (r: bool)
    ensures
        r == (a@ == b@),
{
    if a.len() != b.len() {
        return false;
    }
    let n = a.len();
    for i in 0..n
        invariant
            n == a@.len(),
            n == b@.len(),
            forall|j: int| 0 <= j < i ==> a@[j] == b@[j],
    {
        if a[i] != b[i] {
            return false;
        }
    }
    assert(a@ =~= b@);
    true
}

/// Whether a string slice holds exactly the characters of another.
pub fn str_eq(a: &str, b: &str) -> (r: bool)
    ensures
        r == (a@ == b@),
{
    eq_chars(&chars_of(a), &chars_of(b))
}

/// Whether `c` has the Unicode `White_Space` property, as `char::is_whitespace`
/// defines it.
pub open spec fn is_ws(c: char) -> bool {
    ||| ('\u{9}' <= c && c <= '\u{d}')
    ||| c == ' '
    ||| c == '\u{85}'
    ||| c == '\u{a0}'
    ||| c == '\u{1680}'
    ||| ('\u{2000}' <= c && c <= '\u{200a}')
    ||| c == '\u{2028}'
    ||| c == '\u{2029}'
    ||| c == '\u{202f}'
    ||| c == '\u{205f}'
    ||| c == '\u{3000}'
}

pub fn is_whitespace(c: char) -> (r: bool)
    ensures
        r == is_ws(c),
{
    ('\u{9}' <= c && c <= '\u{d}') || c == ' ' || c == '\u{85}' || c == '\u{a0}' || c
        == '\u{1680}' || ('\u{2000}' <= c && c <= '\u{200a}') || c == '\u{2028}' || c
        == '\u{2029}' || c == '\u{202f}' || c == '\u{205f}' || c == '\u{3000}'
}

/// `s` without its leading whitespace.
pub open spec fn trim_start(s: Seq<char>) -> Seq<char>
    decreases s.len(),
{
    if s.len() > 0 && is_ws(s[0]) {
        trim_start(s.drop_first())
    } else {
        s
    }
}

/// `s` without its trailing whitespace.
pub open spec fn trim_end(s: Seq<char>) -> Seq<char>
    decreases s.len(),
{
    if s.len() > 0 && is_ws(s.last()) {
        trim_end(s.drop_last())
    } else {
        s
    }
}

/// `s` without leading and trailing whitespace, as `str::trim` gives it.
pub open spec fn trim(s: Seq<char>) -> Seq<char> {
    trim_end(trim_start(s))
}

/// The characters of `v` with leading and trailing whitespace removed.
pub fn trim_chars(v: &Vec<char>) -> (r: Vec<char>)
    ensures
        r@ == trim(v@),
{
    let len = v.len();
    let mut start: usize = 0;
    assert(v@.skip(0) =~= v@);
    while start < len && is_whitespace(v[start])
        invariant
            start <= len,
            len == v@.len(),
            trim_start(v@.skip(start as int)) == trim_start(v@),
        decreases len - start,
    {
        assert(v@.skip(start as int).drop_first() =~= v@.skip(start + 1));
        start = start + 1;
    }
    let ghost mid = v@.skip(start as int);
    assert(trim_start(mid) == mid);
    let mut end: usize = len;
    assert(v@.subrange(start as int, len as int) =~= mid);
    while end > start && is_whitespace(v[end - 1])
        invariant
            start <= end <= len,
            len == v@.len(),
            trim_end(v@.subrange(start as int, end as int)) == trim_end(mid),
        decreases end - start,
    {
        assert(v@.subrange(start as int, end as int).drop_last() =~= v@.subrange(
            start as int,
            end - 1,
        ));
        end = end - 1;
    }
    let mut r: Vec<char> = Vec::new();
    let mut i = start;
    while i < end
        invariant
            start <= i <= end <= len,
            len == v@.len(),
            r@ == v@.subrange(start as int, i as int),
        decreases end - i,
    {
        r.push(v[i]);
        assert(v@.subrange(start as int, i + 1) =~= v@.subrange(start as int, i as int).push(
            v@[i as int],
        ));
        i = i + 1;
    }
    r
}

/// Whether `needle` occurs in `hay` starting at position `i`.
pub open spec fn occurs_at(hay: Seq<char>, needle: Seq<char>, i: int) -> bool {
    0 <= i && i + needle.len() <= hay.len() && hay.subrange(i, i + needle.len()) == needle
}

/// Whether `needle` occurs anywhere in `hay`, as `str::contains` with a string
/// pattern decides it.
pub open spec fn contains(hay: Seq<char>, needle: Seq<char>) -> bool {
    exists|i: int| occurs_at(hay, needle, i)
}

/// The position of the first occurrence of `needle` in `hay` at or after
/// position `i`.
pub open spec fn find_from(hay: Seq<char>, needle: Seq<char>, i: int) -> Option<int>
    decreases hay.len() + 1 - i,
{
    if i < 0 || i > hay.len() {
        None
    } else if occurs_at(hay, needle, i) {
        Some(i)
    } else {
        find_from(hay, needle, i + 1)
    }
}

/// The position of the first occurrence of `needle` in `hay`, as `str::find`
/// gives it (counted in characters).
pub open spec fn find(hay: Seq<char>, needle: Seq<char>) -> Option<int> {
    find_from(hay, needle, 0)
}

/// What `find_from` finds is an occurrence, the first one from `i` on.
pub proof fn lemma_find_from(hay: Seq<char>, needle: Seq<char>, i: int)
    requires
        0 <= i,
    ensures
        find_from(hay, needle, i) matches Some(k) ==> i <= k && occurs_at(hay, needle, k)
            && forall|j: int| i <= j < k ==> !occurs_at(hay, needle, j),
        find_from(hay, needle, i) is None ==> forall|j: int| i <= j ==> !occurs_at(hay, needle, j),
    decreases hay.len() + 1 - i,
{
    if i > hay.len() {
    } else if occurs_at(hay, needle, i) {
    } else {
        lemma_find_from(hay, needle, i + 1);
    }
}

/// A found occurrence splits `hay` into what comes before, the needle, and
/// what comes after.
pub proof fn lemma_occurs_at_split(hay: Seq<char>, needle: Seq<char>, k: int)
    requires
        occurs_at(hay, needle, k),
    ensures
        hay == hay.take(k) + needle + hay.skip(k + needle.len()),
{
    assert(hay =~= hay.take(k) + needle + hay.skip(k + needle.len()));
}

/// The position of the first occurrence of `needle` in `hay`.
pub fn find_chars(hay: &Vec<char>, needle: &Vec<char>) -> (r: Option<usize>)
    ensures
        match r {
            Some(i) => find(hay@, needle@) == Some(i as int),
            None => find(hay@, needle@) is None,
        },
{
    let len = hay.len();
    let mut i: usize = 0;
    loop
        invariant
            i <= len,
            len == hay@.len(),
            find(hay@, needle@) == find_from(hay@, needle@, i as int),
        decreases len - i,
    {
        if matches_at(hay, needle, i) {
            return Some(i);
        }
        if i == len {
            assert(find_from(hay@, needle@, i + 1) is None);
            return None;
        }
        i = i + 1;
    }
}

/// Whether `hay` starts with `prefix`.
pub open spec fn starts_with(hay: Seq<char>, prefix: Seq<char>) -> bool {
    prefix.len() <= hay.len() && hay.take(prefix.len() as int) == prefix
}

pub fn matches_at(hay: &Vec<char>, needle: &Vec<char>, i: usize) -> (r: bool)
    ensures
        r == occurs_at(hay@, needle@, i as int),
{
    if i > hay.len() || needle.len() > hay.len() - i {
        return false;
    }
    let n = needle.len();
    for k in 0..n
        invariant
            n == needle@.len(),
            i + n <= hay@.len(),
            hay@.len() == hay.len(),
            forall|j: int| 0 <= j < k ==> hay@[i + j] == needle@[j],
    {
        if hay[i + k] != needle[k] {
            assert(hay@.subrange(i as int, i + n)[k as int] != needle@[k as int]);
            return false;
        }
    }
    assert(hay@.subrange(i as int, i + n) =~= needle@);
    true
}

/// Whether `needle` occurs in `hay`.
pub fn contains_chars(hay: &Vec<char>, needle: &Vec<char>) -> (r: bool)
    ensures
        r == contains(hay@, needle@),
{
    let len = hay.len();
    let mut i: usize = 0;
    loop
        invariant
            i <= len,
            len == hay@.len(),
            forall|j: int| 0 <= j < i ==> !occurs_at(hay@, needle@, j),
        ensures
            forall|j: int| 0 <= j <= len ==> !occurs_at(hay@, needle@, j),
        decreases len - i,
    {
        if matches_at(hay, needle, i) {
            return true;
        }
        if i == len {
            break;
        }
        i = i + 1;
    }
    assert forall|j: int| !occurs_at(hay@, needle@, j) by {
        if 0 <= j && j <= len {
        } else {
        }
    }
    false
}

/// Whether `hay` starts with `prefix`.
pub fn starts_with_chars(hay: &Vec<char>, prefix: &Vec<char>) -> (r: bool)
    ensures
        r == starts_with(hay@, prefix@),
{
    let r = matches_at(hay, prefix, 0);
    assert(hay@.take(prefix@.len() as int) =~= hay@.subrange(0, prefix@.len() as int));
    r
}

/// Whether `hay` ends with `suffix`.
pub open spec fn ends_with(hay: Seq<char>, suffix: Seq<char>) -> bool {
    suffix.len() <= hay.len() && hay.skip(hay.len() - suffix.len()) == suffix
}

/// Whether `hay` ends with `suffix`.
pub fn ends_with_chars(hay: &Vec<char>, suffix: &Vec<char>) -> (r: bool)
    ensures
        r == ends_with(hay@, suffix@),
{
    if suffix.len() > hay.len() {
        return false;
    }
    let i = hay.len() - suffix.len();
    let r = matches_at(hay, suffix, i);
    assert(hay@.skip(i as int) =~= hay@.subrange(i as int, hay@.len() as int));
    r
}

/// `s` with every non-overlapping occurrence of `pat`, found from the left,
/// replaced by `rep`: what `str::replace` computes for a non-empty pattern.
pub open spec fn replace(s: Seq<char>, pat: Seq<char>, rep: Seq<char>) -> Seq<char>
    decreases s.len(),
{
    if pat.len() == 0 || s.len() < pat.len() {
        s
    } else if s.take(pat.len() as int) == pat {
        rep + replace(s.skip(pat.len() as int), pat, rep)
    } else {
        seq![s[0]] + replace(s.drop_first(), pat, rep)
    }
}

/// Replaces every occurrence of `pat` in `s` by `rep`.
pub fn replace_chars(s: &Vec<char>, pat: &Vec<char>, rep: &Vec<char>) -> (r: Vec<char>)
    ensures
        r@ == replace(s@, pat@, rep@),
{
    let len = s.len();
    let plen = pat.len();
    let mut out: Vec<char> = Vec::new();
    let mut i: usize = 0;
    assert(s@.skip(0) =~= s@);
    while i < len
        invariant
            i <= len,
            len == s@.len(),
            plen == pat@.len(),
            out@ + replace(s@.skip(i as int), pat@, rep@) == replace(s@, pat@, rep@),
        decreases len - i,
    {
        let ghost rest = s@.skip(i as int);
        if plen > 0 && plen <= len - i && matches_at(s, pat, i) {
            assert(rest.take(plen as int) =~= s@.subrange(i as int, i + plen));
            assert(rest.skip(plen as int) =~= s@.skip(i + plen));
            let mut k: usize = 0;
            let ghost out0 = out@;
            while k < rep.len()
                invariant
                    k <= rep@.len(),
                    out@ == out0 + rep@.take(k as int),
                decreases rep@.len() - k,
            {
                out.push(rep[k]);
                assert(rep@.take(k + 1) =~= rep@.take(k as int).push(rep@[k as int]));
                k = k + 1;
            }
            assert(rep@.take(rep@.len() as int) =~= rep@);
            assert(out0 + (rep@ + replace(s@.skip(i + plen), pat@, rep@)) =~= out@ + replace(
                s@.skip(i + plen),
                pat@,
                rep@,
            ));
            i = i + plen;
        } else {
            if plen > 0 && plen <= len - i {
                assert(rest.take(plen as int) =~= s@.subrange(i as int, i + plen));
            }
            assert(rest.drop_first() =~= s@.skip(i + 1));
            assert(rest[0] == s@[i as int]);
            assert(out@ + (seq![s@[i as int]] + replace(s@.skip(i + 1), pat@, rep@)) =~= out@.push(
                s@[i as int],
            ) + replace(s@.skip(i + 1), pat@, rep@));
            out.push(s[i]);
            i = i + 1;
        }
    }
    assert(s@.skip(len as int) =~= Seq::<char>::empty());
    assert(out@ + Seq::<char>::empty() =~= out@);
    out
}

/// `n` copies of `s`, joined.
pub open spec fn repeat(s: Seq<char>, n: nat) -> Seq<char>
    decreases n,
{
    if n == 0 {
        seq![]
    } else {
        repeat(s, (n - 1) as nat) + s
    }
}

/// Appends `n` copies of `s` to `out`.
pub fn push_repeat(out: &mut String, s: &str, n: usize)
    ensures
        final(out)@ == old(out)@ + repeat(s@, n as nat),
{
    let mut k: usize = 0;
    while k < n
        invariant
            k <= n,
            out@ == old(out)@ + repeat(s@, k as nat),
        decreases n - k,
    {
        out.append(s);
        k = k + 1;
        assert(old(out)@ + repeat(s@, k as nat) =~= old(out)@ + repeat(s@, (k - 1) as nat)
            + s@);
    }
}

/// The concatenation of `f(c)` over the characters `c` of `s`, in order.
pub open spec fn flat_map_chars(s: Seq<char>, f: spec_fn(char) -> Seq<char>) -> Seq<char>
    decreases s.len(),
{
    if s.len() == 0 {
        seq![]
    } else {
        f(s[0]) + flat_map_chars(s.drop_first(), f)
    }
}

/// Mapping a concatenation is concatenating the mapped parts.
pub proof fn lemma_flat_map_append(a: Seq<char>, b: Seq<char>, f: spec_fn(char) -> Seq<char>)
    ensures
        flat_map_chars(a + b, f) == flat_map_chars(a, f) + flat_map_chars(b, f),
    decreases a.len(),
{
    if a.len() == 0 {
        assert(a + b =~= b);
    } else {
        assert((a + b).drop_first() =~= a.drop_first() + b);
        lemma_flat_map_append(a.drop_first(), b, f);
    }
}

/// Extending the mapped prefix by one character.
pub proof fn lemma_flat_map_take(s: Seq<char>, i: int, f: spec_fn(char) -> Seq<char>)
    requires
        0 <= i < s.len(),
    ensures
        flat_map_chars(s.take(i + 1), f) == flat_map_chars(s.take(i), f) + f(s[i]),
{
    let single = seq![s[i]];
    assert(s.take(i + 1) =~= s.take(i) + single);
    lemma_flat_map_append(s.take(i), single, f);
    assert(single.drop_first() =~= Seq::<char>::empty());
    assert(flat_map_chars(Seq::<char>::empty(), f) == Seq::<char>::empty());
    assert(flat_map_chars(single, f) == f(single[0]) + flat_map_chars(single.drop_first(), f));
    assert(f(s[i]) + Seq::<char>::empty() =~= f(s[i]));
}

/// The parts joined with `sep` between each two neighbours.
pub open spec fn join(parts: Seq<Seq<char>>, sep: Seq<char>) -> Seq<char>
    decreases parts.len(),
{
    if parts.len() == 0 {
        seq![]
    } else if parts.len() == 1 {
        parts[0]
    } else {
        join(parts.drop_last(), sep) + sep + parts.last()
    }
}

/// The views of a list of strings.
pub open spec fn views(v: Seq<String>) -> Seq<Seq<char>> {
    v.map_values(|s: String| s@)
}

/// Appends the strings of `parts`, joined with `sep`, to `out`.
pub fn push_joined(out: &mut String, parts: &Vec<String>, sep: &str)
    ensures
        final(out)@ == old(out)@ + join(views(parts@), sep@),
{
    let n = parts.len();
    let ghost pv = views(parts@);
    assert(pv.take(0) =~= Seq::<Seq<char>>::empty());
    assert(old(out)@ + join(pv.take(0), sep@) =~= old(out)@);
    for i in 0..n
        invariant
            n == parts@.len(),
            pv == views(parts@),
            out@ == old(out)@ + join(pv.take(i as int), sep@),
    {
        assert(pv.take(i + 1).drop_last() =~= pv.take(i as int));
        assert(pv.take(i + 1).last() == parts@[i as int]@);
        if i == 0 {
            assert(pv.take(1).len() == 1);
            assert(join(pv.take(1), sep@) == pv.take(1)[0]);
        } else {
            out.append(sep);
        }
        out.append(parts[i].as_str());
        assert(out@ =~= old(out)@ + join(pv.take(i + 1), sep@));
    }
    assert(pv.take(n as int) =~= pv);
}

/// The decimal digit for `d < 10`.
pub open spec fn digit(d: nat) -> char {
    if d == 0 { '0' } else if d == 1 { '1' } else if d == 2 { '2' } else if d == 3 { '3' }
    else if d == 4 { '4' } else if d == 5 { '5' } else if d == 6 { '6' } else if d == 7 { '7' }
    else if d == 8 { '8' } else { '9' }
}

/// The decimal text of `n`, without leading zeros, as `{}` formats an
/// unsigned integer.
pub open spec fn decimal(n: nat) -> Seq<char>
    decreases n,
{
    if n < 10 {
        seq![digit(n)]
    } else {
        decimal(n / 10) + seq![digit(n % 10)]
    }
}

fn digit_char(d: u8) -> (c: char)
    requires
        d < 10,
    ensures
        c == digit(d as nat),
{
    if d == 0 { '0' } else if d == 1 { '1' } else if d == 2 { '2' } else if d == 3 { '3' }
    else if d == 4 { '4' } else if d == 5 { '5' } else if d == 6 { '6' } else if d == 7 { '7' }
    else if d == 8 { '8' } else { '9' }
}

/// Appends the decimal text of `n` to `out`.
pub fn push_decimal(out: &mut String, n: u8)
    ensures
        final(out)@ == old(out)@ + decimal(n as nat),
    decreases n,
{
    if n < 10 {
        push_char(out, digit_char(n));
    } else {
        push_decimal(out, n / 10);
        push_char(out, digit_char(n % 10));
        assert(final(out)@ =~= old(out)@ + decimal(n as nat));
    }
}

fn digit_char_u64(d: u64) -> (c: char)
    requires
        d < 10,
    ensures
        c == digit(d as nat),
{
    if d == 0 { '0' } else if d == 1 { '1' } else if d == 2 { '2' } else if d == 3 { '3' }
    else if d == 4 { '4' } else if d == 5 { '5' } else if d == 6 { '6' } else if d == 7 { '7' }
    else if d == 8 { '8' } else { '9' }
}

/// Appends the decimal text of `n` to `out`.
pub fn push_decimal_u64(out: &mut String, n: u64)
    ensures
        final(out)@ == old(out)@ + decimal(n as nat),
    decreases n,
{
    if n < 10 {
        push_char(out, digit_char_u64(n));
    } else {
        push_decimal_u64(out, n / 10);
        push_char(out, digit_char_u64(n % 10));
        assert(final(out)@ =~= old(out)@ + decimal(n as nat));
    }
}

} // verus!
