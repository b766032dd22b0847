//! Character-level text helpers shared by the rest of the crate:
//! Unicode whitespace trimming and building strings from characters.
use vstd::prelude::*;
use vstd::utf8::encode_utf8;

verus! {

/// `c` has the Unicode `White_Space` property (what `char::is_whitespace` tests).
pub open spec fn is_space(c: char) -> bool {
    ||| ('\u{9}' <= c && c <= '\u{d}')
    ||| c == ' '
    ||| c == '\u{85}'
    ||| c == '\u{a0}'
    ||| c == '\u{1680}'
    ||| ('\u{2000}' <= c && c <= '\u{200a}')
    ||| c == '\u{2028}'
    ||| c == '\u{2029}'
    ||| c == '\u{202f}'
    ||| c == '\u{205f}'
    ||| c == '\u{3000}'
}

/// `s` without its leading whitespace.
pub open spec fn trim_start(s: Seq<char>) -> Seq<char>
    decreases s.len(),
{
    if s.len() > 0 && is_space(s[0]) {
        trim_start(s.drop_first())
    } else {
        s
    }
}

/// `s` without its trailing whitespace.
pub open spec fn trim_end(s: Seq<char>) -> Seq<char>
    decreases s.len(),
{
    if s.len() > 0 && is_space(s.last()) {
        trim_end(s.drop_last())
    } else {
        s
    }
}

/// `s` without leading and trailing whitespace, as `str::trim` gives it.
pub open spec fn trim(s: Seq<char>) -> Seq<char> {
    trim_end(trim_start(s))
}

/// `trim_start(s)` is a suffix of `s` that does not start with whitespace.
pub proof fn lemma_trim_start_shape(s: Seq<char>)
    ensures
        trim_start(s).len() <= s.len(),
        trim_start(s) =~= s.skip(s.len() - trim_start(s).len()),
        trim_start(s).len() > 0 ==> !is_space(trim_start(s)[0]),
    decreases s.len(),
{
    if s.len() > 0 && is_space(s[0]) {
        lemma_trim_start_shape(s.drop_first());
    }
}

/// `trim_end(s)` is a prefix of `s` that does not end with whitespace.
pub proof fn lemma_trim_end_shape(s: Seq<char>)
    ensures
        trim_end(s).len() <= s.len(),
        trim_end(s) =~= s.take(trim_end(s).len() as int),
        trim_end(s).len() > 0 ==> !is_space(trim_end(s).last()),
    decreases s.len(),
{
    if s.len() > 0 && is_space(s.last()) {
        lemma_trim_end_shape(s.drop_last());
    }
}

/// `trim(s)` is a contiguous piece of `s` that neither starts nor ends with whitespace.
pub proof fn lemma_trim_shape(s: Seq<char>) -> (a: int)
    ensures
        0 <= a,
        a + trim(s).len() <= s.len(),
        trim(s) =~= s.subrange(a, a + trim(s).len()),
        trim(s).len() > 0 ==> !is_space(trim(s)[0]) && !is_space(trim(s).last()),
{
    let t = trim_start(s);
    lemma_trim_start_shape(s);
    lemma_trim_end_shape(t);
    let u = trim_end(t);
    let a = s.len() - t.len();
    assert(u =~= s.subrange(a, a + u.len()));
    if u.len() > 0 {
        assert(u[0] == t[0]);
    }
    a
}

/// Trimming twice is trimming once.
pub proof fn lemma_trim_idempotent(s: Seq<char>)
    ensures
        trim(trim(s)) == trim(s),
{
    let u = trim(s);
    lemma_trim_shape(s);
    if u.len() > 0 {
        assert(trim_start(u) == u);
        assert(trim_end(u) == u);
    } else {
        assert(trim_start(u) == u);
        assert(trim_end(u) == u);
    }
}

/// Trimming the start of `f` with one more character at the end.
proof fn lemma_trim_start_push(f: Seq<char>, c: char)
    ensures
        trim_start(f.push(c)) == (if trim_start(f).len() > 0 {
            trim_start(f).push(c)
        } else {
            trim_start(seq![c])
        }),
    decreases f.len(),
{
    if f.len() == 0 {
        assert(f.push(c) =~= seq![c]);
    } else if is_space(f[0]) {
        assert(f.push(c).drop_first() =~= f.drop_first().push(c));
        lemma_trim_start_push(f.drop_first(), c);
    } else {
        assert(f.push(c)[0] == f[0]);
    }
}

/// A whitespace character at the end of a text does not survive trimming.
pub proof fn lemma_trim_push_space(f: Seq<char>, c: char)
    requires
        is_space(c),
    ensures
        trim(f.push(c)) == trim(f),
{
    lemma_trim_start_push(f, c);
    let t = trim_start(f);
    if t.len() > 0 {
        assert(t.push(c).drop_last() =~= t);
    } else {
        assert(seq![c].drop_first() =~= Seq::<char>::empty());
        assert(trim_start(Seq::<char>::empty()) == Seq::<char>::empty());
        assert(trim_start(seq![c]) == Seq::<char>::empty());
        assert(trim_end(Seq::<char>::empty()) == Seq::<char>::empty());
    }
}

/// A whitespace character at the start of a text does not survive trimming.
pub proof fn lemma_trim_prepend_space(f: Seq<char>, c: char)
    requires
        is_space(c),
    ensures
        trim(seq![c] + f) == trim(f),
{
    assert((seq![c] + f).drop_first() =~= f);
    assert((seq![c] + f)[0] == c);
}

/// `trim` strips every character of the Unicode `White_Space` property from
/// either end of any text: tab, line feed, vertical tab, form feed, carriage
/// return, space, next line, no-break space, ogham space mark, the spaces
/// U+2000 to U+200A, line and paragraph separators, narrow no-break space,
/// medium mathematical space and ideographic space.
pub proof fn lemma_trim_strips_unicode_white_space(s: Seq<char>, c: char)
    requires
        c == '\t' || c == '\n' || c == '\u{b}' || c == '\u{c}' || c == '\r' || c == ' '
            || c == '\u{85}' || c == '\u{a0}' || c == '\u{1680}'
            || ('\u{2000}' <= c && c <= '\u{200a}') || c == '\u{2028}' || c == '\u{2029}'
            || c == '\u{202f}' || c == '\u{205f}' || c == '\u{3000}',
    ensures
        trim(s.push(c)) == trim(s),
        trim(seq![c] + s) == trim(s),
        trim(seq![c]) == Seq::<char>::empty(),
{
    lemma_trim_push_space(s, c);
    lemma_trim_prepend_space(s, c);
    lemma_trim_push_space(Seq::<char>::empty(), c);
    assert(Seq::<char>::empty().push(c) =~= seq![c]);
    assert(trim_start(Seq::<char>::empty()) == Seq::<char>::empty());
    assert(trim_end(Seq::<char>::empty()) == Seq::<char>::empty());
}

/// Only the empty text has an empty UTF-8 encoding.
pub proof fn lemma_encode_utf8_empty(s: Seq<char>)
    ensures
        (encode_utf8(s).len() == 0) == (s.len() == 0),
{
    if s.len() > 0 {
        vstd::utf8::encode_utf8_first_scalar(s);
    } else {
        assert(encode_utf8(s) =~= Seq::<u8>::empty());
    }
}

/// Whether the UTF-8 encoding of `s` is at least `k` bytes long (`s.len() >= k`).
pub fn utf8_len_at_least(s: &str, k: usize) -> (r: bool)
    ensures
        r == (encode_utf8(s@).len() >= k),
{
    broadcast use vstd::utf8::char_is_scalar;
    let v = chars_of(s);
    let mut acc: usize = 0;
    let mut i: usize = 0;
    assert(v@.skip(0) =~= v@);
    while i < v.len()
        invariant
            i <= v.len(),
            v@ == s@,
            acc + encode_utf8(v@.skip(i as int)).len() == encode_utf8(v@).len(),
            acc < k || k == 0,
        decreases v.len() - i,
    {
        if acc >= k {
            return true;
        }
        let u = v[i] as u32;
        proof {
            vstd::utf8::char_is_scalar(v@[i as int]);
        }
        let w: usize = if u < 0x80 { 1 } else if u < 0x800 { 2 } else if u < 0x10000 { 3 } else { 4 };
        let ghost rest = v@.skip(i as int);
        assert(rest.drop_first() =~= v@.skip(i + 1));
        assert(rest[0] == v@[i as int]);
        assert(encode_utf8(rest) == vstd::utf8::encode_scalar(rest[0] as u32) + encode_utf8(rest.drop_first()));
        assert(vstd::utf8::encode_scalar(u).len() == w);
        assert(encode_utf8(rest).len() == w + encode_utf8(v@.skip(i + 1)).len());
        if w >= k - acc {
            return true;
        }
        acc = acc + w;
        i = i + 1;
    }
    assert(v@.skip(i as int) =~= Seq::<char>::empty());
    acc >= k
}

/// Executable test for the Unicode `White_Space` property.
pub fn is_space_char(c: char) -> (r: bool)
    ensures
        r == is_space(c),
{
    ('\u{9}' <= c && c <= '\u{d}') || c == ' ' || c == '\u{85}' || c == '\u{a0}' || c == '\u{1680}'
        || ('\u{2000}' <= c && c <= '\u{200a}') || c == '\u{2028}' || c == '\u{2029}' || c
        == '\u{202f}' || c == '\u{205f}' || c == '\u{3000}'
}

/// The characters of `s`, in order.
pub fn chars_of(s: &str) -> (v: Vec<char>)
    ensures
        v@ == s@,
{
    let mut v: Vec<char> = Vec::new();
    for c in it: s.chars()
        invariant
            it.seq() == s@,
            v@ == it.seq().take(it.index() as int),
    {
        v.push(c);
    }
    assert(v@ =~= s@);
    v
}

/// Appends one character to a string (`String::push`).
#[verifier::external_body]
pub(crate) fn push_char(s: &mut String, c: char)
    ensures
        final(s)@ == old(s)@.push(c),
{
    s.push(c);
}

/// A new string holding `v[lo..hi]`.
pub fn string_from_range(v: &Vec<char>, lo: usize, hi: usize) -> (r: String)
    requires
        lo <= hi <= v.len(),
    ensures
        r@ == v@.subrange(lo as int, hi as int),
{
    let mut r = String::new();
    let mut i = lo;
    while i < hi
        invariant
            lo <= i <= hi <= v.len(),
            r@ == v@.subrange(lo as int, i as int),
        decreases hi - i,
    {
        push_char(&mut r, v[i]);
        i = i + 1;
        assert(r@ =~= v@.subrange(lo as int, i as int));
    }
    r
}

/// The bounds `(a, b)` inside `v` of the trimmed slice `trim(v[lo..hi])`.
pub fn trim_bounds(v: &Vec<char>, lo: usize, hi: usize) -> (r: (usize, usize))
    requires
        lo <= hi <= v.len(),
    ensures
        lo <= r.0 <= r.1 <= hi,
        v@.subrange(r.0 as int, r.1 as int) == trim(v@.subrange(lo as int, hi as int)),
{
    let ghost s = v@.subrange(lo as int, hi as int);
    let mut i: usize = lo;
    while i < hi && is_space_char(v[i])
        invariant
            lo <= i <= hi <= v.len(),
            s == v@.subrange(lo as int, hi as int),
            trim_start(s) == trim_start(v@.subrange(i as int, hi as int)),
        decreases hi - i,
    {
        assert(v@.subrange(i as int, hi as int).drop_first() =~= v@.subrange(i + 1, hi as int));
        i = i + 1;
    }
    let mut j: usize = hi;
    while j > i && is_space_char(v[j - 1])
        invariant
            lo <= i <= j <= hi <= v.len(),
            trim(s) == trim_end(v@.subrange(i as int, j as int)),
        decreases j - i,
    {
        assert(v@.subrange(i as int, j as int).drop_last() =~= v@.subrange(i as int, j - 1));
        j = j - 1;
    }
    (i, j)
}

/// A new string holding `trim(v[lo..hi])`.
pub fn trimmed_string(v: &Vec<char>, lo: usize, hi: usize) -> (r: String)
    requires
        lo <= hi <= v.len(),
    ensures
        r@ == trim(v@.subrange(lo as int, hi as int)),
{
    let (a, b) = trim_bounds(v, lo, hi);
    string_from_range(v, a, b)
}

/// `s` with leading and trailing Unicode whitespace removed (`str::trim`).
pub fn trim_str(s: &str) -> (r: String)
    ensures
        r@ == trim(s@),
{
    let v = chars_of(s);
    assert(v@.subrange(0, v@.len() as int) =~= v@);
    trimmed_string(&v, 0, v.len())
}

} // verus!
