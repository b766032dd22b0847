//! Recipe requests: turning the generate form into what is sent to the model,
//! and the places the recipe pages redirect to.
use vstd::prelude::*;
use vstd::utf8::encode_utf8;
use crate::text::{trim, trim_start, trim_end, chars_of, trimmed_string};
use crate::decimal::{decimal, decimal_int, format_i64, parse_i64_spec};
use crate::llm::{LlmError, llm_error_message};
use crate::error::AppError;

verus! {

/// What the model is asked for: a meal type, the user's pantry staples,
/// the ingredients that must be used, and optional notes.
#[derive(Debug)]
pub struct RecipeRequest {
    pub meal_type: String,
    pub pantry_staples: Vec<String>,
    pub must_use: Vec<String>,
    pub notes: Option<String>,
}

/// `c` separates must-use ingredients.
pub open spec fn is_separator(c: char) -> bool {
    c == ',' || c == '\n'
}

/// The fields of `s` between separators, as `str::split([',', '\n'])` yields them
/// (always at least one, possibly empty).
pub open spec fn split_fields(s: Seq<char>) -> Seq<Seq<char>>
    decreases s.len(),
{
    if s.len() == 0 {
        seq![Seq::<char>::empty()]
    } else {
        let prev = split_fields(s.drop_last());
        if is_separator(s.last()) {
            prev.push(Seq::<char>::empty())
        } else {
            prev.update(prev.len() - 1, prev.last().push(s.last()))
        }
    }
}

/// The trimmed fields that are not blank, in order.
pub open spec fn clean_fields(fields: Seq<Seq<char>>) -> Seq<Seq<char>>
    decreases fields.len(),
{
    if fields.len() == 0 {
        Seq::<Seq<char>>::empty()
    } else {
        let rest = clean_fields(fields.drop_last());
        let t = trim(fields.last());
        if t.len() > 0 { rest.push(t) } else { rest }
    }
}

/// The must-use ingredients named in the raw form text.
pub open spec fn must_use_items(raw: Seq<char>) -> Seq<Seq<char>> {
    clean_fields(split_fields(raw))
}

/// The notes kept in a request: only those that are not blank.
pub open spec fn kept_notes(notes: Option<String>) -> Option<String> {
    match notes {
        Some(n) => if trim(n@).len() > 0 { Some(n) } else { None },
        None => None,
    }
}

/// The characters of each string.
pub open spec fn views(v: Seq<String>) -> Seq<Seq<char>> {
    v.map_values(|s: String| s@)
}

proof fn lemma_split_fields_nonempty(s: Seq<char>)
    ensures
        split_fields(s).len() >= 1,
    decreases s.len(),
{
    if s.len() > 0 {
        lemma_split_fields_nonempty(s.drop_last());
    }
}

/// No field of a split contains a separator.
proof fn lemma_split_fields_no_separator(s: Seq<char>)
    ensures
        forall|i: int, j: int|
            0 <= i < split_fields(s).len() && 0 <= j < split_fields(s)[i].len()
                ==> !is_separator(#[trigger] split_fields(s)[i][j]),
    decreases s.len(),
{
    if s.len() > 0 {
        lemma_split_fields_no_separator(s.drop_last());
        lemma_split_fields_nonempty(s.drop_last());
        let prev = split_fields(s.drop_last());
        let cur = split_fields(s);
        if !is_separator(s.last()) {
            assert forall|i: int, j: int| 0 <= i < cur.len() && 0 <= j < cur[i].len()
                implies !is_separator(#[trigger] cur[i][j]) by {
                if i == prev.len() - 1 {
                    if j < prev.last().len() {
                        assert(cur[i][j] == prev[i][j]);
                    }
                } else {
                    assert(cur[i] == prev[i]);
                }
            }
        } else {
            assert forall|i: int, j: int| 0 <= i < cur.len() && 0 <= j < cur[i].len()
                implies !is_separator(#[trigger] cur[i][j]) by {
                assert(i < prev.len());
                assert(cur[i] == prev[i]);
            }
        }
    }
}

/// Each cleaned field is a non-blank trimmed field of the input.
proof fn lemma_clean_fields_origin(fields: Seq<Seq<char>>)
    ensures
        forall|i: int| 0 <= i < clean_fields(fields).len() ==> exists|k: int|
            0 <= k < fields.len() && #[trigger] clean_fields(fields)[i] == trim(fields[k])
                && trim(fields[k]).len() > 0,
    decreases fields.len(),
{
    if fields.len() > 0 {
        let rest = fields.drop_last();
        lemma_clean_fields_origin(rest);
        let c = clean_fields(fields);
        assert forall|i: int| 0 <= i < c.len() implies exists|k: int|
            0 <= k < fields.len() && #[trigger] c[i] == trim(fields[k]) && trim(fields[k]).len() > 0 by {
            if i < clean_fields(rest).len() {
                let k = choose|k: int| 0 <= k < rest.len() && clean_fields(rest)[i] == trim(rest[k])
                    && trim(rest[k]).len() > 0;
                assert(fields[k] == rest[k]);
            } else {
                assert(c[i] == trim(fields[fields.len() - 1]));
            }
        }
    }
}

/// Every must-use ingredient is non-empty, already trimmed, and holds no comma or newline.
pub proof fn lemma_must_use_items_clean(raw: Seq<char>)
    ensures
        forall|i: int| 0 <= i < must_use_items(raw).len() ==> {
            let item = #[trigger] must_use_items(raw)[i];
            &&& item.len() > 0
            &&& trim(item) == item
            &&& forall|j: int| 0 <= j < item.len() ==> !is_separator(item[j])
        },
{
    let fields = split_fields(raw);
    lemma_clean_fields_origin(fields);
    lemma_split_fields_no_separator(raw);
    assert forall|i: int| 0 <= i < must_use_items(raw).len() implies {
        let item = #[trigger] must_use_items(raw)[i];
        &&& item.len() > 0
        &&& trim(item) == item
        &&& forall|j: int| 0 <= j < item.len() ==> !is_separator(item[j])
    } by {
        let item = must_use_items(raw)[i];
        let k = choose|k: int| 0 <= k < fields.len() && item == trim(fields[k]) && trim(fields[k]).len() > 0;
        crate::text::lemma_trim_idempotent(fields[k]);
        let a = crate::text::lemma_trim_shape(fields[k]);
        assert forall|j: int| 0 <= j < item.len() implies !is_separator(item[j]) by {
            assert(item[j] == fields[k][a + j]);
        }
    }
}

/// The items joined by the single character `sep`, as `join` on a list of strings gives them.
pub open spec fn join_fields(items: Seq<Seq<char>>, sep: char) -> Seq<char>
    decreases items.len(),
{
    if items.len() == 0 {
        Seq::<char>::empty()
    } else if items.len() == 1 {
        items[0]
    } else {
        join_fields(items.drop_last(), sep) + seq![sep] + items.last()
    }
}

/// Text without separators splits into itself alone, and after a separator it
/// is one more field.
proof fn lemma_split_fields_tail(a: Seq<char>, sep: char, t: Seq<char>)
    requires
        is_separator(sep),
        forall|j: int| 0 <= j < t.len() ==> !is_separator(#[trigger] t[j]),
    ensures
        split_fields(t) == seq![t],
        split_fields(a + seq![sep] + t) == split_fields(a).push(t),
    decreases t.len(),
{
    if t.len() == 0 {
        assert(t =~= Seq::<char>::empty());
        assert((a + seq![sep] + t).drop_last() =~= a);
        assert(split_fields(t) =~= seq![t]);
    } else {
        let u = t.drop_last();
        assert forall|j: int| 0 <= j < u.len() implies !is_separator(#[trigger] u[j]) by {
            assert(u[j] == t[j]);
        }
        lemma_split_fields_tail(a, sep, u);
        assert(!is_separator(t[t.len() - 1]));
        assert((a + seq![sep] + t).drop_last() =~= a + seq![sep] + u);
        assert((a + seq![sep] + t).last() == t.last());
        assert(u.push(t.last()) =~= t);
        let prev = split_fields(a).push(u);
        assert(prev.update(prev.len() - 1, u.push(t.last())) =~= split_fields(a).push(t));
        assert(seq![u].update(0, u.push(t.last())) =~= seq![t]);
    }
}

/// Joining separator-free fields and splitting again gives the fields back.
proof fn lemma_split_join(items: Seq<Seq<char>>, sep: char)
    requires
        is_separator(sep),
        items.len() > 0,
        forall|i: int, j: int| 0 <= i < items.len() && 0 <= j < items[i].len()
            ==> !is_separator(#[trigger] items[i][j]),
    ensures
        split_fields(join_fields(items, sep)) == items,
    decreases items.len(),
{
    let last = items.last();
    assert forall|j: int| 0 <= j < last.len() implies !is_separator(#[trigger] last[j]) by {
        assert(last[j] == items[items.len() - 1][j]);
    }
    if items.len() == 1 {
        lemma_split_fields_tail(Seq::<char>::empty(), sep, last);
        assert(items =~= seq![last]);
    } else {
        let rest = items.drop_last();
        assert forall|i: int, j: int| 0 <= i < rest.len() && 0 <= j < rest[i].len()
            implies !is_separator(#[trigger] rest[i][j]) by {
            assert(rest[i] == items[i]);
        }
        lemma_split_join(rest, sep);
        lemma_split_fields_tail(join_fields(rest, sep), sep, last);
        assert(rest.push(last) =~= items);
    }
}

/// Fields that are already non-blank and trimmed come out of cleaning unchanged.
proof fn lemma_clean_fields_of_clean(items: Seq<Seq<char>>)
    requires
        forall|i: int| 0 <= i < items.len() ==> (#[trigger] items[i]).len() > 0 && trim(items[i]) == items[i],
    ensures
        clean_fields(items) == items,
    decreases items.len(),
{
    if items.len() > 0 {
        let rest = items.drop_last();
        assert forall|i: int| 0 <= i < rest.len() implies (#[trigger] rest[i]).len() > 0 && trim(rest[i]) == rest[i] by {
            assert(rest[i] == items[i]);
        }
        lemma_clean_fields_of_clean(rest);
        assert(items.last() == items[items.len() - 1]);
        assert(rest.push(items.last()) =~= items);
    }
}

/// Splitting an already split list again changes nothing: joining the must-use
/// items with a comma or a newline and reading them back gives the same items.
pub proof fn lemma_must_use_items_resplit(raw: Seq<char>, sep: char)
    requires
        is_separator(sep),
    ensures
        must_use_items(join_fields(must_use_items(raw), sep)) == must_use_items(raw),
{
    let items = must_use_items(raw);
    lemma_must_use_items_clean(raw);
    if items.len() == 0 {
        assert(join_fields(items, sep) =~= Seq::<char>::empty());
        assert(split_fields(Seq::<char>::empty()) =~= seq![Seq::<char>::empty()]);
        let e = Seq::<char>::empty();
        assert(trim_start(e) == e);
        assert(trim_end(e) == e);
        assert(seq![e].drop_last() =~= Seq::<Seq<char>>::empty());
        assert(seq![e].last() == e);
        assert(trim(e) == e);
        assert(clean_fields(Seq::<Seq<char>>::empty()) =~= Seq::<Seq<char>>::empty());
        assert(clean_fields(seq![e]) =~= Seq::<Seq<char>>::empty());
    } else {
        assert forall|i: int, j: int| 0 <= i < items.len() && 0 <= j < items[i].len()
            implies !is_separator(#[trigger] items[i][j]) by {
            let item = items[i];
            assert(forall|k: int| 0 <= k < item.len() ==> !is_separator(item[k]));
        }
        lemma_split_join(items, sep);
        assert forall|i: int| 0 <= i < items.len() implies (#[trigger] items[i]).len() > 0 && trim(items[i]) == items[i] by {
        }
        lemma_clean_fields_of_clean(items);
    }
}

/// Splitting text with a `\r\n` line break gives the fields of the same text
/// with a `\n` break, except that the field before the break keeps the `\r`.
proof fn lemma_split_crlf(a: Seq<char>, b: Seq<char>)
    ensures
        ({
            let x = split_fields(a + seq!['\r', '\n'] + b);
            let y = split_fields(a + seq!['\n'] + b);
            let k = split_fields(a).len() - 1;
            &&& 0 <= k < x.len() - 1
            &&& x.len() == y.len()
            &&& x[k] == y[k].push('\r')
            &&& forall|i: int| 0 <= i < x.len() && i != k ==> x[i] == y[i]
        }),
    decreases b.len(),
{
    lemma_split_fields_nonempty(a);
    let sa = split_fields(a);
    let k = sa.len() - 1;
    let x = split_fields(a + seq!['\r', '\n'] + b);
    let y = split_fields(a + seq!['\n'] + b);
    if b.len() == 0 {
        let p1 = a + seq!['\r', '\n'] + b;
        let p2 = a + seq!['\n'] + b;
        assert(p1.drop_last() =~= a.push('\r'));
        assert(p1.last() == '\n');
        assert(p2.drop_last() =~= a);
        assert(p2.last() == '\n');
        assert(a.push('\r').drop_last() =~= a);
        assert(a.push('\r').last() == '\r');
        let sr = split_fields(a.push('\r'));
        assert(sr == sa.update(k, sa[k].push('\r')));
        assert(x == sr.push(Seq::<char>::empty()));
        assert(y == sa.push(Seq::<char>::empty()));
        assert forall|i: int| 0 <= i < x.len() && i != k implies x[i] == y[i] by {
            if i < k {
                assert(x[i] == sr[i]);
                assert(y[i] == sa[i]);
            }
        }
    } else {
        let c = b.last();
        let b0 = b.drop_last();
        lemma_split_crlf(a, b0);
        let x0 = split_fields(a + seq!['\r', '\n'] + b0);
        let y0 = split_fields(a + seq!['\n'] + b0);
        assert((a + seq!['\r', '\n'] + b).drop_last() =~= a + seq!['\r', '\n'] + b0);
        assert((a + seq!['\r', '\n'] + b).last() == c);
        assert((a + seq!['\n'] + b).drop_last() =~= a + seq!['\n'] + b0);
        assert((a + seq!['\n'] + b).last() == c);
        if is_separator(c) {
            assert(x == x0.push(Seq::<char>::empty()));
            assert(y == y0.push(Seq::<char>::empty()));
            assert forall|i: int| 0 <= i < x.len() && i != k implies x[i] == y[i] by {
                if i < x0.len() {
                    assert(x[i] == x0[i]);
                    assert(y[i] == y0[i]);
                }
            }
        } else {
            let l = x0.len() - 1;
            assert(x == x0.update(l, x0[l].push(c)));
            assert(y == y0.update(l, y0[l].push(c)));
            assert(x[k] == x0[k]);
            assert(y[k] == y0[k]);
            assert forall|i: int| 0 <= i < x.len() && i != k implies x[i] == y[i] by {
                if i != l {
                    assert(x[i] == x0[i]);
                    assert(y[i] == y0[i]);
                }
            }
        }
    }
}

/// Lists of fields that trim alike clean alike.
proof fn lemma_clean_fields_same_trims(x: Seq<Seq<char>>, y: Seq<Seq<char>>)
    requires
        x.len() == y.len(),
        forall|i: int| 0 <= i < x.len() ==> trim(#[trigger] x[i]) == trim(y[i]),
    ensures
        clean_fields(x) == clean_fields(y),
    decreases x.len(),
{
    if x.len() > 0 {
        let x0 = x.drop_last();
        let y0 = y.drop_last();
        assert forall|i: int| 0 <= i < x0.len() implies trim(#[trigger] x0[i]) == trim(y0[i]) by {
            assert(x0[i] == x[i]);
            assert(y0[i] == y[i]);
        }
        lemma_clean_fields_same_trims(x0, y0);
        assert(trim(x[x.len() - 1]) == trim(y[y.len() - 1]));
    }
}

/// A Windows line break (`\r\n`, as browsers send a textarea's lines) separates
/// must-use ingredients exactly as a plain `\n` does: the carriage return is
/// whitespace and is trimmed away, for any text before and after the break.
pub proof fn lemma_crlf_splits_like_lf(a: Seq<char>, b: Seq<char>)
    ensures
        must_use_items(a + seq!['\r', '\n'] + b) == must_use_items(a + seq!['\n'] + b),
{
    lemma_split_crlf(a, b);
    let x = split_fields(a + seq!['\r', '\n'] + b);
    let y = split_fields(a + seq!['\n'] + b);
    let k = split_fields(a).len() - 1;
    assert forall|i: int| 0 <= i < x.len() implies trim(#[trigger] x[i]) == trim(y[i]) by {
        if i == k {
            crate::text::lemma_trim_strips_unicode_white_space(y[k], '\r');
        }
    }
    lemma_clean_fields_same_trims(x, y);
}

/// Builds the request for the model from the generate form.
pub fn build_request(
    meal_type: &str,
    pantry_staples: Vec<String>,
    must_use_raw: &str,
    notes: Option<String>,
) -> (r: RecipeRequest)
    ensures
        r.meal_type@ == meal_type@,
        r.pantry_staples == pantry_staples,
        views(r.must_use@) == must_use_items(must_use_raw@),
        r.notes == kept_notes(notes),
{
    let v = chars_of(must_use_raw);
    let n = v.len();
    let mut items: Vec<String> = Vec::new();
    let mut start: usize = 0;
    let mut i: usize = 0;
    let ghost mut done: Seq<Seq<char>> = Seq::empty();
    assert(v@.take(0) =~= Seq::<char>::empty());
    assert(v@.subrange(0, 0) =~= Seq::<char>::empty());
    while i < n
        invariant
            n == v.len(),
            start <= i <= n,
            split_fields(v@.take(i as int)) == done.push(v@.subrange(start as int, i as int)),
            views(items@) == clean_fields(done),
        decreases n - i,
    {
        let c = v[i];
        let ghost pre = v@.take(i as int);
        let ghost field = v@.subrange(start as int, i as int);
        assert(v@.take(i + 1).drop_last() =~= pre);
        assert(v@.take(i + 1).last() == c);
        if c == ',' || c == '\n' {
            let t = trimmed_string(&v, start, i);
            if t.as_str().is_empty() == false {
                items.push(t);
            }
            proof {
                assert(done.push(field).drop_last() =~= done);
                assert(views(items@) =~= clean_fields(done.push(field)));
                done = done.push(field);
                assert(v@.subrange(i + 1, i + 1) =~= Seq::<char>::empty());
            }
            start = i + 1;
        } else {
            proof {
                assert(v@.subrange(start as int, i + 1) =~= field.push(c));
                let sp = done.push(field);
                assert(sp.update(sp.len() - 1, field.push(c)) =~= done.push(field.push(c)));
            }
        }
        i = i + 1;
    }
    let t = trimmed_string(&v, start, n);
    let ghost field = v@.subrange(start as int, n as int);
    if t.as_str().is_empty() == false {
        items.push(t);
    }
    proof {
        assert(v@.take(n as int) =~= must_use_raw@);
        assert(done.push(field).drop_last() =~= done);
        assert(views(items@) =~= clean_fields(done.push(field)));
    }
    let kept = match notes {
        Some(text) => {
            let t = crate::text::trim_str(text.as_str());
            if t.as_str().is_empty() { None } else { Some(text) }
        },
        None => None,
    };
    RecipeRequest {
        meal_type: meal_type.to_string(),
        pantry_staples,
        must_use: items,
        notes: kept,
    }
}

/// A line of the recipe history.
#[derive(Debug, Clone)]
pub struct HistoryItem {
    pub id: i64,
    pub title: String,
    pub meal_type: String,
    pub created_at: String,
}

/// The fields of the generate form.
#[derive(Debug)]
pub struct GenerateForm {
    pub meal_type: String,
    pub must_use: String,
    pub notes: String,
}

/// A stored recipe: its meal type and the recipe as JSON.
#[derive(Debug)]
pub struct RecipeRow {
    pub meal_type: String,
    pub recipe_json: String,
}

/// The bytes that `urlencoding` leaves as they are: ASCII letters, digits, `-`, `.`, `_`, `~`.
pub open spec fn is_unreserved(b: u8) -> bool {
    ||| (48 <= b && b <= 57)
    ||| (65 <= b && b <= 90)
    ||| (97 <= b && b <= 122)
    ||| b == 45
    ||| b == 46
    ||| b == 95
    ||| b == 126
}

/// The upper-case hexadecimal digit for `d` (`d < 16`).
pub open spec fn hex_digit(d: u8) -> char {
    if d < 10 { (48 + d) as char } else { (55 + d) as char }
}

/// Percent-encoding of some bytes: unreserved bytes stay, every other byte
/// becomes `%` and two upper-case hex digits.
pub open spec fn percent_encode(bytes: Seq<u8>) -> Seq<char>
    decreases bytes.len(),
{
    if bytes.len() == 0 {
        Seq::<char>::empty()
    } else {
        let b = bytes[0];
        let head = if is_unreserved(b) {
            seq![b as char]
        } else {
            seq!['%', hex_digit(b / 16), hex_digit(b % 16)]
        };
        head + percent_encode(bytes.drop_first())
    }
}

/// Characters that may stand in a URL query without further escaping.
pub open spec fn is_url_safe(c: char) -> bool {
    ||| ('0' <= c && c <= '9')
    ||| ('A' <= c && c <= 'Z')
    ||| ('a' <= c && c <= 'z')
    ||| c == '-'
    ||| c == '.'
    ||| c == '_'
    ||| c == '~'
    ||| c == '%'
}

/// Percent-encoded text holds only URL-safe characters.
pub proof fn lemma_percent_encode_url_safe(bytes: Seq<u8>)
    ensures
        forall|i: int| 0 <= i < percent_encode(bytes).len() ==> is_url_safe(#[trigger] percent_encode(bytes)[i]),
    decreases bytes.len(),
{
    if bytes.len() > 0 {
        lemma_percent_encode_url_safe(bytes.drop_first());
        let b = bytes[0];
        let head = if is_unreserved(b) {
            seq![b as char]
        } else {
            seq!['%', hex_digit(b / 16), hex_digit(b % 16)]
        };
        assert forall|i: int| 0 <= i < head.len() implies is_url_safe(#[trigger] head[i]) by {
            if is_unreserved(b) {
                assert(head[i] == b as char);
                assert((b as char) as int == b as int);
            } else if i > 0 {
                let d: u8 = if i == 1 { b / 16 } else { b % 16 };
                assert(head[i] == hex_digit(d));
                assert(d < 16);
                if d < 10 {
                    assert(((48 + d) as char) as int == 48 + d);
                } else {
                    assert(((55 + d) as char) as int == 55 + d);
                }
            }
        }
        let rest = percent_encode(bytes.drop_first());
        assert(percent_encode(bytes) == head + rest);
        assert forall|i: int| 0 <= i < percent_encode(bytes).len() implies is_url_safe(
            #[trigger] percent_encode(bytes)[i],
        ) by {
            if i < head.len() {
                assert(percent_encode(bytes)[i] == head[i]);
            } else {
                assert(percent_encode(bytes)[i] == rest[i - head.len()]);
            }
        }
    }
}

/// The error redirect carries the error text in a form safe in a URL query.
pub proof fn lemma_generation_error_location_url_safe(e: LlmError)
    ensures
        "/recipes/new?error="@.is_prefix_of(generation_error_location_text(e)),
        forall|i: int| "/recipes/new?error="@.len() <= i < generation_error_location_text(e).len()
            ==> is_url_safe(#[trigger] generation_error_location_text(e)[i]),
{
    let p = "/recipes/new?error="@;
    let enc = percent_encode(encode_utf8(llm_error_message(e)));
    lemma_percent_encode_url_safe(encode_utf8(llm_error_message(e)));
    let t = generation_error_location_text(e);
    assert(t.subrange(0, p.len() as int) =~= p);
    assert forall|i: int| p.len() <= i < t.len() implies is_url_safe(#[trigger] t[i]) by {
        assert(t[i] == enc[i - p.len()]);
    }
}

/// `urlencoding::encode`: percent-encodes the UTF-8 bytes of the text, leaving
/// alphanumerics and `-`, `_`, `.`, `~`, with upper-case hex digits, as the
/// crate documents and its source does.
#[verifier::external_body]
fn url_encode(text: &str) -> (r: String)
    ensures
        r@ == percent_encode(encode_utf8(text@)),
{
    urlencoding::encode(text).into_owned()
}

/// Where to go when no Gemini key is configured.
pub open spec fn missing_key_location_text() -> Seq<char> {
    "/recipes/new?error=GEMINI_API_KEY+is+not+configured"@
}

/// Where to go when no Gemini key is configured.
pub fn missing_key_location() -> (r: String)
    ensures
        r@ == missing_key_location_text(),
{
    "/recipes/new?error=GEMINI_API_KEY+is+not+configured".to_string()
}

/// Back to the generate page, with the error's text in the query.
pub open spec fn generation_error_location_text(e: LlmError) -> Seq<char> {
    "/recipes/new?error="@ + percent_encode(encode_utf8(llm_error_message(e)))
}

/// Back to the generate page, with the error's text, percent-encoded, in the query.
pub fn generation_error_location(e: &LlmError) -> (r: String)
    ensures
        r@ == generation_error_location_text(*e),
{
    let message = e.message();
    let encoded = url_encode(message.as_str());
    let mut r = "/recipes/new?error=".to_string();
    r.append(encoded.as_str());
    r
}

/// How a generate request begins.
#[derive(Debug)]
pub enum GenerateStart {
    /// Stop with this error (no one is signed in).
    Stop(AppError),
    /// Go back to this page before anything is asked (no Gemini key).
    Redirect(String),
    /// Ask the model for this user with this key.
    Go(i64, String),
}

/// The first step of generating: the signed-in user is needed first, then a
/// configured Gemini key; only then is the model asked.
pub fn generation_start(user_id: Option<i64>, api_key: Option<String>) -> (r: GenerateStart)
    ensures
        match user_id {
            None => r matches GenerateStart::Stop(AppError::Unauthorized),
            Some(id) => match api_key {
                None => r matches GenerateStart::Redirect(l) && l@ == missing_key_location_text(),
                Some(k) => r == GenerateStart::Go(id, k),
            },
        },
{
    match user_id {
        None => GenerateStart::Stop(AppError::Unauthorized),
        Some(id) => match api_key {
            None => GenerateStart::Redirect(missing_key_location()),
            Some(k) => GenerateStart::Go(id, k),
        },
    }
}

/// The step after the model answered: its recipe goes on to be stored; its
/// error becomes the page to go back to, instead of failing the request.
pub fn after_answer<T>(answer: Result<T, LlmError>) -> (r: Result<T, String>)
    ensures
        match answer {
            Ok(x) => r == Ok::<T, String>(x),
            Err(e) => r matches Err(l) && l@ == generation_error_location_text(e),
        },
{
    match answer {
        Ok(x) => Ok(x),
        Err(e) => Err(generation_error_location(&e)),
    }
}

/// The page of the recipe with this id.
pub open spec fn recipe_location_text(id: i64) -> Seq<char> {
    "/recipes/"@ + decimal_int(id as int)
}

/// The recipe's page is the route `/recipes/:id` with the id as its one path
/// segment: `/recipes/`, then a segment without `/` that parses back to the id.
pub proof fn lemma_recipe_location_routes_to_id(id: i64)
    ensures
        "/recipes/"@.is_prefix_of(recipe_location_text(id)),
        parse_i64_spec(recipe_location_text(id).skip("/recipes/"@.len() as int)) == Some(id),
        forall|j: int| "/recipes/"@.len() <= j < recipe_location_text(id).len()
            ==> recipe_location_text(id)[j] != '/',
{
    reveal_strlit("/recipes/");
    let p = "/recipes/"@;
    let t = recipe_location_text(id);
    let d = decimal_int(id as int);
    assert(t.subrange(0, p.len() as int) =~= p);
    assert(t.skip(p.len() as int) =~= d);
    crate::decimal::lemma_parse_decimal_i64(id);
    let m: nat = if id < 0 { (-(id as int)) as nat } else { id as nat };
    crate::decimal::lemma_decimal_value(m);
    assert forall|j: int| p.len() <= j < t.len() implies t[j] != '/' by {
        assert(t[j] == d[j - p.len()]);
        if id < 0 {
            if j - p.len() > 0 {
                assert(d[j - p.len()] == decimal(m)[j - p.len() - 1]);
                assert(crate::decimal::is_digit(decimal(m)[j - p.len() - 1]));
            }
        } else {
            assert(crate::decimal::is_digit(decimal(m)[j - p.len()]));
        }
    }
}

/// The page of the recipe with this id.
pub fn recipe_location(id: i64) -> (r: String)
    ensures
        r@ == recipe_location_text(id),
{
    let mut r = "/recipes/".to_string();
    let digits = format_i64(id);
    r.append(digits.as_str());
    r
}

/// The recipe found for the user, or `NotFound`.
pub fn found_recipe(row: Option<RecipeRow>) -> (r: Result<RecipeRow, AppError>)
    ensures
        match row {
            Some(x) => r == Ok::<RecipeRow, AppError>(x),
            None => r == Err::<RecipeRow, AppError>(AppError::NotFound),
        },
{
    match row {
        Some(x) => Ok(x),
        None => Err(AppError::NotFound),
    }
}

/// The error for a stored recipe whose JSON does not parse; `detail` is the parser's message.
pub fn stored_recipe_invalid(detail: &str) -> (r: AppError)
    ensures
        r matches AppError::Message(m) && m@ == "stored recipe is invalid: "@ + detail@,
{
    let mut m = "stored recipe is invalid: ".to_string();
    m.append(detail);
    AppError::Message(m)
}

/// The error for a value that could not be turned into JSON; `what` names the
/// value, `detail` is the serialiser's message.
pub fn serialize_failed(what: &str, detail: &str) -> (r: AppError)
    ensures
        r matches AppError::Message(m) && m@ == "failed to serialize "@ + what@ + ": "@ + detail@,
{
    let mut m = "failed to serialize ".to_string();
    m.append(what);
    m.append(": ");
    m.append(detail);
    AppError::Message(m)
}

} // verus!
