//! Where the SQLite database lives: the directory to create before connecting.
use vstd::prelude::*;
use crate::text::{chars_of, string_from_range};

verus! {

/// The database used when `DATABASE_URL` is not set.
pub open spec fn default_database_url_text() -> Seq<char> {
    "sqlite:data/recipe_creator.db?mode=rwc"@
}

/// The database used when `DATABASE_URL` is not set.
pub fn default_database_url() -> (r: String)
    ensures
        r@ == default_database_url_text(),
{
    "sqlite:data/recipe_creator.db?mode=rwc".to_string()
}

/// The characters of `s` before the first `c` (all of `s` when there is none),
/// as `s.split(c).next()` gives them.
pub open spec fn up_to_first(s: Seq<char>, c: char) -> Seq<char>
    decreases s.len(),
{
    if s.len() == 0 {
        s
    } else if s[0] == c {
        Seq::<char>::empty()
    } else {
        seq![s[0]] + up_to_first(s.drop_first(), c)
    }
}

/// The parent of a path, as `std::path::Path::parent` gives it.
pub uninterp spec fn path_parent(path: Seq<char>) -> Option<Seq<char>>;

/// `std::path::Path::parent`, the path without its last component, read back
/// as text. Only that the parent is a function of the path is claimed.
#[verifier::external_body]
fn parent_of(path: &str) -> (r: Option<String>)
    ensures
        match r {
            Some(q) => path_parent(path@) == Some(q@),
            None => path_parent(path@) is None,
        },
{
    match std::path::Path::new(path).parent() {
        Some(q) => Some(q.to_string_lossy().into_owned()),
        None => None,
    }
}

/// The directory to create for a `sqlite:` URL: the parent of the file path
/// (the part after `sqlite:` and before any `?`), when it has a non-empty one.
pub open spec fn database_dir_spec(url: Seq<char>) -> Option<Seq<char>> {
    if "sqlite:"@.is_prefix_of(url) {
        match path_parent(up_to_first(url.skip("sqlite:"@.len() as int), '?')) {
            Some(p) => if p.len() > 0 { Some(p) } else { None },
            None => None,
        }
    } else {
        None
    }
}

proof fn lemma_up_to_first(s: Seq<char>, c: char, i: int)
    requires
        0 <= i <= s.len(),
        forall|j: int| 0 <= j < i ==> s[j] != c,
        i == s.len() || s[i] == c,
    ensures
        up_to_first(s, c) == s.take(i),
    decreases s.len(),
{
    if s.len() > 0 && i > 0 {
        let t = s.drop_first();
        assert forall|j: int| 0 <= j < i - 1 implies t[j] != c by {
            assert(t[j] == s[j + 1]);
        }
        lemma_up_to_first(t, c, i - 1);
        assert(seq![s[0]] + t.take(i - 1) =~= s.take(i));
    } else {
        assert(s.take(i) =~= Seq::<char>::empty());
    }
}

/// Whether `v` begins with the characters of `p`.
pub fn starts_with(v: &Vec<char>, p: &str) -> (r: bool)
    ensures
        r == p@.is_prefix_of(v@),
{
    let pv = chars_of(p);
    if pv.len() > v.len() {
        return false;
    }
    let mut i: usize = 0;
    while i < pv.len()
        invariant
            i <= pv.len() <= v.len(),
            pv@ == p@,
            forall|j: int| 0 <= j < i ==> pv@[j] == v@[j],
        decreases pv.len() - i,
    {
        if pv[i] != v[i] {
            return false;
        }
        i = i + 1;
    }
    assert(pv@ =~= v@.take(pv@.len() as int));
    true
}

/// The directory that must exist before the database at `database_url` can be opened.
pub fn database_dir(database_url: &str) -> (r: Option<String>)
    ensures
        match r {
            Some(d) => database_dir_spec(database_url@) == Some(d@),
            None => database_dir_spec(database_url@) is None,
        },
{
    let v = chars_of(database_url);
    let prefix = "sqlite:";
    if !starts_with(&v, prefix) {
        return None;
    }
    let start = chars_of(prefix).len();
    let mut i = start;
    while i < v.len() && v[i] != '?'
        invariant
            start <= i <= v.len(),
            forall|j: int| start <= j < i ==> v@[j] != '?',
        decreases v.len() - i,
    {
        i = i + 1;
    }
    let path = string_from_range(&v, start, i);
    proof {
        let rest = v@.skip(start as int);
        assert forall|j: int| 0 <= j < i - start implies rest[j] != '?' by {
            assert(rest[j] == v@[start + j]);
        }
        lemma_up_to_first(rest, '?', i - start);
        assert(rest.take(i - start) =~= v@.subrange(start as int, i as int));
    }
    match parent_of(path.as_str()) {
        Some(p) => {
            if p.as_str().is_empty() {
                None
            } else {
                Some(p)
            }
        },
        None => None,
    }
}

} // verus!
