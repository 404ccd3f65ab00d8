use crate::clock::{local_stamp, push_char};
use vstd::prelude::*;

verus! {

/// A character that may stay in a file name as it is.
pub open spec fn is_safe_char(c: char) -> bool {
    ('a' <= c && c <= 'z') || ('A' <= c && c <= 'Z') || ('0' <= c && c <= '9') || c == '.' || c
        == '_'
}

/// Every unsafe character replaced by `_`.
pub open spec fn replaced(s: Seq<char>) -> Seq<char> {
    s.map_values(|c: char|
        if is_safe_char(c) {
            c
        } else {
            '_'
        })
}

/// The first index at or after `i` that does not hold `_` (or the length).
pub open spec fn skip_front(s: Seq<char>, i: int) -> int
    decreases s.len() - i,
{
    if 0 <= i < s.len() && s[i] == '_' {
        skip_front(s, i + 1)
    } else {
        i
    }
}

/// The end of `s[..j]` once the trailing `_` characters are dropped.
pub open spec fn skip_back(s: Seq<char>, j: int) -> int
    decreases j,
{
    if 0 < j <= s.len() && s[j - 1] == '_' {
        skip_back(s, j - 1)
    } else {
        j
    }
}

/// `s` without its leading and trailing `_` characters.
pub open spec fn trim_underscores(s: Seq<char>) -> Seq<char> {
    let a = skip_front(s, 0);
    let b = skip_back(s, s.len() as int);
    if a < b {
        s.subrange(a, b)
    } else {
        Seq::empty()
    }
}

/// The sanitized form of a name, before any fallback.
pub open spec fn cleaned(s: Seq<char>) -> Seq<char> {
    trim_underscores(replaced(s))
}

/// The sanitized name, with `file_<stamp>` where nothing is left.
pub open spec fn sanitized(s: Seq<char>, stamp: Seq<char>) -> Seq<char> {
    if cleaned(s).len() == 0 {
        "file_"@ + stamp
    } else {
        cleaned(s)
    }
}

fn safe_char(c: char) -> (r: bool)
    ensures
        r == is_safe_char(c),
{
    ('a' <= c && c <= 'z') || ('A' <= c && c <= 'Z') || ('0' <= c && c <= '9') || c == '.' || c
        == '_'
}

proof fn lemma_skip_front_bounds(s: Seq<char>, i: int)
    requires
        0 <= i <= s.len(),
    ensures
        i <= skip_front(s, i) <= s.len(),
        forall|k: int| i <= k < skip_front(s, i) ==> s[k] == '_',
        skip_front(s, i) < s.len() ==> s[skip_front(s, i)] != '_',
    decreases s.len() - i,
{
    if i < s.len() && s[i] == '_' {
        lemma_skip_front_bounds(s, i + 1);
    }
}

proof fn lemma_skip_back_bounds(s: Seq<char>, j: int)
    requires
        0 <= j <= s.len(),
    ensures
        0 <= skip_back(s, j) <= j,
        forall|k: int| skip_back(s, j) <= k < j ==> s[k] == '_',
        skip_back(s, j) > 0 ==> s[skip_back(s, j) - 1] != '_',
    decreases j,
{
    if j > 0 && s[j - 1] == '_' {
        lemma_skip_back_bounds(s, j - 1);
    }
}

/// The name with unsafe characters replaced and outer `_` stripped.
fn cleaned_text(name: &str) -> (r: String)
    ensures
        r@ == cleaned(name@),
{
    let n = name.unicode_len();
    let ghost m = replaced(name@);
    let mut a: usize = 0;
    while a < n && !safe_char(name.get_char(a)) || a < n && name.get_char(a) == '_'
        invariant
            n == name@.len(),
            m == replaced(name@),
            0 <= a <= n,
            skip_front(m, 0) == skip_front(m, a as int),
        decreases n - a,
    {
        a = a + 1;
    }
    let mut b: usize = n;
    while b > a && (!safe_char(name.get_char(b - 1)) || name.get_char(b - 1) == '_')
        invariant
            n == name@.len(),
            m == replaced(name@),
            0 <= a <= b <= n,
            skip_back(m, n as int) == skip_back(m, b as int),
            skip_front(m, 0) == a,
        decreases b,
    {
        b = b - 1;
    }
    proof {
        lemma_skip_front_bounds(m, 0);
        lemma_skip_back_bounds(m, n as int);
        lemma_skip_back_bounds(m, b as int);
    }
    let mut r = String::new();
    let mut i: usize = a;
    while i < b
        invariant
            n == name@.len(),
            m == replaced(name@),
            a <= i <= b <= n,
            r@ == m.subrange(a as int, i as int),
        decreases b - i,
    {
        let c = name.get_char(i);
        if safe_char(c) {
            push_char(&mut r, c);
        } else {
            push_char(&mut r, '_');
        }
        assert(m.subrange(a as int, i + 1) =~= m.subrange(a as int, i as int).push(m[i as int]));
        i = i + 1;
    }
    proof {
        if a < b {
            assert(skip_back(m, n as int) == b);
        } else {
            assert(r@ =~= Seq::<char>::empty());
        }
    }
    r
}


/// Sanitizes a file name, taking `stamp` as the time text of the fallback.
///
/// Characters other than ASCII letters, digits, `.` and `_` become `_`, then
/// leading and trailing `_` are stripped; where nothing is left the result is
/// `file_` followed by `stamp`.
pub fn clean_name_at(original_name: &str, stamp: &str) -> (r: String)
    ensures
        r@ == sanitized(original_name@, stamp@),
{
    let r = cleaned_text(original_name);
    if r.unicode_len() == 0 {
        let fallback = String::from_str("file_");
        proof {
            reveal_strlit("file_");
        }
        fallback.concat(stamp)
    } else {
        r
    }
}

/// Sanitizes a file name; where nothing is left it is named `file_` followed
/// by the local time as `YYYYMMDDHHMMSS`.
pub fn clean_name(original_name: &str) -> (r: String)
    ensures
        cleaned(original_name@).len() > 0 ==> r@ == cleaned(original_name@),
        cleaned(original_name@).len() == 0 ==> exists|stamp: Seq<char>|
            r@ == #[trigger] sanitized(original_name@, stamp),
        r@.len() > 0,
{
    let r = cleaned_text(original_name);
    if r.unicode_len() == 0 {
        let stamp = local_stamp();
        let out = clean_name_at(original_name, stamp.as_str());
        proof {
            reveal_strlit("file_");
            assert(out@ == sanitized(original_name@, stamp@));
        }
        out
    } else {
        r
    }
}

/// Every character of a cleaned name is safe, and it neither starts nor ends
/// with `_`.
pub proof fn lemma_cleaned_shape(s: Seq<char>)
    ensures
        forall|k: int| 0 <= k < cleaned(s).len() ==> is_safe_char(#[trigger] cleaned(s)[k]),
        cleaned(s).len() > 0 ==> cleaned(s)[0] != '_' && cleaned(s)[cleaned(s).len() - 1] != '_',
{
    let m = replaced(s);
    lemma_skip_front_bounds(m, 0);
    lemma_skip_back_bounds(m, m.len() as int);
}

/// Sanitizing is idempotent: a name that sanitizes without the fallback
/// sanitizes again to itself.
pub proof fn lemma_sanitize_idempotent(s: Seq<char>, stamp: Seq<char>, stamp2: Seq<char>)
    requires
        cleaned(s).len() > 0,
    ensures
        sanitized(sanitized(s, stamp), stamp2) == sanitized(s, stamp),
{
    let t = cleaned(s);
    lemma_cleaned_shape(s);
    let m = replaced(t);
    assert(m =~= t);
    assert(skip_front(m, 0) == 0);
    assert(skip_back(m, m.len() as int) == m.len());
    assert(m.subrange(0, m.len() as int) =~= m);
}

} // verus!
