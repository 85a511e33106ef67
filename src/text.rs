//! Small operations on text.

use vstd::prelude::*;

verus! {

/// What `str::trim` leaves of a text: the text without leading and trailing
/// whitespace.
pub uninterp spec fn trimmed(s: Seq<char>) -> Seq<char>;

/// Relies on `str::trim`: the text without leading and trailing whitespace.
#[verifier::external_body]
pub(crate) fn trim_whitespace(s: &str) -> (r: String)
    ensures
        r@ == trimmed(s@),
{
    s.trim().to_string()
}

/// What `std::path::Path::extension` gives for a path, as text.
pub uninterp spec fn path_extension(p: Seq<char>) -> Option<Seq<char>>;

/// Relies on `std::path::Path::extension`: the extension of the path's file
/// name, where it has one.
#[verifier::external_body]
pub(crate) fn extension_of_path(path: &str) -> (r: Option<String>)
    ensures
        match r {
            Some(e) => path_extension(path@) == Some(e@),
            None => path_extension(path@) is None,
        },
{
    std::path::Path::new(path).extension().and_then(|e| e.to_str()).map(|e| e.to_string())
}

/// `r` is `s` without its leading and trailing double quotes.
pub open spec fn quotes_stripped(s: Seq<char>, r: Seq<char>) -> bool {
    exists|a: int, b: int|
        0 <= a <= b <= s.len() && r == s.subrange(a, b) && (forall|k: int|
            0 <= k < a ==> #[trigger] s[k] == '"') && (forall|k: int|
            b <= k < s.len() ==> #[trigger] s[k] == '"') && (a < b ==> s[a] != '"' && s[b
            - 1] != '"')
}

proof fn lemma_quotes_stripped_unique(s: Seq<char>, r1: Seq<char>, r2: Seq<char>)
    requires
        quotes_stripped(s, r1),
        quotes_stripped(s, r2),
    ensures
        r1 == r2,
{
    let (a1, b1) = choose|a: int, b: int|
        0 <= a <= b <= s.len() && r1 == s.subrange(a, b) && (forall|k: int|
            0 <= k < a ==> #[trigger] s[k] == '"') && (forall|k: int|
            b <= k < s.len() ==> #[trigger] s[k] == '"') && (a < b ==> s[a] != '"' && s[b - 1]
            != '"');
    let (a2, b2) = choose|a: int, b: int|
        0 <= a <= b <= s.len() && r2 == s.subrange(a, b) && (forall|k: int|
            0 <= k < a ==> #[trigger] s[k] == '"') && (forall|k: int|
            b <= k < s.len() ==> #[trigger] s[k] == '"') && (a < b ==> s[a] != '"' && s[b - 1]
            != '"');
    if a1 < b1 && a2 < b2 {
        if a2 > a1 {
            assert(s[a1] == '"');
        }
        if a1 > a2 {
            assert(s[a2] == '"');
        }
        if b2 < b1 {
            assert(s[b1 - 1] == '"');
        }
        if b1 < b2 {
            assert(s[b2 - 1] == '"');
        }
        assert(a1 == a2 && b1 == b2);
    } else if a1 < b1 {
        if a1 < a2 {
            assert(s[a1] == '"');
        } else {
            assert(s[a1] == '"');
        }
    } else if a2 < b2 {
        if a2 < a1 {
            assert(s[a2] == '"');
        } else {
            assert(s[a2] == '"');
        }
    } else {
        assert(r1 =~= r2);
    }
}

/// The text without its leading and trailing double quotes, as
/// `quotes_stripped` determines it.
pub open spec fn unquoted(s: Seq<char>) -> Seq<char> {
    choose|r: Seq<char>| quotes_stripped(s, r)
}

/// The text without its leading and trailing double quotes.
pub fn strip_quotes(s: &str) -> (r: String)
    ensures
        quotes_stripped(s@, r@),
        r@ == unquoted(s@),
{
    let n = s.unicode_len();
    let mut a: usize = 0;
    while a < n && s.get_char(a) == '"'
        invariant
            n == s@.len(),
            a <= n,
            forall|k: int| 0 <= k < a ==> #[trigger] s@[k] == '"',
        decreases n - a,
    {
        a = a + 1;
    }
    let mut b: usize = n;
    while b > a && s.get_char(b - 1) == '"'
        invariant
            n == s@.len(),
            a <= b <= n,
            forall|k: int| b <= k < n ==> #[trigger] s@[k] == '"',
        decreases b,
    {
        b = b - 1;
    }
    let r = s.substring_char(a, b).to_string();
    assert(quotes_stripped(s@, r@)) by {
        assert(r@ == s@.subrange(a as int, b as int));
    }
    proof {
        lemma_quotes_stripped_unique(s@, r@, unquoted(s@));
    }
    r
}

/// `s` holds `t` at some position.
pub open spec fn holds_at(s: Seq<char>, t: Seq<char>, i: int) -> bool {
    0 <= i && i + t.len() <= s.len() && s.subrange(i, i + t.len()) == t
}

/// Whether `s` holds `t` somewhere.
pub fn contains_text(s: &str, t: &str) -> (r: bool)
    ensures
        r == exists|i: int| holds_at(s@, t@, i),
{
    let n = s.unicode_len();
    let m = t.unicode_len();
    if m > n {
        assert forall|i: int| !holds_at(s@, t@, i) by {}
        return false;
    }
    let mut i: usize = 0;
    while i <= n - m
        invariant
            n == s@.len(),
            m == t@.len(),
            m <= n,
            i <= n - m + 1,
            forall|j: int| 0 <= j < i ==> !holds_at(s@, t@, j),
        decreases n - m + 1 - i,
    {
        let mut k: usize = 0;
        while k < m && s.get_char(i + k) == t.get_char(k)
            invariant
                n == s@.len(),
                m == t@.len(),
                i + m <= n,
                k <= m,
                forall|q: int| 0 <= q < k ==> s@[i + q] == t@[q],
            decreases m - k,
        {
            k = k + 1;
        }
        if k == m {
            assert(s@.subrange(i as int, i + m) =~= t@);
            assert(holds_at(s@, t@, i as int));
            return true;
        }
        assert(!holds_at(s@, t@, i as int)) by {
            if s@.subrange(i as int, i + m) == t@ {
                assert(s@.subrange(i as int, i + m)[k as int] == s@[i + k]);
            }
        }
        i = i + 1;
    }
    assert forall|j: int| !holds_at(s@, t@, j) by {
        if 0 <= j && j + m <= n {
            assert(j < i);
        }
    }
    false
}

} // verus!
