//! Character-level text scanning: substring search and whitespace trimming,
//! specified over `Seq<char>` views of `&str` and `String`.

use vstd::prelude::*;
use vstd::string::*;

verus! {

/// `pat` occurs in `s` starting at index `i`.
pub open spec fn occurs_at(s: Seq<char>, pat: Seq<char>, i: int) -> bool {
    0 <= i && i + pat.len() <= s.len() && s.subrange(i, i + pat.len() as int) == pat
}

/// The least index `j >= i` at which `pat` occurs in `s`, if any.
/// An empty pattern is never found.
pub open spec fn find_from(s: Seq<char>, pat: Seq<char>, i: int) -> Option<int>
    decreases s.len() - i,
{
    if pat.len() <= 0 || i + pat.len() > s.len() {
        None
    } else if occurs_at(s, pat, i) {
        Some(i)
    } else {
        find_from(s, pat, i + 1)
    }
}

pub proof fn lemma_find_from_some(s: Seq<char>, pat: Seq<char>, i: int, j: int)
    requires
        0 <= i,
        find_from(s, pat, i) == Some(j),
    ensures
        i <= j,
        occurs_at(s, pat, j),
        forall|k: int| i <= k < j ==> !occurs_at(s, pat, k),
    decreases s.len() - i,
{
    if pat.len() <= 0 || i + pat.len() > s.len() {
    } else if occurs_at(s, pat, i) {
    } else {
        lemma_find_from_some(s, pat, i + 1, j);
    }
}

/// If `pat` occurs at `m` and nowhere in `[i, m)`, then the search from `i`
/// returns exactly `m`.
pub proof fn lemma_find_from_exact(s: Seq<char>, pat: Seq<char>, i: int, m: int)
    requires
        0 <= i <= m,
        pat.len() > 0,
        occurs_at(s, pat, m),
        forall|k: int| i <= k < m ==> !occurs_at(s, pat, k),
    ensures
        find_from(s, pat, i) == Some(m),
    decreases m - i,
{
    if i == m {
    } else {
        lemma_find_from_exact(s, pat, i + 1, m);
    }
}

/// A whitespace character, for the purposes of segment trimming.
pub open spec fn is_ws(c: char) -> bool {
    c == ' ' || c == '\t' || c == '\n' || c == '\r'
}

/// The first index `>= i` holding a non-whitespace character, or `s.len()`.
pub open spec fn ws_start(s: Seq<char>, i: int) -> int
    recommends
        0 <= i <= s.len(),
    decreases s.len() - i,
{
    if i >= s.len() {
        s.len() as int
    } else if is_ws(s[i]) {
        ws_start(s, i + 1)
    } else {
        i
    }
}

/// One past the last index `< i` holding a non-whitespace character, or `0`.
pub open spec fn ws_end(s: Seq<char>, i: int) -> int
    recommends
        0 <= i <= s.len(),
    decreases i,
{
    if i <= 0 {
        0
    } else if is_ws(s[i - 1]) {
        ws_end(s, i - 1)
    } else {
        i
    }
}

/// `s` with leading and trailing whitespace removed.
pub open spec fn trim_spec(s: Seq<char>) -> Seq<char> {
    let a = ws_start(s, 0);
    let b = ws_end(s, s.len() as int);
    if a < b {
        s.subrange(a, b)
    } else {
        Seq::empty()
    }
}

pub proof fn lemma_ws_start(s: Seq<char>, i: int)
    requires
        0 <= i <= s.len(),
    ensures
        i <= ws_start(s, i) <= s.len(),
        forall|k: int| i <= k < ws_start(s, i) ==> is_ws(s[k]),
        ws_start(s, i) < s.len() ==> !is_ws(s[ws_start(s, i)]),
    decreases s.len() - i,
{
    if i >= s.len() {
    } else if is_ws(s[i]) {
        lemma_ws_start(s, i + 1);
    }
}

pub proof fn lemma_ws_end(s: Seq<char>, i: int)
    requires
        0 <= i <= s.len(),
    ensures
        0 <= ws_end(s, i) <= i,
        forall|k: int| ws_end(s, i) <= k < i ==> is_ws(s[k]),
        ws_end(s, i) > 0 ==> !is_ws(s[ws_end(s, i) - 1]),
    decreases i,
{
    if i <= 0 {
    } else if is_ws(s[i - 1]) {
        lemma_ws_end(s, i - 1);
    }
}

/// Skipping over a known-whitespace span does not change the scan result.
pub proof fn lemma_ws_start_skip(s: Seq<char>, i: int, j: int)
    requires
        0 <= i <= j <= s.len(),
        forall|k: int| i <= k < j ==> is_ws(s[k]),
    ensures
        ws_start(s, i) == ws_start(s, j),
    decreases j - i,
{
    if i < j {
        lemma_ws_start_skip(s, i + 1, j);
    }
}

pub proof fn lemma_ws_end_skip(s: Seq<char>, i: int, j: int)
    requires
        0 <= j <= i <= s.len(),
        forall|k: int| j <= k < i ==> is_ws(s[k]),
    ensures
        ws_end(s, i) == ws_end(s, j),
    decreases i - j,
{
    if j < i {
        lemma_ws_end_skip(s, i - 1, j);
    }
}

/// A nonempty trim-fixed sequence starts and ends with non-whitespace.
pub proof fn lemma_trimmed_ends(s: Seq<char>)
    requires
        trim_spec(s) == s,
        s.len() > 0,
    ensures
        !is_ws(s[0]),
        !is_ws(s[s.len() - 1]),
{
    lemma_ws_start(s, 0);
    lemma_ws_end(s, s.len() as int);
    let a = ws_start(s, 0);
    let b = ws_end(s, s.len() as int);
    if a < b {
        assert(trim_spec(s).len() == b - a);
        if is_ws(s[0]) {
            assert(a >= 1) by {
                if a == 0 {
                    assert(!is_ws(s[0]));
                }
            }
            assert(trim_spec(s).len() < s.len());
        }
        if is_ws(s[s.len() - 1]) {
            assert(b <= s.len() - 1) by {
                if b == s.len() as int {
                    assert(!is_ws(s[b - 1]));
                }
            }
            assert(trim_spec(s).len() < s.len());
        }
    } else {
        assert(trim_spec(s).len() == 0);
    }
}

/// Trimming is idempotent.
pub proof fn lemma_trim_idempotent(s: Seq<char>)
    ensures
        trim_spec(trim_spec(s)) == trim_spec(s),
{
    let t = trim_spec(s);
    if t.len() == 0 {
        assert(ws_start(t, 0) == 0);
        assert(ws_end(t, 0) == 0);
        assert(trim_spec(t) =~= t);
    } else {
        lemma_ws_start(s, 0);
        lemma_ws_end(s, s.len() as int);
        let a = ws_start(s, 0);
        let b = ws_end(s, s.len() as int);
        assert(a < b);
        assert(t == s.subrange(a, b));
        assert(!is_ws(t[0]));
        assert(!is_ws(t[t.len() - 1]));
        assert(ws_start(t, 0) == 0);
        assert(ws_end(t, t.len() as int) == t.len());
        assert(trim_spec(t) =~= t);
    }
}

/// Wrapping a trim-fixed sequence in whitespace does not change its trim.
pub proof fn lemma_trim_ws_wrap(pre: Seq<char>, x: Seq<char>, post: Seq<char>)
    requires
        forall|k: int| 0 <= k < pre.len() ==> is_ws(pre[k]),
        forall|k: int| 0 <= k < post.len() ==> is_ws(post[k]),
        trim_spec(x) == x,
    ensures
        trim_spec(pre + x + post) == x,
{
    let s = pre + x + post;
    let n = s.len() as int;
    assert(n == pre.len() + x.len() + post.len());
    if x.len() == 0 {
        assert forall|k: int| 0 <= k < n implies is_ws(s[k]) by {
            if k < pre.len() {
                assert(s[k] == pre[k]);
            } else {
                assert(s[k] == post[k - pre.len() - x.len()]);
            }
        }
        lemma_ws_start_skip(s, 0, n);
        assert(ws_start(s, 0) == ws_start(s, n));
        assert(ws_start(s, n) == n);
        lemma_ws_end(s, n);
        assert(ws_end(s, n) <= n);
        assert(trim_spec(s) =~= x);
    } else {
        lemma_trimmed_ends(x);
        assert forall|k: int| 0 <= k < pre.len() implies is_ws(s[k]) by {
            assert(s[k] == pre[k]);
        }
        lemma_ws_start_skip(s, 0, pre.len() as int);
        assert(s[pre.len() as int] == x[0]);
        assert(ws_start(s, pre.len() as int) == pre.len());
        assert(ws_start(s, 0) == pre.len());
        let e = pre.len() + x.len();
        assert forall|k: int| e <= k < n implies is_ws(s[k]) by {
            assert(s[k] == post[k - e]);
        }
        lemma_ws_end_skip(s, n, e as int);
        assert(s[e - 1] == x[x.len() - 1]);
        assert(ws_end(s, e as int) == e);
        assert(ws_end(s, n) == e);
        assert(trim_spec(s) =~= x);
    }
}

/// Whether `c` counts as whitespace for trimming.
pub fn is_ws_char(c: char) -> (r: bool)
    ensures
        r == is_ws(c),
{
    c == ' ' || c == '\t' || c == '\n' || c == '\r'
}

/// Whether `pat` occurs in `s` at position `i`.
fn match_at(s: &str, pat: &str, i: usize, n: usize, m: usize) -> (r: bool)
    requires
        n == s@.len(),
        m == pat@.len(),
        i + m <= n,
    ensures
        r == occurs_at(s@, pat@, i as int),
{
    let mut k: usize = 0;
    while k < m
        invariant
            k <= m,
            i + m <= n,
            n == s@.len(),
            m == pat@.len(),
            forall|t: int| 0 <= t < k ==> s@[i + t] == pat@[t],
        decreases m - k,
    {
        if s.get_char(i + k) != pat.get_char(k) {
            proof {
                if occurs_at(s@, pat@, i as int) {
                    assert(s@.subrange(i as int, i + m as int)[k as int] == s@[i + k]);
                }
            }
            return false;
        }
        k += 1;
    }
    proof {
        assert(s@.subrange(i as int, i + m as int) =~= pat@);
    }
    true
}

/// The least index `>= from` at which `pat` occurs in `s`.
pub fn find_from_str(s: &str, pat: &str, from: usize) -> (r: Option<usize>)
    requires
        from <= s@.len(),
    ensures
        match r {
            Some(j) => find_from(s@, pat@, from as int) == Some(j as int) && from <= j && j
                + pat@.len() <= s@.len(),
            None => find_from(s@, pat@, from as int) is None,
        },
{
    let n = s.unicode_len();
    let m = pat.unicode_len();
    if m == 0 {
        assert(find_from(s@, pat@, from as int) is None);
        return None;
    }
    let mut i = from;
    loop
        invariant
            from <= i <= n,
            m >= 1,
            n == s@.len(),
            m == pat@.len(),
            find_from(s@, pat@, from as int) == find_from(s@, pat@, i as int),
        decreases n - i,
    {
        if m > n - i {
            assert(find_from(s@, pat@, i as int) is None);
            return None;
        }
        if match_at(s, pat, i, n, m) {
            assert(find_from(s@, pat@, i as int) == Some(i as int));
            return Some(i);
        }
        assert(find_from(s@, pat@, i as int) == find_from(s@, pat@, i + 1));
        i += 1;
    }
}

/// A copy of `s` with leading and trailing whitespace removed.
pub fn trim_str(s: &str) -> (r: String)
    ensures
        r@ == trim_spec(s@),
{
    let n = s.unicode_len();
    let mut a: usize = 0;
    while a < n && is_ws_char(s.get_char(a))
        invariant
            a <= n,
            n == s@.len(),
            ws_start(s@, 0) == ws_start(s@, a as int),
        decreases n - a,
    {
        a += 1;
    }
    assert(ws_start(s@, a as int) == a);
    if a == n {
        proof {
            lemma_ws_end(s@, n as int);
            assert(trim_spec(s@) =~= Seq::<char>::empty());
        }
        return String::new();
    }
    let mut b: usize = n;
    while b > a + 1 && is_ws_char(s.get_char(b - 1))
        invariant
            a < b <= n,
            n == s@.len(),
            ws_end(s@, n as int) == ws_end(s@, b as int),
        decreases b,
    {
        b -= 1;
    }
    proof {
        // the backward scan stops no earlier than a + 1, and position a is
        // non-whitespace, so the character before b is non-whitespace either way
        if b == a + 1 {
            assert(!is_ws(s@[b - 1]));
        }
        assert(ws_end(s@, b as int) == b);
        assert(trim_spec(s@) == s@.subrange(a as int, b as int));
    }
    s.substring_char(a, b).to_owned()
}

/// Whether two string slices hold the same characters.
pub fn str_eq(a: &str, b: &str) -> (r: bool)
    ensures
        r == (a@ == b@),
{
    let n = a.unicode_len();
    let m = b.unicode_len();
    if n != m {
        return false;
    }
    let mut i: usize = 0;
    while i < n
        invariant
            i <= n,
            n == a@.len(),
            n == b@.len(),
            forall|k: int| 0 <= k < i ==> a@[k] == b@[k],
        decreases n - i,
    {
        if a.get_char(i) != b.get_char(i) {
            return false;
        }
        i += 1;
    }
    proof {
        assert(a@ =~= b@);
    }
    true
}

/// The `Seq<char>` views of a sequence of strings.
pub open spec fn views_of(v: Seq<String>) -> Seq<Seq<char>> {
    Seq::new(v.len(), |i: int| v[i]@)
}

} // verus!
