//! The remote URL `k8s://context/namespace/pvc` and its grammar.
//!
//! The grammar is the pattern
//! `^(scheme:)?/*(context)?/(namespace)?/(pvc)?(/)?`, where a scheme is an
//! ASCII letter followed by letters, digits, `+`, `.` or `-`, and each of
//! context, namespace and pvc is a name: letters, digits, `.` and `-`,
//! starting and ending with a letter or digit. The pattern is matched from
//! the start of the URL and need not reach its end; where several matches
//! exist, the one preferred by leftmost-first (backtracking) matching with
//! greedy repetitions is taken.
use vstd::prelude::*;
use crate::text::is_ascii_alnum;
use crate::text::is_ascii_letter;
use crate::text::is_name_char;
use crate::text::is_scheme_char;
use crate::text::check_ascii_alnum;
use crate::text::check_ascii_letter;
use crate::text::check_name_char;
use crate::text::check_scheme_char;
use crate::text::chars_of;
use crate::text::string_of;
use crate::text::sub_chars;

verus! {

// ---------------------------------------------------------------------------
// The grammar
// ---------------------------------------------------------------------------

/// A URL scheme: an ASCII letter, then letters, digits, `+`, `.` or `-`.
pub open spec fn is_scheme(w: Seq<char>) -> bool {
    &&& w.len() > 0
    &&& is_ascii_letter(w[0])
    &&& forall|i: int| 0 <= i < w.len() ==> is_scheme_char(#[trigger] w[i])
}

/// A context, namespace or claim name: letters, digits, `.` and `-`,
/// starting and ending with a letter or digit.
pub open spec fn is_name(w: Seq<char>) -> bool {
    &&& w.len() > 0
    &&& is_ascii_alnum(w[0])
    &&& is_ascii_alnum(w[w.len() - 1])
    &&& forall|i: int| 0 <= i < w.len() ==> is_name_char(#[trigger] w[i])
}

/// `s` starts with a scheme of length `n` followed by `:`.
pub open spec fn scheme_ends_at(s: Seq<char>, n: int) -> bool {
    &&& 0 < n < s.len()
    &&& is_scheme(s.take(n))
    &&& s[n] == ':'
}

/// `r[i..i + n]` is a name.
pub open spec fn name_at(r: Seq<char>, i: int, n: int) -> bool {
    &&& 0 <= i
    &&& 0 < n
    &&& i + n <= r.len()
    &&& is_name(r.subrange(i, i + n))
}

/// `r[i..i + n]` is a name and a `/` follows it.
pub open spec fn name_slash_at(r: Seq<char>, i: int, n: int) -> bool {
    &&& name_at(r, i, n)
    &&& i + n < r.len()
    &&& r[i + n] == '/'
}

/// `r` starts with exactly `m` slashes.
pub open spec fn slashes_end_at(r: Seq<char>, m: int) -> bool {
    &&& 0 <= m <= r.len()
    &&& forall|i: int| 0 <= i < m ==> r[i] == '/'
    &&& (m == r.len() || r[m] != '/')
}

/// The scheme `k8s`, the only one this helper serves.
pub open spec fn k8s_scheme() -> Seq<char> {
    seq!['k', '8', 's']
}

/// The scheme of `s`, if `s` starts with a scheme and `:`, and what follows
/// the `:`; else no scheme, and all of `s`.
pub open spec fn scheme_split(s: Seq<char>) -> (Option<Seq<char>>, Seq<char>) {
    if exists|n: int| scheme_ends_at(s, n) {
        let n = choose|n: int| scheme_ends_at(s, n);
        (Some(s.take(n)), s.skip(n + 1))
    } else {
        (None, s)
    }
}

/// The number of slashes that `r` starts with.
pub open spec fn leading_slashes(r: Seq<char>) -> int {
    choose|m: int| slashes_end_at(r, m)
}

/// The length of the name at `r[i..]` that a `/` follows, if there is one.
pub open spec fn name_slash_len(r: Seq<char>, i: int) -> Option<int> {
    if exists|n: int| name_slash_at(r, i, n) {
        Some(choose|n: int| name_slash_at(r, i, n))
    } else {
        None
    }
}

/// `n` is the length of the longest name at `r[i..]`.
pub open spec fn is_longest_name(r: Seq<char>, i: int, n: int) -> bool {
    name_at(r, i, n) && forall|k: int| name_at(r, i, k) ==> k <= n
}

/// The length of the longest name at `r[i..]`; 0 where none starts there.
pub open spec fn longest_name_len(r: Seq<char>, i: int) -> int {
    if exists|n: int| is_longest_name(r, i, n) {
        choose|n: int| is_longest_name(r, i, n)
    } else {
        0
    }
}

/// The part `/*(context)?/(namespace)?/` of the pattern, matched at the start
/// of `r` (what follows the scheme): the context, the namespace and the
/// position where the claim name may start.
///
/// The slash run is greedy: all leading slashes are taken first. A context
/// or namespace group matches only where a name is followed by `/`; else the
/// group stays empty and the `/` must stand there. Where that fails, the
/// matcher gives back one leading slash (the context stays empty and the
/// first name becomes the namespace) and then a second one (both stay
/// empty).
pub open spec fn path_groups(r: Seq<char>) -> Option<(Option<Seq<char>>, Option<Seq<char>>, int)> {
    let m = leading_slashes(r);
    match name_slash_len(r, m) {
        Some(n1) => {
            let first = r.subrange(m, m + n1);
            let q = m + n1 + 1;
            match name_slash_len(r, q) {
                Some(n2) => Some((Some(first), Some(r.subrange(q, q + n2)), q + n2 + 1)),
                None => {
                    if q < r.len() && r[q] == '/' {
                        Some((Some(first), None, q + 1))
                    } else if m >= 1 {
                        Some((None, Some(first), q))
                    } else {
                        None
                    }
                },
            }
        },
        None => {
            if m >= 2 {
                Some((None, None, m))
            } else {
                None
            }
        },
    }
}

/// What the pattern captures in a URL: the scheme, context, namespace and
/// claim name groups, and whether a `/` follows the claim name.
pub struct RemoteMatch {
    pub scheme: Option<Seq<char>>,
    pub context: Option<Seq<char>>,
    pub namespace: Option<Seq<char>>,
    pub pvc: Option<Seq<char>>,
    pub trailing: bool,
}

/// The match of the pattern in `url`, or `None` where it does not match.
pub open spec fn remote_match(url: Seq<char>) -> Option<RemoteMatch> {
    let (scheme, r) = scheme_split(url);
    match path_groups(r) {
        None => None,
        Some((context, namespace, t)) => {
            let len = longest_name_len(r, t);
            Some(
                RemoteMatch {
                    scheme,
                    context,
                    namespace,
                    pvc: if len > 0 {
                        Some(r.subrange(t, t + len))
                    } else {
                        None
                    },
                    trailing: t + len < r.len() && r[t + len] == '/',
                },
            )
        },
    }
}

// ---------------------------------------------------------------------------
// Facts about the grammar
// ---------------------------------------------------------------------------

pub proof fn lemma_scheme_end_unique(s: Seq<char>, n1: int, n2: int)
    requires
        scheme_ends_at(s, n1),
        scheme_ends_at(s, n2),
    ensures
        n1 == n2,
{
    if n1 < n2 {
        assert(s.take(n2)[n1] == s[n1]);
    } else if n2 < n1 {
        assert(s.take(n1)[n2] == s[n2]);
    }
}

pub proof fn lemma_name_slash_unique(r: Seq<char>, i: int, n1: int, n2: int)
    requires
        name_slash_at(r, i, n1),
        name_slash_at(r, i, n2),
    ensures
        n1 == n2,
{
    if n1 < n2 {
        assert(r.subrange(i, i + n2)[n1] == r[i + n1]);
    } else if n2 < n1 {
        assert(r.subrange(i, i + n1)[n2] == r[i + n2]);
    }
}

pub proof fn lemma_slashes_unique(r: Seq<char>, m1: int, m2: int)
    requires
        slashes_end_at(r, m1),
        slashes_end_at(r, m2),
    ensures
        m1 == m2,
{
}

pub proof fn lemma_longest_name_unique(r: Seq<char>, i: int, n1: int, n2: int)
    requires
        is_longest_name(r, i, n1),
        is_longest_name(r, i, n2),
    ensures
        n1 == n2,
{
}

/// A name inside a run of name characters `r[i..j]` (that a non-name
/// character or the end follows) ends within the run.
proof fn lemma_name_within_run(r: Seq<char>, i: int, j: int, n: int)
    requires
        0 <= i <= j <= r.len(),
        j == r.len() || !is_name_char(r[j]),
        name_at(r, i, n),
    ensures
        i + n <= j,
{
    if i + n > j {
        assert(r.subrange(i, i + n)[j - i] == r[j]);
    }
}

// ---------------------------------------------------------------------------
// Scanners
// ---------------------------------------------------------------------------

/// The length of the scheme that `s` starts with, where a `:` follows it.
fn scan_scheme(s: &Vec<char>) -> (res: Option<usize>)
    ensures
        match res {
            Some(n) => scheme_ends_at(s@, n as int),
            None => forall|n: int| !scheme_ends_at(s@, n),
        },
{
    if s.len() == 0 {
        return None;
    }
    if !check_ascii_letter(s[0]) {
        assert forall|n: int| !scheme_ends_at(s@, n) by {
            if scheme_ends_at(s@, n) {
                assert(s@.take(n)[0] == s@[0]);
            }
        }
        return None;
    }
    let mut i: usize = 1;
    while i < s.len() && check_scheme_char(s[i])
        invariant
            1 <= i <= s.len(),
            is_ascii_letter(s@[0]),
            forall|k: int| 0 <= k < i ==> is_scheme_char(#[trigger] s@[k]),
        decreases s.len() - i,
    {
        i += 1;
    }
    if i < s.len() && s[i] == ':' {
        proof {
            let w = s@.take(i as int);
            assert forall|k: int| 0 <= k < w.len() implies is_scheme_char(#[trigger] w[k]) by {
                assert(w[k] == s@[k]);
            }
        }
        Some(i)
    } else {
        assert forall|n: int| !scheme_ends_at(s@, n) by {
            if scheme_ends_at(s@, n) {
                if n < i {
                    assert(is_scheme_char(s@[n]));
                } else if n > i {
                    assert(s@.take(n)[i as int] == s@[i as int]);
                }
            }
        }
        None
    }
}

/// The end of the run of name characters that starts at `r[i]`.
fn name_run_end(r: &Vec<char>, i: usize) -> (j: usize)
    requires
        i <= r.len(),
    ensures
        i <= j <= r.len(),
        forall|k: int| i <= k < j ==> is_name_char(#[trigger] r@[k]),
        j == r.len() || !is_name_char(r@[j as int]),
{
    let mut j: usize = i;
    while j < r.len() && check_name_char(r[j])
        invariant
            i <= j <= r.len(),
            forall|k: int| i <= k < j ==> is_name_char(#[trigger] r@[k]),
        decreases r.len() - j,
    {
        j += 1;
    }
    j
}

/// The number of slashes that `r` starts with.
fn count_leading_slashes(r: &Vec<char>) -> (m: usize)
    ensures
        slashes_end_at(r@, m as int),
        m as int == leading_slashes(r@),
{
    let mut m: usize = 0;
    while m < r.len() && r[m] == '/'
        invariant
            0 <= m <= r.len(),
            forall|k: int| 0 <= k < m ==> r@[k] == '/',
        decreases r.len() - m,
    {
        m += 1;
    }
    proof {
        let c = choose|x: int| slashes_end_at(r@, x);
        assert(slashes_end_at(r@, m as int));
        lemma_slashes_unique(r@, c, m as int);
    }
    m
}

/// The length of the name at `r[i..]` that a `/` follows, if there is one.
fn scan_name_slash(r: &Vec<char>, i: usize) -> (res: Option<usize>)
    requires
        i <= r.len(),
    ensures
        match res {
            Some(n) => name_slash_len(r@, i as int) == Some(n as int) && name_slash_at(
                r@,
                i as int,
                n as int,
            ) && i + n < r.len(),
            None => name_slash_len(r@, i as int) is None,
        },
{
    let j = name_run_end(r, i);
    if j > i && j < r.len() && r[j] == '/' && check_ascii_alnum(r[i]) && check_ascii_alnum(
        r[j - 1],
    ) {
        proof {
            let w = r@.subrange(i as int, j as int);
            assert forall|k: int| 0 <= k < w.len() implies is_name_char(#[trigger] w[k]) by {
                assert(w[k] == r@[i + k]);
            }
            assert(name_slash_at(r@, i as int, (j - i) as int));
            let c = choose|n: int| name_slash_at(r@, i as int, n);
            lemma_name_slash_unique(r@, i as int, c, (j - i) as int);
        }
        Some(j - i)
    } else {
        assert forall|n: int| !name_slash_at(r@, i as int, n) by {
            if name_slash_at(r@, i as int, n) {
                lemma_name_within_run(r@, i as int, j as int, n);
                if i + n < j {
                    assert(is_name_char(r@[i + n]));
                }
                let w = r@.subrange(i as int, i + n);
                assert(w[0] == r@[i as int]);
                assert(w[n - 1] == r@[j - 1]);
            }
        }
        None
    }
}

/// The length of the longest name at `r[i..]`; 0 where none starts there.
fn scan_longest_name(r: &Vec<char>, i: usize) -> (len: usize)
    requires
        i <= r.len(),
    ensures
        len as int == longest_name_len(r@, i as int),
        len > 0 ==> is_longest_name(r@, i as int, len as int),
        len == 0 ==> forall|n: int| !name_at(r@, i as int, n),
        i + len <= r.len(),
{
    if i >= r.len() || !check_ascii_alnum(r[i]) {
        assert forall|n: int| !name_at(r@, i as int, n) by {
            if name_at(r@, i as int, n) {
                assert(r@.subrange(i as int, i + n)[0] == r@[i as int]);
            }
        }
        assert forall|n: int| !is_longest_name(r@, i as int, n) by {}
        return 0;
    }
    let j = name_run_end(r, i);
    let mut k: usize = j;
    while !check_ascii_alnum(r[k - 1])
        invariant
            i < j <= r.len(),
            i + 1 <= k <= j,
            is_ascii_alnum(r@[i as int]),
            forall|x: int| k <= x < j ==> !is_ascii_alnum(#[trigger] r@[x]),
        decreases k,
    {
        k -= 1;
    }
    proof {
        let w = r@.subrange(i as int, k as int);
        assert forall|x: int| 0 <= x < w.len() implies is_name_char(#[trigger] w[x]) by {
            assert(w[x] == r@[i + x]);
        }
        assert(w[0] == r@[i as int]);
        assert(w[w.len() - 1] == r@[k - 1]);
        assert(name_at(r@, i as int, (k - i) as int));
        assert forall|n: int| name_at(r@, i as int, n) implies n <= k - i by {
            lemma_name_within_run(r@, i as int, j as int, n);
            let v = r@.subrange(i as int, i + n);
            assert(v[n - 1] == r@[i + n - 1]);
        }
        assert(is_longest_name(r@, i as int, (k - i) as int));
        let c = choose|n: int| is_longest_name(r@, i as int, n);
        lemma_longest_name_unique(r@, i as int, c, (k - i) as int);
    }
    k - i
}

// ---------------------------------------------------------------------------
// Matching
// ---------------------------------------------------------------------------

/// The groups of the pattern captured in a URL.
pub struct RemoteParts {
    pub scheme: Option<String>,
    pub context: Option<String>,
    pub namespace: Option<String>,
    pub pvc: Option<String>,
    pub trailing: bool,
}

impl View for RemoteParts {
    type V = RemoteMatch;

    open spec fn view(&self) -> RemoteMatch {
        RemoteMatch {
            scheme: self.scheme.deep_view(),
            context: self.context.deep_view(),
            namespace: self.namespace.deep_view(),
            pvc: self.pvc.deep_view(),
            trailing: self.trailing,
        }
    }
}

/// Matches `/*(context)?/(namespace)?/` at the start of `r`.
fn match_path_groups(r: &Vec<char>) -> (res: Option<(Option<String>, Option<String>, usize)>)
    ensures
        match res {
            Some((c, n, t)) => path_groups(r@) == Some((c.deep_view(), n.deep_view(), t as int))
                && t <= r.len(),
            None => path_groups(r@) is None,
        },
{
    let m = count_leading_slashes(r);
    match scan_name_slash(r, m) {
        Some(n1) => {
            let q = m + n1 + 1;
            match scan_name_slash(r, q) {
                Some(n2) => {
                    let first = string_of(r, m, m + n1);
                    let second = string_of(r, q, q + n2);
                    Some((Some(first), Some(second), q + n2 + 1))
                },
                None => {
                    if q < r.len() && r[q] == '/' {
                        let first = string_of(r, m, m + n1);
                        Some((Some(first), None, q + 1))
                    } else if m >= 1 {
                        let first = string_of(r, m, m + n1);
                        Some((None, Some(first), q))
                    } else {
                        None
                    }
                },
            }
        },
        None => {
            if m >= 2 {
                Some((None, None, m))
            } else {
                None
            }
        },
    }
}

/// The scheme that `url` starts with, where a `:` follows it.
pub fn remote_scheme(url: &str) -> (res: Option<String>)
    ensures
        res.deep_view() == scheme_split(url@).0,
{
    let chars = chars_of(url);
    match scan_scheme(&chars) {
        Some(n) => {
            proof {
                let c = choose|x: int| scheme_ends_at(url@, x);
                lemma_scheme_end_unique(url@, c, n as int);
                assert(chars@.subrange(0, n as int) =~= url@.take(n as int));
            }
            Some(string_of(&chars, 0, n))
        },
        None => None,
    }
}

/// Matches the remote URL pattern against `url`.
pub fn match_remote(url: &str) -> (res: Option<RemoteParts>)
    ensures
        match res {
            Some(p) => remote_match(url@) == Some(p@),
            None => remote_match(url@) is None,
        },
{
    let chars = chars_of(url);
    let (scheme, rest) = match scan_scheme(&chars) {
        Some(n) => {
            proof {
                let c = choose|x: int| scheme_ends_at(url@, x);
                lemma_scheme_end_unique(url@, c, n as int);
                assert(chars@.subrange(0, n as int) =~= url@.take(n as int));
                assert(chars@.subrange(n + 1, chars@.len() as int) =~= url@.skip(n + 1));
            }
            (Some(string_of(&chars, 0, n)), sub_chars(&chars, n + 1, chars.len()))
        },
        None => {
            proof {
                assert(chars@.subrange(0, chars@.len() as int) =~= url@);
            }
            (None, sub_chars(&chars, 0, chars.len()))
        },
    };
    assert(scheme_split(url@) == (scheme.deep_view(), rest@));
    match match_path_groups(&rest) {
        None => None,
        Some((context, namespace, t)) => {
            let len = scan_longest_name(&rest, t);
            let pvc = if len > 0 {
                Some(string_of(&rest, t, t + len))
            } else {
                None
            };
            let trailing = t + len < rest.len() && rest[t + len] == '/';
            Some(RemoteParts { scheme, context, namespace, pvc, trailing })
        },
    }
}

} // verus!
