//! Laws of remote URL validation.
use vstd::prelude::*;
use crate::config::validate_remote;
use crate::config::ConfigError;
use crate::remote::is_longest_name;
use crate::remote::is_name;
use crate::remote::is_scheme;
use crate::remote::k8s_scheme;
use crate::remote::lemma_longest_name_unique;
use crate::remote::lemma_name_slash_unique;
use crate::remote::lemma_scheme_end_unique;
use crate::remote::lemma_slashes_unique;
use crate::remote::leading_slashes;
use crate::remote::longest_name_len;
use crate::remote::name_at;
use crate::remote::name_slash_at;
use crate::remote::name_slash_len;
use crate::remote::path_groups;
use crate::remote::scheme_ends_at;
use crate::remote::scheme_split;
use crate::remote::slashes_end_at;
use crate::text::is_name_char;
use crate::text::is_scheme_char;

verus! {

/// `k` slashes.
pub open spec fn slashes(k: nat) -> Seq<char> {
    Seq::new(k, |i: int| '/')
}

/// The remote URL `k8s:` (where `with_scheme` holds), then `k` slashes,
/// then `context/namespace/pvc`.
pub open spec fn remote_url(
    with_scheme: bool,
    k: nat,
    context: Seq<char>,
    namespace: Seq<char>,
    pvc: Seq<char>,
) -> Seq<char> {
    let scheme = if with_scheme {
        k8s_scheme().push(':')
    } else {
        Seq::empty()
    };
    scheme + remote_path(k, context, namespace, pvc)
}

/// `k` slashes, then `context/namespace/pvc`.
pub open spec fn remote_path(k: nat, context: Seq<char>, namespace: Seq<char>, pvc: Seq<char>) -> Seq<
    char,
> {
    slashes(k) + context + seq!['/'] + namespace + seq!['/'] + pvc
}

// ---------------------------------------------------------------------------
// How the chosen values are pinned down by a witness
// ---------------------------------------------------------------------------

proof fn lemma_scheme_split_at(s: Seq<char>, n: int)
    requires
        scheme_ends_at(s, n),
    ensures
        scheme_split(s) == (Some(s.take(n)), s.skip(n + 1)),
{
    let c = choose|x: int| scheme_ends_at(s, x);
    lemma_scheme_end_unique(s, c, n);
}

proof fn lemma_leading_slashes_at(r: Seq<char>, m: int)
    requires
        slashes_end_at(r, m),
    ensures
        leading_slashes(r) == m,
{
    let c = choose|x: int| slashes_end_at(r, x);
    lemma_slashes_unique(r, c, m);
}

proof fn lemma_name_slash_len_at(r: Seq<char>, i: int, n: int)
    requires
        name_slash_at(r, i, n),
    ensures
        name_slash_len(r, i) == Some(n),
{
    let c = choose|x: int| name_slash_at(r, i, x);
    lemma_name_slash_unique(r, i, c, n);
}

proof fn lemma_longest_name_len_at(r: Seq<char>, i: int, n: int)
    requires
        is_longest_name(r, i, n),
    ensures
        longest_name_len(r, i) == n,
{
    let c = choose|x: int| is_longest_name(r, i, x);
    lemma_longest_name_unique(r, i, c, n);
}

/// A name followed by `/` at `r[i..]`, where `r[i..]` starts with the name
/// `w` and a `/`.
proof fn lemma_name_then_slash(r: Seq<char>, i: int, w: Seq<char>)
    requires
        is_name(w),
        0 <= i,
        i + w.len() < r.len(),
        r.subrange(i, i + w.len()) == w,
        r[i + w.len()] == '/',
    ensures
        name_slash_at(r, i, w.len() as int),
        name_slash_len(r, i) == Some(w.len() as int),
{
    lemma_name_slash_len_at(r, i, w.len() as int);
}

/// Where `r[i..]` starts with the name `w` and then the end or a character
/// that is no name character, `w` is the longest name there.
proof fn lemma_longest_is(r: Seq<char>, i: int, w: Seq<char>)
    requires
        is_name(w),
        0 <= i,
        i + w.len() <= r.len(),
        r.subrange(i, i + w.len()) == w,
        i + w.len() == r.len() || !is_name_char(r[i + w.len()]),
    ensures
        longest_name_len(r, i) == w.len(),
{
    assert forall|k: int| name_at(r, i, k) implies k <= w.len() by {
        if k > w.len() {
            assert(r.subrange(i, i + k)[w.len() as int] == r[i + w.len()]);
        }
    }
    assert(name_at(r, i, w.len() as int));
    lemma_longest_name_len_at(r, i, w.len() as int);
}

/// The rest of a URL after its scheme: `k` slashes, then
/// `context/namespace/pvc`, then `tail`, where `tail` is empty or starts
/// with a slash.
proof fn lemma_path(
    k: nat,
    context: Seq<char>,
    namespace: Seq<char>,
    pvc: Seq<char>,
    tail: Seq<char>,
)
    requires
        is_name(context),
        is_name(namespace),
        is_name(pvc),
        tail.len() == 0 || tail[0] == '/',
    ensures
        ({
            let r = remote_path(k, context, namespace, pvc) + tail;
            let t = (k + context.len() + namespace.len() + 2) as int;
            let p = pvc.len() as int;
            &&& path_groups(r) == Some((Some(context), Some(namespace), t))
            &&& longest_name_len(r, t) == p
            &&& r.subrange(t, t + p) == pvc
            &&& (t + p < r.len() && r[t + p] == '/') == (tail.len() > 0)
        }),
{
    let r = remote_path(k, context, namespace, pvc) + tail;
    let c = context.len() as int;
    let n = namespace.len() as int;
    let q = k + c + 1;
    let t = k + c + n + 2;
    assert(r[k as int] == context[0]);
    lemma_leading_slashes_at(r, k as int);
    assert(r.subrange(k as int, k + c) =~= context);
    lemma_name_then_slash(r, k as int, context);
    assert(r.subrange(q, q + n) =~= namespace);
    lemma_name_then_slash(r, q, namespace);
    assert(r.subrange(t, t + pvc.len()) =~= pvc);
    if tail.len() > 0 {
        assert(r[t + pvc.len()] == tail[0]);
    }
    lemma_longest_is(r, t, pvc);
}

/// Validation of a URL whose scheme is `k8s` or absent, and whose rest is
/// `k` slashes, `context/namespace/pvc` and then `tail`.
proof fn lemma_validate_path(
    url: Seq<char>,
    scheme: Option<Seq<char>>,
    k: nat,
    context: Seq<char>,
    namespace: Seq<char>,
    pvc: Seq<char>,
    tail: Seq<char>,
)
    requires
        is_name(context),
        is_name(namespace),
        is_name(pvc),
        tail.len() == 0 || tail[0] == '/',
        scheme is None || scheme->0 == k8s_scheme(),
        scheme_split(url) == (scheme, remote_path(k, context, namespace, pvc) + tail),
    ensures
        validate_remote(url) == if tail.len() == 0 {
            Ok::<(Seq<char>, Seq<char>, Seq<char>), ConfigError>((context, namespace, pvc))
        } else {
            Err::<(Seq<char>, Seq<char>, Seq<char>), ConfigError>(
                ConfigError::RemoteTrailingElements,
            )
        },
{
    lemma_path(k, context, namespace, pvc, tail);
}

/// `k8s:` followed by `rest` has the scheme `k8s` and the rest `rest`.
proof fn lemma_k8s_prefix(rest: Seq<char>)
    ensures
        scheme_split(k8s_scheme().push(':') + rest) == (Some(k8s_scheme()), rest),
{
    let url = k8s_scheme().push(':') + rest;
    assert(url.take(3) =~= k8s_scheme());
    assert(is_scheme(url.take(3)));
    lemma_scheme_split_at(url, 3);
    assert(url.skip(4) =~= rest);
}

/// A path `k` slashes, `context/namespace/pvc` and then `tail` that starts
/// with a slash, if anything, has no scheme.
proof fn lemma_path_has_no_scheme(
    k: nat,
    context: Seq<char>,
    namespace: Seq<char>,
    pvc: Seq<char>,
    tail: Seq<char>,
)
    requires
        is_name(context),
        is_name(namespace),
        is_name(pvc),
        tail.len() == 0 || tail[0] == '/',
    ensures
        ({
            let r = remote_path(k, context, namespace, pvc) + tail;
            scheme_split(r) == (None::<Seq<char>>, r)
        }),
{
    let r = remote_path(k, context, namespace, pvc) + tail;
    let c = context.len() as int;
    assert(r[k + c] == '/');
    assert forall|n: int| !scheme_ends_at(r, n) by {
        if scheme_ends_at(r, n) {
            if n < k {
                assert(r[n] == '/');
            } else if n < k + c {
                assert(r[n] == context[n - k]);
            } else if n > k + c {
                assert(r.take(n)[k + c] == r[k + c]);
            }
        }
    }
}

// ---------------------------------------------------------------------------
// Laws
// ---------------------------------------------------------------------------

/// The URL format `k8s://context/namespace/pvc`: a URL made of three names
/// under the scheme `k8s:` or with no scheme, after any number of slashes,
/// validates to exactly those three names.
pub proof fn law_url_format_round_trip(
    with_scheme: bool,
    k: nat,
    context: Seq<char>,
    namespace: Seq<char>,
    pvc: Seq<char>,
)
    requires
        is_name(context),
        is_name(namespace),
        is_name(pvc),
    ensures
        validate_remote(remote_url(with_scheme, k, context, namespace, pvc)) == Ok::<
            (Seq<char>, Seq<char>, Seq<char>),
            ConfigError,
        >((context, namespace, pvc)),
{
    let url = remote_url(with_scheme, k, context, namespace, pvc);
    let r = remote_path(k, context, namespace, pvc);
    let e = Seq::<char>::empty();
    assert(r + e =~= r);
    if with_scheme {
        lemma_k8s_prefix(r);
        lemma_validate_path(url, Some(k8s_scheme()), k, context, namespace, pvc, e);
    } else {
        assert(url =~= r);
        lemma_path_has_no_scheme(k, context, namespace, pvc, e);
        lemma_validate_path(url, None, k, context, namespace, pvc, e);
    }
}

/// Anything after the claim name that starts with a slash is refused as
/// trailing elements.
pub proof fn law_trailing_elements_refused(
    with_scheme: bool,
    k: nat,
    context: Seq<char>,
    namespace: Seq<char>,
    pvc: Seq<char>,
    tail: Seq<char>,
)
    requires
        is_name(context),
        is_name(namespace),
        is_name(pvc),
    ensures
        validate_remote(remote_url(with_scheme, k, context, namespace, pvc) + seq!['/'] + tail)
            == Err::<(Seq<char>, Seq<char>, Seq<char>), ConfigError>(
            ConfigError::RemoteTrailingElements,
        ),
{
    let url = remote_url(with_scheme, k, context, namespace, pvc) + seq!['/'] + tail;
    let tl = seq!['/'] + tail;
    let r = remote_path(k, context, namespace, pvc) + tl;
    if with_scheme {
        assert(url =~= k8s_scheme().push(':') + r);
        lemma_k8s_prefix(r);
        lemma_validate_path(url, Some(k8s_scheme()), k, context, namespace, pvc, tl);
    } else {
        assert(url =~= r);
        lemma_path_has_no_scheme(k, context, namespace, pvc, tl);
        lemma_validate_path(url, None, k, context, namespace, pvc, tl);
    }
}

/// A scheme other than `k8s` is reported before any other problem: a URL
/// that starts with such a scheme and `:` is refused for its scheme,
/// whatever follows.
pub proof fn law_foreign_scheme_refused_first(scheme: Seq<char>, rest: Seq<char>)
    requires
        is_scheme(scheme),
        scheme != k8s_scheme(),
    ensures
        validate_remote(scheme.push(':') + rest) == Err::<(Seq<char>, Seq<char>, Seq<char>), ConfigError>(
            ConfigError::RemoteInvalidScheme,
        ),
{
    let url = scheme.push(':') + rest;
    let n = scheme.len() as int;
    assert(url.take(n) =~= scheme);
    assert(url[n] == ':');
    lemma_scheme_split_at(url, n);
}

/// Whatever a URL validates to is three names: none of them is empty, and
/// each holds only letters, digits, `.` and `-`.
pub proof fn law_validated_parts_are_names(url: Seq<char>)
    requires
        validate_remote(url) is Ok,
    ensures
        is_name(validate_remote(url)->Ok_0.0),
        is_name(validate_remote(url)->Ok_0.1),
        is_name(validate_remote(url)->Ok_0.2),
{
    let (scheme, r) = scheme_split(url);
    let m = leading_slashes(r);
    let (c, ns, t) = path_groups(r)->Some_0;
    let len = longest_name_len(r, t);
    assert(len > 0);
    let lw = choose|x: int| is_longest_name(r, t, x);
    assert(is_longest_name(r, t, lw));
    let n1 = name_slash_len(r, m)->Some_0;
    assert(name_slash_at(r, m, n1));
    let q = m + n1 + 1;
    let n2 = name_slash_len(r, q)->Some_0;
    assert(name_slash_at(r, q, n2));
}

/// The characters of a name, written out: ASCII letters of either case,
/// ASCII digits, `.` and `-`; the first and the last a letter or a digit.
pub open spec fn is_letters_digits_dots_dashes(w: Seq<char>) -> bool {
    &&& w.len() > 0
    &&& forall|i: int|
        0 <= i < w.len() ==> {
            let c = #[trigger] w[i];
            ||| ('a' <= c && c <= 'z')
            ||| ('A' <= c && c <= 'Z')
            ||| ('0' <= c && c <= '9')
            ||| c == '.'
            ||| c == '-'
        }
    &&& ({
        let c = w[0];
        ('a' <= c && c <= 'z') || ('A' <= c && c <= 'Z') || ('0' <= c && c <= '9')
    })
    &&& ({
        let c = w[w.len() - 1];
        ('a' <= c && c <= 'z') || ('A' <= c && c <= 'Z') || ('0' <= c && c <= '9')
    })
}

/// A name character is exactly an ASCII letter of either case, an ASCII
/// digit, `.` or `-`.
pub proof fn law_name_chars(c: char)
    ensures
        is_name_char(c) <==> (('a' <= c && c <= 'z') || ('A' <= c && c <= 'Z') || ('0' <= c
            && c <= '9') || c == '.' || c == '-'),
{
}

/// A scheme character is exactly an ASCII letter of either case, an ASCII
/// digit, `+`, `.` or `-`.
pub proof fn law_scheme_chars(c: char)
    ensures
        is_scheme_char(c) <==> (('a' <= c && c <= 'z') || ('A' <= c && c <= 'Z') || ('0' <= c
            && c <= '9') || c == '+' || c == '.' || c == '-'),
{
}

/// `k8s://context/namespace/pvc`, where each part is letters of either
/// case, digits, `.` and `-`, starting and ending with a letter or digit,
/// validates to exactly those three parts.
pub proof fn law_k8s_url_of_plain_names(context: Seq<char>, namespace: Seq<char>, pvc: Seq<char>)
    requires
        is_letters_digits_dots_dashes(context),
        is_letters_digits_dots_dashes(namespace),
        is_letters_digits_dots_dashes(pvc),
    ensures
        validate_remote(seq!['k', '8', 's', ':', '/', '/'] + context + seq!['/'] + namespace
            + seq!['/'] + pvc) == Ok::<(Seq<char>, Seq<char>, Seq<char>), ConfigError>(
            (context, namespace, pvc),
        ),
{
    lemma_plain_name_is_name(context);
    lemma_plain_name_is_name(namespace);
    lemma_plain_name_is_name(pvc);
    lemma_k8s_url_of_names(context, namespace, pvc);
}

#[verifier::spinoff_prover]
#[verifier::rlimit(80)]
proof fn lemma_k8s_url_of_names(context: Seq<char>, namespace: Seq<char>, pvc: Seq<char>)
    requires
        is_name(context),
        is_name(namespace),
        is_name(pvc),
    ensures
        validate_remote(seq!['k', '8', 's', ':', '/', '/'] + context + seq!['/'] + namespace
            + seq!['/'] + pvc) == Ok::<(Seq<char>, Seq<char>, Seq<char>), ConfigError>(
            (context, namespace, pvc),
        ),
{
    lemma_k8s_url_spelled_out(context, namespace, pvc);
    law_url_format_round_trip(true, 2, context, namespace, pvc);
}

proof fn lemma_plain_name_is_name(w: Seq<char>)
    requires
        is_letters_digits_dots_dashes(w),
    ensures
        is_name(w),
{
    assert forall|i: int| 0 <= i < w.len() implies is_name_char(#[trigger] w[i]) by {
        let c = w[i];
        assert(('a' <= c && c <= 'z') || ('A' <= c && c <= 'Z') || ('0' <= c && c <= '9') || c
            == '.' || c == '-');
    }
}

proof fn lemma_k8s_url_spelled_out(context: Seq<char>, namespace: Seq<char>, pvc: Seq<char>)
    ensures
        remote_url(true, 2, context, namespace, pvc) == seq!['k', '8', 's', ':', '/', '/']
            + context + seq!['/'] + namespace + seq!['/'] + pvc,
{
    assert(k8s_scheme().push(':') + slashes(2) =~= seq!['k', '8', 's', ':', '/', '/']);
    assert(remote_url(true, 2, context, namespace, pvc) =~= seq!['k', '8', 's', ':', '/', '/']
        + context + seq!['/'] + namespace + seq!['/'] + pvc);
}

} // verus!
