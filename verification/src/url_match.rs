//! Matching launch arguments against the configured site.
//!
//! A launch argument is trusted when it is an absolute `http` or `https` URL
//! whose host is exactly the host of the configured URL. The host of a URL is
//! what stands between the scheme and the first `/` after it.

use crate::text::chars_of;
use vstd::prelude::*;

verus! {

/// The text of each string of `strings`, in order.
pub open spec fn texts(strings: Seq<String>) -> Seq<Seq<char>> {
    strings.map_values(|s: String| s@)
}

/// What follows the scheme of `s`, where `s` starts with `https://` or with
/// `http://`.
pub open spec fn after_scheme(s: Seq<char>) -> Option<Seq<char>> {
    if "https://"@.is_prefix_of(s) {
        Some(s.skip("https://"@.len() as int))
    } else if "http://"@.is_prefix_of(s) {
        Some(s.skip("http://"@.len() as int))
    } else {
        None
    }
}

/// The index of the first `/` of `s`, or the length of `s` where it has none.
pub open spec fn first_slash(s: Seq<char>) -> int
    decreases s.len(),
{
    if s.len() == 0 || s[0] == '/' {
        0
    } else {
        1 + first_slash(s.drop_first())
    }
}

/// The part of `s` before its first `/`; all of `s` where it has none.
pub open spec fn before_slash(s: Seq<char>) -> Seq<char> {
    s.take(first_slash(s))
}

/// The host of `url`, where `url` has one of the two schemes.
pub open spec fn host_of(url: Seq<char>) -> Option<Seq<char>> {
    match after_scheme(url) {
        Some(rest) => Some(before_slash(rest)),
        None => None,
    }
}

/// The host that launch arguments are held against: the host of the
/// configured URL, and the empty text where that URL has neither scheme.
pub open spec fn allowed_host_of(config_url: Seq<char>) -> Seq<char> {
    match host_of(config_url) {
        Some(host) => host,
        None => Seq::empty(),
    }
}

/// Whether `arg` has one of the two schemes and exactly the host `allowed`.
/// An empty host equals an empty `allowed`.
pub open spec fn has_host(arg: Seq<char>, allowed: Seq<char>) -> bool {
    host_of(arg) == Some(allowed)
}

/// The first of `candidates` with the host `allowed`.
pub open spec fn first_with_host(candidates: Seq<Seq<char>>, allowed: Seq<char>) -> Option<
    Seq<char>,
>
    decreases candidates.len(),
{
    if candidates.len() == 0 {
        None
    } else if has_host(candidates[0], allowed) {
        Some(candidates[0])
    } else {
        first_with_host(candidates.drop_first(), allowed)
    }
}

/// The first launch argument after the executable path that is a URL on the
/// configured host.
pub open spec fn find_allowed_url(args: Seq<Seq<char>>, config_url: Seq<char>) -> Option<
    Seq<char>,
> {
    if args.len() == 0 {
        None
    } else {
        first_with_host(args.drop_first(), allowed_host_of(config_url))
    }
}

/// `first_slash(s)` is a position of `s` or its end, no `/` stands before it,
/// and a `/` stands at it unless it is the end.
pub proof fn lemma_first_slash(s: Seq<char>)
    ensures
        0 <= first_slash(s) <= s.len(),
        forall|i: int| 0 <= i < first_slash(s) ==> s[i] != '/',
        first_slash(s) < s.len() ==> s[first_slash(s)] == '/',
    decreases s.len(),
{
    if s.len() != 0 && s[0] != '/' {
        let tail = s.drop_first();
        lemma_first_slash(tail);
        assert forall|i: int| 0 <= i < first_slash(s) implies s[i] != '/' by {
            if i > 0 {
                assert(s[i] == tail[i - 1]);
            }
        }
        assert(first_slash(s) < s.len() ==> s[first_slash(s)] == tail[first_slash(tail)]);
    }
}

/// Only `first_slash(s)` has the three properties of `lemma_first_slash`.
pub proof fn lemma_first_slash_unique(s: Seq<char>, n: int)
    requires
        0 <= n <= s.len(),
        forall|i: int| 0 <= i < n ==> s[i] != '/',
        n < s.len() ==> s[n] == '/',
    ensures
        first_slash(s) == n,
{
    lemma_first_slash(s);
    let m = first_slash(s);
    if m < n {
        assert(s[m] == '/');
    } else if n < m {
        assert(s[n] == '/');
    }
}

/// The two schemes, spelled out.
pub proof fn lemma_schemes()
    ensures
        "https://"@ == seq!['h', 't', 't', 'p', 's', ':', '/', '/'],
        "http://"@ == seq!['h', 't', 't', 'p', ':', '/', '/'],
{
    reveal_strlit("https://");
    reveal_strlit("http://");
    assert("https://"@ =~= seq!['h', 't', 't', 'p', 's', ':', '/', '/']);
    assert("http://"@ =~= seq!['h', 't', 't', 'p', ':', '/', '/']);
}

/// The scheme `https://` where `secure`, else `http://`.
pub open spec fn scheme(secure: bool) -> Seq<char> {
    if secure {
        "https://"@
    } else {
        "http://"@
    }
}

/// A URL made of a scheme, a host without `/` and a rest that is empty or
/// starts with `/` has exactly that host: no slash and nothing of the path
/// belongs to it.
pub proof fn lemma_host_of_url(secure: bool, host: Seq<char>, rest: Seq<char>)
    requires
        !host.contains('/'),
        rest.len() == 0 || rest[0] == '/',
    ensures
        host_of(scheme(secure) + host + rest) == Some(host),
        allowed_host_of(scheme(secure) + host + rest) == host,
{
    lemma_schemes();
    let url = scheme(secure) + host + rest;
    let tail = host + rest;
    assert(url.subrange(0, scheme(secure).len() as int) =~= scheme(secure));
    assert(scheme(secure).is_prefix_of(url));
    if !secure {
        assert(url[4] == ':');
        assert(!"https://"@.is_prefix_of(url)) by {
            if "https://"@.is_prefix_of(url) {
                assert(url.subrange(0, 8)[4] == 's');
            }
        }
    }
    assert(url.skip(scheme(secure).len() as int) =~= tail);
    assert(after_scheme(url) == Some(tail));
    assert forall|i: int| 0 <= i < host.len() implies tail[i] != '/' by {
        assert(host.contains(host[i]));
    }
    lemma_first_slash_unique(tail, host.len() as int);
    assert(tail.take(host.len() as int) =~= host);
}

/// A URL has the host `allowed` only where it is made of a scheme, of
/// `allowed`, which holds no `/`, and of a rest that is empty or starts with
/// `/`: the converse of `lemma_host_of_url`.
pub proof fn lemma_has_host_shape(arg: Seq<char>, allowed: Seq<char>)
    requires
        has_host(arg, allowed),
    ensures
        !allowed.contains('/'),
        exists|secure: bool, rest: Seq<char>|
            #![trigger scheme(secure) + allowed + rest]
            arg == scheme(secure) + allowed + rest && (rest.len() == 0 || rest[0] == '/'),
{
    let secure = "https://"@.is_prefix_of(arg);
    let tail = after_scheme(arg).unwrap();
    lemma_first_slash(tail);
    let rest = tail.skip(first_slash(tail));
    assert(arg =~= scheme(secure) + allowed + rest);
    assert(rest.len() == 0 || rest[0] == '/');
    if allowed.contains('/') {
        let i = choose|i: int| 0 <= i < allowed.len() && allowed[i] == '/';
        assert(tail[i] == '/');
    }
}

/// What `first_with_host` finds is the candidate at the least index among
/// those with the host, and it finds nothing only where none has it.
pub proof fn lemma_first_with_host(candidates: Seq<Seq<char>>, allowed: Seq<char>)
    ensures
        match first_with_host(candidates, allowed) {
            Some(url) => exists|i: int|
                0 <= i < candidates.len() && candidates[i] == url && has_host(
                    #[trigger] candidates[i],
                    allowed,
                ) && forall|j: int| 0 <= j < i ==> !has_host(#[trigger] candidates[j], allowed),
            None => forall|j: int|
                0 <= j < candidates.len() ==> !has_host(#[trigger] candidates[j], allowed),
        },
    decreases candidates.len(),
{
    if candidates.len() == 0 {
    } else if has_host(candidates[0], allowed) {
        assert(has_host(candidates[0], allowed) && forall|j: int|
            0 <= j < 0 ==> !has_host(#[trigger] candidates[j], allowed));
    } else {
        let tail = candidates.drop_first();
        lemma_first_with_host(tail, allowed);
        match first_with_host(tail, allowed) {
            Some(url) => {
                let i = choose|i: int|
                    0 <= i < tail.len() && tail[i] == url && has_host(#[trigger] tail[i], allowed)
                        && forall|j: int| 0 <= j < i ==> !has_host(#[trigger] tail[j], allowed);
                assert(candidates[i + 1] == tail[i]);
                assert forall|j: int| 0 <= j < i + 1 implies !has_host(
                    #[trigger] candidates[j],
                    allowed,
                ) by {
                    if j > 0 {
                        assert(candidates[j] == tail[j - 1]);
                    }
                }
                assert(has_host(candidates[i + 1], allowed));
            },
            None => {
                assert forall|j: int| 0 <= j < candidates.len() implies !has_host(
                    #[trigger] candidates[j],
                    allowed,
                ) by {
                    if j > 0 {
                        assert(candidates[j] == tail[j - 1]);
                    }
                }
            },
        }
    }
}

/// What `find_allowed_url` finds is the argument at the least index from 1
/// on among those with the host of the configured URL, and it finds nothing
/// only where none from 1 on has it.
pub proof fn lemma_find_allowed_url(args: Seq<Seq<char>>, config_url: Seq<char>)
    ensures
        match find_allowed_url(args, config_url) {
            Some(url) => exists|i: int|
                1 <= i < args.len() && args[i] == url && has_host(
                    #[trigger] args[i],
                    allowed_host_of(config_url),
                ) && forall|j: int|
                    1 <= j < i ==> !has_host(#[trigger] args[j], allowed_host_of(config_url)),
            None => forall|j: int|
                1 <= j < args.len() ==> !has_host(#[trigger] args[j], allowed_host_of(config_url)),
        },
{
    if args.len() > 0 {
        let allowed = allowed_host_of(config_url);
        let tail = args.drop_first();
        lemma_first_with_host(tail, allowed);
        match first_with_host(tail, allowed) {
            Some(url) => {
                let i = choose|i: int|
                    0 <= i < tail.len() && tail[i] == url && has_host(#[trigger] tail[i], allowed)
                        && forall|j: int| 0 <= j < i ==> !has_host(#[trigger] tail[j], allowed);
                assert(args[i + 1] == tail[i]);
                assert forall|j: int| 1 <= j < i + 1 implies !has_host(
                    #[trigger] args[j],
                    allowed,
                ) by {
                    assert(args[j] == tail[j - 1]);
                }
                assert(has_host(args[i + 1], allowed));
            },
            None => {
                assert forall|j: int| 1 <= j < args.len() implies !has_host(
                    #[trigger] args[j],
                    allowed,
                ) by {
                    assert(args[j] == tail[j - 1]);
                }
            },
        }
    }
}

/// The search never looks at the first argument: two lists that differ only
/// there give the same result.
pub proof fn lemma_first_argument_ignored(
    first: Seq<char>,
    other: Seq<char>,
    rest: Seq<Seq<char>>,
    config_url: Seq<char>,
)
    ensures
        find_allowed_url(seq![first] + rest, config_url) == find_allowed_url(
            seq![other] + rest,
            config_url,
        ),
        find_allowed_url(seq![first] + rest, config_url) == first_with_host(
            rest,
            allowed_host_of(config_url),
        ),
{
    assert((seq![first] + rest).drop_first() =~= rest);
    assert((seq![other] + rest).drop_first() =~= rest);
}

/// Arguments without a scheme are never found, whatever the configured URL:
/// where no argument after the first has one, the result is `None`.
pub proof fn lemma_unschemed_never_found(args: Seq<Seq<char>>, config_url: Seq<char>)
    requires
        forall|i: int| 1 <= i < args.len() ==> after_scheme(#[trigger] args[i]).is_none(),
    ensures
        find_allowed_url(args, config_url).is_none(),
{
    lemma_find_allowed_url(args, config_url);
}

/// Whether `s` starts with `prefix`.
fn starts_with(s: &Vec<char>, prefix: &Vec<char>) -> (yes: bool)
    ensures
        yes == prefix@.is_prefix_of(s@),
{
    if prefix.len() > s.len() {
        return false;
    }
    let mut i: usize = 0;
    while i < prefix.len()
        invariant
            i <= prefix.len() <= s.len(),
            forall|k: int| 0 <= k < i ==> s[k] == prefix[k],
        decreases prefix.len() - i,
    {
        if s[i] != prefix[i] {
            assert(s@.subrange(0, prefix.len() as int)[i as int] != prefix[i as int]);
            return false;
        }
        i += 1;
    }
    assert(prefix@ =~= s@.subrange(0, prefix.len() as int));
    true
}

/// The length of the scheme that `s` starts with.
fn scheme_len(s: &Vec<char>) -> (len: Option<usize>)
    ensures
        match len {
            Some(n) => n <= s.len() && after_scheme(s@) == Some(s@.skip(n as int)),
            None => after_scheme(s@).is_none(),
        },
{
    let https = chars_of("https://");
    let http = chars_of("http://");
    if starts_with(s, &https) {
        Some(https.len())
    } else if starts_with(s, &http) {
        Some(http.len())
    } else {
        None
    }
}

/// The end of the host that begins at `from`: the index of the first `/` at
/// or after `from`, or the length of `s`.
fn host_end(s: &Vec<char>, from: usize) -> (end: usize)
    requires
        from <= s.len(),
    ensures
        from <= end <= s.len(),
        end - from == first_slash(s@.skip(from as int)),
        s@.subrange(from as int, end as int) == before_slash(s@.skip(from as int)),
{
    let mut end: usize = from;
    while end < s.len() && s[end] != '/'
        invariant
            from <= end <= s.len(),
            forall|k: int| from <= k < end ==> s[k] != '/',
        decreases s.len() - end,
    {
        end += 1;
    }
    proof {
        let rest = s@.skip(from as int);
        lemma_first_slash_unique(rest, end - from);
        assert(s@.subrange(from as int, end as int) =~= rest.take(end - from));
    }
    end
}

/// Whether the characters of `s` from `from` up to `end` are those of `other`.
fn range_equals(s: &Vec<char>, from: usize, end: usize, other: &Vec<char>) -> (same: bool)
    requires
        from <= end <= s.len(),
    ensures
        same == (s@.subrange(from as int, end as int) == other@),
{
    if end - from != other.len() {
        return false;
    }
    let mut i: usize = 0;
    while i < other.len()
        invariant
            from <= end <= s.len(),
            end - from == other.len(),
            i <= other.len(),
            forall|k: int| 0 <= k < i ==> s[from + k] == other[k],
        decreases other.len() - i,
    {
        if s[from + i] != other[i] {
            assert(s@.subrange(from as int, end as int)[i as int] != other[i as int]);
            return false;
        }
        i += 1;
    }
    assert(s@.subrange(from as int, end as int) =~= other@);
    true
}

/// The host of `url`, where `url` starts with `https://` or `http://`: what
/// stands between the scheme and the first `/` after it.
pub fn url_host(url: &str) -> (host: Option<&str>)
    ensures
        match host {
            Some(h) => host_of(url@) == Some(h@),
            None => host_of(url@).is_none(),
        },
{
    let chars = chars_of(url);
    match scheme_len(&chars) {
        Some(start) => {
            let end = host_end(&chars, start);
            Some(url.substring_char(start, end))
        },
        None => None,
    }
}

/// The host that launch arguments must have: the host of the configured URL,
/// or the empty string where that URL has neither scheme.
pub fn allowed_host(config_url: &str) -> (host: &str)
    ensures
        host@ == allowed_host_of(config_url@),
{
    match url_host(config_url) {
        Some(host) => host,
        None => {
            proof {
                reveal_strlit("");
            }
            ""
        },
    }
}

/// Whether the characters `arg` make a URL with one of the two schemes and
/// the host `allowed`.
fn chars_on_host(arg: &Vec<char>, allowed: &Vec<char>) -> (yes: bool)
    ensures
        yes == has_host(arg@, allowed@),
{
    match scheme_len(arg) {
        Some(start) => {
            let end = host_end(arg, start);
            range_equals(arg, start, end, allowed)
        },
        None => false,
    }
}

/// Whether `arg` is a URL with one of the two schemes and the host `allowed`.
pub fn is_on_host(arg: &str, allowed: &str) -> (yes: bool)
    ensures
        yes == has_host(arg@, allowed@),
{
    chars_on_host(&chars_of(arg), &chars_of(allowed))
}

/// Finds the URL to open among the launch arguments: the first argument
/// after the executable path that starts with `https://` or `http://` and
/// whose host is the host of `config_url`. The first argument is skipped
/// unread.
pub fn extract_url_arg(args: &[String], config_url: &str) -> (found: Option<String>)
    ensures
        found.deep_view() == find_allowed_url(texts(args@), config_url@),
{
    if args.len() == 0 {
        return None;
    }
    let allowed = chars_of(allowed_host(config_url));
    let ghost candidates = texts(args@).drop_first();
    assert(candidates.skip(0) =~= candidates);
    let mut i: usize = 1;
    while i < args.len()
        invariant
            1 <= i <= args.len(),
            allowed@ == allowed_host_of(config_url@),
            candidates == texts(args@).drop_first(),
            first_with_host(candidates, allowed@) == first_with_host(
                candidates.skip(i - 1),
                allowed@,
            ),
        decreases args.len() - i,
    {
        proof {
            let here = candidates.skip(i - 1);
            assert(here[0] == args[i as int]@);
            assert(here.drop_first() =~= candidates.skip(i as int));
        }
        if chars_on_host(&chars_of(args[i].as_str()), &allowed) {
            return Some(args[i].clone());
        }
        i += 1;
    }
    assert(candidates.skip(i - 1).len() == 0);
    None
}

} // verus!
