//! Endpoint normalization: from a raw host or URL to the full service URL.

use vstd::prelude::*;

use crate::text::{
    contains, contains_exec, count_char, count_char_exec, ends_with, has_prefix, has_suffix,
    lemma_concat_free, lemma_contains_concat, lemma_count_concat, lemma_missing_first_char,
    lemma_prefix_of_concat, lemma_replace_keeps_prefix, lemma_replace_leaves_replacement,
    lemma_replace_removes, lemma_replace_starts, lemma_suffix_of_concat, occurs_at, replace_all,
    replace_exec, starts_with, trim_suffix_all, trim_suffix_exec,
};

verus! {

/// `http://`
pub open spec fn http_scheme() -> Seq<char> {
    seq!['h', 't', 't', 'p', ':', '/', '/']
}

/// `https://`
pub open spec fn https_scheme() -> Seq<char> {
    seq!['h', 't', 't', 'p', 's', ':', '/', '/']
}

/// `:5985`, the plain-HTTP service port
pub open spec fn port_plain() -> Seq<char> {
    seq![':', '5', '9', '8', '5']
}

/// `:5986`, the HTTPS service port
pub open spec fn port_tls() -> Seq<char> {
    seq![':', '5', '9', '8', '6']
}

/// `:80`
pub open spec fn port_http() -> Seq<char> {
    seq![':', '8', '0']
}

/// `:443`
pub open spec fn port_https() -> Seq<char> {
    seq![':', '4', '4', '3']
}

/// `/wsman`, the service path
pub open spec fn service_path() -> Seq<char> {
    seq!['/', 'w', 's', 'm', 'a', 'n']
}

/// Scheme forced to `to`: a leading `from` is rewritten (every occurrence of
/// it, as a text replacement does), a missing scheme is prepended.
pub open spec fn scheme_forced(s: Seq<char>, from: Seq<char>, to: Seq<char>) -> Seq<char> {
    if has_prefix(s, from) {
        replace_all(s, from, to)
    } else if !has_prefix(s, to) {
        to + s
    } else {
        s
    }
}

/// Scheme left alone when present, `http://` when missing.
pub open spec fn scheme_default(s: Seq<char>) -> Seq<char> {
    if !has_prefix(s, http_scheme()) && !has_prefix(s, https_scheme()) {
        http_scheme() + s
    } else {
        s
    }
}

/// Port forced to `to`: every `from` is rewritten; with neither `to` nor
/// the scheme's usual port `usual` in sight and fewer than two colons, `to`
/// is appended.
pub open spec fn port_forced(s: Seq<char>, from: Seq<char>, to: Seq<char>, usual: Seq<char>) -> Seq<
    char,
> {
    if contains(s, from) {
        replace_all(s, from, to)
    } else if !contains(s, to) && !contains(s, usual) && count_char(s, ':') < 2 {
        s + to
    } else {
        s
    }
}

/// No recognised port and fewer than two colons.
pub open spec fn lacks_port(s: Seq<char>) -> bool {
    &&& !contains(s, port_plain())
    &&& !contains(s, port_tls())
    &&& !contains(s, port_http())
    &&& !contains(s, port_https())
    &&& count_char(s, ':') < 2
}

/// With no port given, the scheme's default port follows the host, any
/// trailing `/wsman` of the host part being dropped first.
pub open spec fn port_default(s: Seq<char>) -> Seq<char> {
    if lacks_port(s) {
        if has_prefix(s, https_scheme()) {
            https_scheme() + trim_suffix_all(s.skip(8), service_path()) + port_tls()
        } else {
            http_scheme() + trim_suffix_all(s.skip(7), service_path()) + port_plain()
        }
    } else {
        s
    }
}

/// `/wsman` appended unless already there.
pub open spec fn with_service_path(s: Seq<char>) -> Seq<char> {
    if has_suffix(s, service_path()) {
        s
    } else {
        s + service_path()
    }
}

/// The service URL for a raw endpoint under the two encryption intents;
/// `encrypt` wins when both are set.
pub open spec fn normalized(s: Seq<char>, encrypt: bool, no_encrypt: bool) -> Seq<char> {
    with_service_path(
        if encrypt {
            port_forced(scheme_forced(s, http_scheme(), https_scheme()), port_plain(), port_tls(), port_https())
        } else if no_encrypt {
            port_forced(scheme_forced(s, https_scheme(), http_scheme()), port_tls(), port_plain(), port_http())
        } else {
            port_default(scheme_default(s))
        },
    )
}

proof fn lemma_scheme_default_prefixed(s: Seq<char>)
    ensures
        has_prefix(scheme_default(s), http_scheme()) || has_prefix(scheme_default(s), https_scheme()),
{
    lemma_self_prefix(http_scheme());
    lemma_prefix_of_concat(http_scheme(), s, http_scheme());
}

fn lit_http() -> (r: &'static str)
    ensures
        r@ == http_scheme(),
{
    proof {
        reveal_strlit("http://");
    }
    let r = "http://";
    assert(r@ =~= http_scheme());
    r
}

fn lit_https() -> (r: &'static str)
    ensures
        r@ == https_scheme(),
{
    proof {
        reveal_strlit("https://");
    }
    let r = "https://";
    assert(r@ =~= https_scheme());
    r
}

fn lit_port_plain() -> (r: &'static str)
    ensures
        r@ == port_plain(),
{
    proof {
        reveal_strlit(":5985");
    }
    let r = ":5985";
    assert(r@ =~= port_plain());
    r
}

fn lit_port_tls() -> (r: &'static str)
    ensures
        r@ == port_tls(),
{
    proof {
        reveal_strlit(":5986");
    }
    let r = ":5986";
    assert(r@ =~= port_tls());
    r
}

fn lit_port_http() -> (r: &'static str)
    ensures
        r@ == port_http(),
{
    proof {
        reveal_strlit(":80");
    }
    let r = ":80";
    assert(r@ =~= port_http());
    r
}

fn lit_port_https() -> (r: &'static str)
    ensures
        r@ == port_https(),
{
    proof {
        reveal_strlit(":443");
    }
    let r = ":443";
    assert(r@ =~= port_https());
    r
}

fn lit_path() -> (r: &'static str)
    ensures
        r@ == service_path(),
{
    proof {
        reveal_strlit("/wsman");
    }
    let r = "/wsman";
    assert(r@ =~= service_path());
    r
}

fn concat(a: &str, b: &str) -> (r: String)
    ensures
        r@ == a@ + b@,
{
    let mut r = String::from_str(a);
    r.append(b);
    r
}

fn concat3(a: &str, b: &str, c: &str) -> (r: String)
    ensures
        r@ == a@ + b@ + c@,
{
    let mut r = String::from_str(a);
    r.append(b);
    r.append(c);
    r
}

fn apply_scheme_forced(s: &str, from: &str, to: &str) -> (r: String)
    requires
        from@.len() > 0,
    ensures
        r@ == scheme_forced(s@, from@, to@),
{
    if starts_with(s, from) {
        replace_exec(s, from, to)
    } else if !starts_with(s, to) {
        concat(to, s)
    } else {
        String::from_str(s)
    }
}

fn apply_scheme_default(s: &str) -> (r: String)
    ensures
        r@ == scheme_default(s@),
{
    if !starts_with(s, lit_http()) && !starts_with(s, lit_https()) {
        concat(lit_http(), s)
    } else {
        String::from_str(s)
    }
}

fn apply_port_forced(s: &str, from: &str, to: &str, usual: &str) -> (r: String)
    requires
        from@.len() > 0,
    ensures
        r@ == port_forced(s@, from@, to@, usual@),
{
    if contains_exec(s, from) {
        replace_exec(s, from, to)
    } else if !contains_exec(s, to) && !contains_exec(s, usual) && count_char_exec(s, ':') < 2 {
        concat(s, to)
    } else {
        String::from_str(s)
    }
}

fn apply_port_default(s: &str) -> (r: String)
    requires
        has_prefix(s@, http_scheme()) || has_prefix(s@, https_scheme()),
    ensures
        r@ == port_default(s@),
{
    let bare = !contains_exec(s, lit_port_plain()) && !contains_exec(s, lit_port_tls())
        && !contains_exec(s, lit_port_http()) && !contains_exec(s, lit_port_https())
        && count_char_exec(s, ':') < 2;
    if !bare {
        return String::from_str(s);
    }
    let n = s.unicode_len();
    if starts_with(s, lit_https()) {
        let host = trim_suffix_exec(s.substring_char(8, n), lit_path());
        proof {
            assert(s@.subrange(8, n as int) =~= s@.skip(8));
        }
        concat3(lit_https(), host, lit_port_tls())
    } else {
        let host = trim_suffix_exec(s.substring_char(7, n), lit_path());
        proof {
            assert(s@.subrange(7, n as int) =~= s@.skip(7));
        }
        concat3(lit_http(), host, lit_port_plain())
    }
}

/// Turns a raw endpoint (a bare host, an address or a URL) into the full
/// service URL: scheme, port and the `/wsman` path, as the two encryption
/// intents ask. `encrypt` wins when both are set.
pub fn adjust_endpoint(endpoint: &str, encrypt: bool, no_encrypt: bool) -> (r: String)
    ensures
        r@ == normalized(endpoint@, encrypt, no_encrypt),
{
    let ep = if encrypt {
        let s = apply_scheme_forced(endpoint, lit_http(), lit_https());
        apply_port_forced(s.as_str(), lit_port_plain(), lit_port_tls(), lit_port_https())
    } else if no_encrypt {
        let s = apply_scheme_forced(endpoint, lit_https(), lit_http());
        apply_port_forced(s.as_str(), lit_port_tls(), lit_port_plain(), lit_port_http())
    } else {
        let s = apply_scheme_default(endpoint);
        proof {
            lemma_scheme_default_prefixed(endpoint@);
        }
        apply_port_default(s.as_str())
    };
    if ends_with(ep.as_str(), lit_path()) {
        ep
    } else {
        concat(ep.as_str(), lit_path())
    }
}


/// The result begins with one of the two schemes.
pub open spec fn has_scheme(s: Seq<char>) -> bool {
    has_prefix(s, http_scheme()) || has_prefix(s, https_scheme())
}

proof fn lemma_self_prefix(s: Seq<char>)
    ensures
        has_prefix(s, s),
{
    assert(s.subrange(0, s.len() as int) =~= s);
}

/// A port literal holds no occurrence of a different one.
proof fn lemma_other_port_free(b: Seq<char>, p: Seq<char>)
    requires
        b.len() == p.len(),
        b != p,
    ensures
        !contains(b, p),
{
    assert forall|i: int| !occurs_at(b, p, i) by {
        if occurs_at(b, p, i) {
            assert(i == 0);
            assert(b.subrange(0, b.len() as int) =~= b);
        }
    }
}

proof fn lemma_schemes_differ(t: Seq<char>)
    ensures
        has_prefix(t, https_scheme()) ==> !has_prefix(t, http_scheme()),
        has_prefix(t, http_scheme()) ==> !has_prefix(t, https_scheme()),
{
    if t.len() >= 5 {
        if has_prefix(t, https_scheme()) {
            assert(t.subrange(0, 8)[4] == t[4]);
        }
        if has_prefix(t, http_scheme()) {
            assert(t.subrange(0, 7)[4] == t[4]);
        }
    }
    if has_prefix(t, http_scheme()) && has_prefix(t, https_scheme()) {
        assert(t.subrange(0, 8)[4] == t[4]);
        assert(t.subrange(0, 7)[4] == t[4]);
    }
}

/// What a forced mode leaves behind: scheme `to_scheme`, no `from` port, some
/// port or two colons, and the service path.
pub open spec fn forced_shape(t: Seq<char>, to_scheme: Seq<char>, from: Seq<char>, to: Seq<char>, usual: Seq<char>) -> bool {
    &&& has_prefix(t, to_scheme)
    &&& has_suffix(t, service_path())
    &&& !contains(t, from)
    &&& (contains(t, to) || contains(t, usual) || count_char(t, ':') >= 2)
}

proof fn lemma_forced_mode(
    s: Seq<char>,
    from_scheme: Seq<char>,
    to_scheme: Seq<char>,
    from: Seq<char>,
    to: Seq<char>,
    usual: Seq<char>,
)
    requires
        from_scheme.len() > 0,
        from.len() == 5,
        to.len() == 5,
        from != to,
        from[0] == ':',
        to[0] == ':',
        forall|k: int| 1 <= k < 5 ==> #[trigger] from[k] != ':' && from[k] != '/',
        forall|k: int| 1 <= k < 5 ==> #[trigger] to[k] != ':',
        forall|k: int|
            0 <= k < to_scheme.len() && #[trigger] to_scheme[k] == ':' ==> k + 1 < to_scheme.len()
                && to_scheme[k + 1] != from[1],
    ensures
        forced_shape(
            with_service_path(port_forced(scheme_forced(s, from_scheme, to_scheme), from, to, usual)),
            to_scheme,
            from,
            to,
            usual,
        ),
{
    let s1 = scheme_forced(s, from_scheme, to_scheme);
    lemma_self_prefix(to_scheme);
    if has_prefix(s, from_scheme) {
        lemma_replace_starts(s, from_scheme, to_scheme);
    } else if !has_prefix(s, to_scheme) {
        lemma_prefix_of_concat(to_scheme, s, to_scheme);
    }
    assert(has_prefix(s1, to_scheme));
    let s2 = port_forced(s1, from, to, usual);
    if contains(s1, from) {
        lemma_replace_keeps_prefix(s1, to_scheme, from, to);
        lemma_replace_removes(s1, from, to);
        lemma_replace_leaves_replacement(s1, from, to);
    } else if !contains(s1, to) && !contains(s1, usual) && count_char(s1, ':') < 2 {
        lemma_prefix_of_concat(s1, to, to_scheme);
        lemma_other_port_free(to, from);
        lemma_concat_free(s1, to, from);
        lemma_suffix_of_concat(s1, to);
    }
    assert(has_prefix(s2, to_scheme));
    assert(!contains(s2, from));
    assert(contains(s2, to) || contains(s2, usual) || count_char(s2, ':') >= 2);
    let path = service_path();
    if !has_suffix(s2, path) {
        lemma_prefix_of_concat(s2, path, to_scheme);
        lemma_missing_first_char(path, from);
        lemma_concat_free(s2, path, from);
        if contains(s2, to) {
            lemma_contains_concat(s2, path, to);
        }
        if contains(s2, usual) {
            lemma_contains_concat(s2, path, usual);
        }
        lemma_count_concat(s2, path, ':');
        lemma_suffix_of_concat(s2, path);
    }
}

proof fn lemma_forced_fixed(
    t: Seq<char>,
    from_scheme: Seq<char>,
    to_scheme: Seq<char>,
    from: Seq<char>,
    to: Seq<char>,
    usual: Seq<char>,
)
    requires
        forced_shape(t, to_scheme, from, to, usual),
        !has_prefix(t, from_scheme),
    ensures
        with_service_path(port_forced(scheme_forced(t, from_scheme, to_scheme), from, to, usual)) == t,
{
}

proof fn lemma_default_mode(s: Seq<char>)
    ensures
        has_scheme(normalized(s, false, false)),
        has_suffix(normalized(s, false, false), service_path()),
        !lacks_port(normalized(s, false, false)),
{
    let s1 = scheme_default(s);
    lemma_scheme_default_prefixed(s);
    let s2 = port_default(s1);
    if lacks_port(s1) {
        if has_prefix(s1, https_scheme()) {
            let mid = https_scheme() + trim_suffix_all(s1.skip(8), service_path());
            lemma_self_prefix(https_scheme());
            lemma_prefix_of_concat(https_scheme(), trim_suffix_all(s1.skip(8), service_path()), https_scheme());
            lemma_prefix_of_concat(mid, port_tls(), https_scheme());
            lemma_suffix_of_concat(mid, port_tls());
        } else {
            let mid = http_scheme() + trim_suffix_all(s1.skip(7), service_path());
            lemma_self_prefix(http_scheme());
            lemma_prefix_of_concat(http_scheme(), trim_suffix_all(s1.skip(7), service_path()), http_scheme());
            lemma_prefix_of_concat(mid, port_plain(), http_scheme());
            lemma_suffix_of_concat(mid, port_plain());
        }
    }
    assert(has_scheme(s2));
    assert(!lacks_port(s2));
    let path = service_path();
    if !has_suffix(s2, path) {
        if has_prefix(s2, http_scheme()) {
            lemma_prefix_of_concat(s2, path, http_scheme());
        } else {
            lemma_prefix_of_concat(s2, path, https_scheme());
        }
        if contains(s2, port_plain()) {
            lemma_contains_concat(s2, path, port_plain());
        }
        if contains(s2, port_tls()) {
            lemma_contains_concat(s2, path, port_tls());
        }
        if contains(s2, port_http()) {
            lemma_contains_concat(s2, path, port_http());
        }
        if contains(s2, port_https()) {
            lemma_contains_concat(s2, path, port_https());
        }
        lemma_count_concat(s2, path, ':');
        lemma_suffix_of_concat(s2, path);
    }
}

proof fn lemma_encrypt_mode(s: Seq<char>)
    ensures
        forced_shape(normalized(s, true, false), https_scheme(), port_plain(), port_tls(), port_https()),
        !has_prefix(normalized(s, true, false), http_scheme()),
{
    assert(port_plain()[4] != port_tls()[4]);
    lemma_forced_mode(s, http_scheme(), https_scheme(), port_plain(), port_tls(), port_https());
    lemma_schemes_differ(normalized(s, true, false));
}

proof fn lemma_plain_mode(s: Seq<char>)
    ensures
        forced_shape(normalized(s, false, true), http_scheme(), port_tls(), port_plain(), port_http()),
        !has_prefix(normalized(s, false, true), https_scheme()),
{
    assert(port_plain()[4] != port_tls()[4]);
    lemma_forced_mode(s, https_scheme(), http_scheme(), port_tls(), port_plain(), port_http());
    lemma_schemes_differ(normalized(s, false, true));
}

/// Normalizing an already normalized endpoint under the same intents changes
/// nothing.
pub proof fn lemma_normalize_idempotent(s: Seq<char>, encrypt: bool, no_encrypt: bool)
    ensures
        normalized(normalized(s, encrypt, no_encrypt), encrypt, no_encrypt) == normalized(
            s,
            encrypt,
            no_encrypt,
        ),
{
    let t = normalized(s, encrypt, no_encrypt);
    if encrypt {
        assert(normalized(s, true, false) == t);
        lemma_encrypt_mode(s);
        lemma_forced_fixed(t, http_scheme(), https_scheme(), port_plain(), port_tls(), port_https());
    } else if no_encrypt {
        lemma_plain_mode(s);
        lemma_forced_fixed(t, https_scheme(), http_scheme(), port_tls(), port_plain(), port_http());
    } else {
        lemma_default_mode(s);
    }
}

/// Under every combination of intents the result begins with exactly one of
/// `http://` and `https://` and ends with `/wsman`.
pub proof fn lemma_normalize_shape(s: Seq<char>, encrypt: bool, no_encrypt: bool)
    ensures
        has_prefix(normalized(s, encrypt, no_encrypt), http_scheme()) != has_prefix(
            normalized(s, encrypt, no_encrypt),
            https_scheme(),
        ),
        has_suffix(normalized(s, encrypt, no_encrypt), service_path()),
{
    let t = normalized(s, encrypt, no_encrypt);
    if encrypt {
        assert(normalized(s, true, false) == t);
        lemma_encrypt_mode(s);
    } else if no_encrypt {
        lemma_plain_mode(s);
    } else {
        lemma_default_mode(s);
    }
    lemma_schemes_differ(t);
}

} // verus!
