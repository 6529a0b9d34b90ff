//! The shape of an impersonation endpoint: the address of a webhook of the
//! platform.

use crate::text::{
    all_digits, chars_of, digits_value, has_prefix, is_digit, parse_unsigned, same_as_str,
    string_of,
};
use vstd::prelude::*;

verus! {

/// Where `c` first stands in `s`; the length of `s` where it does not.
pub open spec fn find(s: Seq<char>, c: char) -> nat
    decreases s.len(),
{
    if s.len() == 0 || s[0] == c {
        0
    } else {
        1 + find(s.drop_first(), c)
    }
}

/// A character that a webhook's token is made of.
pub open spec fn is_token_char(c: char) -> bool {
    ('a' <= c && c <= 'z') || ('A' <= c && c <= 'Z') || is_digit(c) || c == '-' || c == '_'
}

/// A webhook's token: one or more token characters.
pub open spec fn is_token(s: Seq<char>) -> bool {
    s.len() > 0 && forall|i: int| 0 <= i < s.len() ==> is_token_char(#[trigger] s[i])
}

/// A host that the platform serves webhooks from.
pub open spec fn is_webhook_host(host: Seq<char>) -> bool {
    host == "discord.com"@ || host == "discordapp.com"@ || host == "canary.discord.com"@ || host
        == "ptb.discord.com"@
}

/// What follows the scheme of an `http` or `https` address.
pub open spec fn without_scheme(s: Seq<char>) -> Option<Seq<char>> {
    if "https://"@.is_prefix_of(s) {
        Some(s.skip("https://"@.len() as int))
    } else if "http://"@.is_prefix_of(s) {
        Some(s.skip("http://"@.len() as int))
    } else {
        None
    }
}

/// The number and the token in the path of a webhook: the path is
/// `/api/webhooks/`, the webhook's number, a slash, and the webhook's token.
/// The number is written in decimal digits and fits in 64 bits.
pub open spec fn webhook_path_parts(path: Seq<char>) -> Option<(u64, Seq<char>)> {
    let lead = "/api/webhooks/"@;
    let tail = path.skip(lead.len() as int);
    let id = tail.take(find(tail, '/') as int);
    let token = tail.skip(id.len() as int + 1);
    if lead.is_prefix_of(path) && id.len() > 0 && all_digits(id) && digits_value(id) <= u64::MAX
        && id.len() < tail.len() && is_token(token) {
        Some((digits_value(id) as u64, token))
    } else {
        None
    }
}

/// The number and the token of the webhook that an address names, where the
/// address has the shape of a webhook of the platform: `http` or `https`, one
/// of the platform's hosts, and a webhook's path.
pub open spec fn webhook_parts_of(s: Seq<char>) -> Option<(u64, Seq<char>)> {
    match without_scheme(s) {
        Some(rest) => {
            let host = rest.take(find(rest, '/') as int);
            if is_webhook_host(host) {
                webhook_path_parts(rest.skip(host.len() as int))
            } else {
                None
            }
        },
        None => None,
    }
}

/// An address that has the shape of a webhook of the platform.
pub open spec fn is_webhook_url(s: Seq<char>) -> bool {
    webhook_parts_of(s) is Some
}

fn find_char(chars: &[char], c: char) -> (at: usize)
    ensures
        at == find(chars@, c),
        at <= chars.len(),
{
    let mut at: usize = 0;
    assert(chars@.skip(0) == chars@);
    while at < chars.len() && chars[at] != c
        invariant
            at <= chars.len(),
            find(chars@, c) == at + find(chars@.skip(at as int), c),
        decreases chars.len() - at,
    {
        assert(chars@.skip(at as int).drop_first() == chars@.skip(at as int + 1));
        at = at + 1;
    }
    at
}

fn all_digit_chars(chars: &[char]) -> (yes: bool)
    ensures
        yes == all_digits(chars@),
{
    let mut i: usize = 0;
    while i < chars.len()
        invariant
            i <= chars.len(),
            forall|j: int| 0 <= j < i ==> is_digit(#[trigger] chars@[j]),
        decreases chars.len() - i,
    {
        let c: char = chars[i];
        if !(c >= '0' && c <= '9') {
            return false;
        }
        i = i + 1;
    }
    true
}

fn token_chars(chars: &[char]) -> (yes: bool)
    ensures
        yes == is_token(chars@),
{
    if chars.len() == 0 {
        return false;
    }
    let mut i: usize = 0;
    while i < chars.len()
        invariant
            i <= chars.len(),
            forall|j: int| 0 <= j < i ==> is_token_char(#[trigger] chars@[j]),
        decreases chars.len() - i,
    {
        let c: char = chars[i];
        let fits: bool = (c >= 'a' && c <= 'z') || (c >= 'A' && c <= 'Z') || (c >= '0' && c
            <= '9') || c == '-' || c == '_';
        if !fits {
            return false;
        }
        i = i + 1;
    }
    true
}

fn webhook_host(host: &[char]) -> (yes: bool)
    ensures
        yes == is_webhook_host(host@),
{
    same_as_str(host, "discord.com") || same_as_str(host, "discordapp.com") || same_as_str(
        host,
        "canary.discord.com",
    ) || same_as_str(host, "ptb.discord.com")
}

fn webhook_path(path: &[char]) -> (parts: Option<(u64, &[char])>)
    ensures
        match parts {
            Some((id, token)) => webhook_path_parts(path@) == Some((id, token@)),
            None => webhook_path_parts(path@) is None,
        },
{
    let lead = chars_of("/api/webhooks/");
    if !has_prefix(path, lead.as_slice()) {
        return None;
    }
    let tail = vstd::slice::slice_subrange(path, lead.len(), path.len());
    let slash: usize = find_char(tail, '/');
    if slash == 0 || slash >= tail.len() {
        return None;
    }
    let digits = vstd::slice::slice_subrange(tail, 0, slash);
    let token = vstd::slice::slice_subrange(tail, slash + 1, tail.len());
    if !all_digit_chars(digits) || !token_chars(token) {
        return None;
    }
    assert(digits@[0] != '+');
    match parse_unsigned(digits) {
        Some(id) => Some((id, token)),
        None => None,
    }
}

fn after_scheme(chars: &[char]) -> (rest: Option<&[char]>)
    ensures
        match rest {
            Some(rest) => without_scheme(chars@) == Some(rest@),
            None => without_scheme(chars@) is None,
        },
{
    let secure = chars_of("https://");
    let plain = chars_of("http://");
    if has_prefix(chars, secure.as_slice()) {
        Some(vstd::slice::slice_subrange(chars, secure.len(), chars.len()))
    } else if has_prefix(chars, plain.as_slice()) {
        Some(vstd::slice::slice_subrange(chars, plain.len(), chars.len()))
    } else {
        None
    }
}

/// Reads the number and the token of a webhook out of its address.
fn webhook_of(chars: &[char]) -> (parts: Option<(u64, &[char])>)
    ensures
        match parts {
            Some((id, token)) => webhook_parts_of(chars@) == Some((id, token@)),
            None => webhook_parts_of(chars@) is None,
        },
{
    match after_scheme(chars) {
        Some(rest) => {
            let slash: usize = find_char(rest, '/');
            let host = vstd::slice::slice_subrange(rest, 0, slash);
            let path = vstd::slice::slice_subrange(rest, slash, rest.len());
            if webhook_host(host) {
                webhook_path(path)
            } else {
                None
            }
        },
        None => None,
    }
}

/// Whether the characters have the shape of a webhook address.
pub fn webhook_shaped(chars: &[char]) -> (yes: bool)
    ensures
        yes == is_webhook_url(chars@),
{
    webhook_of(chars).is_some()
}

/// Whether `url` can serve as an impersonation endpoint.
pub fn is_valid_endpoint(url: &str) -> (yes: bool)
    ensures
        yes == is_webhook_url(url@),
{
    let chars = chars_of(url);
    webhook_shaped(chars.as_slice())
}

/// A webhook by its number and its token.
#[derive(Clone, Debug, PartialEq, Eq)]
pub struct Webhook {
    pub id: u64,
    pub token: String,
}

/// The webhook that an endpoint names, where the address has the shape of one.
pub fn webhook_parts(url: &str) -> (webhook: Option<Webhook>)
    ensures
        match webhook {
            Some(w) => webhook_parts_of(url@) == Some((w.id, w.token@)),
            None => webhook_parts_of(url@) is None,
        },
{
    let chars = chars_of(url);
    match webhook_of(chars.as_slice()) {
        Some((id, token)) => Some(Webhook { id, token: string_of(token) }),
        None => None,
    }
}

proof fn lemma_find(s: Seq<char>, c: char)
    ensures
        find(s, c) <= s.len(),
        find(s, c) < s.len() ==> s[find(s, c) as int] == c,
        forall|i: int| 0 <= i < find(s, c) ==> s[i] != c,
    decreases s.len(),
{
    if s.len() > 0 && s[0] != c {
        let rest = s.drop_first();
        lemma_find(rest, c);
        assert forall|i: int| 0 <= i < find(s, c) implies s[i] != c by {
            if i > 0 {
                assert(s[i] == rest[i - 1]);
            }
        }
    }
}

/// The address of a webhook holds one colon, that of its scheme, with the
/// two slashes after it; it begins with the letter `h`.
pub proof fn lemma_webhook_url_colons(s: Seq<char>)
    requires
        is_webhook_url(s),
    ensures
        s.len() > 7,
        s[0] == 'h',
        forall|i: int|
            0 <= i < s.len() && #[trigger] s[i] == ':' ==> i + 2 < s.len() && s[i + 1] == '/'
                && s[i + 2] == '/',
{
    reveal_strlit("https://");
    reveal_strlit("http://");
    reveal_strlit("discord.com");
    reveal_strlit("discordapp.com");
    reveal_strlit("canary.discord.com");
    reveal_strlit("ptb.discord.com");
    reveal_strlit("/api/webhooks/");
    let scheme = if "https://"@.is_prefix_of(s) {
        "https://"@
    } else {
        "http://"@
    };
    let rest = without_scheme(s).unwrap();
    assert(rest == s.skip(scheme.len() as int));
    assert(s.subrange(0, scheme.len() as int) == scheme);
    let host = rest.take(find(rest, '/') as int);
    lemma_find(rest, '/');
    let path = rest.skip(host.len() as int);
    let lead = "/api/webhooks/"@;
    assert(path.subrange(0, lead.len() as int) == lead);
    let tail = path.skip(lead.len() as int);
    lemma_find(tail, '/');
    let id = tail.take(find(tail, '/') as int);
    let token = tail.skip(id.len() as int + 1);
    assert forall|i: int| 0 <= i < s.len() && #[trigger] s[i] == ':' implies i + 2 < s.len()
        && s[i + 1] == '/' && s[i + 2] == '/' by {
        let a = scheme.len() as int;
        let b = a + host.len();
        let c = b + lead.len();
        let d = c + id.len();
        if i < a {
            assert(s[i] == s.subrange(0, a)[i]);
            assert(s[i + 1] == s.subrange(0, a)[i + 1]);
            assert(s[i + 2] == s.subrange(0, a)[i + 2]);
        } else if i < b {
            assert(s[i] == host[i - a]);
        } else if i < c {
            assert(s[i] == path[i - b]);
            assert(path[i - b] == path.subrange(0, lead.len() as int)[i - b]);
        } else if i < d {
            assert(s[i] == id[i - c]);
            assert(is_digit(id[i - c]));
        } else if i == d {
            assert(s[i] == tail[id.len() as int]);
        } else {
            assert(s[i] == token[i - d - 1]);
            assert(is_token_char(token[i - d - 1]));
        }
    }
    assert(s[0] == s.subrange(0, scheme.len() as int)[0]);
}

} // verus!
