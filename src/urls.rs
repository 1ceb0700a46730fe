//! URLs: whether text parses as one, its host, the blocklist of source
//! domains, and the normalisation of extracted links.
use vstd::prelude::*;
use crate::text::{chars_of, ends_with, has_prefix, has_suffix, starts_with, strings_view};

verus! {

broadcast use vstd::string::group_string_axioms;

/// Whether `s` parses as an absolute URL.
pub uninterp spec fn url_parses(s: Seq<char>) -> bool;

/// The host of the URL `s`, where it parses and has one.
pub uninterp spec fn url_host(s: Seq<char>) -> Option<Seq<char>>;

/// The text of `rel` resolved against the URL `base`, where both succeed.
pub uninterp spec fn url_joined(base: Seq<char>, rel: Seq<char>) -> Option<Seq<char>>;

/// Relies on `url::Url::parse`: whether the text parses as an absolute URL.
#[verifier::external_body]
fn parses_as_url(s: &str) -> (r: bool)
    ensures
        r == url_parses(s@),
{
    url::Url::parse(s).is_ok()
}

/// Relies on `url::Url::parse` and `Url::host_str`: the host of the parsed URL.
#[verifier::external_body]
fn host_of(s: &str) -> (r: Option<String>)
    ensures
        r.deep_view() == url_host(s@),
{
    match url::Url::parse(s) {
        Ok(u) => u.host_str().map(|h| h.to_string()),
        Err(_) => None,
    }
}

/// Relies on `url::Url::parse` of the base and `Url::join`: the resolved URL as text.
#[verifier::external_body]
fn join_url(base: &str, rel: &str) -> (r: Option<String>)
    ensures
        r.deep_view() == url_joined(base@, rel@),
{
    match url::Url::parse(base) {
        Ok(b) => b.join(rel).ok().map(|u| u.to_string()),
        Err(_) => None,
    }
}

/// Whether `url` parses as an absolute URL.
pub fn validate_url(url: &str) -> (r: bool)
    ensures
        r == url_parses(url@),
{
    parses_as_url(url)
}

/// Why a link could not be normalised.
#[derive(Clone, Copy, Debug, PartialEq, Eq, Structural)]
pub enum UrlError {
    /// A root-relative path came without a page to resolve it against.
    RelativeWithoutBase,
    /// The page URL did not parse, or the path did not resolve against it.
    CannotJoin,
}

/// A link made absolute: an absolute URL (one that parses, whatever its
/// scheme) stays as it is, as do `http://` and `https://` links; a
/// scheme-relative `//host/...` link gains `https:`, a root-relative `/path`
/// resolves against the page `base` (an error without one), and any other
/// text is taken as a bare host and gains `https://`.
pub open spec fn normalized(u: Seq<char>, base: Option<Seq<char>>) -> Result<Seq<char>, UrlError> {
    if starts_with(u, "http://"@) || starts_with(u, "https://"@) || url_parses(u) {
        Ok(u)
    } else if starts_with(u, "//"@) {
        Ok("https:"@ + u)
    } else if starts_with(u, "/"@) {
        match base {
            Some(b) => match url_joined(b, u) {
                Some(j) => Ok(j),
                None => Err(UrlError::CannotJoin),
            },
            None => Err(UrlError::RelativeWithoutBase),
        }
    } else {
        Ok("https://"@ + u)
    }
}

/// Makes a link absolute, as `normalized` describes.
pub fn normalize_url(url: &str, base_url: Option<&str>) -> (r: Result<String, UrlError>)
    ensures
        match r {
            Ok(s) => normalized(url@, base_url.deep_view()) == Ok::<Seq<char>, UrlError>(s@),
            Err(e) => normalized(url@, base_url.deep_view()) == Err::<Seq<char>, UrlError>(e),
        },
{
    let u = chars_of(url);
    if has_prefix(&u, &chars_of("http://")) || has_prefix(&u, &chars_of("https://"))
        || parses_as_url(url) {
        return Ok(String::from_str(url));
    }
    if has_prefix(&u, &chars_of("//")) {
        return Ok(String::from_str("https:").concat(url));
    }
    if has_prefix(&u, &chars_of("/")) {
        return match base_url {
            Some(b) => match join_url(b, url) {
                Some(j) => Ok(j),
                None => Err(UrlError::CannotJoin),
            },
            None => Err(UrlError::RelativeWithoutBase),
        };
    }
    Ok(String::from_str("https://").concat(url))
}

/// Whether `host` is one of the blocked domains or a subdomain of one: equal
/// to it, or ending in `.` followed by it.
pub open spec fn host_blocked(host: Seq<char>, blocklist: Seq<Seq<char>>) -> bool {
    exists|i: int|
        0 <= i < blocklist.len() && (host == #[trigger] blocklist[i] || ends_with(
            host,
            seq!['.'] + blocklist[i],
        ))
}

/// Whether `host` is blocked by `blocklist`.
pub fn is_blocked_host(host: &str, blocklist: &Vec<String>) -> (r: bool)
    ensures
        r == host_blocked(host@, strings_view(blocklist@)),
{
    let h = chars_of(host);
    let ghost bl = strings_view(blocklist@);
    let mut i: usize = 0;
    while i < blocklist.len()
        invariant
            i <= blocklist.len(),
            bl == strings_view(blocklist@),
            h@ == host@,
            forall|j: int|
                0 <= j < i ==> !(host@ == #[trigger] bl[j] || ends_with(
                    host@,
                    seq!['.'] + bl[j],
                )),
        decreases blocklist.len() - i,
    {
        let b = chars_of(blocklist[i].as_str());
        let mut dotted: Vec<char> = Vec::new();
        dotted.push('.');
        let dotted = crate::text::concat_chars(&dotted, &b);
        proof {
            assert(bl[i as int] == blocklist@[i as int]@);
            assert(dotted@ =~= seq!['.'] + bl[i as int]);
        }
        if crate::text::same_chars(&h, &b) || has_suffix(&h, &dotted) {
            return true;
        }
        i = i + 1;
    }
    false
}

/// Whether the host of `url` is blocked; a URL that does not parse, or has
/// no host, is not.
pub fn is_blocked_url(url: &str, blocklist: &Vec<String>) -> (r: bool)
    ensures
        r == match url_host(url@) {
            Some(h) => host_blocked(h, strings_view(blocklist@)),
            None => false,
        },
{
    match host_of(url) {
        Some(h) => is_blocked_host(h.as_str(), blocklist),
        None => false,
    }
}

} // verus!
