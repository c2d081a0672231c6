//! Addresses of the web, and the answers of other services.
use vstd::prelude::*;

use crate::search::{first_chars, take_chars};
use crate::text::{
    byte_len, chars_of, concat, concat4, same, string_range, text_option, utf8_len,
};

verus! {

/// What a page of the site may load, and from where.
pub const CONTENT_SECURITY_POLICY: &'static str =
    "default-src 'self'; script-src 'self'; style-src 'self' 'unsafe-inline'; img-src 'self' data: https://avatars.githubusercontent.com https://github.com; connect-src 'self'; font-src 'self' data:; frame-ancestors 'none'; base-uri 'self'; form-action 'self' https://github.com";

/// The normal form of an absolute address; nothing for a text that is none.
pub uninterp spec fn url_normal(text: Seq<char>) -> Option<Seq<char>>;

/// The address that a reference names, read against a base address; nothing
/// where one of the two cannot be read.
pub uninterp spec fn url_joined(base: Seq<char>, reference: Seq<char>) -> Option<Seq<char>>;

/// The scheme of an absolute address.
pub uninterp spec fn url_scheme(text: Seq<char>) -> Option<Seq<char>>;

/// The host of an absolute address; nothing where it has none.
pub uninterp spec fn url_host(text: Seq<char>) -> Option<Seq<char>>;

/// The origin of an absolute address: its scheme, host and port.
pub uninterp spec fn url_origin(text: Seq<char>) -> Option<Seq<char>>;

/// The address with the path of a base address replaced and one more pair in
/// its query.
pub uninterp spec fn url_with_query(
    base: Seq<char>,
    path: Seq<char>,
    key: Seq<char>,
    value: Seq<char>,
) -> Option<Seq<char>>;

/// `url::Url::parse` and `as_str`. The result is named.
#[verifier::external_body]
pub(crate) fn normal_url(text: &str) -> (r: Option<String>)
    ensures
        text_option(r) == url_normal(text@),
{
    url::Url::parse(text).ok().map(|url| url.as_str().to_owned())
}

/// `url::Url::join` on a parsed base. The result is named.
#[verifier::external_body]
pub(crate) fn join_url(base: &str, reference: &str) -> (r: Option<String>)
    ensures
        text_option(r) == url_joined(base@, reference@),
{
    url::Url::parse(base)
        .and_then(|url| url.join(reference))
        .ok()
        .map(|url| url.as_str().to_owned())
}

/// `url::Url::scheme` of a parsed address. The result is named.
#[verifier::external_body]
pub(crate) fn scheme_of(text: &str) -> (r: Option<String>)
    ensures
        text_option(r) == url_scheme(text@),
{
    url::Url::parse(text).ok().map(|url| url.scheme().to_owned())
}

/// `url::Url::host_str` of a parsed address. The result is named.
#[verifier::external_body]
pub(crate) fn host_of(text: &str) -> (r: Option<String>)
    ensures
        text_option(r) == url_host(text@),
{
    url::Url::parse(text).ok().and_then(|url| url.host_str().map(|host| host.to_owned()))
}

/// The longest address with another one in it (`blob:`) whose origin is looked for.
pub const MAX_ORIGIN_BYTES: usize = 2_048;

/// The origin of an address can be looked for: it has no other address in it, or it
/// is not too long.
pub open spec fn has_shallow_origin(text: Seq<char>) -> bool {
    url_scheme(text) != Some("blob"@) || utf8_len(text) <= MAX_ORIGIN_BYTES
}

/// `url::Url::origin` and its `ascii_serialization`, of a parsed address. The
/// result is named. The origin of an address inside another one (`blob:`) is found
/// one call deeper: so such an address is bounded.
#[verifier::external_body]
fn origin_of(text: &str) -> (r: Option<String>)
    requires
        has_shallow_origin(text@),
    ensures
        text_option(r) == url_origin(text@),
{
    url::Url::parse(text).ok().map(|url| url.origin().ascii_serialization())
}

/// With what is added to it, an address stays below 2^32 bytes: a byte of what is
/// added takes at most three, and what joins them at most sixteen.
pub open spec fn addable(
    base: Seq<char>,
    path: Seq<char>,
    key: Seq<char>,
    value: Seq<char>,
) -> bool {
    match url_normal(base) {
        Some(normal) => utf8_len(normal) + 3 * (utf8_len(path) + utf8_len(key) + utf8_len(value))
            + 16 <= u32::MAX,
        None => true,
    }
}

/// `url::Url::set_path` and `query_pairs_mut().append_pair` on a parsed
/// address. The result is named. Both keep positions in the address in numbers of 32
/// bits: so it must stay below that.
#[verifier::external_body]
fn add_query(base: &str, path: &str, key: &str, value: &str) -> (r: Option<String>)
    requires
        addable(base@, path@, key@, value@),
    ensures
        text_option(r) == url_with_query(base@, path@, key@, value@),
{
    url::Url::parse(base).ok().map(|mut url| {
        url.set_path(path);
        url.query_pairs_mut().append_pair(key, value);
        url.as_str().to_owned()
    })
}

/// An address with its path replaced and one more pair in its query; nothing for
/// one that cannot be read or would be too long.
pub open spec fn extended_url(
    base: Seq<char>,
    path: Seq<char>,
    key: Seq<char>,
    value: Seq<char>,
) -> Option<Seq<char>> {
    if addable(base, path, key, value) {
        url_with_query(base, path, key, value)
    } else {
        None
    }
}

/// Replaces the path of an address and puts one more pair into its query.
pub fn extend_url(base: &str, path: &str, key: &str, value: &str) -> (r: Option<String>)
    ensures
        text_option(r) == extended_url(base@, path@, key@, value@),
{
    let length: usize = match normal_url(base) {
        Some(normal) => byte_len(normal.as_str()),
        None => {
            return add_query(base, path, key, value);
        },
    };
    let added: u128 = byte_len(path) as u128 + byte_len(key) as u128 + byte_len(value) as u128;
    if length as u128 + 3 * added + 16 <= u32::MAX as u128 {
        add_query(base, path, key, value)
    } else {
        None
    }
}

/// The origin of the site at a base address; nothing for an address that cannot be
/// read, or that is too long and has another one in it.
pub open spec fn origin_of_site(base_url: Seq<char>) -> Option<Seq<char>> {
    if has_shallow_origin(base_url) {
        url_origin(base_url)
    } else {
        None
    }
}

/// The origin of the site: the one that its own pages name.
pub fn site_origin(base_url: &str) -> (r: Option<String>)
    ensures
        text_option(r) == origin_of_site(base_url@),
{
    let nested: bool = match scheme_of(base_url) {
        Some(scheme) => same(scheme.as_str(), "blob"),
        None => false,
    };
    if !nested || byte_len(base_url) <= MAX_ORIGIN_BYTES {
        origin_of(base_url)
    } else {
        None
    }
}

/// A path without the slashes that it begins with.
pub open spec fn without_slashes(path: Seq<char>) -> Seq<char>
    decreases path.len(),
{
    if path.len() > 0 && path[0] == '/' {
        without_slashes(path.skip(1))
    } else {
        path
    }
}

/// The address of a path at a service, below the service's own address.
pub fn service_location(base_url: &str, path: &str) -> (r: Option<String>)
    ensures
        text_option(r) == url_joined(base_url@, without_slashes(path@)),
{
    let chars: Vec<char> = chars_of(path);
    let mut i: usize = 0;
    proof {
        assert(path@.skip(0) =~= path@);
    }
    while i < chars.len() && chars[i] == '/'
        invariant
            i <= chars@.len(),
            chars@ == path@,
            without_slashes(path@) == without_slashes(path@.skip(i as int)),
        decreases chars@.len() - i,
    {
        proof {
            assert(path@.skip(i as int)[0] == '/');
            assert(path@.skip(i as int).skip(1) =~= path@.skip(i + 1));
        }
        i += 1;
    }
    let rest: String = string_range(chars.as_slice(), i, chars.len());
    proof {
        let left = path@.skip(i as int);
        assert(rest@ =~= left);
        if left.len() > 0 {
            assert(left[0] == path@[i as int]);
        }
    }
    join_url(base_url, rest.as_str())
}

// ---------------------------------------------------------------------------
// Answers of other services

/// A status that says that a request succeeded.
pub open spec fn success(status: u16) -> bool {
    200 <= status <= 299
}

/// Whether a status says that a request succeeded.
pub fn is_success(status: u16) -> (r: bool)
    ensures
        r == success(status),
{
    200 <= status && status <= 299
}

/// The message for a refused request: what was tried, the status, and the first
/// characters of the answer.
pub open spec fn refusal(
    what: Seq<char>,
    status_text: Seq<char>,
    details: Seq<char>,
    limit: nat,
) -> Seq<char> {
    what + " ("@ + status_text + "): "@ + first_chars(details, limit)
}

/// The message for a refused request.
pub fn refusal_message(what: &str, status_text: &str, details: &str, limit: usize) -> (r: String)
    ensures
        r@ == refusal(what@, status_text@, details@, limit as nat),
{
    let head: String = concat4(what, " (", status_text, "): ");
    concat(head.as_str(), take_chars(details, limit).as_str())
}

/// The outcome of a request to delete something: what is gone already counts as
/// deleted.
pub open spec fn deletion_accepted(status: u16) -> bool {
    success(status) || status == 404
}

/// The outcome of a request to delete something.
pub fn deletion_outcome(what: &str, status: u16, status_text: &str, details: &str) -> (r: Result<
    (),
    String,
>)
    ensures
        match r {
            Ok(_) => deletion_accepted(status),
            Err(message) => !deletion_accepted(status) && message@ == refusal(
                what@,
                status_text@,
                details@,
                500,
            ),
        },
{
    if is_success(status) || status == 404 {
        Ok(())
    } else {
        Err(refusal_message(what, status_text, details, 500))
    }
}

/// The outcome of a request that must succeed.
pub fn request_outcome(what: &str, status: u16, status_text: &str, details: &str) -> (r: Result<
    (),
    String,
>)
    ensures
        match r {
            Ok(_) => success(status),
            Err(message) => !success(status) && message@ == refusal(
                what@,
                status_text@,
                details@,
                500,
            ),
        },
{
    if is_success(status) {
        Ok(())
    } else {
        Err(refusal_message(what, status_text, details, 500))
    }
}

}
