//! Who is signed in: sessions, their cookies, and where requests may come from.
use vstd::prelude::*;

use crate::config::str_option;
use crate::crypto::{base64_url, encodable, encode_url, url_alphabet, Vault};
use crate::error::{fails_as, ApiError, ErrorView};
use crate::numbers::{saturated, sum_saturated};
use crate::search::{
    blank, first_position, lemma_first_position, lemma_single_piece, lemma_trimmed_same, pieces,
    pieces_of, split_once, trim, trimmed, trimmed_texts_have_no_space_at_their_ends,
};
use crate::text::{alphanumeric, concat, concat3, concat4, same, text_option, texts, whitespace};
use crate::web::{origin_of_site, scheme_of, site_origin, url_scheme};

verus! {

/// The name of the cookie of a session.
pub const SESSION_COOKIE: &'static str = "gridops_session";

/// How long a session lasts, in milliseconds: thirty days.
pub const SESSION_TTL_MILLIS: i64 = 2_592_000_000;

/// A person who is signed in.
#[derive(Debug)]
pub struct AuthUser {
    pub id: String,
    pub login: String,
    pub github_id: i64,
    pub role: String,
}

/// A person who may be signed in.
#[derive(Debug)]
pub struct OptionalAuth(pub Option<AuthUser>);

/// A request that comes from the system's own pages, or from no page at all.
#[derive(Debug)]
pub struct SameOrigin;

// ---------------------------------------------------------------------------
// Cookies

/// The value of a cookie in a piece of a cookie header, where the piece is that
/// cookie.
pub open spec fn piece_value(piece: Seq<char>, name: Seq<char>) -> Option<Seq<char>> {
    let part = trimmed(piece);
    let i = first_position(part, '=');
    if part.contains('=') && part.take(i) == name {
        Some(part.skip(i + 1))
    } else {
        None
    }
}

/// The value of a cookie in the pieces of a cookie header: the first one of that
/// name.
pub open spec fn first_value(list: Seq<Seq<char>>, name: Seq<char>, from: int) -> Option<Seq<char>>
    decreases list.len() - from,
{
    if from >= list.len() {
        None
    } else if piece_value(list[from], name) is Some {
        piece_value(list[from], name)
    } else {
        first_value(list, name, from + 1)
    }
}

/// The value of a cookie in a cookie header.
pub open spec fn cookie_value(header: Option<Seq<char>>, name: Seq<char>) -> Option<Seq<char>> {
    match header {
        Some(text) => first_value(pieces_of(text, ';'), name, 0),
        None => None,
    }
}

fn value_in_piece(piece: &str, name: &str) -> (r: Option<String>)
    ensures
        text_option(r) == piece_value(piece@, name@),
{
    let part: String = trim(piece);
    match split_once(part.as_str(), '=') {
        None => None,
        Some(parts) => {
            proof {
                let i = parts.0@.len() as int;
                assert(part@[i] == '=');
                assert forall|k: int| 0 <= k < i implies part@[k] != '=' by {
                    assert(parts.0@.contains(parts.0@[k]));
                }
                lemma_first_position(part@, '=', i);
                assert(part@.take(i) =~= parts.0@);
                assert(part@.skip(i + 1) =~= parts.1@);
            }
            if same(parts.0.as_str(), name) {
                Some(parts.1)
            } else {
                None
            }
        },
    }
}

/// The value of a cookie in a cookie header.
pub fn cookie(header: Option<&str>, name: &str) -> (r: Option<String>)
    ensures
        text_option(r) == cookie_value(str_option(header), name@),
{
    let text: &str = match header {
        Some(text) => text,
        None => {
            return None;
        },
    };
    let list: Vec<String> = pieces(text, ';');
    let ghost all = pieces_of(text@, ';');
    let mut i: usize = 0;
    proof {
        assert(texts(list@).len() == list@.len());
    }
    while i < list.len()
        invariant
            i <= list@.len(),
            all == texts(list@),
            header is Some,
            all == pieces_of(header->0@, ';'),
            first_value(all, name@, i as int) == first_value(all, name@, 0),
        decreases list@.len() - i,
    {
        proof {
            assert(all[i as int] == list@[i as int]@);
        }
        if let Some(value) = value_in_piece(list[i].as_str(), name) {
            return Some(value);
        }
        i += 1;
    }
    None
}

// ---------------------------------------------------------------------------
// Sessions

/// The token of a session in a cookie's value: what stands in front of the first
/// full stop, where what stands behind it is its signature.
pub open spec fn signed_token(vault: &Vault, value: Seq<char>) -> Option<Seq<char>> {
    let i = first_position(value, '.');
    if value.contains('.') && value.skip(i + 1) == vault.signature(value.take(i)) {
        Some(value.take(i))
    } else {
        None
    }
}

/// The token of the session that a cookie header carries.
pub open spec fn authenticated_token(vault: &Vault, header: Option<Seq<char>>) -> Option<Seq<char>> {
    match cookie_value(header, SESSION_COOKIE@) {
        Some(value) => signed_token(vault, value),
        None => None,
    }
}

/// The token of the session that a cookie header carries. A token without the
/// right signature counts as none.
pub fn session_token(vault: &Vault, header: Option<&str>) -> (r: Option<String>)
    ensures
        text_option(r) == authenticated_token(vault, str_option(header)),
{
    let value: String = match cookie(header, SESSION_COOKIE) {
        Some(value) => value,
        None => {
            return None;
        },
    };
    match split_once(value.as_str(), '.') {
        None => None,
        Some(parts) => {
            proof {
                let i = parts.0@.len() as int;
                assert(value@[i] == '.');
                assert forall|k: int| 0 <= k < i implies value@[k] != '.' by {
                    assert(parts.0@.contains(parts.0@[k]));
                }
                lemma_first_position(value@, '.', i);
                assert(value@.take(i) =~= parts.0@);
                assert(value@.skip(i + 1) =~= parts.1@);
            }
            if vault.verify(parts.0.as_str(), parts.1.as_str()) {
                Some(parts.0)
            } else {
                None
            }
        },
    }
}

/// The token that a sign-out ends, signed or not: what stands in front of the
/// first full stop of the session cookie.
pub fn logout_token(header: Option<&str>) -> (r: Option<String>)
    ensures
        text_option(r) == match cookie_value(str_option(header), SESSION_COOKIE@) {
            Some(value) => if value.contains('.') {
                Some(value.take(first_position(value, '.')))
            } else {
                None
            },
            None => None,
        },
{
    let value: String = match cookie(header, SESSION_COOKIE) {
        Some(value) => value,
        None => {
            return None;
        },
    };
    match split_once(value.as_str(), '.') {
        None => None,
        Some(parts) => {
            proof {
                let i = parts.0@.len() as int;
                assert(value@[i] == '.');
                assert forall|k: int| 0 <= k < i implies value@[k] != '.' by {
                    assert(parts.0@.contains(parts.0@[k]));
                }
                lemma_first_position(value@, '.', i);
                assert(value@.take(i) =~= parts.0@);
            }
            Some(parts.0)
        },
    }
}

/// What is known of a session that is kept.
#[derive(Debug)]
pub struct StoredSession {
    pub session_id: String,
    pub user: AuthUser,
    pub expires_at: i64,
}

/// A session can be used at an instant.
pub open spec fn session_holds(expires_at: i64, now: i64) -> bool {
    expires_at > now
}

/// The person of a session, where there is one and it has not expired.
pub fn accept_session(session: Option<StoredSession>, now: i64) -> (r: Result<
    StoredSession,
    ApiError,
>)
    ensures
        match r {
            Ok(accepted) => session == Some(accepted) && session_holds(accepted.expires_at, now),
            Err(error) => error@ == ErrorView::Unauthorized && (session is None || !session_holds(
                session->0.expires_at,
                now,
            )),
        },
{
    match session {
        None => Err(ApiError::Unauthorized),
        Some(found) => if found.expires_at <= now {
            Err(ApiError::Unauthorized)
        } else {
            Ok(found)
        },
    }
}

/// A person who may be signed in: that nobody is, is no error.
pub fn optional_auth(result: Result<AuthUser, ApiError>) -> (r: Result<OptionalAuth, ApiError>)
    ensures
        match result {
            Ok(user) => r == Ok::<OptionalAuth, ApiError>(OptionalAuth(Some(user))),
            Err(error) => if error@ == ErrorView::Unauthorized {
                r == Ok::<OptionalAuth, ApiError>(OptionalAuth(None))
            } else {
                r == Err::<OptionalAuth, ApiError>(error)
            },
        },
{
    match result {
        Ok(user) => Ok(OptionalAuth(Some(user))),
        Err(ApiError::Unauthorized) => Ok(OptionalAuth(None)),
        Err(error) => Err(error),
    }
}

/// When a session that begins now ends.
pub open spec fn session_end(now: i64) -> int {
    saturated(now + SESSION_TTL_MILLIS)
}

/// When a session that begins now ends.
pub fn session_expiry(now: i64) -> (r: i64)
    ensures
        r == session_end(now),
{
    sum_saturated(now, SESSION_TTL_MILLIS)
}

/// The part of a cookie that only pages with encryption add.
pub open spec fn secure_suffix(secure: bool) -> Seq<char> {
    if secure {
        " Secure;"@
    } else {
        ""@
    }
}

/// The cookie that begins a session, as the browser sends it back.
pub open spec fn session_pair(vault: &Vault, token: Seq<char>) -> Seq<char> {
    SESSION_COOKIE@ + "="@ + (token + "."@ + vault.signature(token))
}

proof fn lemma_session_pair(vault: &Vault, token: Seq<char>)
    requires
        url_alphabet(token),
        url_alphabet(vault.signature(token)),
    ensures
        authenticated_token(vault, Some(session_pair(vault, token))) == Some(token),
{
    let pair = session_pair(vault, token);
    let name = SESSION_COOKIE@;
    let signature = vault.signature(token);
    let value = token + "."@ + signature;
    reveal_strlit("gridops_session");
    reveal_strlit("=");
    reveal_strlit(".");
    assert(name.len() == 15);
    assert("="@ =~= seq!['=']);
    assert("."@ =~= seq!['.']);
    assert forall|k: int| 0 <= k < pair.len() implies pair[k] != ';' && (pair[k] == '=' || pair[k]
        == '.' || pair[k] == '-' || pair[k] == '_' || alphanumeric(pair[k])) by {
        if k < 15 {
            assert(pair[k] == name[k]);
        } else if k == 15 {
            assert(pair[k] == '=');
        } else if k < 16 + token.len() {
            assert(pair[k] == token[k - 16]);
        } else if k == 16 + token.len() {
            assert(pair[k] == '.');
        } else {
            assert(pair[k] == signature[k - 17 - token.len()]);
        }
    }
    lemma_single_piece(pair, ';');
    lemma_trimmed_same(pair);
    assert(pair[15] == '=');
    assert forall|k: int| 0 <= k < 15 implies pair[k] != '=' by {
        assert(pair[k] == name[k]);
    }
    lemma_first_position(pair, '=', 15);
    assert(pair.take(15) =~= name);
    assert(pair.skip(16) =~= value);
    let list = pieces_of(pair, ';');
    assert(list[0] == pair);
    assert(piece_value(pair, name) == Some(value));
    assert(first_value(list, name, 0) == Some(value));
    let i = token.len() as int;
    assert(value[i] == '.');
    assert forall|k: int| 0 <= k < i implies value[k] != '.' by {
        assert(value[k] == token[k]);
    }
    lemma_first_position(value, '.', i);
    assert(value.take(i) =~= token);
    assert(value.skip(i + 1) =~= signature);
}

/// The cookie that begins a session. What the browser sends back of it carries
/// the token again.
pub fn session_cookie(vault: &Vault, token: &str, secure: bool) -> (r: String)
    requires
        url_alphabet(token@),
    ensures
        r@ == session_pair(vault, token@) + "; Path=/; HttpOnly; SameSite=Lax; Max-Age="@
            + "2592000"@ + ";"@ + secure_suffix(secure),
        authenticated_token(vault, Some(session_pair(vault, token@))) == Some(token@),
{
    let signature: String = match vault.sign(token) {
        Ok(signature) => signature,
        Err(_) => String::new(),
    };
    proof {
        lemma_session_pair(vault, token@);
    }
    let signed: String = concat3(token, ".", signature.as_str());
    let pair: String = concat3(SESSION_COOKIE, "=", signed.as_str());
    let whole: String = concat4(
        pair.as_str(),
        "; Path=/; HttpOnly; SameSite=Lax; Max-Age=",
        "2592000",
        ";",
    );
    if secure {
        concat(whole.as_str(), " Secure;")
    } else {
        concat(whole.as_str(), "")
    }
}

/// The cookie that ends a session.
pub fn clear_cookie(secure: bool) -> (r: String)
    ensures
        r@ == SESSION_COOKIE@ + "=; Path=/; HttpOnly; SameSite=Lax; Max-Age=0;"@ + secure_suffix(
            secure,
        ),
{
    let whole: String = concat(
        SESSION_COOKIE,
        "=; Path=/; HttpOnly; SameSite=Lax; Max-Age=0;",
    );
    if secure {
        concat(whole.as_str(), " Secure;")
    } else {
        concat(whole.as_str(), "")
    }
}

/// Whether pages of an address come with encryption.
pub fn is_secure(base_url: &str) -> (r: bool)
    ensures
        r == (url_scheme(base_url@) == Some("https"@)),
{
    match scheme_of(base_url) {
        Some(scheme) => same(scheme.as_str(), "https"),
        None => false,
    }
}

// ---------------------------------------------------------------------------
// Tokens

/// `rand::RngExt::fill` of the thread's generator: as many random bytes as are
/// asked for. Of the bytes nothing is stated.
#[verifier::external_body]
fn random_bytes(count: usize) -> (r: Vec<u8>)
    requires
        count <= isize::MAX,
    ensures
        r@.len() == count,
{
    let mut value = vec![0_u8; count];
    rand::RngExt::fill(&mut rand::rng(), &mut value[..]);
    value
}

/// The token of random bytes.
pub fn token_of(bytes: &[u8]) -> (r: String)
    requires
        encodable(bytes@.len()),
    ensures
        r@ == base64_url(bytes@),
        url_alphabet(r@),
{
    encode_url(bytes)
}

/// A token of as many random bytes as are asked for.
pub fn random_token(bytes: usize) -> (r: String)
    requires
        encodable(bytes as nat),
    ensures
        url_alphabet(r@),
        exists|value: Seq<u8>| value.len() == bytes && r@ == #[trigger] base64_url(value),
{
    let value: Vec<u8> = random_bytes(bytes);
    token_of(value.as_slice())
}

// ---------------------------------------------------------------------------
// Boundaries

/// Refuses a request from a page of another origin. A request that names no
/// origin is not refused.
pub fn check_origin(origin: Option<&str>, expected: Option<&str>) -> (r: Result<(), ApiError>)
    ensures
        fails_as(
            r,
            if origin is Some && str_option(origin) != str_option(expected) {
                Some(ErrorView::Forbidden)
            } else {
                None
            },
        ),
{
    match origin {
        None => Ok(()),
        Some(origin) => {
            let allowed: bool = match expected {
                Some(expected) => same(origin, expected),
                None => false,
            };
            if allowed {
                Ok(())
            } else {
                Err(ApiError::Forbidden)
            }
        },
    }
}

/// Refuses a request from a page of another origin than the control plane's. Where
/// the control plane has no origin, every origin is another one.
pub fn assert_same_origin(base_url: &str, origin: Option<&str>) -> (r: Result<SameOrigin, ApiError>)
    ensures
        match r {
            Ok(_) => origin is None || str_option(origin) == origin_of_site(base_url@),
            Err(error) => error@ == ErrorView::Forbidden && origin is Some && str_option(origin)
                != origin_of_site(base_url@),
        },
{
    let expected: Option<String> = site_origin(base_url);
    let wanted: Option<&str> = match &expected {
        Some(text) => Some(text.as_str()),
        None => None,
    };
    match check_origin(origin, wanted) {
        Ok(_) => Ok(SameOrigin),
        Err(error) => Err(error),
    }
}

/// Refuses a person who does not administer the system.
pub fn require_system_admin(user: &AuthUser) -> (r: Result<(), ApiError>)
    ensures
        fails_as(
            r,
            if user.role@ == "admin"@ {
                None
            } else {
                Some(ErrorView::Forbidden)
            },
        ),
{
    if same(user.role.as_str(), "admin") {
        Ok(())
    } else {
        Err(ApiError::Forbidden)
    }
}

/// A person may manage something.
pub open spec fn manages(role: Seq<char>, installation_permission: Seq<char>) -> bool {
    role == "admin"@ || installation_permission == "admin"@
}

/// Whether a person may manage something: those who administer the system, and
/// those who administer the installation that it belongs to.
pub fn can_manage(role: &str, installation_permission: &str) -> (r: bool)
    ensures
        r == manages(role@, installation_permission@),
{
    same(role, "admin") || same(installation_permission, "admin")
}

// ---------------------------------------------------------------------------
// Who is let in

/// A session lasts thirty days, holds until its end and not from then on; those who
/// administer the system or the installation of a thing manage it, and nobody else does.
pub proof fn sessions_last_thirty_days(now: i64, later: i64, role: Seq<char>, permission: Seq<char>)
    requires
        0 <= now <= i64::MAX - 2_592_000_000,
    ensures
        session_end(now) - now == 30 * 24 * 3_600_000,
        session_holds(session_end(now) as i64, later) <==> later < now + 30 * 24 * 3_600_000,
        manages(role, permission) <==> role == "admin"@ || permission == "admin"@,
{
}

/// The value of a cookie is what stands behind its name and an equals sign, without the white
/// space around the two.
pub proof fn cookies_have_a_name_and_a_value(
    space: Seq<char>,
    name: Seq<char>,
    value: Seq<char>,
    other: Seq<char>,
)
    requires
        blank(space),
        name.len() > 0,
        !name.contains('='),
        !whitespace(name[0]),
        value.len() > 0 ==> !whitespace(value.last()),
        other != name,
    ensures
        piece_value(space + (name + "="@ + value), name) == Some(value),
        piece_value(space + (name + "="@ + value), other) is None,
{
    reveal_strlit("=");
    let part = name + "="@ + value;
    let piece = space + part;
    lemma_trimmed_behind(space, part);
    assert(part[name.len() as int] == '=');
    assert forall|k: int| 0 <= k < name.len() implies part[k] != '=' by {
        assert(name.contains(name[k]));
    }
    lemma_first_position(part, '=', name.len() as int);
    assert(part.take(name.len() as int) =~= name);
    assert(part.skip(name.len() as int + 1) =~= value);
}

proof fn lemma_trimmed_behind(space: Seq<char>, part: Seq<char>)
    requires
        blank(space),
        part.len() > 0,
        !whitespace(part[0]),
        !whitespace(part.last()),
    ensures
        trimmed(space + part) == part,
    decreases space.len(),
{
    let piece = space + part;
    if space.len() == 0 {
        assert(piece =~= part);
        trimmed_texts_have_no_space_at_their_ends(part);
    } else {
        assert(whitespace(space[0]));
        assert(piece[0] == space[0]);
        assert(piece.drop_first() =~= space.drop_first() + part);
        assert forall|i: int| 0 <= i < space.drop_first().len() implies whitespace(
            #[trigger] space.drop_first()[i],
        ) by {
            assert(space.drop_first()[i] == space[i + 1]);
        }
        lemma_trimmed_behind(space.drop_first(), part);
    }
}

/// Of two cookies with one name the first counts.
pub proof fn the_first_cookie_counts(list: Seq<Seq<char>>, name: Seq<char>, from: int, i: int)
    requires
        0 <= from <= i < list.len(),
        piece_value(list[i], name) is Some,
        forall|k: int| from <= k < i ==> piece_value(#[trigger] list[k], name) is None,
    ensures
        first_value(list, name, from) == piece_value(list[i], name),
    decreases i - from,
{
    if from < i {
        the_first_cookie_counts(list, name, from + 1, i);
    }
}

/// A token counts exactly with its own signature behind it.
pub proof fn tokens_count_with_their_signature(vault: &Vault, token: Seq<char>, mark: Seq<char>)
    requires
        !token.contains('.'),
    ensures
        signed_token(vault, token + "."@ + mark) == if mark == vault.signature(token) {
            Some(token)
        } else {
            None
        },
        signed_token(vault, token) is None,
{
    reveal_strlit(".");
    let value = token + "."@ + mark;
    assert(value[token.len() as int] == '.');
    assert forall|k: int| 0 <= k < token.len() implies value[k] != '.' by {
        assert(token.contains(token[k]));
    }
    lemma_first_position(value, '.', token.len() as int);
    assert(value.take(token.len() as int) =~= token);
    assert(value.skip(token.len() as int + 1) =~= mark);
}

}
