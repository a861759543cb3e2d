//! The identity provider's admin interface: the addresses used, and the
//! cache of the service account's access token.
//!
//! Instants are counted in nanoseconds on a monotonic clock that the caller
//! reads; durations from the provider are whole seconds.
use vstd::prelude::*;
use crate::text::{
    opt_view, owned, replace_all, replace_all_str, trim_end_char, trim_end_char_str,
};

verus! {

/// The token endpoint under the provider's address without trailing
/// slashes.
pub fn token_url(authority: &str) -> (r: String)
    ensures
        r@ == trim_end_char(authority@, '/') + "/protocol/openid-connect/token"@,
{
    let mut r = trim_end_char_str(authority, '/');
    r.append("/protocol/openid-connect/token");
    r
}

/// The user list of the admin interface: the realm's address moved under
/// `/admin/realms/`, without trailing slashes, then `/users`.
pub open spec fn admin_users_url_of(authority: Seq<char>) -> Seq<char> {
    trim_end_char(replace_all(authority, "/realms/"@, "/admin/realms/"@), '/') + "/users"@
}

/// The address of the admin interface's user list.
pub fn admin_users_url(authority: &str) -> (r: String)
    ensures
        r@ == admin_users_url_of(authority@),
{
    proof {
        reveal_strlit("/realms/");
    }
    let admin = replace_all_str(authority, "/realms/", "/admin/realms/");
    let mut r = trim_end_char_str(admin.as_str(), '/');
    r.append("/users");
    r
}

/// The search that finds the user whose `plex` attribute is the username.
pub fn plex_user_query(plex_username: &str) -> (r: String)
    ensures
        r@ == "plex:"@ + plex_username@,
{
    let mut r = owned("plex:");
    r.append(plex_username);
    r
}

/// The username of the first user the search found.
pub fn first_username(usernames: &Vec<String>) -> (r: Option<String>)
    ensures
        opt_view(r) == if usernames@.len() > 0 {
            Some(usernames@[0]@)
        } else {
            None
        },
{
    if usernames.len() > 0 {
        Some(usernames[0].clone())
    } else {
        None
    }
}

/// Nanoseconds in a second.
pub const NANOS_PER_SEC: u128 = 1_000_000_000;

/// Seconds of validity given up to renew a token before it expires.
pub const EXPIRY_MARGIN_SECS: u64 = 10;

/// When a token fetched at `now` and valid for `expires_in` seconds is
/// renewed: ten seconds early, and at once for a token valid ten seconds or
/// less.
pub open spec fn token_expiry(now: u128, expires_in: u64) -> int {
    now + (if expires_in > 10 {
        expires_in - 10
    } else {
        0
    }) * 1_000_000_000
}

/// The cached access token and the instant from which it is renewed.
pub struct TokenCache {
    entry: Option<(String, u128)>,
}

impl TokenCache {
    /// The cached token and its expiry.
    pub closed spec fn entry_spec(&self) -> Option<(Seq<char>, int)> {
        match self.entry {
            Some((t, e)) => Some((t@, e as int)),
            None => None,
        }
    }

    /// The token valid at `now`, as the cache holds it.
    pub open spec fn valid_at(&self, now: u128) -> Option<Seq<char>> {
        match self.entry_spec() {
            Some((t, e)) => if e > now {
                Some(t)
            } else {
                None
            },
            None => None,
        }
    }

    /// An empty cache.
    pub fn new() -> (c: Self)
        ensures
            c.entry_spec() is None,
    {
        TokenCache { entry: None }
    }

    /// The cached token, while it is valid at `now`.
    pub fn get(&self, now: u128) -> (r: Option<String>)
        ensures
            opt_view(r) == self.valid_at(now),
    {
        match &self.entry {
            Some((token, expiry)) => if *expiry > now {
                Some(token.clone())
            } else {
                None
            },
            None => None,
        }
    }

    /// Caches a token fetched at `now` and valid for `expires_in` seconds.
    pub fn store(&mut self, token: String, now: u128, expires_in: u64)
        requires
            token_expiry(now, expires_in) <= u128::MAX,
        ensures
            final(self).entry_spec() == Some((token@, token_expiry(now, expires_in))),
    {
        let secs = expires_in.saturating_sub(EXPIRY_MARGIN_SECS) as u128;
        assert(secs * 1_000_000_000 <= u64::MAX * 1_000_000_000) by (nonlinear_arith)
            requires
                secs <= u64::MAX,
        ;
        let expiry = now + secs * NANOS_PER_SEC;
        self.entry = Some((token, expiry));
    }
}

/// A token just stored is handed out before its expiry and not from then
/// on; one valid for more than ten seconds is handed out at once.
pub proof fn law_token_read_after_store(
    cache: TokenCache,
    token: Seq<char>,
    now: u128,
    expires_in: u64,
    later: u128,
)
    requires
        cache.entry_spec() == Some((token, token_expiry(now, expires_in))),
    ensures
        cache.valid_at(later) == if later < token_expiry(now, expires_in) {
            Some(token)
        } else {
            None
        },
        expires_in > 10 ==> cache.valid_at(now) == Some(token),
        expires_in <= 10 ==> cache.valid_at(now) is None,
{
}

} // verus!
