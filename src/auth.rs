//! The credential cache: when a cached access token may be reused, the
//! token-exchange request, and what a successful exchange leaves cached.
//!
//! Instants are whole seconds since the Unix epoch.

use crate::errors::ExportError;
use vstd::prelude::*;

verus! {

/// A cached token is not reused within this many seconds of its expiry.
pub const EXPIRY_BUFFER_SECS: u64 = 300;

/// Lifetime given to a token whose announced expiry is out of range.
pub const FALLBACK_LIFETIME_SECS: u64 = 3600;

/// Settings of the workload identity token exchange.
#[derive(Debug)]
pub struct WorkloadIdentityConfig {
    /// The audience of the exchange; it must be configured.
    pub audience: Option<String>,
    /// Where the local identity token is read from.
    pub service_account_token_path: String,
    /// The token-exchange endpoint.
    pub sts_endpoint: String,
}

impl Default for WorkloadIdentityConfig {
    fn default() -> (r: Self)
        ensures
            r.audience matches Some(a) && a@.len() == 0,
            r.service_account_token_path@ == "/var/run/secrets/kubernetes.io/serviceaccount/token"@,
            r.sts_endpoint@ == "https://sts.googleapis.com/v1/token"@,
    {
        proof {
            reveal_strlit("");
        }
        WorkloadIdentityConfig {
            audience: Some(String::from_str("")),
            service_account_token_path: String::from_str(
                "/var/run/secrets/kubernetes.io/serviceaccount/token",
            ),
            sts_endpoint: String::from_str("https://sts.googleapis.com/v1/token"),
        }
    }
}

impl WorkloadIdentityConfig {
    /// The configured audience; a configuration error when there is none.
    pub fn audience(&self) -> (r: Result<String, ExportError>)
        ensures
            match self.audience {
                None => r matches Err(ExportError::Config(m)) && m@ == "audience must be configured"@,
                Some(a) => r matches Ok(s) && s@ == a@,
            },
    {
        match &self.audience {
            None => Err(ExportError::Config(String::from_str("audience must be configured"))),
            Some(s) => Ok(s.clone()),
        }
    }
}

/// A cached access token and the instant it expires.
#[derive(Debug)]
pub struct AccessToken {
    pub token: String,
    pub expires_at: u64,
}

/// Whether a token expiring at `expires_at` counts as expired at `now`:
/// within the buffer before its expiry, or when the clock cannot be read.
pub open spec fn expired(expires_at: u64, now: Option<u64>) -> bool {
    match now {
        None => true,
        Some(n) => n + EXPIRY_BUFFER_SECS >= expires_at,
    }
}

/// Relies on `std::time::SystemTime::now` and `duration_since(UNIX_EPOCH)`:
/// the current time in seconds, `None` when the clock is before the epoch.
#[verifier::external_body]
fn unix_now_secs() -> (r: Option<u64>) {
    std::time::SystemTime::now().duration_since(std::time::UNIX_EPOCH).ok().map(|d| d.as_secs())
}

impl AccessToken {
    /// Whether the token counts as expired at `now`.
    pub fn is_expired_at(&self, now: u64) -> (r: bool)
        ensures
            r == expired(self.expires_at, Some(now)),
    {
        now >= self.expires_at || self.expires_at - now <= EXPIRY_BUFFER_SECS
    }

    /// Whether the token counts as expired now: within the buffer before its
    /// expiry, or when the clock cannot be read.
    pub fn is_expired(&self) -> (r: bool)
        ensures
            self.expires_at <= EXPIRY_BUFFER_SECS ==> r,
    {
        match unix_now_secs() {
            None => true,
            Some(now) => self.is_expired_at(now),
        }
    }
}

/// The token that the cache hands out at `now` without an exchange.
pub open spec fn cached_at(cached: Option<AccessToken>, now: u64) -> Option<Seq<char>> {
    match cached {
        Some(t) => if expired(t.expires_at, Some(now)) {
            None
        } else {
            Some(t.token@)
        },
        None => None,
    }
}

/// The expiry of a token announced at `now` to live `expires_in` seconds.
pub open spec fn expiry_of(now: u64, expires_in: u64) -> u64 {
    if now + expires_in <= u64::MAX {
        (now + expires_in) as u64
    } else if now + FALLBACK_LIFETIME_SECS <= u64::MAX {
        (now + FALLBACK_LIFETIME_SECS) as u64
    } else {
        u64::MAX
    }
}

/// The form fields of a token-exchange request.
pub struct TokenExchangeRequest {
    pub audience: String,
    pub grant_type: String,
    pub requested_token_type: String,
    pub subject_token: String,
    pub subject_token_type: String,
    pub scope: String,
}

/// Whether `c` has the Unicode `White_Space` property.
pub open spec fn is_white_space(c: char) -> bool {
    let u = c as u32;
    (0x09 <= u <= 0x0d) || u == 0x20 || u == 0x85 || u == 0xa0 || u == 0x1680 || (0x2000 <= u
        <= 0x200a) || u == 0x2028 || u == 0x2029 || u == 0x202f || u == 0x205f || u == 0x3000
}

/// `r` is `s` without its leading and trailing white space.
pub open spec fn trimmed_from(s: Seq<char>, r: Seq<char>) -> bool {
    exists|i: int, j: int|
        {
            &&& 0 <= i <= j <= s.len()
            &&& r == s.subrange(i, j)
            &&& forall|k: int| 0 <= k < i ==> is_white_space(#[trigger] s[k])
            &&& forall|k: int| j <= k < s.len() ==> is_white_space(#[trigger] s[k])
            &&& i < j ==> !is_white_space(s[i]) && !is_white_space(s[j - 1])
        }
}

fn white_space(c: char) -> (r: bool)
    ensures
        r == is_white_space(c),
{
    let u = c as u32;
    (0x09 <= u && u <= 0x0d) || u == 0x20 || u == 0x85 || u == 0xa0 || u == 0x1680 || (0x2000 <= u
        && u <= 0x200a) || u == 0x2028 || u == 0x2029 || u == 0x202f || u == 0x205f || u == 0x3000
}

/// The text without its leading and trailing white space.
pub fn trim_text(s: &str) -> (r: String)
    ensures
        trimmed_from(s@, r@),
{
    let n = s.unicode_len();
    let mut i: usize = 0;
    let mut stop = false;
    while i < n && !stop
        invariant
            n == s@.len(),
            i <= n,
            forall|k: int| 0 <= k < i ==> is_white_space(#[trigger] s@[k]),
            stop ==> i < n && !is_white_space(s@[i as int]),
        decreases n - i + if stop { 0int } else { 1int },
    {
        if white_space(s.get_char(i)) {
            i += 1;
        } else {
            stop = true;
        }
    }
    let mut j: usize = n;
    let mut stop_back = false;
    while j > i && !stop_back
        invariant
            n == s@.len(),
            i <= j <= n,
            forall|k: int| j <= k < n ==> is_white_space(#[trigger] s@[k]),
            stop_back ==> i < j && !is_white_space(s@[j - 1]),
        decreases j - i + if stop_back { 0int } else { 1int },
    {
        if white_space(s.get_char(j - 1)) {
            j -= 1;
        } else {
            stop_back = true;
        }
    }
    let r = String::from_str(s.substring_char(i, j));
    proof {
        assert(i < j ==> !is_white_space(s@[i as int]));
        assert(r@ == s@.subrange(i as int, j as int));
    }
    r
}

/// The local identity token from the contents of its file, without leading
/// and trailing white space; a configuration error when nothing else is
/// there.
pub fn subject_token(contents: &str) -> (r: Result<String, ExportError>)
    ensures
        r is Err <==> forall|k: int| 0 <= k < contents@.len() ==> is_white_space(#[trigger] contents@[k]),
        r matches Ok(t) ==> trimmed_from(contents@, t@),
        r matches Err(e) ==> e matches ExportError::Config(m) && m@
            == "Service account token is empty"@,
{
    let t = trim_text(contents);
    let ghost s = contents@;
    let ghost (i, j) = choose|i: int, j: int|
        {
            &&& 0 <= i <= j <= s.len()
            &&& t@ == s.subrange(i, j)
            &&& forall|k: int| 0 <= k < i ==> is_white_space(#[trigger] s[k])
            &&& forall|k: int| j <= k < s.len() ==> is_white_space(#[trigger] s[k])
            &&& i < j ==> !is_white_space(s[i]) && !is_white_space(s[j - 1])
        };
    if t.unicode_len() == 0 {
        proof {
            assert forall|k: int| 0 <= k < s.len() implies is_white_space(#[trigger] s[k]) by {
                if k >= i {
                    assert(k >= j);
                }
            }
        }
        Err(ExportError::Config(String::from_str("Service account token is empty")))
    } else {
        proof {
            assert(!is_white_space(s[i]));
        }
        Ok(t)
    }
}

/// Exchanges a local identity token for a cloud access token and caches it.
pub struct GoogleAuthClient {
    pub config: WorkloadIdentityConfig,
    pub cached_token: Option<AccessToken>,
}

impl GoogleAuthClient {
    /// A client with an empty cache.
    pub fn new(config: WorkloadIdentityConfig) -> (r: GoogleAuthClient)
        ensures
            r.config == config,
            r.cached_token is None,
    {
        GoogleAuthClient { config, cached_token: None }
    }

    /// The cached token, when there is one that is not expired at `now`;
    /// `None` means a new exchange is due.
    pub fn get_cached_token(&self, now: u64) -> (r: Option<String>)
        ensures
            match r {
                None => cached_at(self.cached_token, now) is None,
                Some(t) => cached_at(self.cached_token, now) == Some(t@),
            },
    {
        match &self.cached_token {
            Some(t) => if t.is_expired_at(now) {
                None
            } else {
                Some(t.token.clone())
            },
            None => None,
        }
    }

    /// The request that exchanges `subject_token` for an access token; a
    /// configuration error when no audience is configured.
    pub fn exchange_request(&self, subject_token: String) -> (r: Result<
        TokenExchangeRequest,
        ExportError,
    >)
        ensures
            self.config.audience is None <==> r is Err,
            r matches Err(e) ==> e matches ExportError::Config(m) && m@ == "audience must be configured"@,
            r matches Ok(q) ==> {
                &&& self.config.audience == Some(q.audience)
                &&& q.grant_type@ == "urn:ietf:params:oauth:grant-type:token-exchange"@
                &&& q.requested_token_type@ == "urn:ietf:params:oauth:token-type:access_token"@
                &&& q.subject_token == subject_token
                &&& q.subject_token_type@ == "urn:ietf:params:oauth:token-type:jwt"@
                &&& q.scope@ == "https://www.googleapis.com/auth/cloud-platform"@
            },
    {
        let audience = match &self.config.audience {
            None => { return Err(ExportError::Config(String::from_str("audience must be configured"))); },
            Some(a) => a.clone(),
        };
        Ok(
            TokenExchangeRequest {
                audience,
                grant_type: String::from_str("urn:ietf:params:oauth:grant-type:token-exchange"),
                requested_token_type: String::from_str(
                    "urn:ietf:params:oauth:token-type:access_token",
                ),
                subject_token,
                subject_token_type: String::from_str("urn:ietf:params:oauth:token-type:jwt"),
                scope: String::from_str("https://www.googleapis.com/auth/cloud-platform"),
            },
        )
    }

    /// Caches the token of a successful exchange answered at `now`, replacing
    /// any earlier one, and returns it.
    pub fn store_token(&mut self, token: String, expires_in: u64, now: u64) -> (r: String)
        ensures
            r == token,
            final(self).config == old(self).config,
            final(self).cached_token == Some(AccessToken { token, expires_at: expiry_of(now, expires_in) }),
    {
        let expires_at = if expires_in <= u64::MAX - now {
            now + expires_in
        } else if FALLBACK_LIFETIME_SECS <= u64::MAX - now {
            now + FALLBACK_LIFETIME_SECS
        } else {
            u64::MAX
        };
        let r = token.clone();
        self.cached_token = Some(AccessToken { token, expires_at });
        r
    }
}

/// Two reads of the cache while its token is outside the expiry buffer hand
/// out the same token, with no exchange between them.
pub proof fn lemma_token_reused(t: AccessToken, first: u64, second: u64)
    requires
        first + EXPIRY_BUFFER_SECS < t.expires_at,
        second + EXPIRY_BUFFER_SECS < t.expires_at,
    ensures
        cached_at(Some(t), first) == Some(t.token@),
        cached_at(Some(t), second) == cached_at(Some(t), first),
{
}

/// Once the token is within the expiry buffer the cache hands out nothing,
/// so an exchange is due; what that exchange stores is what the cache hands
/// out next.
pub proof fn lemma_token_refreshed(t: AccessToken, now: u64, fresh: String, expires_in: u64)
    requires
        now + EXPIRY_BUFFER_SECS >= t.expires_at,
        now + expires_in <= u64::MAX,
        expires_in > EXPIRY_BUFFER_SECS,
    ensures
        cached_at(Some(t), now) is None,
        cached_at(Some(AccessToken { token: fresh, expires_at: expiry_of(now, expires_in) }), now)
            == Some(fresh@),
{
}

} // verus!
