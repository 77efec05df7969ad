//! The OAuth authorization flow, as far as it is decided here: building the
//! authorization URL, keeping the one-time state tokens, and judging the
//! token response. The HTTP exchange itself stays with the host.

use vstd::prelude::*;
use vstd::string::StringExecFns;
use vstd::utf8::encode_utf8;

use crate::idgen::fresh_uuid_string;
use crate::strutil::{join_with, join_with_sep, str_eq};
use crate::urlenc::{url_encode, url_encode_bytes};

verus! {

/// The token a successful OAuth code exchange hands back.
#[derive(Debug)]
pub struct TokenResponse {
    pub access_token: String,
    pub token_type: String,
    pub scope: String,
}

/// The application's OAuth settings.
#[derive(Debug)]
pub struct OAuthConfig {
    pub client_id: String,
    pub client_secret: String,
    pub redirect_uri: String,
    pub scopes: Vec<String>,
}

impl OAuthConfig {
    /// Settings with the standard scopes, `repo` and `user`.
    pub fn new(client_id: String, client_secret: String, redirect_uri: String) -> (r: OAuthConfig)
        ensures
            r.client_id == client_id,
            r.client_secret == client_secret,
            r.redirect_uri == redirect_uri,
            r.scopes@.map_values(|s: String| s@) == seq!["repo"@, "user"@],
    {
        let mut scopes: Vec<String> = Vec::new();
        scopes.push("repo".to_owned());
        scopes.push("user".to_owned());
        proof {
            assert(scopes@.map_values(|s: String| s@) =~= seq!["repo"@, "user"@]);
        }
        OAuthConfig { client_id, client_secret, redirect_uri, scopes }
    }

    /// Settings from compile-time configuration, which the host reads and
    /// hands in: both identifiers must be configured, and the redirect goes
    /// through the application's own URL scheme.
    pub fn from_env(client_id: Option<String>, client_secret: Option<String>) -> (r: Result<
        OAuthConfig,
        String,
    >)
        ensures
            match r {
                Ok(c) => {
                    &&& client_id matches Some(i) && c.client_id == i
                    &&& client_secret matches Some(s) && c.client_secret == s
                    &&& c.redirect_uri@ == "issue-marionette://oauth-callback"@
                    &&& c.scopes@.map_values(|s: String| s@) == seq!["repo"@, "user"@]
                },
                Err(m) => {
                    if client_id is None {
                        m@ == "GITHUB_CLIENT_ID not configured at compile time"@
                    } else {
                        &&& client_secret is None
                        &&& m@ == "GITHUB_CLIENT_SECRET not configured at compile time"@
                    }
                },
            },
    {
        let id = match client_id {
            Some(i) => i,
            None => {
                return Err("GITHUB_CLIENT_ID not configured at compile time".to_owned());
            },
        };
        let secret = match client_secret {
            Some(s) => s,
            None => {
                return Err("GITHUB_CLIENT_SECRET not configured at compile time".to_owned());
            },
        };
        Ok(Self::new(id, secret, "issue-marionette://oauth-callback".to_owned()))
    }

    /// A fresh, unguessable state token for one authorization round trip.
    pub fn generate_state() -> (r: String)
        ensures
            r@.len() == 36,
    {
        fresh_uuid_string()
    }

    /// The authorization URL for this configuration and state token: the
    /// fixed endpoint, the client identifier, the percent-encoded redirect,
    /// the scopes joined with spaces, and the state, in that order.
    pub fn generate_auth_url(&self, state: &str) -> (r: String)
        ensures
            r@ == "https://github.com/login/oauth/authorize?client_id="@ + self.client_id@
                + "&redirect_uri="@ + url_encode_bytes(encode_utf8(self.redirect_uri@))
                + "&scope="@ + join_with(self.scopes@.map_values(|s: String| s@), " "@)
                + "&state="@ + state@,
    {
        "https://github.com/login/oauth/authorize?client_id=".to_owned().concat(
            self.client_id.as_str(),
        ).concat("&redirect_uri=").concat(url_encode(self.redirect_uri.as_str()).as_str()).concat(
            "&scope=",
        ).concat(join_with_sep(&self.scopes, " ").as_str()).concat("&state=").concat(state)
    }
}

/// Judges what the token endpoint answered: the parsed token when the
/// request succeeded and the token is not empty; otherwise the exact error
/// the caller reports. The HTTP status text, the response body and the
/// parse outcome all come from the host.
pub fn accept_token_response(
    http_ok: bool,
    parsed: Result<TokenResponse, String>,
    status: &str,
    body: &str,
) -> (r: Result<TokenResponse, String>)
    ensures
        match r {
            Ok(t) => {
                &&& http_ok
                &&& parsed matches Ok(p) && t == p
                &&& t.access_token@.len() > 0
            },
            Err(m) => {
                if !http_ok {
                    m@ == "GitHub OAuth error ("@ + status@ + "): "@ + body@
                } else {
                    match parsed {
                        Ok(p) => p.access_token@.len() == 0 && m@
                            == "GitHub returned an error (invalid code or expired)"@,
                        Err(e) => m@ == "Failed to parse response: "@ + e@,
                    }
                }
            },
        },
{
    if !http_ok {
        return Err(
            "GitHub OAuth error (".to_owned().concat(status).concat("): ").concat(body),
        );
    }
    match parsed {
        Ok(token) => {
            if token.access_token.as_str().is_empty() {
                Err("GitHub returned an error (invalid code or expired)".to_owned())
            } else {
                Ok(token)
            }
        },
        Err(e) => Err("Failed to parse response: ".to_owned().concat(e.as_str())),
    }
}

/// One pending authorization round trip: the state token and when it was
/// issued, in seconds since the Unix epoch.
#[derive(Debug)]
pub struct PendingState {
    pub state: String,
    pub created_at: i64,
}

/// A state token is fresh for five minutes from its issue.
pub open spec fn state_fresh(created_at: int, now: int) -> bool {
    now - created_at < 300
}

/// The entries with the given state token removed.
pub open spec fn without_state(s: Seq<PendingState>, state: Seq<char>) -> Seq<PendingState>
    decreases s.len(),
{
    if s.len() == 0 {
        Seq::empty()
    } else if s.first().state@ == state {
        without_state(s.drop_first(), state)
    } else {
        seq![s.first()] + without_state(s.drop_first(), state)
    }
}

/// When the given state token was issued, if it is pending.
pub open spec fn lookup_state(s: Seq<PendingState>, state: Seq<char>) -> Option<int>
    decreases s.len(),
{
    if s.len() == 0 {
        None
    } else if s.first().state@ == state {
        Some(s.first().created_at as int)
    } else {
        lookup_state(s.drop_first(), state)
    }
}

/// The entries still fresh at the given time.
pub open spec fn fresh_entries(s: Seq<PendingState>, now: int) -> Seq<PendingState>
    decreases s.len(),
{
    if s.len() == 0 {
        Seq::empty()
    } else if state_fresh(s.first().created_at as int, now) {
        seq![s.first()] + fresh_entries(s.drop_first(), now)
    } else {
        fresh_entries(s.drop_first(), now)
    }
}

/// The state tokens of authorization round trips still in flight. One entry
/// per token: inserting a token again replaces its entry.
pub struct PendingStates {
    entries: Vec<PendingState>,
}

impl PendingStates {
    pub closed spec fn entries(self) -> Seq<PendingState> {
        self.entries@
    }

    /// No round trips pending.
    pub fn new() -> (r: PendingStates)
        ensures
            r.entries() == Seq::<PendingState>::empty(),
    {
        PendingStates { entries: Vec::new() }
    }

    /// Records a state token issued now, replacing any entry it had.
    pub fn insert(&mut self, state: String, now: i64)
        ensures
            final(self).entries() == without_state(old(self).entries(), state@).push(
                (PendingState { state, created_at: now }),
            ),
    {
        let mut rest = Vec::new();
        core::mem::swap(&mut rest, &mut self.entries);
        let ghost all = rest@;
        let mut kept: Vec<PendingState> = Vec::new();
        proof {
            assert(all.skip(0) =~= all);
            assert(kept@ + without_state(all, state@) =~= without_state(all, state@));
        }
        while rest.len() > 0
            invariant
                without_state(all, state@) == kept@ + without_state(rest@, state@),
            decreases rest.len(),
        {
            let ghost prev = rest@;
            let e = rest.remove(0);
            proof {
                assert(prev.first() == e);
                assert(prev.drop_first() =~= rest@);
            }
            if !str_eq(e.state.as_str(), state.as_str()) {
                proof {
                    assert(kept@.push(e) + without_state(rest@, state@) =~= kept@ + (seq![e]
                        + without_state(rest@, state@)));
                }
                kept.push(e);
            }
        }
        proof {
            assert(without_state(Seq::<PendingState>::empty(), state@) =~= Seq::<
                PendingState,
            >::empty());
            assert(kept@ + Seq::<PendingState>::empty() =~= kept@);
        }
        kept.push(PendingState { state, created_at: now });
        self.entries = kept;
    }

    /// Forgets every state token older than five minutes.
    pub fn prune(&mut self, now: i64)
        ensures
            final(self).entries() == fresh_entries(old(self).entries(), now as int),
    {
        let mut rest = Vec::new();
        core::mem::swap(&mut rest, &mut self.entries);
        let ghost all = rest@;
        let mut kept: Vec<PendingState> = Vec::new();
        proof {
            assert(kept@ + fresh_entries(all, now as int) =~= fresh_entries(all, now as int));
        }
        while rest.len() > 0
            invariant
                fresh_entries(all, now as int) == kept@ + fresh_entries(rest@, now as int),
            decreases rest.len(),
        {
            let ghost prev = rest@;
            let e = rest.remove(0);
            let fresh = (now as i128) - (e.created_at as i128) < 300;
            proof {
                assert(prev.first() == e);
                assert(prev.drop_first() =~= rest@);
            }
            if fresh {
                proof {
                    assert(kept@.push(e) + fresh_entries(rest@, now as int) =~= kept@ + (seq![e]
                        + fresh_entries(rest@, now as int)));
                }
                kept.push(e);
            }
        }
        proof {
            assert(kept@ + fresh_entries(Seq::<PendingState>::empty(), now as int) =~= kept@);
        }
        self.entries = kept;
    }

    /// Takes a state token out of flight: fails when the token is unknown,
    /// or known but stale; in either known case the token is spent.
    pub fn take(&mut self, state: &str, now: i64) -> (r: Result<(), String>)
        ensures
            match lookup_state(old(self).entries(), state@) {
                None => {
                    &&& *final(self) == *old(self)
                    &&& r matches Err(m) && m@ == "Invalid or expired state"@
                },
                Some(created_at) => {
                    &&& final(self).entries() == without_state(old(self).entries(), state@)
                    &&& if state_fresh(created_at, now as int) {
                        r is Ok
                    } else {
                        r matches Err(m) && m@ == "State has expired"@
                    }
                },
            },
    {
        let n = self.entries.len();
        let mut i: usize = 0;
        let mut found: Option<i64> = None;
        proof {
            assert(self.entries().skip(0) =~= self.entries());
        }
        while i < n
            invariant
                n == self.entries().len(),
                i <= n,
                match found {
                    Some(c) => lookup_state(self.entries(), state@) == Some(c as int),
                    None => lookup_state(self.entries(), state@) == lookup_state(
                        self.entries().skip(i as int),
                        state@,
                    ),
                },
                found is Some ==> i == n,
            decreases n - i,
        {
            proof {
                assert(self.entries().skip(i as int).first() == self.entries()[i as int]);
                assert(self.entries().skip(i as int).drop_first() =~= self.entries().skip(
                    i as int + 1,
                ));
            }
            if str_eq(self.entries[i].state.as_str(), state) {
                found = Some(self.entries[i].created_at);
                i = n;
            } else {
                i = i + 1;
            }
        }
        let created_at = match found {
            Some(c) => c,
            None => {
                proof {
                    assert(self.entries().skip(n as int) =~= Seq::<PendingState>::empty());
                }
                return Err("Invalid or expired state".to_owned());
            },
        };
        let mut rest = Vec::new();
        core::mem::swap(&mut rest, &mut self.entries);
        let ghost all = rest@;
        let mut kept: Vec<PendingState> = Vec::new();
        proof {
            assert(kept@ + without_state(all, state@) =~= without_state(all, state@));
        }
        while rest.len() > 0
            invariant
                without_state(all, state@) == kept@ + without_state(rest@, state@),
            decreases rest.len(),
        {
            let ghost prev = rest@;
            let e = rest.remove(0);
            proof {
                assert(prev.first() == e);
                assert(prev.drop_first() =~= rest@);
            }
            if !str_eq(e.state.as_str(), state) {
                proof {
                    assert(kept@.push(e) + without_state(rest@, state@) =~= kept@ + (seq![e]
                        + without_state(rest@, state@)));
                }
                kept.push(e);
            }
        }
        proof {
            assert(kept@ + without_state(Seq::<PendingState>::empty(), state@) =~= kept@);
        }
        self.entries = kept;
        if (now as i128) - (created_at as i128) < 300 {
            Ok(())
        } else {
            Err("State has expired".to_owned())
        }
    }
}

} // verus!
