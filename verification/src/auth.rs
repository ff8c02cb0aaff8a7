//! Tokens and the manager facade.
//!
//! A [`Manager`] holds one resolved credential source and one scope-keyed
//! token cache, and orchestrates "check cache, else refresh and populate
//! cache". The refresh itself is a conversation the embedding program
//! carries out step by step; see [`credentials`].

use vstd::prelude::*;

pub mod cache;
pub mod credentials;

use cache::{cache_lookup, cache_store, Cache};
use credentials::{Credentials, Event, Flow, Step};

verus! {

/// A short-lived bearer access token.
///
/// Immutable once constructed; cloned freely. `expires_at` is an absolute
/// timestamp in seconds since the Unix epoch. The secret `access_token` is
/// never rendered by [`Token::debug_text`].
pub struct Token {
    pub access_token: String,
    pub expires_at: i64,
}

/// The abstract value of a [`Token`].
pub struct TokenV {
    pub access_token: Seq<char>,
    pub expires_at: i64,
}

impl View for Token {
    type V = TokenV;

    open spec fn view(&self) -> TokenV {
        TokenV { access_token: self.access_token@, expires_at: self.expires_at }
    }
}

impl Clone for Token {
    fn clone(&self) -> (r: Self)
        ensures
            r == *self,
    {
        Token { access_token: self.access_token.clone(), expires_at: self.expires_at }
    }
}

/// The decimal rendering of a natural number.
pub open spec fn dec_of_nat(n: nat) -> Seq<char>
    decreases n,
{
    if n < 10 {
        seq![crate::json::hex_char(n as u32)]
    } else {
        dec_of_nat(n / 10) + seq![crate::json::hex_char((n % 10) as u32)]
    }
}

/// The decimal rendering of a signed number: a minus sign and the
/// magnitude.
pub open spec fn dec_of_i64(n: i64) -> Seq<char> {
    if n >= 0 {
        dec_of_nat(n as nat)
    } else {
        seq!['-'] + dec_of_nat((-(n as int)) as nat)
    }
}

/// Renders a natural number in decimal.
fn write_dec_u64(out: &mut String, n: u64)
    ensures
        final(out)@ == old(out)@ + dec_of_nat(n as nat),
    decreases n,
{
    if n < 10 {
        crate::json::push_char(out, crate::json::hex_digit(n as u32));
    } else {
        write_dec_u64(out, n / 10);
        crate::json::push_char(out, crate::json::hex_digit((n % 10) as u32));
        proof {
            assert(final(out)@ =~= old(out)@ + dec_of_nat(n as nat));
        }
    }
}

impl Token {
    /// The only sanctioned diagnostic rendering: the expiry in the clear,
    /// the secret access token replaced by a fixed placeholder.
    pub fn debug_text(&self) -> (r: String)
        ensures
            r@ == "Token { access_token: \"***\", expires_at: "@ + dec_of_i64(self.expires_at)
                + " }"@,
    {
        let mut out = String::new();
        out.append("Token { access_token: \"***\", expires_at: ");
        if self.expires_at < 0 {
            crate::json::push_char(&mut out, '-');
            let magnitude = (-(self.expires_at as i128)) as u64;
            write_dec_u64(&mut out, magnitude);
        } else {
            write_dec_u64(&mut out, self.expires_at as u64);
        }
        out.append(" }");
        proof {
            assert(out@ =~= "Token { access_token: \"***\", expires_at: "@ + dec_of_i64(
                self.expires_at,
            ) + " }"@);
        }
        out
    }
}

/// The answer to a refresh request: a still-valid cached token, or the
/// beginning of a refresh conversation.
pub enum RefreshOutcome {
    /// A cached token valid for at least the requested lifetime.
    Cached(Token),
    /// No valid cache entry: carry out this flow, then [`Manager::store`]
    /// the token it concludes with.
    Begin(Flow, Step),
}

/// The facade: one resolved credential source and one cache. The credential
/// source is immutable after construction; the cache is the only mutable
/// state. Concurrent callers share a manager behind a readers-writer lock
/// owned by the embedding program: lookups under a read acquisition
/// ([`Manager::refresh`]), stores under a write acquisition
/// ([`Manager::store`]), and no lock held across a suspension point.
pub struct Manager {
    credentials: Credentials,
    cache: Cache,
}

impl Manager {
    /// The cache's structural invariant, established by [`Manager::new`]
    /// and preserved by every method.
    pub closed spec fn wf(&self) -> bool {
        self.cache.wf()
    }

    /// The credential source this manager resolved at construction.
    pub closed spec fn credentials_view(&self) -> Credentials {
        self.credentials
    }

    /// The cache contents, as a mapping from scope-sequence keys to tokens.
    pub closed spec fn cache_view(&self) -> Map<Seq<Seq<char>>, Token> {
        self.cache@
    }

    /// A manager over one resolved credential source, with an empty cache.
    pub fn new(credentials: Credentials) -> (r: Manager)
        ensures
            r.wf(),
            r.credentials_view() == credentials,
            r.cache_view() == Map::<Seq<Seq<char>>, Token>::empty(),
    {
        Manager { credentials, cache: Cache::new() }
    }

    /// The fast path and the start of the slow one: a cached token whose
    /// remaining lifetime exceeds `lifetime` is cloned and returned; on a
    /// miss, the credential source's refresh flow begins, and its eventual
    /// token belongs in [`Manager::store`].
    pub fn refresh(&self, scopes: &Vec<String>, lifetime: i64, now: i64) -> (r: RefreshOutcome)
        requires
            self.wf(),
        ensures
            match cache_lookup(self.cache_view(), scopes.deep_view(), lifetime, now) {
                Some(t) => r matches RefreshOutcome::Cached(tok) && tok == t,
                None => r matches RefreshOutcome::Begin(flow, step) && {
                    &&& flow.scopes.deep_view() == scopes.deep_view()
                    &&& (flow.state, step@) == credentials::refresh_step_spec(
                        self.credentials_view(),
                        scopes.deep_view(),
                        now,
                    )
                },
            },
    {
        match self.cache.get(scopes, lifetime, now) {
            Some(t) => RefreshOutcome::Cached(t.clone()),
            None => {
                let (flow, step) = self.credentials.refresh(scopes, now);
                RefreshOutcome::Begin(flow, step)
            },
        }
    }

    /// Advances a refresh conversation; see [`Credentials::resume`].
    pub fn resume(&self, flow: Flow, event: Event) -> (r: (Flow, Step))
        requires
            credentials::expects(flow.state, self.credentials_view(), event@),
        ensures
            r.0.scopes.deep_view() == flow.scopes.deep_view(),
            (r.0.state, r.1@) == credentials::resume_step_spec(
                self.credentials_view(),
                flow.scopes.deep_view(),
                flow.state,
                event@,
            ),
    {
        self.credentials.resume(flow, event)
    }

    /// Populates the cache with a freshly obtained token, sweeping expired
    /// entries; see [`cache_store`]. Last write wins when concurrent misses
    /// race: every store leaves the cache valid.
    pub fn store(&mut self, scopes: &Vec<String>, token: Token, now: i64)
        requires
            old(self).wf(),
        ensures
            final(self).wf(),
            final(self).credentials_view() == old(self).credentials_view(),
            final(self).cache_view() == cache_store(
                old(self).cache_view(),
                scopes.deep_view(),
                token,
                now,
            ),
    {
        self.cache.put(scopes, token, now);
    }
}

} // verus!
