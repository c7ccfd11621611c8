//! The token store: per-identity humanity credentials with lazy expiry.
//!
//! A token is overwritten, never appended, on mint or refresh; an expired
//! token stays in the store and is merely reported as expired when read.

use vstd::prelude::*;
use crate::errors::GateError;
use crate::kv;

verus! {

/// How long a humanity token stays valid: 24 hours, in nanoseconds.
pub const TOKEN_EXPIRY_NS: u64 = 24 * 60 * 60 * 1_000_000_000;

/// A time-limited credential proving the identity passed verification.
pub struct HumanityToken {
    pub principal: String,
    pub verified_at: u64,
    pub expires_at: u64,
}

/// The mathematical value of a [`HumanityToken`].
pub struct TokenView {
    pub principal: Seq<char>,
    pub verified_at: u64,
    pub expires_at: u64,
}

impl View for HumanityToken {
    type V = TokenView;

    open spec fn view(&self) -> TokenView {
        TokenView {
            principal: self.principal@,
            verified_at: self.verified_at,
            expires_at: self.expires_at,
        }
    }
}

impl Clone for HumanityToken {
    fn clone(&self) -> (r: Self)
        ensures
            r == *self,
    {
        HumanityToken {
            principal: self.principal.clone(),
            verified_at: self.verified_at,
            expires_at: self.expires_at,
        }
    }
}

/// The token a mint or refresh at time `now` yields.
pub open spec fn minted_token(id: Seq<char>, now: u64) -> TokenView {
    TokenView { principal: id, verified_at: now, expires_at: (now + TOKEN_EXPIRY_NS) as u64 }
}

/// Whether the tokens `m` hold a credential for `id` that is still valid at
/// time `now`: the token exists and its expiry lies strictly in the future.
pub open spec fn token_valid(m: Map<Seq<char>, TokenView>, id: Seq<char>, now: u64) -> bool {
    m.contains_key(id) && m[id].expires_at > now
}

/// Law: validity is monotone in time. A token valid at `t` was valid at
/// every earlier instant back to (and including) its issue time, and is
/// invalid at every instant from its expiry time on.
pub proof fn lemma_validity_monotonic(m: Map<Seq<char>, TokenView>, id: Seq<char>, t: u64)
    requires
        token_valid(m, id, t),
    ensures
        forall|t2: u64| m[id].verified_at <= t2 <= t ==> token_valid(m, id, t2),
        forall|t2: u64| t2 >= m[id].expires_at ==> !token_valid(m, id, t2),
{
}

/// The tokens, keyed by identity.
pub struct TokenStore {
    tokens: Vec<HumanityToken>,
}

impl TokenStore {
    /// The pair-sequence reading of the store.
    closed spec fn pairs(self) -> Seq<(Seq<char>, TokenView)> {
        self.tokens@.map_values(|t: HumanityToken| (t.principal@, t@))
    }

    /// Distinct identities: at most one token per identity.
    pub closed spec fn well_formed(self) -> bool {
        kv::unique_keys(self.pairs())
    }

    pub fn new() -> (s: Self)
        ensures
            s.well_formed(),
            s@ == Map::<Seq<char>, TokenView>::empty(),
    {
        let s = TokenStore { tokens: Vec::new() };
        proof {
            assert(s.pairs() =~= Seq::<(Seq<char>, TokenView)>::empty());
            kv::lemma_map_of_empty::<TokenView>();
        }
        s
    }

    /// The index holding `identity`, if any.
    fn find(&self, identity: &String) -> (r: Option<usize>)
        requires
            self.well_formed(),
        ensures
            match r {
                Some(i) => {
                    &&& i < self.tokens@.len()
                    &&& self.tokens@[i as int].principal@ == identity@
                    &&& self@.contains_key(identity@)
                    &&& self@[identity@] == self.tokens@[i as int]@
                },
                None => !self@.contains_key(identity@),
            },
    {
        let mut i: usize = 0;
        while i < self.tokens.len()
            invariant
                self.well_formed(),
                i <= self.tokens@.len(),
                forall|j: int| 0 <= j < i ==> self.tokens@[j].principal@ != identity@,
            decreases self.tokens@.len() - i,
        {
            if self.tokens[i].principal == *identity {
                proof {
                    kv::lemma_found_index(self.pairs(), i as int);
                }
                return Some(i);
            }
            i += 1;
        }
        proof {
            assert forall|w: int|
                0 <= w < self.pairs().len() implies self.pairs()[w].0 != identity@ by {}
        }
        None
    }

    /// Whether the identity holds a token that is still valid at `now`.
    pub fn is_valid(&self, identity: &String, now: u64) -> (r: bool)
        requires
            self.well_formed(),
        ensures
            r == token_valid(self@, identity@, now),
    {
        match self.find(identity) {
            Some(i) => self.tokens[i].expires_at > now,
            None => false,
        }
    }

    /// Reads the identity's token: absent tokens and expired tokens are
    /// reported distinctly, and a live token is returned unmodified.
    pub fn status(&self, identity: &String, now: u64) -> (r: Result<HumanityToken, GateError>)
        requires
            self.well_formed(),
        ensures
            !self@.contains_key(identity@) ==> r == Err::<HumanityToken, GateError>(
                GateError::NotFound,
            ),
            self@.contains_key(identity@) && self@[identity@].expires_at <= now ==> r == Err::<
                HumanityToken,
                GateError,
            >(GateError::Expired),
            self@.contains_key(identity@) && self@[identity@].expires_at > now ==> (r matches Ok(t)
                && t@ == self@[identity@]),
    {
        match self.find(identity) {
            Some(i) => {
                if self.tokens[i].expires_at > now {
                    Ok(self.tokens[i].clone())
                } else {
                    Err(GateError::Expired)
                }
            },
            None => Err(GateError::NotFound),
        }
    }

    /// Issues a fresh token for the identity at time `now`, replacing any
    /// token it already held. Eligibility is the caller's concern: this
    /// store applies no precondition of its own.
    pub fn mint(&mut self, identity: &String, now: u64) -> (t: HumanityToken)
        requires
            old(self).well_formed(),
            now <= u64::MAX - TOKEN_EXPIRY_NS,
        ensures
            final(self).well_formed(),
            final(self)@ == old(self)@.insert(identity@, minted_token(identity@, now)),
            t@ == minted_token(identity@, now),
    {
        let token = HumanityToken {
            principal: identity.clone(),
            verified_at: now,
            expires_at: now + TOKEN_EXPIRY_NS,
        };
        let copy = token.clone();
        match self.find(identity) {
            Some(i) => {
                let ghost pre = self.pairs();
                let _replaced = self.tokens.remove(i);
                self.tokens.insert(i, token);
                proof {
                    assert(self.pairs() =~= pre.update(
                        i as int,
                        (identity@, minted_token(identity@, now)),
                    ));
                    kv::lemma_map_of_update(pre, i as int, minted_token(identity@, now));
                }
            },
            None => {
                let ghost pre = self.pairs();
                self.tokens.push(token);
                proof {
                    assert(self.pairs() =~= pre.push((identity@, minted_token(identity@, now))));
                    kv::lemma_map_of_push(pre, identity@, minted_token(identity@, now));
                }
            },
        }
        copy
    }
}

impl View for TokenStore {
    type V = Map<Seq<char>, TokenView>;

    closed spec fn view(&self) -> Map<Seq<char>, TokenView> {
        kv::map_of(self.pairs())
    }
}

} // verus!
