//! The verification protocol: one state holder owning the four collections,
//! and the full operation set it exposes.
//!
//! Per identity the derived state runs: unstarted, then in progress (fewer
//! than three challenges completed), then eligible (three or more), then
//! verified (a token exists). Completing verification once is permanent:
//! the verified-humans index blocks every later `start_session`, whatever
//! the token's expiry; an ever-verified identity extends its credential
//! through `refresh_token` instead.

use vstd::prelude::*;
use vstd::string::StringExecFns;
use crate::challenge;
use crate::challenge::{Challenge, ChallengeView};
use crate::errors::GateError;
use crate::post;
use crate::post::{Post, PostView};
use crate::session;
use crate::session::{SessionStore, SessionView};
use crate::text;
use crate::token;
use crate::token::{HumanityToken, TokenStore, TokenView, TOKEN_EXPIRY_NS};
use crate::verified::VerifiedIndex;

verus! {

/// The mathematical value of the whole gate: the four collections.
#[verifier::ext_equal]
pub struct GateView {
    pub sessions: Map<Seq<char>, SessionView>,
    pub verified: Map<Seq<char>, u64>,
    pub tokens: Map<Seq<char>, TokenView>,
    pub posts: Seq<PostView>,
}

/// The state holder: constructed once, owning all four collections.
pub struct Gate {
    sessions: SessionStore,
    verified: VerifiedIndex,
    tokens: TokenStore,
    posts: Vec<Post>,
}

impl View for Gate {
    type V = GateView;

    closed spec fn view(&self) -> GateView {
        GateView {
            sessions: self.sessions@,
            verified: self.verified@,
            tokens: self.tokens@,
            posts: post::views_of(self.posts@),
        }
    }
}

/// An identity may start a session unless it ever completed verification —
/// token expiry plays no part in this.
pub open spec fn can_start(g: GateView, id: Seq<char>) -> bool {
    !g.verified.contains_key(id)
}

/// The state a successful `start_session` leaves: a fresh session for the
/// identity, everything else untouched.
pub open spec fn after_start(g: GateView, id: Seq<char>, now: u64) -> GateView {
    GateView { sessions: g.sessions.insert(id, session::fresh_session(id, now)), ..g }
}

/// The state a successful `get_challenge` leaves: the fetched challenge
/// bound as the session's current one, everything else untouched.
pub open spec fn after_bind(g: GateView, id: Seq<char>, c: ChallengeView) -> GateView {
    GateView {
        sessions: g.sessions.insert(
            id,
            (SessionView { current_challenge: Some(c), ..g.sessions[id] }),
        ),
        ..g
    }
}

/// The state a scoring `verify_answer` leaves: the identity's completion
/// counter one higher, the current challenge kept.
pub open spec fn after_score(g: GateView, id: Seq<char>) -> GateView {
    GateView {
        sessions: g.sessions.insert(
            id,
            (SessionView {
                challenges_completed: (g.sessions[id].challenges_completed + 1) as u8,
                ..g.sessions[id]
            }),
        ),
        ..g
    }
}

/// Minting needs a session with at least three completed challenges.
pub open spec fn can_mint(g: GateView, id: Seq<char>) -> bool {
    g.sessions.contains_key(id) && g.sessions[id].challenges_completed >= 3
}

/// The state a successful `mint_proof` leaves: a fresh token, and the
/// identity permanently recorded as verified.
pub open spec fn after_mint(g: GateView, id: Seq<char>, now: u64) -> GateView {
    GateView {
        tokens: g.tokens.insert(id, token::minted_token(id, now)),
        verified: g.verified.insert(id, now),
        ..g
    }
}

/// Refreshing is a deliberately lower bar than minting: one completed
/// challenge suffices, and the current token's expiry plays no part.
pub open spec fn can_refresh(g: GateView, id: Seq<char>) -> bool {
    g.sessions.contains_key(id) && g.sessions[id].challenges_completed >= 1
}

/// The state a successful `refresh_token` leaves: a fresh token; unlike a
/// mint, the verified-humans index is untouched.
pub open spec fn after_refresh(g: GateView, id: Seq<char>, now: u64) -> GateView {
    GateView { tokens: g.tokens.insert(id, token::minted_token(id, now)), ..g }
}

/// The id a post created at time `now` carries.
pub open spec fn post_id_of(now: u64) -> Seq<char> {
    "post_"@ + text::dec_digits(now as int)
}

/// The post a successful `create_post` appends: trimmed fields, the id
/// derived from the timestamp, and the author always marked verified.
pub open spec fn new_post(id: Seq<char>, title: Seq<char>, content: Seq<char>, now: u64) -> PostView {
    PostView {
        id: post_id_of(now),
        title: text::trim_of(title),
        content: text::trim_of(content),
        author: id,
        created_at: now,
        author_verified: true,
    }
}

/// Posting needs a token valid right now and acceptable fields.
pub open spec fn can_post(
    g: GateView,
    id: Seq<char>,
    title: Seq<char>,
    content: Seq<char>,
    now: u64,
) -> bool {
    token::token_valid(g.tokens, id, now) && post::post_fault(title, content) is None
}

/// The state a successful `create_post` leaves: the new post appended.
pub open spec fn after_post(
    g: GateView,
    id: Seq<char>,
    title: Seq<char>,
    content: Seq<char>,
    now: u64,
) -> GateView {
    GateView { posts: g.posts.push(new_post(id, title, content, now)), ..g }
}

/// The confirmation message a successful mint carries.
pub open spec fn mint_message(id: Seq<char>) -> Seq<char> {
    "NFT minted and humanity token created for "@ + id
}

impl Gate {
    /// The structural invariant: each keyed store holds at most one record
    /// per identity.
    pub closed spec fn well_formed(self) -> bool {
        &&& self.sessions.well_formed()
        &&& self.verified.well_formed()
        &&& self.tokens.well_formed()
    }

    /// A gate with no sessions, no verified humans, no tokens and no posts.
    pub fn new() -> (g: Self)
        ensures
            g.well_formed(),
            g@.sessions == Map::<Seq<char>, SessionView>::empty(),
            g@.verified == Map::<Seq<char>, u64>::empty(),
            g@.tokens == Map::<Seq<char>, TokenView>::empty(),
            g@.posts == Seq::<PostView>::empty(),
    {
        let g = Gate {
            sessions: SessionStore::new(),
            verified: VerifiedIndex::new(),
            tokens: TokenStore::new(),
            posts: Vec::new(),
        };
        proof {
            assert(g@.posts =~= Seq::<PostView>::empty());
        }
        g
    }

    /// Starts (or restarts) a verification session. Blocked permanently for
    /// an identity that ever completed verification; otherwise the session
    /// is overwritten with a fresh one, counter at zero.
    pub fn start_session(&mut self, identity: &String, now: u64) -> (r: Result<String, GateError>)
        requires
            old(self).well_formed(),
        ensures
            final(self).well_formed(),
            r is Ok <==> can_start(old(self)@, identity@),
            r matches Ok(m) ==> m@ == "Session started"@ && final(self)@ == after_start(
                old(self)@,
                identity@,
                now,
            ),
            r matches Err(e) ==> e == GateError::AlreadyVerified && final(self)@ == old(self)@,
    {
        if self.verified.contains(identity) {
            return Err(GateError::AlreadyVerified);
        }
        self.sessions.start(identity, now);
        proof {
            assert(final(self)@ =~= after_start(old(self)@, identity@, now));
        }
        Ok("Session started".to_owned())
    }

    /// Fetches the fixed challenge of a slot and, when the identity has a
    /// session, binds it as the session's current challenge. An identity
    /// without a session still receives the challenge — only the binding is
    /// skipped. The completion counter never changes here.
    pub fn get_challenge(&mut self, identity: &String, slot: u8) -> (r: Result<
        Challenge,
        GateError,
    >)
        requires
            old(self).well_formed(),
        ensures
            final(self).well_formed(),
            r is Ok <==> 1 <= slot <= 3,
            r matches Err(e) ==> e == GateError::InvalidSlot && final(self)@ == old(self)@,
            r matches Ok(c) ==> {
                &&& c@ == challenge::slot_challenge(slot)
                &&& c@.well_formed()
                &&& old(self)@.sessions.contains_key(identity@) ==> final(self)@ == after_bind(
                    old(self)@,
                    identity@,
                    c@,
                )
                &&& !old(self)@.sessions.contains_key(identity@) ==> final(self)@ == old(self)@
            },
    {
        let c = match challenge::get_definition(slot) {
            Ok(c) => c,
            Err(e) => {
                return Err(e);
            },
        };
        let bound = c.clone();
        // An identity without a session still receives the challenge: the
        // failed binding is deliberately ignored.
        let bind_result = self.sessions.set_current(identity, bound);
        proof {
            if bind_result is Ok {
                assert(final(self)@ =~= after_bind(old(self)@, identity@, c@));
            } else {
                assert(final(self)@ =~= old(self)@);
            }
        }
        Ok(c)
    }

    /// Scores an answer against the session's current challenge. A correct
    /// answer advances the counter and returns true; a wrong one returns
    /// false and changes nothing; a missing session or a mismatched
    /// challenge id is an error. Attempts are unlimited.
    pub fn verify_answer(&mut self, identity: &String, challenge_id: &String, answer: u8) -> (r:
        Result<bool, GateError>)
        requires
            old(self).well_formed(),
            session::scores(old(self)@.sessions, identity@, challenge_id@, answer) ==> old(
                self,
            )@.sessions[identity@].challenges_completed < 255,
        ensures
            final(self).well_formed(),
            r == session::answer_outcome(old(self)@.sessions, identity@, challenge_id@, answer),
            session::scores(old(self)@.sessions, identity@, challenge_id@, answer) ==> final(self)@
                == after_score(old(self)@, identity@),
            !session::scores(old(self)@.sessions, identity@, challenge_id@, answer)
                ==> final(self)@ == old(self)@,
    {
        let r = self.sessions.record_answer(identity, challenge_id, answer);
        proof {
            if session::scores(old(self)@.sessions, identity@, challenge_id@, answer) {
                assert(final(self)@ =~= after_score(old(self)@, identity@));
            } else {
                assert(final(self)@ =~= old(self)@);
            }
        }
        r
    }

    /// Whether submitting `answer` against `challenge_id` would score a
    /// point right now — the test a host makes before [`Self::verify_answer`]
    /// wherever the completion counter might be full.
    pub fn answer_would_score(&self, identity: &String, challenge_id: &String, answer: u8) -> (r:
        bool)
        requires
            self.well_formed(),
        ensures
            r == session::scores(self@.sessions, identity@, challenge_id@, answer),
    {
        self.sessions.would_score(identity, challenge_id, answer)
    }

    /// How many challenges the identity has completed; zero without a
    /// session.
    pub fn completed_count(&self, identity: &String) -> (r: u8)
        requires
            self.well_formed(),
        ensures
            r == if self@.sessions.contains_key(identity@) {
                self@.sessions[identity@].challenges_completed
            } else {
                0
            },
    {
        self.sessions.completed_count(identity)
    }

    /// Mints the humanity credential once the full sequence of three
    /// challenges is completed: overwrites the token and permanently records
    /// the identity as verified. The session counter never resets, so an
    /// eligible identity may re-mint, each time with a fresh expiry.
    pub fn mint_proof(&mut self, identity: &String, now: u64) -> (r: Result<String, GateError>)
        requires
            old(self).well_formed(),
            can_mint(old(self)@, identity@) ==> now <= u64::MAX - TOKEN_EXPIRY_NS,
        ensures
            final(self).well_formed(),
            r is Ok <==> can_mint(old(self)@, identity@),
            r matches Ok(m) ==> m@ == mint_message(identity@) && final(self)@ == after_mint(
                old(self)@,
                identity@,
                now,
            ),
            !old(self)@.sessions.contains_key(identity@) ==> r == Err::<String, GateError>(
                GateError::NoActiveSession,
            ),
            old(self)@.sessions.contains_key(identity@) && old(
                self,
            )@.sessions[identity@].challenges_completed < 3 ==> r == Err::<String, GateError>(
                GateError::IncompleteChallenges,
            ),
            r is Err ==> final(self)@ == old(self)@,
    {
        if !self.sessions.contains(identity) {
            return Err(GateError::NoActiveSession);
        }
        if self.sessions.completed_count(identity) < 3 {
            return Err(GateError::IncompleteChallenges);
        }
        let _token = self.tokens.mint(identity, now);
        self.verified.record(identity, now);
        proof {
            assert(final(self)@ =~= after_mint(old(self)@, identity@, now));
        }
        Ok("NFT minted and humanity token created for ".to_owned().concat(identity.as_str()))
    }

    /// Extends an identity's credential after at least one completed
    /// challenge — the deliberately lower re-verification bar. Works whether
    /// or not the current token has already expired, and leaves the
    /// verified-humans index untouched.
    pub fn refresh_token(&mut self, identity: &String, now: u64) -> (r: Result<String, GateError>)
        requires
            old(self).well_formed(),
            can_refresh(old(self)@, identity@) ==> now <= u64::MAX - TOKEN_EXPIRY_NS,
        ensures
            final(self).well_formed(),
            r is Ok <==> can_refresh(old(self)@, identity@),
            r matches Ok(m) ==> m@ == "Token refreshed"@ && final(self)@ == after_refresh(
                old(self)@,
                identity@,
                now,
            ),
            r matches Err(e) ==> e == GateError::NotEligible && final(self)@ == old(self)@,
    {
        let eligible = if self.sessions.contains(identity) {
            self.sessions.completed_count(identity) >= 1
        } else {
            false
        };
        if !eligible {
            return Err(GateError::NotEligible);
        }
        let _token = self.tokens.mint(identity, now);
        proof {
            assert(final(self)@ =~= after_refresh(old(self)@, identity@, now));
        }
        Ok("Token refreshed".to_owned())
    }

    /// Reads the identity's credential: absent and expired tokens are
    /// reported distinctly, a live one is returned unmodified.
    pub fn check_humanity_status(&self, identity: &String, now: u64) -> (r: Result<
        HumanityToken,
        GateError,
    >)
        requires
            self.well_formed(),
        ensures
            !self@.tokens.contains_key(identity@) ==> r == Err::<HumanityToken, GateError>(
                GateError::NotFound,
            ),
            self@.tokens.contains_key(identity@) && self@.tokens[identity@].expires_at <= now ==> r
                == Err::<HumanityToken, GateError>(GateError::Expired),
            self@.tokens.contains_key(identity@) && self@.tokens[identity@].expires_at > now ==> (
            r matches Ok(t) && t@ == self@.tokens[identity@]),
    {
        self.tokens.status(identity, now)
    }

    /// The gated write action. Validity of the token is recomputed fresh on
    /// every call; an absent or expired token is the distinguished
    /// re-verification error, then the fields are validated, and only then
    /// is the post appended.
    ///
    /// The post id derives from the timestamp alone, so two posts created
    /// at the same instant share an id — a known limitation, kept as
    /// designed.
    pub fn create_post(
        &mut self,
        identity: &String,
        title: &String,
        content: &String,
        now: u64,
    ) -> (r: Result<String, GateError>)
        requires
            old(self).well_formed(),
        ensures
            final(self).well_formed(),
            r is Ok <==> can_post(old(self)@, identity@, title@, content@, now),
            !token::token_valid(old(self)@.tokens, identity@, now) ==> r == Err::<
                String,
                GateError,
            >(GateError::ChallengeRequired),
            token::token_valid(old(self)@.tokens, identity@, now) ==> (match post::post_fault(
                title@,
                content@,
            ) {
                Some(f) => r == Err::<String, GateError>(GateError::ValidationError(f)),
                None => r matches Ok(pid) && pid@ == post_id_of(now),
            }),
            r is Ok ==> final(self)@ == after_post(old(self)@, identity@, title@, content@, now),
            r is Err ==> final(self)@ == old(self)@,
    {
        if !self.tokens.is_valid(identity, now) {
            return Err(GateError::ChallengeRequired);
        }
        let trimmed_title = text::trim_str(title.as_str()).to_owned();
        let trimmed_content = text::trim_str(content.as_str()).to_owned();
        if trimmed_title.as_str().is_empty() || trimmed_content.as_str().is_empty() {
            return Err(GateError::ValidationError(crate::errors::ValidationFault::MissingText));
        }
        if title.as_str().len() > post::MAX_TITLE_BYTES {
            return Err(GateError::ValidationError(crate::errors::ValidationFault::TitleTooLong));
        }
        if content.as_str().len() > post::MAX_CONTENT_BYTES {
            return Err(GateError::ValidationError(crate::errors::ValidationFault::ContentTooLong));
        }
        let id_digits = text::u64_to_dec(now);
        let post_id = "post_".to_owned().concat(id_digits.as_str());
        let new = Post {
            id: post_id.clone(),
            title: trimmed_title,
            content: trimmed_content,
            author: identity.clone(),
            created_at: now,
            author_verified: true,
        };
        self.posts.push(new);
        proof {
            assert(post::views_of(self.posts@) =~= post::views_of(old(self).posts@).push(
                new_post(identity@, title@, content@, now),
            ));
            assert(final(self)@ =~= after_post(old(self)@, identity@, title@, content@, now));
        }
        Ok(post_id)
    }

    /// Lists every post, newest first: the result is a permutation of the
    /// stored posts whose `created_at` never increases along the list.
    pub fn get_all_posts(&self) -> (r: Vec<Post>)
        ensures
            post::sorted_newest_first(post::views_of(r@)),
            post::views_of(r@).to_multiset() == self@.posts.to_multiset(),
    {
        post::sort_posts_newest_first(&self.posts)
    }
}

/// Law: restarting is an idempotent overwrite. A never-verified identity
/// may start a session, remains never-verified afterwards (so a second
/// start succeeds too), and each start leaves the completion counter at
/// zero.
pub proof fn lemma_restart_resets(g: GateView, id: Seq<char>, t1: u64, t2: u64)
    requires
        can_start(g, id),
    ensures
        after_start(g, id, t1).sessions[id].challenges_completed == 0,
        can_start(after_start(g, id, t1), id),
        after_start(after_start(g, id, t1), id, t2).sessions[id].challenges_completed == 0,
{
}

/// Law: minting is possible exactly from three completed challenges on —
/// never below three, always at exactly three.
pub proof fn lemma_mint_threshold(g: GateView, id: Seq<char>)
    requires
        g.sessions.contains_key(id),
    ensures
        g.sessions[id].challenges_completed < 3 ==> !can_mint(g, id),
        g.sessions[id].challenges_completed == 3 ==> can_mint(g, id),
{
}

/// Law: refreshing is possible from one completed challenge on — never at
/// zero, always at exactly one.
pub proof fn lemma_refresh_threshold(g: GateView, id: Seq<char>)
    requires
        g.sessions.contains_key(id),
    ensures
        g.sessions[id].challenges_completed == 0 ==> !can_refresh(g, id),
        g.sessions[id].challenges_completed == 1 ==> can_refresh(g, id),
{
}

/// Law: a submission whose challenge id mismatches the session's current
/// challenge is rejected as invalid, whatever the answer value.
pub proof fn lemma_mismatch_rejected(
    m: Map<Seq<char>, SessionView>,
    id: Seq<char>,
    cid: Seq<char>,
)
    requires
        m.contains_key(id),
        match m[id].current_challenge {
            Some(c) => c.id != cid,
            None => true,
        },
    ensures
        forall|answer: u8|
            session::answer_outcome(m, id, cid, answer) == Err::<bool, GateError>(
                GateError::InvalidChallenge,
            ),
{
}

/// Law: posting is blocked with the distinguished re-verification error
/// exactly when the identity's token is absent or already expired.
pub proof fn lemma_post_needs_live_token(g: GateView, id: Seq<char>, now: u64)
    ensures
        (!g.tokens.contains_key(id) || g.tokens[id].expires_at <= now) <==> !token::token_valid(
            g.tokens,
            id,
            now,
        ),
{
}

} // verus!
