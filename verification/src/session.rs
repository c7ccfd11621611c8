//! The session store: per-identity progress through the challenge sequence.
//!
//! One session per identity, created by [`SessionStore::start`] (an
//! unconditional overwrite — the protocol layer, not this store, decides who
//! may start). Sessions are never deleted.

use vstd::prelude::*;
use crate::challenge::{Challenge, ChallengeView};
use crate::errors::GateError;
use crate::kv;

verus! {

/// Per-identity verification progress.
pub struct UserSession {
    pub principal: String,
    pub challenges_completed: u8,
    pub current_challenge: Option<Challenge>,
    pub started_at: u64,
    pub completed_at: Option<u64>,
}

/// The mathematical value of a [`UserSession`].
pub struct SessionView {
    pub principal: Seq<char>,
    pub challenges_completed: u8,
    pub current_challenge: Option<ChallengeView>,
    pub started_at: u64,
    pub completed_at: Option<u64>,
}

impl View for UserSession {
    type V = SessionView;

    open spec fn view(&self) -> SessionView {
        SessionView {
            principal: self.principal@,
            challenges_completed: self.challenges_completed,
            current_challenge: match self.current_challenge {
                Some(c) => Some(c@),
                None => None,
            },
            started_at: self.started_at,
            completed_at: self.completed_at,
        }
    }
}

/// The session a fresh start yields: counter at zero, no current challenge.
pub open spec fn fresh_session(id: Seq<char>, now: u64) -> SessionView {
    SessionView {
        principal: id,
        challenges_completed: 0,
        current_challenge: None,
        started_at: now,
        completed_at: None,
    }
}

/// What submitting `answer` against the challenge id `cid` yields on the
/// sessions `m`: no session at all is one error, a missing or mismatched
/// current challenge another, and a matching id compares the answer to the
/// challenge's correct index.
pub open spec fn answer_outcome(
    m: Map<Seq<char>, SessionView>,
    id: Seq<char>,
    cid: Seq<char>,
    answer: u8,
) -> Result<bool, GateError> {
    if !m.contains_key(id) {
        Err(GateError::NoActiveSession)
    } else {
        match m[id].current_challenge {
            None => Err(GateError::InvalidChallenge),
            Some(c) => if c.id != cid {
                Err(GateError::InvalidChallenge)
            } else {
                Ok(c.correct_answer == answer)
            },
        }
    }
}

/// Whether submitting `answer` against `cid` scores a point: a session
/// exists, its current challenge carries exactly the id `cid`, and the
/// answer is the correct one.
pub open spec fn scores(
    m: Map<Seq<char>, SessionView>,
    id: Seq<char>,
    cid: Seq<char>,
    answer: u8,
) -> bool {
    answer_outcome(m, id, cid, answer) == Ok::<bool, GateError>(true)
}

/// The sessions, keyed by identity.
pub struct SessionStore {
    sessions: Vec<UserSession>,
}

impl SessionStore {
    /// The pair-sequence reading of the store.
    closed spec fn pairs(self) -> Seq<(Seq<char>, SessionView)> {
        self.sessions@.map_values(|s: UserSession| (s.principal@, s@))
    }

    /// Distinct identities: at most one session per identity.
    pub closed spec fn well_formed(self) -> bool {
        kv::unique_keys(self.pairs())
    }

    pub fn new() -> (s: Self)
        ensures
            s.well_formed(),
            s@ == Map::<Seq<char>, SessionView>::empty(),
    {
        let s = SessionStore { sessions: Vec::new() };
        proof {
            assert(s.pairs() =~= Seq::<(Seq<char>, SessionView)>::empty());
            kv::lemma_map_of_empty::<SessionView>();
        }
        s
    }

    /// The index holding `identity`, if any.
    fn find(&self, identity: &String) -> (r: Option<usize>)
        requires
            self.well_formed(),
        ensures
            match r {
                Some(i) => {
                    &&& i < self.sessions@.len()
                    &&& self.sessions@[i as int].principal@ == identity@
                    &&& self@.contains_key(identity@)
                    &&& self@[identity@] == self.sessions@[i as int]@
                },
                None => !self@.contains_key(identity@),
            },
    {
        let mut i: usize = 0;
        while i < self.sessions.len()
            invariant
                self.well_formed(),
                i <= self.sessions@.len(),
                forall|j: int| 0 <= j < i ==> self.sessions@[j].principal@ != identity@,
            decreases self.sessions@.len() - i,
        {
            if self.sessions[i].principal == *identity {
                proof {
                    kv::lemma_found_index(self.pairs(), i as int);
                }
                return Some(i);
            }
            i += 1;
        }
        proof {
            assert forall|w: int|
                0 <= w < self.pairs().len() implies self.pairs()[w].0 != identity@ by {}
        }
        None
    }

    /// Whether the identity has a session.
    pub fn contains(&self, identity: &String) -> (r: bool)
        requires
            self.well_formed(),
        ensures
            r == self@.contains_key(identity@),
    {
        self.find(identity).is_some()
    }

    /// How many challenges the identity has completed; zero when it has no
    /// session.
    pub fn completed_count(&self, identity: &String) -> (r: u8)
        requires
            self.well_formed(),
        ensures
            r == if self@.contains_key(identity@) {
                self@[identity@].challenges_completed
            } else {
                0
            },
    {
        match self.find(identity) {
            Some(i) => self.sessions[i].challenges_completed,
            None => 0,
        }
    }

    /// Whether submitting `answer` against `cid` would score a point — the
    /// test a caller makes before [`Self::record_answer`] wherever the
    /// completion counter might be full.
    pub fn would_score(&self, identity: &String, challenge_id: &String, answer: u8) -> (r: bool)
        requires
            self.well_formed(),
        ensures
            r == scores(self@, identity@, challenge_id@, answer),
    {
        match self.find(identity) {
            None => false,
            Some(i) => match &self.sessions[i].current_challenge {
                None => false,
                Some(c) => c.id == *challenge_id && c.correct_answer == answer,
            },
        }
    }

    /// Creates a fresh session for the identity, unconditionally replacing
    /// any session it already had.
    pub fn start(&mut self, identity: &String, now: u64)
        requires
            old(self).well_formed(),
        ensures
            final(self).well_formed(),
            final(self)@ == old(self)@.insert(identity@, fresh_session(identity@, now)),
    {
        let session = UserSession {
            principal: identity.clone(),
            challenges_completed: 0,
            current_challenge: None,
            started_at: now,
            completed_at: None,
        };
        self.replace_or_append(session);
    }

    /// Binds `challenge` as the session's current challenge; an identity
    /// without a session is an error, and nothing changes then.
    pub fn set_current(&mut self, identity: &String, challenge: Challenge) -> (r: Result<
        (),
        GateError,
    >)
        requires
            old(self).well_formed(),
        ensures
            final(self).well_formed(),
            r is Ok <==> old(self)@.contains_key(identity@),
            r is Ok ==> final(self)@ == old(self)@.insert(
                identity@,
                (SessionView {
                    current_challenge: Some(challenge@),
                    ..old(self)@[identity@]
                }),
            ),
            r matches Err(e) ==> e == GateError::NoActiveSession && final(self)@ == old(self)@,
    {
        match self.find(identity) {
            Some(i) => {
                let ghost pre = self.pairs();
                let mut session = self.sessions.remove(i);
                session.current_challenge = Some(challenge);
                self.sessions.insert(i, session);
                proof {
                    assert(self.pairs() =~= pre.update(i as int, (identity@, session@)));
                    kv::lemma_map_of_update(pre, i as int, session@);
                }
                Ok(())
            },
            None => Err(GateError::NoActiveSession),
        }
    }

    /// Scores `answer` against the session's current challenge: a matching
    /// challenge id compares the answer to the correct index, and a correct
    /// answer advances the completion counter. The current challenge is not
    /// cleared afterwards (resubmitting the same id can score again — a
    /// faithfully kept quirk of the design).
    pub fn record_answer(&mut self, identity: &String, challenge_id: &String, answer: u8) -> (r:
        Result<bool, GateError>)
        requires
            old(self).well_formed(),
            scores(old(self)@, identity@, challenge_id@, answer) ==> old(
                self,
            )@[identity@].challenges_completed < 255,
        ensures
            final(self).well_formed(),
            r == answer_outcome(old(self)@, identity@, challenge_id@, answer),
            scores(old(self)@, identity@, challenge_id@, answer) ==> final(self)@ == old(
                self,
            )@.insert(
                identity@,
                (SessionView {
                    challenges_completed: (old(self)@[identity@].challenges_completed + 1) as u8,
                    ..old(self)@[identity@]
                }),
            ),
            !scores(old(self)@, identity@, challenge_id@, answer) ==> final(self)@ == old(self)@,
    {
        let i = match self.find(identity) {
            Some(i) => i,
            None => {
                return Err(GateError::NoActiveSession);
            },
        };
        let (id_matches, is_correct) = match &self.sessions[i].current_challenge {
            None => {
                return Err(GateError::InvalidChallenge);
            },
            Some(c) => (c.id == *challenge_id, c.correct_answer == answer),
        };
        if !id_matches {
            return Err(GateError::InvalidChallenge);
        }
        if is_correct {
            let ghost pre = self.pairs();
            let mut session = self.sessions.remove(i);
            session.challenges_completed = session.challenges_completed + 1;
            self.sessions.insert(i, session);
            proof {
                assert(self.pairs() =~= pre.update(i as int, (identity@, session@)));
                kv::lemma_map_of_update(pre, i as int, session@);
            }
            Ok(true)
        } else {
            Ok(false)
        }
    }
}

impl View for SessionStore {
    type V = Map<Seq<char>, SessionView>;

    closed spec fn view(&self) -> Map<Seq<char>, SessionView> {
        kv::map_of(self.pairs())
    }
}

impl SessionStore {
    /// Stores `session` under its own principal, replacing any session that
    /// principal already had.
    fn replace_or_append(&mut self, session: UserSession)
        requires
            old(self).well_formed(),
        ensures
            final(self).well_formed(),
            final(self)@ == old(self)@.insert(session.principal@, session@),
    {
        let key = session.principal.clone();
        match self.find(&key) {
            Some(i) => {
                let ghost pre = self.pairs();
                let _replaced = self.sessions.remove(i);
                self.sessions.insert(i, session);
                proof {
                    assert(self.pairs() =~= pre.update(
                        i as int,
                        (self.sessions@[i as int].principal@, self.sessions@[i as int]@),
                    ));
                    kv::lemma_map_of_update(pre, i as int, self.sessions@[i as int]@);
                }
            },
            None => {
                let ghost pre = self.pairs();
                self.sessions.push(session);
                proof {
                    let last = self.sessions@[self.sessions@.len() - 1];
                    assert(self.pairs() =~= pre.push((last.principal@, last@)));
                    kv::lemma_map_of_push(pre, last.principal@, last@);
                }
            },
        }
    }
}

} // verus!
