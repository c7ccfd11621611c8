//! End-to-end scenarios for the verification gate.

use humanity_gate::errors::GateError;
use humanity_gate::protocol::Gate;
use humanity_gate::token::TOKEN_EXPIRY_NS;

fn id(s: &str) -> String {
    s.to_string()
}

fn complete_all_challenges(gate: &mut Gate, who: &String) {
    gate.get_challenge(who, 1).unwrap();
    assert_eq!(gate.verify_answer(who, &id("rotation_1"), 0), Ok(true));
    gate.get_challenge(who, 2).unwrap();
    assert_eq!(gate.verify_answer(who, &id("sequence_1"), 1), Ok(true));
    gate.get_challenge(who, 3).unwrap();
    assert_eq!(gate.verify_answer(who, &id("transform_1"), 2), Ok(true));
}

#[test]
fn end_to_end_verification_and_posting() {
    let mut gate = Gate::new();
    let x = id("identity-x");

    assert!(gate.start_session(&x, 10).is_ok());

    gate.get_challenge(&x, 1).unwrap();
    assert_eq!(gate.verify_answer(&x, &id("rotation_1"), 0), Ok(true));
    assert_eq!(gate.completed_count(&x), 1);

    gate.get_challenge(&x, 2).unwrap();
    assert_eq!(gate.verify_answer(&x, &id("sequence_1"), 1), Ok(true));
    assert_eq!(gate.completed_count(&x), 2);

    gate.get_challenge(&x, 3).unwrap();
    assert_eq!(gate.verify_answer(&x, &id("transform_1"), 2), Ok(true));
    assert_eq!(gate.completed_count(&x), 3);

    assert!(gate.mint_proof(&x, 100).is_ok());

    let post_id = gate
        .create_post(&x, &id("Hi"), &id("Hello world"), 150)
        .unwrap();
    assert_eq!(post_id, "post_150");

    let posts = gate.get_all_posts();
    assert_eq!(posts.len(), 1);
    assert_eq!(posts[0].id, "post_150");
    assert_eq!(posts[0].title, "Hi");
    assert_eq!(posts[0].content, "Hello world");
    assert_eq!(posts[0].author, "identity-x");
    assert_eq!(posts[0].created_at, 150);
    assert!(posts[0].author_verified);
}

#[test]
fn posting_without_any_session_is_challenge_required() {
    let mut gate = Gate::new();
    let y = id("identity-y");
    let r = gate.create_post(&y, &id("Title"), &id("Content"), 5);
    assert_eq!(r, Err(GateError::ChallengeRequired));
}

#[test]
fn expired_token_is_reported_and_blocks_posting() {
    let mut gate = Gate::new();
    let z = id("identity-z");
    gate.start_session(&z, 0).unwrap();
    complete_all_challenges(&mut gate, &z);
    gate.mint_proof(&z, 1000).unwrap();

    // Still valid strictly before the expiry instant.
    assert!(gate.check_humanity_status(&z, 1000 + TOKEN_EXPIRY_NS - 1).is_ok());

    // From the expiry instant on: expired, and posting is blocked.
    let late = 1000 + TOKEN_EXPIRY_NS;
    assert_eq!(
        gate.check_humanity_status(&z, late).err(),
        Some(GateError::Expired)
    );
    assert_eq!(
        gate.create_post(&z, &id("Title"), &id("Content"), late),
        Err(GateError::ChallengeRequired)
    );
}

#[test]
fn restart_succeeds_twice_and_resets_counter() {
    let mut gate = Gate::new();
    let a = id("identity-a");
    assert!(gate.start_session(&a, 1).is_ok());
    gate.get_challenge(&a, 1).unwrap();
    assert_eq!(gate.verify_answer(&a, &id("rotation_1"), 0), Ok(true));
    assert_eq!(gate.completed_count(&a), 1);

    assert!(gate.start_session(&a, 2).is_ok());
    assert_eq!(gate.completed_count(&a), 0);
}

#[test]
fn mint_needs_exactly_three_completed_challenges() {
    let mut gate = Gate::new();
    let a = id("identity-a");
    gate.start_session(&a, 1).unwrap();
    assert_eq!(gate.mint_proof(&a, 2), Err(GateError::IncompleteChallenges));

    gate.get_challenge(&a, 1).unwrap();
    assert_eq!(gate.verify_answer(&a, &id("rotation_1"), 0), Ok(true));
    gate.get_challenge(&a, 2).unwrap();
    assert_eq!(gate.verify_answer(&a, &id("sequence_1"), 1), Ok(true));
    assert_eq!(gate.mint_proof(&a, 3), Err(GateError::IncompleteChallenges));

    gate.get_challenge(&a, 3).unwrap();
    assert_eq!(gate.verify_answer(&a, &id("transform_1"), 2), Ok(true));
    let minted = gate.mint_proof(&a, 4).unwrap();
    assert_eq!(minted, "NFT minted and humanity token created for identity-a");

    // The counter never resets, so a re-mint succeeds with a fresh window.
    assert!(gate.mint_proof(&a, 5).is_ok());
}

#[test]
fn mint_without_session_is_no_active_session() {
    let mut gate = Gate::new();
    assert_eq!(
        gate.mint_proof(&id("nobody"), 1),
        Err(GateError::NoActiveSession)
    );
}

#[test]
fn refresh_needs_one_completed_challenge() {
    let mut gate = Gate::new();
    let a = id("identity-a");

    // No session at all: not eligible.
    assert_eq!(gate.refresh_token(&a, 1), Err(GateError::NotEligible));

    // A session with zero completed challenges: still not eligible.
    gate.start_session(&a, 1).unwrap();
    assert_eq!(gate.refresh_token(&a, 2), Err(GateError::NotEligible));

    // One correct answer suffices.
    gate.get_challenge(&a, 1).unwrap();
    assert_eq!(gate.verify_answer(&a, &id("rotation_1"), 0), Ok(true));
    assert_eq!(gate.refresh_token(&a, 3), Ok("Token refreshed".to_string()));

    let token = gate.check_humanity_status(&a, 4).unwrap();
    assert_eq!(token.verified_at, 3);
    assert_eq!(token.expires_at, 3 + TOKEN_EXPIRY_NS);
}

#[test]
fn refresh_works_even_after_expiry() {
    let mut gate = Gate::new();
    let z = id("identity-z");
    gate.start_session(&z, 0).unwrap();
    complete_all_challenges(&mut gate, &z);
    gate.mint_proof(&z, 10).unwrap();

    let late = 10 + TOKEN_EXPIRY_NS + 5;
    assert_eq!(
        gate.check_humanity_status(&z, late).err(),
        Some(GateError::Expired)
    );
    assert!(gate.refresh_token(&z, late).is_ok());
    assert!(gate.check_humanity_status(&z, late + 1).is_ok());
}

#[test]
fn start_session_is_blocked_forever_after_minting() {
    let mut gate = Gate::new();
    let z = id("identity-z");
    gate.start_session(&z, 0).unwrap();
    complete_all_challenges(&mut gate, &z);
    gate.mint_proof(&z, 10).unwrap();

    // Even long after the token expired, the block stands.
    let late = 10 + 2 * TOKEN_EXPIRY_NS;
    assert_eq!(gate.start_session(&z, late), Err(GateError::AlreadyVerified));
}

#[test]
fn mismatched_challenge_id_is_invalid_whatever_the_answer() {
    let mut gate = Gate::new();
    let a = id("identity-a");
    gate.start_session(&a, 1).unwrap();
    gate.get_challenge(&a, 1).unwrap();
    for answer in 0..4u8 {
        assert_eq!(
            gate.verify_answer(&a, &id("sequence_1"), answer),
            Err(GateError::InvalidChallenge)
        );
    }
    // The counter is untouched by the rejected submissions.
    assert_eq!(gate.completed_count(&a), 0);
}

#[test]
fn answer_before_any_challenge_is_invalid() {
    let mut gate = Gate::new();
    let a = id("identity-a");
    gate.start_session(&a, 1).unwrap();
    assert_eq!(
        gate.verify_answer(&a, &id("rotation_1"), 0),
        Err(GateError::InvalidChallenge)
    );
}

#[test]
fn answer_without_session_is_no_active_session() {
    let mut gate = Gate::new();
    assert_eq!(
        gate.verify_answer(&id("nobody"), &id("rotation_1"), 0),
        Err(GateError::NoActiveSession)
    );
}

#[test]
fn wrong_answer_returns_false_and_keeps_counter() {
    let mut gate = Gate::new();
    let a = id("identity-a");
    gate.start_session(&a, 1).unwrap();
    gate.get_challenge(&a, 1).unwrap();
    assert_eq!(gate.verify_answer(&a, &id("rotation_1"), 2), Ok(false));
    assert_eq!(gate.completed_count(&a), 0);
    // A retry with the correct answer then scores.
    assert_eq!(gate.verify_answer(&a, &id("rotation_1"), 0), Ok(true));
    assert_eq!(gate.completed_count(&a), 1);
}

#[test]
fn invalid_slot_is_rejected() {
    let mut gate = Gate::new();
    let a = id("identity-a");
    gate.start_session(&a, 1).unwrap();
    assert!(matches!(
        gate.get_challenge(&a, 0),
        Err(GateError::InvalidSlot)
    ));
    assert!(matches!(
        gate.get_challenge(&a, 4),
        Err(GateError::InvalidSlot)
    ));
}

#[test]
fn status_without_token_is_not_found() {
    let gate = Gate::new();
    assert_eq!(
        gate.check_humanity_status(&id("nobody"), 1).err(),
        Some(GateError::NotFound)
    );
}

#[test]
fn answer_would_score_mirrors_verify_answer() {
    let mut gate = Gate::new();
    let a = id("identity-a");
    assert!(!gate.answer_would_score(&a, &id("rotation_1"), 0));

    gate.start_session(&a, 1).unwrap();
    assert!(!gate.answer_would_score(&a, &id("rotation_1"), 0));

    gate.get_challenge(&a, 1).unwrap();
    assert!(gate.answer_would_score(&a, &id("rotation_1"), 0));
    assert!(!gate.answer_would_score(&a, &id("rotation_1"), 1));
    assert!(!gate.answer_would_score(&a, &id("sequence_1"), 0));
    assert_eq!(gate.verify_answer(&a, &id("rotation_1"), 0), Ok(true));
}
