//! Post validation, identifiers and listing order.

use humanity_gate::errors::{GateError, ValidationFault};
use humanity_gate::protocol::Gate;

fn id(s: &str) -> String {
    s.to_string()
}

fn verified_gate(who: &String) -> Gate {
    let mut gate = Gate::new();
    gate.start_session(who, 0).unwrap();
    gate.get_challenge(who, 1).unwrap();
    assert_eq!(gate.verify_answer(who, &id("rotation_1"), 0), Ok(true));
    gate.get_challenge(who, 2).unwrap();
    assert_eq!(gate.verify_answer(who, &id("sequence_1"), 1), Ok(true));
    gate.get_challenge(who, 3).unwrap();
    assert_eq!(gate.verify_answer(who, &id("transform_1"), 2), Ok(true));
    gate.mint_proof(who, 1).unwrap();
    gate
}

#[test]
fn post_fields_are_trimmed_before_storage() {
    let a = id("author");
    let mut gate = verified_gate(&a);
    gate.create_post(&a, &id("  Hi  "), &id("\tHello world\n"), 7)
        .unwrap();
    let posts = gate.get_all_posts();
    assert_eq!(posts[0].title, "Hi");
    assert_eq!(posts[0].content, "Hello world");
}

#[test]
fn whitespace_only_fields_are_missing_text() {
    let a = id("author");
    let mut gate = verified_gate(&a);
    assert_eq!(
        gate.create_post(&a, &id("   "), &id("Content"), 7),
        Err(GateError::ValidationError(ValidationFault::MissingText))
    );
    assert_eq!(
        gate.create_post(&a, &id("Title"), &id(" \t "), 7),
        Err(GateError::ValidationError(ValidationFault::MissingText))
    );
    assert!(gate.get_all_posts().is_empty());
}

#[test]
fn title_over_200_bytes_is_rejected() {
    let a = id("author");
    let mut gate = verified_gate(&a);
    let long_title = "t".repeat(201);
    assert_eq!(
        gate.create_post(&a, &long_title, &id("Content"), 7),
        Err(GateError::ValidationError(ValidationFault::TitleTooLong))
    );
    // Exactly 200 bytes is accepted.
    let edge_title = "t".repeat(200);
    assert!(gate.create_post(&a, &edge_title, &id("Content"), 7).is_ok());
}

#[test]
fn content_over_5000_bytes_is_rejected() {
    let a = id("author");
    let mut gate = verified_gate(&a);
    let long_content = "c".repeat(5001);
    assert_eq!(
        gate.create_post(&a, &id("Title"), &long_content, 7),
        Err(GateError::ValidationError(ValidationFault::ContentTooLong))
    );
    let edge_content = "c".repeat(5000);
    assert!(gate
        .create_post(&a, &id("Title"), &edge_content, 7)
        .is_ok());
}

#[test]
fn post_id_is_the_decimal_timestamp() {
    let a = id("author");
    let mut gate = verified_gate(&a);
    assert_eq!(
        gate.create_post(&a, &id("Title"), &id("Content"), 1234567890),
        Ok("post_1234567890".to_string())
    );
    assert_eq!(
        gate.create_post(&a, &id("Title"), &id("Content"), 0),
        Ok("post_0".to_string())
    );
}

#[test]
fn listing_is_newest_first_for_any_insertion_order() {
    let a = id("author");
    let mut gate = verified_gate(&a);
    gate.create_post(&a, &id("first"), &id("Content"), 100).unwrap();
    gate.create_post(&a, &id("second"), &id("Content"), 50).unwrap();
    gate.create_post(&a, &id("third"), &id("Content"), 200).unwrap();
    gate.create_post(&a, &id("fourth"), &id("Content"), 100).unwrap();

    let posts = gate.get_all_posts();
    assert_eq!(posts.len(), 4);
    let stamps: Vec<u64> = posts.iter().map(|p| p.created_at).collect();
    for w in stamps.windows(2) {
        assert!(w[0] >= w[1]);
    }
    assert_eq!(stamps[0], 200);
    assert_eq!(stamps[3], 50);
}

#[test]
fn listing_leaves_the_store_unchanged() {
    let a = id("author");
    let mut gate = verified_gate(&a);
    gate.create_post(&a, &id("one"), &id("Content"), 9).unwrap();
    let first = gate.get_all_posts();
    let second = gate.get_all_posts();
    assert_eq!(first.len(), 1);
    assert_eq!(second.len(), 1);
    assert_eq!(first[0].id, second[0].id);
}
