//! The fixed challenge catalog: stable content, well-formed structure.

use humanity_gate::challenge::{
    create_color_sequence_challenge, create_rotation_challenge, create_transformation_challenge,
    Challenge, ChallengeType, Color,
};
use humanity_gate::protocol::Gate;

fn check_shape(c: &Challenge) {
    assert_eq!(c.options.len(), 4);
    assert!((c.correct_answer as usize) < c.options.len());
    assert_eq!(c.grid.len(), 2);
    for row in &c.grid {
        assert_eq!(row.len(), 2);
    }
    for option in &c.options {
        assert_eq!(option.len(), 2);
        for row in option {
            assert_eq!(row.len(), 2);
        }
    }
}

#[test]
fn rotation_challenge_is_fixed() {
    let c = create_rotation_challenge();
    check_shape(&c);
    assert_eq!(c.id, "rotation_1");
    assert_eq!(c.correct_answer, 0);
    assert_eq!(c.challenge_type, ChallengeType::Rotation);
    assert_eq!(c.grid[0][0].color, Color::R);
    assert_eq!(c.grid[0][1].color, Color::B);
    // The correct option is the rotated grid.
    assert_eq!(c.options[0][0][0].color, Color::B);
    assert_eq!(c.options[0][0][1].color, Color::R);
}

#[test]
fn sequence_challenge_is_fixed() {
    let c = create_color_sequence_challenge();
    check_shape(&c);
    assert_eq!(c.id, "sequence_1");
    assert_eq!(c.correct_answer, 1);
    assert_eq!(c.challenge_type, ChallengeType::Sequence);
    assert_eq!(c.grid[1][1].color, Color::Y);
}

#[test]
fn transformation_challenge_is_fixed() {
    let c = create_transformation_challenge();
    check_shape(&c);
    assert_eq!(c.id, "transform_1");
    assert_eq!(c.correct_answer, 2);
    assert_eq!(c.challenge_type, ChallengeType::Transformation);
    assert_eq!(c.options[2][0][0].color, Color::B);
}

#[test]
fn same_slot_returns_the_same_challenge_every_time() {
    let mut gate = Gate::new();
    let who = "anyone".to_string();
    // No session is needed to fetch a challenge; binding is simply skipped.
    let first = gate.get_challenge(&who, 1).unwrap();
    let again = gate.get_challenge(&who, 1).unwrap();
    assert_eq!(first.id, again.id);
    assert_eq!(first.correct_answer, again.correct_answer);
}
