use rusty_dice::dice::{dice_dots, roll_dice};
use rusty_dice::error::ActionError;

#[test]
fn test_roll_dice_range() {
    for _ in 0..1000 {
        let result = roll_dice();
        assert!(result >= 1 && result <= 6, "Dice roll {} is not in range 1-6", result);
    }
}

#[test]
fn test_roll_dice_distribution() {
    let mut counts = [0; 6];
    let num_rolls = 10000;

    for _ in 0..num_rolls {
        let result = roll_dice();
        counts[(result - 1) as usize] += 1;
    }

    // Check that each number appears at least once
    for (i, &count) in counts.iter().enumerate() {
        assert!(count > 0, "Number {} never appeared in {} rolls", i + 1, num_rolls);
    }

    // Check that distribution is roughly uniform (within 20% of expected)
    let expected = num_rolls / 6;
    for (i, &count) in counts.iter().enumerate() {
        let deviation = (count as f32 - expected as f32).abs() / expected as f32;
        assert!(
            deviation < 0.2,
            "Number {} appeared {} times (expected ~{}), deviation: {:.2}",
            i + 1,
            count,
            expected,
            deviation
        );
    }
}

#[test]
fn each_face_has_its_layout_of_dots() {
    assert_eq!(dice_dots(1), vec![(0, 0)]);
    assert_eq!(dice_dots(2), vec![(-1, -1), (1, 1)]);
    assert_eq!(dice_dots(3), vec![(-1, -1), (0, 0), (1, 1)]);
    assert_eq!(dice_dots(4), vec![(-1, -1), (1, -1), (-1, 1), (1, 1)]);
    assert_eq!(dice_dots(5), vec![(-1, -1), (1, -1), (0, 0), (-1, 1), (1, 1)]);
    assert_eq!(dice_dots(6), vec![(-1, -1), (1, -1), (-1, 0), (1, 0), (-1, 1), (1, 1)]);
}

#[test]
fn face_shows_as_many_dots_as_it_counts() {
    for face in 1..=6u8 {
        let dots = dice_dots(face);
        assert_eq!(dots.len(), face as usize);
        for (k, dot) in dots.iter().enumerate() {
            assert!((-1..=1).contains(&dot.0) && (-1..=1).contains(&dot.1));
            assert!(!dots[..k].contains(dot));
        }
    }
}

#[test]
fn what_is_no_face_has_no_dots() {
    assert!(dice_dots(0).is_empty());
    for value in 7..=255u8 {
        assert!(dice_dots(value).is_empty());
    }
}

#[test]
fn no_two_rejections_share_a_message() {
    let reasons = [
        ActionError::GameOver,
        ActionError::NoActiveBet,
        ActionError::InvalidFaceValue,
        ActionError::ZeroDiceBet,
        ActionError::BetTooLow,
        ActionError::MissingBetPayload,
    ];
    for (k, one) in reasons.iter().enumerate() {
        for other in &reasons[..k] {
            assert_ne!(one.message(), other.message());
        }
    }
}
