//! Concrete checks of the proved laws and of the edge cases: empty inputs,
//! single-character strings (where the matching window saturates at zero),
//! strings of very different lengths (where the window empties out), exact
//! match and transposition counts, and the prefix-bound options.

use jaro_winkler_distance::{JaroScore, PrefixLength, WinklerScore};

fn jaro_value(score: &JaroScore) -> f64 {
    if score.lhs_len == 0 || score.rhs_len == 0 || score.matches == 0 {
        return 0.0;
    }
    let w1 = 1_f64 / 3_f64;
    let w2 = 1_f64 / 3_f64;
    let wt = 1_f64 / 3_f64;
    let count = score.matches as f64;
    let transpositions = score.transpositions as f64;
    w1 * (count / score.lhs_len as f64) + w2 * (count / score.rhs_len as f64)
        + wt * ((count - transpositions) / count)
}

fn winkler_value(score: &WinklerScore) -> f64 {
    let jaro = jaro_value(&score.jaro);
    let l = score.prefix as f64;
    let p = 0.1;
    jaro + (l * p * (1.0 - jaro))
}

#[test]
fn prefix_length_to_isize() {
    assert_eq!(PrefixLength::One.to_isize(), 1);
    assert_eq!(PrefixLength::Two.to_isize(), 2);
    assert_eq!(PrefixLength::Three.to_isize(), 3);
    assert_eq!(PrefixLength::Four.to_isize(), 4);
}

#[test]
fn repeated_calls_are_bit_identical() {
    let first = jaro_winkler_distance::jaro_distance("saturday", "sunday");
    let second = jaro_winkler_distance::jaro_distance("saturday", "sunday");
    assert_eq!(first, second);
    assert_eq!(jaro_value(&first).to_bits(), jaro_value(&second).to_bits());

    let first = jaro_winkler_distance::jaro_winkler_distance("saturday", "sunday", &PrefixLength::Two);
    let second = jaro_winkler_distance::jaro_winkler_distance("saturday", "sunday", &PrefixLength::Two);
    assert_eq!(first, second);
    assert_eq!(winkler_value(&first).to_bits(), winkler_value(&second).to_bits());
}

#[test]
fn empty_inputs_score_zero() {
    assert_eq!(jaro_value(&jaro_winkler_distance::jaro_distance("", "")), 0.0);
    assert_eq!(jaro_value(&jaro_winkler_distance::jaro_distance("", "a")), 0.0);
    assert_eq!(jaro_value(&jaro_winkler_distance::jaro_distance("a", "")), 0.0);
    let score = jaro_winkler_distance::jaro_winkler_distance("", "", &PrefixLength::Four);
    assert_eq!(winkler_value(&score), 0.0);
    assert_eq!(score.prefix, 0);
}

#[test]
fn identical_strings_score_one() {
    for s in ["a", "ab", "abc", "martha", "a b c"] {
        let score = jaro_winkler_distance::jaro_distance(s, s);
        assert_eq!(score.matches, s.chars().count());
        assert_eq!(score.transpositions, 0);
        assert_eq!(jaro_value(&score), 1.0, "jaro identity on {s}");
        let score = jaro_winkler_distance::jaro_winkler_distance(s, s, &PrefixLength::Four);
        assert_eq!(winkler_value(&score), 1.0, "jaro winkler identity on {s}");
    }
}

#[test]
fn single_character_window_saturates() {
    // the window bound is max(1, 1) / 2 - 1, saturating at zero: it still
    // covers the character's own position
    assert_eq!(jaro_value(&jaro_winkler_distance::jaro_distance("a", "a")), 1.0);
    assert_eq!(jaro_value(&jaro_winkler_distance::jaro_distance("a", "b")), 0.0);
}

#[test]
fn very_different_lengths_empty_the_window() {
    // for the tail of the longer string the window lies beyond the end of
    // the shorter one and is empty
    let score = jaro_winkler_distance::jaro_distance("abcdefghij", "ab");
    assert_eq!(score.matches, 2);
    assert_eq!(score.transpositions, 0);
    assert_eq!(score.lhs_len, 10);
    assert_eq!(score.rhs_len, 2);
}

#[test]
fn exact_counts_for_known_pairs() {
    let score = jaro_winkler_distance::jaro_distance("martha", "marhta");
    assert_eq!(score.matches, 6);
    assert_eq!(score.transpositions, 1);

    let score = jaro_winkler_distance::jaro_distance("hello", "world");
    assert_eq!(score.matches, 1);
    assert_eq!(score.transpositions, 0);

    let score = jaro_winkler_distance::jaro_winkler_distance("martha", "marhta", &PrefixLength::Four);
    assert_eq!(score.prefix, 3);
}

#[test]
fn multibyte_characters_match_by_position() {
    // consumption is tracked per character position, so multi-byte
    // characters behave exactly like single-byte ones
    let score = jaro_winkler_distance::jaro_distance("héllo", "héllo");
    assert_eq!(score.matches, 5);
    assert_eq!(jaro_value(&score), 1.0);
    let score = jaro_winkler_distance::jaro_winkler_distance("héllo", "héllq", &PrefixLength::Four);
    assert_eq!(score.prefix, 4);
    assert_eq!(score.jaro.matches, 4);
}

#[test]
fn winkler_bonus_never_lowers_the_score() {
    let pairs = [
        ("martha", "marhta"),
        ("saturday", "sunday"),
        ("hello", "world"),
        ("CRATE", "TRACE"),
        ("abcdefg", "abcdzxy"),
        ("hello", "hello"),
    ];
    for (lhs, rhs) in pairs {
        let jaro = jaro_value(&jaro_winkler_distance::jaro_distance(lhs, rhs));
        for pl in [
            PrefixLength::One,
            PrefixLength::Two,
            PrefixLength::Three,
            PrefixLength::Four,
        ] {
            let jw = winkler_value(&jaro_winkler_distance::jaro_winkler_distance(lhs, rhs, &pl));
            assert!(jw >= jaro, "bonus lowered the score on ({lhs}, {rhs})");
        }
    }
    // no shared leading character: the bonus is zero and the scores agree
    let jaro = jaro_value(&jaro_winkler_distance::jaro_distance("hello", "world"));
    let jw = winkler_value(&jaro_winkler_distance::jaro_winkler_distance(
        "hello",
        "world",
        &PrefixLength::Four,
    ));
    assert_eq!(jaro, jw);
}

#[test]
fn raising_the_bound_never_lowers_the_score() {
    let pairs = [("martha", "marhta"), ("abcdefg", "abcdzxy"), ("saturday", "sunday")];
    for (lhs, rhs) in pairs {
        let mut previous = 0.0_f64;
        for pl in [
            PrefixLength::One,
            PrefixLength::Two,
            PrefixLength::Three,
            PrefixLength::Four,
        ] {
            let jw = winkler_value(&jaro_winkler_distance::jaro_winkler_distance(lhs, rhs, &pl));
            assert!(jw >= previous, "raising the bound lowered the score on ({lhs}, {rhs})");
            previous = jw;
        }
    }
}

#[test]
fn scores_stay_in_range() {
    let pairs = [
        ("", ""),
        ("", "abc"),
        ("a", "a"),
        ("a", "b"),
        ("hello", "world"),
        ("martha", "marhta"),
        ("abcdefghij", "ab"),
        ("xyz", "zyx"),
        ("hello world", "HeLLo W0rlD"),
    ];
    for (lhs, rhs) in pairs {
        let jaro = jaro_value(&jaro_winkler_distance::jaro_distance(lhs, rhs));
        assert!((0.0..=1.0).contains(&jaro), "jaro out of range on ({lhs}, {rhs})");
        for pl in [
            PrefixLength::One,
            PrefixLength::Two,
            PrefixLength::Three,
            PrefixLength::Four,
        ] {
            let jw = winkler_value(&jaro_winkler_distance::jaro_winkler_distance(lhs, rhs, &pl));
            assert!((0.0..=1.0).contains(&jw), "jaro winkler out of range on ({lhs}, {rhs})");
        }
    }
}
