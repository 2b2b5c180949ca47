use equata::{playable_bracket, sign_changes, LevelError};

/// Signs of x^2 - 1 on the grid x = -10, -9.9, ..., 10, computed exactly in
/// hundredths: sample k lies at x = (k - 100) / 10.
fn signs_of_x_squared_minus_one() -> Vec<bool> {
    (0..=200i64).map(|k| (k - 100) * (k - 100) - 100 <= 0).collect()
}

#[test]
fn parabola_has_two_roots() {
    let signs = signs_of_x_squared_minus_one();
    assert_eq!(sign_changes(&signs), vec![90, 111]);
}

#[test]
fn parabola_brackets_roots_near_minus_one_and_one() {
    let signs = signs_of_x_squared_minus_one();
    let (a, b) = playable_bracket(&signs).unwrap();
    let x = |k: usize| (k as f64 - 100.0) / 10.0;
    assert!(x(a - 1) <= -1.0 && -1.0 <= x(a));
    assert!(x(b - 1) <= 1.0 && 1.0 <= x(b));
}

#[test]
fn zero_counts_as_negative() {
    // Samples of -x^2 at -1, 0, 1: the zero joins the negative side.
    let signs = vec![true, true, true];
    assert!(sign_changes(&signs).is_empty());
    // Samples of x at -1, 0, 1: the flip comes after the zero.
    let signs = vec![true, true, false];
    assert_eq!(sign_changes(&signs), vec![2]);
}

#[test]
fn constant_polynomial_has_insufficient_roots() {
    let signs = vec![false; 201];
    assert!(sign_changes(&signs).is_empty());
    assert_eq!(playable_bracket(&signs), Err(LevelError::InsufficientRoots));
}

#[test]
fn no_samples_has_insufficient_roots() {
    let signs: Vec<bool> = Vec::new();
    assert!(sign_changes(&signs).is_empty());
    assert_eq!(playable_bracket(&signs), Err(LevelError::InsufficientRoots));
}

#[test]
fn one_root_is_insufficient() {
    let signs = vec![false, false, true, true];
    assert_eq!(sign_changes(&signs), vec![2]);
    assert_eq!(playable_bracket(&signs), Err(LevelError::InsufficientRoots));
}

#[test]
fn bracket_takes_first_two_roots() {
    let signs = vec![true, false, false, true, false, true];
    assert_eq!(sign_changes(&signs), vec![1, 3, 4, 5]);
    assert_eq!(playable_bracket(&signs), Ok((1, 3)));
}

#[test]
fn adjacent_roots() {
    let signs = vec![false, true, false];
    assert_eq!(sign_changes(&signs), vec![1, 2]);
    assert_eq!(playable_bracket(&signs), Ok((1, 2)));
}
