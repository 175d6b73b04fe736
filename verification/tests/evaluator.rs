use wordgame::game::check_guess;
use wordgame::game::check_normalized;
use wordgame::game::Letter;

#[test]
fn self_guess_wins_all_correct() {
    let r = check_guess("ADIEU", "ADIEU");
    assert!(r.is_winning_guess);
    assert_eq!(
        r.letters,
        vec![
            Letter::Correct('a'),
            Letter::Correct('d'),
            Letter::Correct('i'),
            Letter::Correct('e'),
            Letter::Correct('u'),
        ]
    );
}

#[test]
fn evaluation_is_case_insensitive() {
    let upper = check_guess("ADIEU", "adieu");
    assert!(upper.is_winning_guess);
    let mixed = check_guess("aDiEu", "AdIeU");
    assert!(mixed.is_winning_guess);
}

#[test]
fn golden_speed_erase() {
    let r = check_guess("ERASE", "SPEED");
    assert_eq!(
        r.letters,
        vec![
            Letter::InTheWord('e'),
            Letter::Wrong('r'),
            Letter::Wrong('a'),
            Letter::InTheWord('s'),
            Letter::InTheWord('e'),
        ]
    );
    assert!(!r.is_winning_guess);
}

#[test]
fn duplicate_letters_alloy_loyal() {
    let r = check_guess("ALLOY", "LOYAL");
    // No position matches in place; LOYAL holds two Ls, so both Ls of the
    // guess are credited, the leftmost one first.
    assert_eq!(
        r.letters,
        vec![
            Letter::InTheWord('a'),
            Letter::InTheWord('l'),
            Letter::InTheWord('l'),
            Letter::InTheWord('o'),
            Letter::InTheWord('y'),
        ]
    );
    assert!(!r.is_winning_guess);
}

#[test]
fn duplicate_letters_exhaust_left_to_right() {
    // LEMON holds one L: the first L of the guess claims it, the second
    // stays wrong.
    let r = check_guess("ALLEY", "LEMON");
    assert_eq!(
        r.letters,
        vec![
            Letter::Wrong('a'),
            Letter::InTheWord('l'),
            Letter::Wrong('l'),
            Letter::InTheWord('e'),
            Letter::Wrong('y'),
        ]
    );
}

#[test]
fn credit_never_exceeds_solution_count() {
    // SPEED holds two Es; an all-E guess is credited exactly twice.
    let r = check_guess("EEEEE", "SPEED");
    let credited = r
        .letters
        .iter()
        .filter(|l| matches!(l, Letter::Correct('e') | Letter::InTheWord('e')))
        .count();
    assert_eq!(credited, 2);
    assert_eq!(
        r.letters,
        vec![
            Letter::Wrong('e'),
            Letter::Wrong('e'),
            Letter::Correct('e'),
            Letter::Correct('e'),
            Letter::Wrong('e'),
        ]
    );
}

#[test]
fn evaluation_is_idempotent() {
    let first = check_guess("ERASE", "SPEED");
    let second = check_guess("ERASE", "SPEED");
    assert_eq!(first, second);
}

#[test]
fn unequal_lengths_compare_up_to_shorter() {
    let r = check_guess("AB", "ABC");
    assert_eq!(r.letters.len(), 2);
    assert_eq!(r.letters, vec![Letter::Correct('a'), Letter::Correct('b')]);
}

#[test]
fn normalized_evaluation_skips_folding() {
    let r = check_normalized("erase", "speed");
    assert_eq!(
        r.letters,
        vec![
            Letter::InTheWord('e'),
            Letter::Wrong('r'),
            Letter::Wrong('a'),
            Letter::InTheWord('s'),
            Letter::InTheWord('e'),
        ]
    );
}
