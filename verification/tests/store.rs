use wordgame::game::check_guess;
use wordgame::game::db::Store;
use wordgame::game::types::GameError;

#[test]
fn identifiers_are_assigned_in_order() {
    let mut store = Store::new();
    assert_eq!(store.create_game(String::from("adieu")), 0);
    assert_eq!(store.create_game(String::from("speed")), 1);
    assert_eq!(store.join_game(0, String::from("alice")), Ok(0));
    assert_eq!(store.join_game(1, String::from("bob")), Ok(1));
    assert_eq!(store.join_game(5, String::from("carol")), Err(GameError::NotFound));
}

#[test]
fn solution_lookup_follows_the_player_reference() {
    let mut store = Store::new();
    store.create_game(String::from("adieu"));
    store.create_game(String::from("speed"));
    let bob = store.join_game(1, String::from("bob")).expect("the game exists");
    assert_eq!(store.get_solution(bob), Ok(String::from("speed")));
    assert_eq!(store.get_solution(9), Err(GameError::NotFound));
}

#[test]
fn guesses_are_listed_in_submission_order() {
    let mut store = Store::new();
    store.create_game(String::from("adieu"));
    let alice = store.join_game(0, String::from("alice")).expect("the game exists");
    let bob = store.join_game(0, String::from("bob")).expect("the game exists");
    for text in ["salet", "crane", "adieu"] {
        let flag = check_guess(text, "adieu").is_winning_guess;
        store.create_guess(alice, String::from(text), flag).expect("the player exists");
    }
    let flag = check_guess("slate", "adieu").is_winning_guess;
    store.create_guess(bob, String::from("slate"), flag).expect("the player exists");

    let rows = store.get_guesses(alice).expect("the player exists");
    let texts: Vec<&str> = rows.iter().map(|r| r.guess.as_str()).collect();
    assert_eq!(texts, vec!["salet", "crane", "adieu"]);
    assert_eq!(store.get_guesses(9), Err(GameError::NotFound));
}

#[test]
fn aggregation_rows_come_in_join_order() {
    let mut store = Store::new();
    store.create_game(String::from("adieu"));
    store.create_game(String::from("speed"));
    let alice = store.join_game(0, String::from("alice")).expect("the game exists");
    let bob = store.join_game(0, String::from("bob")).expect("the game exists");
    // A player of another game never shows up in the rows.
    let carol = store.join_game(1, String::from("carol")).expect("the game exists");
    let flag = check_guess("adieu", "adieu").is_winning_guess;
    store.create_guess(bob, String::from("adieu"), flag).expect("the player exists");
    let flag = check_guess("speed", "speed").is_winning_guess;
    store.create_guess(carol, String::from("speed"), flag).expect("the player exists");

    let rows = store.get_all_guesses(0);
    assert_eq!(rows.len(), 2);
    assert_eq!(rows[0].player_id, alice);
    assert_eq!(rows[0].guesses, 0);
    assert!(!rows[0].has_won);
    assert_eq!(rows[1].player_id, bob);
    assert_eq!(rows[1].guesses, 1);
    assert!(rows[1].has_won);
}
