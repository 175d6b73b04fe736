use wordgame::game::check_guess;
use wordgame::game::db::Store;
use wordgame::game::dictionary::Dictionary;
use wordgame::game::session::create_game;
use wordgame::game::session::get_game_scores;
use wordgame::game::session::get_player_guesses;
use wordgame::game::session::join_game;
use wordgame::game::session::submit_guess;
use wordgame::game::types::CreateGameParams;
use wordgame::game::types::CreatePlayerGuessParams;
use wordgame::game::types::Game;
use wordgame::game::types::GameError;
use wordgame::game::types::JoinGameParams;
use wordgame::game::Letter;

fn dict() -> Dictionary {
    let words: Vec<String> = vec![
        String::from("adieu"),
        String::from("salet"),
        String::from("crane"),
        String::from("slate"),
        String::from("trace"),
        String::from("brine"),
    ];
    Dictionary::new(&words)
}

fn guess(store: &mut Store, d: &Dictionary, player: u64, word: &str) -> Result<bool, GameError> {
    let params = CreatePlayerGuessParams { guess: String::from(word) };
    submit_guess(store, d, player, params).map(|resp| resp.guess.is_winning_guess)
}

#[test]
fn scenario_custom_game_win() {
    let mut store = Store::new();
    let d = dict();
    let created = create_game(
        &mut store,
        &d,
        CreateGameParams { game: Game::Custom(String::from("ADIEU")) },
    );
    let joined = join_game(
        &mut store,
        created.game_id,
        JoinGameParams { username: String::from("alice") },
    )
    .expect("the game exists");
    assert_eq!(joined.length, 5);

    let params = CreatePlayerGuessParams { guess: String::from("ADIEU") };
    let resp = submit_guess(&mut store, &d, joined.player, params).expect("a valid word");
    assert!(resp.guess.is_winning_guess);
    assert_eq!(
        resp.guess.letters,
        vec![
            Letter::Correct('a'),
            Letter::Correct('d'),
            Letter::Correct('i'),
            Letter::Correct('e'),
            Letter::Correct('u'),
        ]
    );
}

#[test]
fn scenario_score_ranking() {
    let mut store = Store::new();
    let d = dict();
    let created = create_game(
        &mut store,
        &d,
        CreateGameParams { game: Game::Custom(String::from("ADIEU")) },
    );
    let x = join_game(&mut store, created.game_id, JoinGameParams { username: String::from("x") })
        .expect("the game exists")
        .player;
    let y = join_game(&mut store, created.game_id, JoinGameParams { username: String::from("y") })
        .expect("the game exists")
        .player;

    // X wins on the third guess.
    assert_eq!(guess(&mut store, &d, x, "salet"), Ok(false));
    assert_eq!(guess(&mut store, &d, x, "crane"), Ok(false));
    assert_eq!(guess(&mut store, &d, x, "adieu"), Ok(true));
    // Y has five guesses and has not won.
    for w in ["salet", "crane", "slate", "trace", "brine"] {
        assert_eq!(guess(&mut store, &d, y, w), Ok(false));
    }

    let scores = get_game_scores(&store, created.game_id).player_scores;
    assert_eq!(scores.len(), 2);
    assert_eq!(scores[0].player, x);
    assert_eq!(scores[0].username, "x");
    assert_eq!(scores[0].guesses, 3);
    assert!(scores[0].has_won);
    assert_eq!(scores[1].player, y);
    assert_eq!(scores[1].guesses, 5);
    assert!(!scores[1].has_won);
}

#[test]
fn scenario_invalid_guess_persists_nothing() {
    let mut store = Store::new();
    let d = dict();
    let created = create_game(
        &mut store,
        &d,
        CreateGameParams { game: Game::Custom(String::from("ADIEU")) },
    );
    let player = join_game(
        &mut store,
        created.game_id,
        JoinGameParams { username: String::from("alice") },
    )
    .expect("the game exists")
    .player;

    assert_eq!(guess(&mut store, &d, player, "zzzzz"), Err(GameError::InvalidGuess));
    let history = get_player_guesses(&store, player).expect("the player exists");
    assert_eq!(history.guesses.len(), 0);
    let scores = get_game_scores(&store, created.game_id).player_scores;
    assert_eq!(scores[0].guesses, 0);
    assert!(!scores[0].has_won);
}

#[test]
fn unknown_ids_are_not_found() {
    let mut store = Store::new();
    let d = dict();
    assert_eq!(
        join_game(&mut store, 7, JoinGameParams { username: String::from("alice") }),
        Err(GameError::NotFound)
    );
    assert_eq!(guess(&mut store, &d, 7, "adieu"), Err(GameError::NotFound));
    assert_eq!(get_player_guesses(&store, 7), Err(GameError::NotFound));
}

#[test]
fn history_recomputes_and_agrees_with_stored_flags() {
    let mut store = Store::new();
    let d = dict();
    let created = create_game(
        &mut store,
        &d,
        CreateGameParams { game: Game::Custom(String::from("ADIEU")) },
    );
    let player = join_game(
        &mut store,
        created.game_id,
        JoinGameParams { username: String::from("alice") },
    )
    .expect("the game exists")
    .player;

    let submitted = ["salet", "crane", "adieu"];
    let mut flags = Vec::new();
    for w in submitted {
        flags.push(guess(&mut store, &d, player, w).expect("a valid word"));
    }

    let history = get_player_guesses(&store, player).expect("the player exists").guesses;
    assert_eq!(history.len(), 3);
    for (k, pg) in history.iter().enumerate() {
        // The history is recomputed from the stored text and agrees with
        // the flag persisted at submission time.
        assert_eq!(pg.is_winning_guess, flags[k]);
        let recomputed = check_guess(submitted[k], "ADIEU");
        assert_eq!(pg.letters, recomputed.letters);
        assert_eq!(pg.is_winning_guess, recomputed.is_winning_guess);
    }
}

#[test]
fn players_without_guesses_rank_last() {
    let mut store = Store::new();
    let d = dict();
    let created = create_game(
        &mut store,
        &d,
        CreateGameParams { game: Game::Custom(String::from("ADIEU")) },
    );
    let idle = join_game(&mut store, created.game_id, JoinGameParams {
        username: String::from("idle"),
    })
    .expect("the game exists")
    .player;
    let winner = join_game(&mut store, created.game_id, JoinGameParams {
        username: String::from("winner"),
    })
    .expect("the game exists")
    .player;
    assert_eq!(guess(&mut store, &d, winner, "adieu"), Ok(true));

    let scores = get_game_scores(&store, created.game_id).player_scores;
    assert_eq!(scores.len(), 2);
    assert_eq!(scores[0].player, winner);
    assert!(scores[0].has_won);
    assert_eq!(scores[1].player, idle);
    assert_eq!(scores[1].guesses, 0);
    assert!(!scores[1].has_won);
}

#[test]
fn submitted_text_is_persisted_verbatim() {
    let mut store = Store::new();
    let d = dict();
    let created = create_game(
        &mut store,
        &d,
        CreateGameParams { game: Game::Custom(String::from("ADIEU")) },
    );
    let player = join_game(
        &mut store,
        created.game_id,
        JoinGameParams { username: String::from("alice") },
    )
    .expect("the game exists")
    .player;
    assert_eq!(guess(&mut store, &d, player, "SaLeT"), Ok(false));

    let rows = store.get_guesses(player).expect("the player exists");
    assert_eq!(rows.len(), 1);
    assert_eq!(rows[0].guess, "SaLeT");
}

#[test]
fn random_game_uses_a_dictionary_word() {
    let mut store = Store::new();
    let words: Vec<String> = vec![String::from("worlds")];
    let d = Dictionary::new(&words);
    let created = create_game(&mut store, &d, CreateGameParams { game: Game::Random });
    let joined = join_game(
        &mut store,
        created.game_id,
        JoinGameParams { username: String::from("alice") },
    )
    .expect("the game exists");
    assert_eq!(joined.length, 6);
}

#[test]
fn random_game_falls_back_without_six_letter_words() {
    let mut store = Store::new();
    let words: Vec<String> = vec![String::from("adieu")];
    let d = Dictionary::new(&words);
    let created = create_game(&mut store, &d, CreateGameParams { game: Game::Random });
    let joined = join_game(
        &mut store,
        created.game_id,
        JoinGameParams { username: String::from("alice") },
    )
    .expect("the game exists");
    // The fallback word is ADIEU, five characters.
    assert_eq!(joined.length, 5);
}
