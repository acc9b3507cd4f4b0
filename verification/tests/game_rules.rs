use hangman::errors::HangmanErrors;
use hangman::game::{get_random_word, word_at, HangmanGame, SavedGame, State, VOCABULARY_SIZE};

fn game(attempts: u32, solution: &str) -> HangmanGame {
    match HangmanGame::new(attempts, solution) {
        Ok(game) => game,
        Err(e) => panic!("{:?}", e),
    }
}

fn sorted(letters: &Vec<char>) -> Vec<char> {
    let mut copy = letters.clone();
    copy.sort();
    copy
}

#[test]
fn new_game_is_fresh() {
    let g = game(5, "rust");
    assert_eq!(g.solution(), "rust");
    assert_eq!(g.attempts_remaining(), 5);
    assert_eq!(g.state(), State::Pending);
    assert_eq!(g.score(), 0);
    assert!(g.attempted_letters().is_empty());
    assert!(g.attempted_words().is_empty());
    assert!(!g.is_over());
}

#[test]
fn solution_letters_are_listed_once() {
    let g = game(5, "borrow");
    assert_eq!(sorted(g.solution_letters()), vec!['b', 'o', 'r', 'w']);
}

#[test]
fn empty_solution_is_invalid() {
    match HangmanGame::new(3, "") {
        Err(HangmanErrors::InvalidSolution(word)) => assert_eq!(word, ""),
        other => panic!("{:?}", other.map(|g| g.to_string())),
    }
}

#[test]
fn solution_with_a_digit_is_invalid() {
    match HangmanGame::new(3, "ab1") {
        Err(HangmanErrors::InvalidSolution(word)) => assert_eq!(word, "ab1"),
        other => panic!("{:?}", other.map(|g| g.to_string())),
    }
}

#[test]
fn solution_with_a_blank_is_invalid() {
    assert!(matches!(
        HangmanGame::new(3, "two words"),
        Err(HangmanErrors::InvalidSolution(_))
    ));
}

#[test]
fn solution_may_hold_letters_beyond_ascii() {
    let g = game(3, "été");
    assert_eq!(g.solution(), "été");
    assert_eq!(sorted(g.solution_letters()), vec!['t', 'é']);
}

#[test]
fn cat_is_won_letter_by_letter() {
    let mut g = game(3, "cat");
    assert!(matches!(g.guess_letter('z'), Ok(false)));
    assert_eq!(g.attempts_remaining(), 2);
    assert_eq!(g.state(), State::Pending);
    assert!(matches!(g.guess_letter('c'), Ok(true)));
    assert_eq!(g.attempts_remaining(), 2);
    assert_eq!(g.state(), State::Pending);
    assert!(matches!(g.guess_letter('a'), Ok(true)));
    assert_eq!(g.state(), State::Pending);
    assert!(matches!(g.guess_letter('t'), Ok(true)));
    assert_eq!(g.state(), State::Victory);
    assert_eq!(g.attempts_remaining(), 2);
    assert!(g.is_over());
}

#[test]
fn wrong_word_with_one_attempt_loses() {
    let mut g = game(1, "dog");
    assert!(matches!(g.guess_word("cat"), Ok(false)));
    assert_eq!(g.attempts_remaining(), 0);
    assert_eq!(g.state(), State::Unsuccessful);
    assert!(g.is_over());
}

#[test]
fn fresh_letter_is_good_exactly_when_in_solution() {
    for letter in ['r', 'u', 's', 't', 'a', 'z', 'R', '1', ' '] {
        let mut g = game(4, "rustic");
        let answer = g.guess_letter(letter);
        let inside = "rustic".contains(letter);
        assert!(matches!(answer, Ok(b) if b == inside));
        assert_eq!(g.attempts_remaining(), if inside { 4 } else { 3 });
        assert!(g.has_tried_letter(letter));
    }
}

#[test]
fn completing_letter_wins_with_a_single_attempt_left() {
    let mut g = game(1, "aa");
    assert!(matches!(g.guess_letter('a'), Ok(true)));
    assert_eq!(g.state(), State::Victory);
    assert_eq!(g.attempts_remaining(), 1);
}

#[test]
fn completing_letter_wins_with_no_attempt_left() {
    let mut g = game(0, "a");
    assert_eq!(g.state(), State::Pending);
    assert!(matches!(g.guess_letter('a'), Ok(true)));
    assert_eq!(g.state(), State::Victory);
    assert_eq!(g.attempts_remaining(), 0);
}

#[test]
fn repeated_letter_counts_once_towards_the_win() {
    let mut g = game(2, "noon");
    assert!(matches!(g.guess_letter('o'), Ok(true)));
    assert_eq!(g.state(), State::Pending);
    assert!(matches!(g.guess_letter('n'), Ok(true)));
    assert_eq!(g.state(), State::Victory);
}

#[test]
fn right_word_wins_and_costs_nothing() {
    let mut g = game(2, "trait");
    assert!(matches!(g.guess_word("trait"), Ok(true)));
    assert_eq!(g.state(), State::Victory);
    assert_eq!(g.attempts_remaining(), 2);
}

#[test]
fn wrong_word_costs_one_attempt() {
    let mut g = game(2, "trait");
    assert!(matches!(g.guess_word("trail"), Ok(false)));
    assert_eq!(g.state(), State::Pending);
    assert_eq!(g.attempts_remaining(), 1);
    assert_eq!(g.attempted_words(), &vec!["trail".to_string()]);
}

#[test]
fn word_guess_tells_upper_from_lower_case() {
    let mut g = game(2, "macro");
    assert!(matches!(g.guess_word("Macro"), Ok(false)));
    assert_eq!(g.attempts_remaining(), 1);
    assert!(matches!(g.guess_word("macro"), Ok(true)));
    assert_eq!(g.state(), State::Victory);
}

#[test]
fn word_guess_leaves_letters_alone() {
    let mut g = game(3, "cargo");
    assert!(matches!(g.guess_word("cargos"), Ok(false)));
    assert!(g.attempted_letters().is_empty());
    assert!(!g.has_tried_letter('c'));
}

#[test]
fn repeated_letter_is_a_bad_guess_and_changes_nothing() {
    let mut g = game(3, "cat");
    assert!(matches!(g.guess_letter('z'), Ok(false)));
    assert!(matches!(g.guess_letter('c'), Ok(true)));
    for letter in ['z', 'c'] {
        match g.guess_letter(letter) {
            Err(HangmanErrors::BadGuess(message)) => {
                assert_eq!(message, "You already tried this letter!")
            }
            other => panic!("{:?}", other),
        }
        assert_eq!(g.attempts_remaining(), 2);
        assert_eq!(g.state(), State::Pending);
        assert_eq!(sorted(g.attempted_letters()), vec!['c', 'z']);
    }
}

#[test]
fn repeated_word_is_a_bad_guess_and_changes_nothing() {
    let mut g = game(3, "cat");
    assert!(matches!(g.guess_word("dog"), Ok(false)));
    match g.guess_word("dog") {
        Err(HangmanErrors::BadGuess(message)) => assert_eq!(message, "You already tried this word!"),
        other => panic!("{:?}", other),
    }
    assert_eq!(g.attempts_remaining(), 2);
    assert_eq!(g.state(), State::Pending);
    assert_eq!(g.attempted_words().len(), 1);
}

#[test]
fn won_game_takes_no_guess() {
    let mut g = game(3, "ox");
    assert!(matches!(g.guess_word("ox"), Ok(true)));
    assert!(matches!(g.guess_letter('o'), Err(HangmanErrors::HangmanGameOver)));
    assert!(matches!(g.guess_word("ax"), Err(HangmanErrors::HangmanGameOver)));
    assert!(matches!(g.guess_word("ox"), Err(HangmanErrors::HangmanGameOver)));
    assert_eq!(g.state(), State::Victory);
    assert_eq!(g.attempts_remaining(), 3);
    assert!(g.attempted_letters().is_empty());
    assert_eq!(g.attempted_words().len(), 1);
}

#[test]
fn lost_game_takes_no_guess() {
    let mut g = game(1, "ox");
    assert!(matches!(g.guess_letter('q'), Ok(false)));
    assert_eq!(g.state(), State::Unsuccessful);
    assert!(matches!(g.guess_letter('o'), Err(HangmanErrors::HangmanGameOver)));
    assert!(matches!(g.guess_letter('q'), Err(HangmanErrors::HangmanGameOver)));
    assert!(matches!(g.guess_word("ox"), Err(HangmanErrors::HangmanGameOver)));
    assert_eq!(g.state(), State::Unsuccessful);
    assert_eq!(g.attempts_remaining(), 0);
    assert_eq!(g.attempted_letters(), &vec!['q']);
    assert!(g.attempted_words().is_empty());
}

#[test]
fn last_attempt_loses_and_not_before() {
    let mut g = game(2, "ox");
    assert!(matches!(g.guess_letter('a'), Ok(false)));
    assert_eq!(g.attempts_remaining(), 1);
    assert_eq!(g.state(), State::Pending);
    assert!(matches!(g.guess_letter('b'), Ok(false)));
    assert_eq!(g.attempts_remaining(), 0);
    assert_eq!(g.state(), State::Unsuccessful);
}

#[test]
fn miss_without_attempts_loses_and_stays_at_zero() {
    let mut g = game(0, "ox");
    assert!(matches!(g.guess_letter('a'), Ok(false)));
    assert_eq!(g.attempts_remaining(), 0);
    assert_eq!(g.state(), State::Unsuccessful);
    let mut h = game(0, "ox");
    assert!(matches!(h.guess_word("ax"), Ok(false)));
    assert_eq!(h.attempts_remaining(), 0);
    assert_eq!(h.state(), State::Unsuccessful);
}

#[test]
fn saved_game_comes_back_the_same() {
    let mut g = game(4, "cargo");
    assert!(matches!(g.guess_letter('c'), Ok(true)));
    assert!(matches!(g.guess_letter('x'), Ok(false)));
    assert!(matches!(g.guess_word("carts"), Ok(false)));
    let saved = g.to_saved();
    assert_eq!(saved.solution, "cargo");
    assert_eq!(sorted(&saved.attempted_letters), vec!['c', 'x']);
    assert_eq!(saved.attempted_words, vec!["carts".to_string()]);
    assert_eq!(saved.attempts_remaining, 2);
    assert_eq!(saved.state, State::Pending);
    assert_eq!(saved.score, 0);
    let mut back = HangmanGame::from_saved(saved);
    assert_eq!(back.solution(), g.solution());
    assert_eq!(sorted(back.attempted_letters()), sorted(g.attempted_letters()));
    assert_eq!(back.attempted_words(), g.attempted_words());
    assert_eq!(back.attempts_remaining(), g.attempts_remaining());
    assert_eq!(back.state(), g.state());
    assert_eq!(back.score(), g.score());
    assert_eq!(sorted(back.solution_letters()), sorted(g.solution_letters()));
    assert!(matches!(back.guess_letter('c'), Err(HangmanErrors::BadGuess(_))));
    assert!(matches!(back.guess_word("carts"), Err(HangmanErrors::BadGuess(_))));
    assert!(matches!(back.guess_word("cargo"), Ok(true)));
}

#[test]
fn saved_finished_game_comes_back_finished() {
    let saved = SavedGame {
        solution: "dog".to_string(),
        attempted_letters: vec![],
        attempted_words: vec![],
        attempts_remaining: 5,
        state: State::Unsuccessful,
        score: 12,
    };
    let mut g = HangmanGame::from_saved(saved);
    assert_eq!(g.state(), State::Unsuccessful);
    assert_eq!(g.attempts_remaining(), 5);
    assert_eq!(g.score(), 12);
    assert!(g.is_over());
    assert!(matches!(g.guess_letter('d'), Err(HangmanErrors::HangmanGameOver)));
}

#[test]
fn saved_lists_are_read_as_sets() {
    let saved = SavedGame {
        solution: "dog".to_string(),
        attempted_letters: vec!['d', 'x', 'd', 'x'],
        attempted_words: vec!["cat".to_string(), "cow".to_string(), "cat".to_string()],
        attempts_remaining: 2,
        state: State::Pending,
        score: 0,
    };
    let g = HangmanGame::from_saved(saved);
    assert_eq!(g.attempted_letters(), &vec!['d', 'x']);
    assert_eq!(g.attempted_words(), &vec!["cat".to_string(), "cow".to_string()]);
    assert_eq!(sorted(g.solution_letters()), vec!['d', 'g', 'o']);
}

#[test]
fn vocabulary_is_as_listed() {
    let words: Vec<&str> = (0..VOCABULARY_SIZE).map(word_at).collect();
    assert_eq!(
        words,
        vec!["rust", "cargo", "compiler", "borrow", "ownership", "trait", "macro"]
    );
}

#[test]
fn random_word_is_of_the_vocabulary_and_a_valid_solution() {
    let words: Vec<&str> = (0..VOCABULARY_SIZE).map(word_at).collect();
    for _ in 0..300 {
        let word = get_random_word();
        assert!(words.contains(&word));
        assert!(HangmanGame::new(10, word).is_ok());
    }
}
