use hangman::errors::HangmanErrors;
use hangman::input::{Command, Options};
use std::str::FromStr;

fn message(line: &str) -> String {
    match Command::parse(line) {
        Err(HangmanErrors::ParseError(m)) => m,
        other => panic!("{:?}", other),
    }
}

#[test]
fn default_options() {
    let options = Options::default();
    assert!(options.wordlist_path.is_none());
    assert_eq!(options.attempts, 10);
    assert!(!options.debug);
}

#[test]
fn try_letter_is_read() {
    assert!(matches!(Command::parse("try letter a"), Ok(Command::TryLetter('a'))));
    assert!(matches!(Command::parse("try letter 7"), Ok(Command::TryLetter('7'))));
}

#[test]
fn try_word_is_read() {
    match Command::parse("try word rust") {
        Ok(Command::TryWord(w)) => assert_eq!(w, "rust"),
        other => panic!("{:?}", other),
    }
}

#[test]
fn plain_commands_are_read() {
    assert!(matches!(Command::parse("help"), Ok(Command::Help)));
    assert!(matches!(Command::parse("info"), Ok(Command::Info)));
    assert!(matches!(Command::parse("quit"), Ok(Command::Quit)));
}

#[test]
fn save_and_load_take_a_name() {
    match Command::parse("save game.json") {
        Ok(Command::Save(name)) => assert_eq!(name, "game.json"),
        other => panic!("{:?}", other),
    }
    match Command::parse("load game.json") {
        Ok(Command::Load(name)) => assert_eq!(name, "game.json"),
        other => panic!("{:?}", other),
    }
}

#[test]
fn case_is_ignored_and_arguments_are_lowered() {
    assert!(matches!(Command::parse("HELP"), Ok(Command::Help)));
    assert!(matches!(Command::parse("Try Letter Q"), Ok(Command::TryLetter('q'))));
    match Command::parse("TRY WORD Rust") {
        Ok(Command::TryWord(w)) => assert_eq!(w, "rust"),
        other => panic!("{:?}", other),
    }
    match Command::parse("Save Game.JSON") {
        Ok(Command::Save(name)) => assert_eq!(name, "game.json"),
        other => panic!("{:?}", other),
    }
}

#[test]
fn white_space_around_and_between_words_is_ignored() {
    assert!(matches!(Command::parse("   quit \n"), Ok(Command::Quit)));
    assert!(matches!(Command::parse("\ttry \t letter   x  \r\n"), Ok(Command::TryLetter('x'))));
    match Command::parse("try   word\u{a0}\u{2003}cargo") {
        Ok(Command::TryWord(w)) => assert_eq!(w, "cargo"),
        other => panic!("{:?}", other),
    }
}

#[test]
fn further_words_are_ignored() {
    assert!(matches!(Command::parse("help me please"), Ok(Command::Help)));
    assert!(matches!(Command::parse("try letter a b"), Ok(Command::TryLetter('a'))));
    match Command::parse("try word one two") {
        Ok(Command::TryWord(w)) => assert_eq!(w, "one"),
        other => panic!("{:?}", other),
    }
}

#[test]
fn letter_of_more_than_one_character_is_refused() {
    assert_eq!(message("try letter ab"), "Invalid letter format. Use 'try letter <letter>'.");
}

#[test]
fn letter_of_more_than_one_byte_is_refused() {
    assert_eq!(message("try letter é"), "Invalid letter format. Use 'try letter <letter>'.");
}

#[test]
fn missing_letter_is_reported() {
    assert_eq!(message("try letter"), "Missing letter. Use 'try letter <letter>'.");
}

#[test]
fn missing_word_is_reported() {
    assert_eq!(message("try word  "), "Missing word. Use 'try word <word>'.");
}

#[test]
fn try_without_letter_or_word_is_refused() {
    let expected = "Invalid 'try' command. Use 'try letter <letter>' or 'try word <word>'.";
    assert_eq!(message("try"), expected);
    assert_eq!(message("try harder"), expected);
}

#[test]
fn missing_file_names_are_reported() {
    assert_eq!(message("save"), "Missing filename. Use 'save <filename>'.");
    assert_eq!(message("load"), "Missing filename. Use 'load <filename>'.");
}

#[test]
fn unknown_and_empty_lines_point_to_help() {
    let expected = "Invalid command. Type 'help' for a list of valid commands.";
    assert_eq!(message("dance"), expected);
    assert_eq!(message(""), expected);
    assert_eq!(message("   \n"), expected);
    assert_eq!(message("helpme"), expected);
}

#[test]
fn words_are_read_as_given() {
    let words = vec!["try".to_string(), "letter".to_string(), "A".to_string()];
    assert!(matches!(Command::from_words(&words), Ok(Command::TryLetter('A'))));
    let upper = vec!["HELP".to_string()];
    assert!(matches!(Command::from_words(&upper), Err(HangmanErrors::ParseError(_))));
    let none: Vec<String> = vec![];
    assert!(matches!(Command::from_words(&none), Err(HangmanErrors::ParseError(_))));
}

#[test]
fn commands_parse_from_str() {
    assert!(matches!(Command::from_str("info"), Ok(Command::Info)));
    assert!(matches!("load x".parse::<Command>(), Ok(Command::Load(_))));
    assert!(matches!("nonsense".parse::<Command>(), Err(HangmanErrors::ParseError(_))));
}
