//! What the player can ask for: the options of the program and the
//! commands of the game, with the grammar that reads a command from a line.

use crate::errors::HangmanErrors;
use crate::text::{
    lowercased, same_text, split_whitespace, texts, to_lowercase, trim, trimmed, whitespace_words,
};
use vstd::prelude::*;
use vstd::utf8::*;

verus! {

/// `std::path::PathBuf`, carried through unread.
#[verifier::external_type_specification]
#[verifier::external_body]
pub struct ExPathBuf(std::path::PathBuf);

/// The settings a game is started with.
#[derive(Debug)]
pub struct Options {
    /// Where the list of words is, if one was given.
    pub wordlist_path: Option<std::path::PathBuf>,
    /// How many wrong guesses a game allows.
    pub attempts: u32,
    /// Whether the screen is left uncleared.
    pub debug: bool,
}

impl Default for Options {
    /// No list of words, ten attempts, no debugging.
    fn default() -> (options: Self)
        ensures
            options.wordlist_path is None,
            options.attempts == 10,
            !options.debug,
    {
        Options { wordlist_path: None, attempts: 10, debug: false }
    }
}

/// One thing the player asks for.
#[derive(Debug)]
pub enum Command {
    TryLetter(char),
    TryWord(String),
    Info,
    Help,
    Save(String),
    Load(String),
    Quit,
}

/// A command with its strings as character sequences.
pub enum CommandView {
    TryLetter(char),
    TryWord(Seq<char>),
    Info,
    Help,
    Save(Seq<char>),
    Load(Seq<char>),
    Quit,
}

impl View for Command {
    type V = CommandView;

    open spec fn view(&self) -> CommandView {
        match *self {
            Command::TryLetter(c) => CommandView::TryLetter(c),
            Command::TryWord(w) => CommandView::TryWord(w@),
            Command::Info => CommandView::Info,
            Command::Help => CommandView::Help,
            Command::Save(name) => CommandView::Save(name@),
            Command::Load(name) => CommandView::Load(name@),
            Command::Quit => CommandView::Quit,
        }
    }
}

/// Why a line is no command.
pub enum Malformed {
    /// `try letter` with something that is not one single-byte character.
    InvalidLetter,
    /// `try letter` with nothing after it.
    MissingLetter,
    /// `try word` with nothing after it.
    MissingWord,
    /// `try` followed by neither `letter` nor `word`.
    InvalidTry,
    /// `save` with nothing after it.
    MissingSaveName,
    /// `load` with nothing after it.
    MissingLoadName,
    /// No words at all, or a first word that names no command.
    UnknownCommand,
}

impl Malformed {
    /// What the player is told.
    pub open spec fn message(self) -> Seq<char> {
        match self {
            Malformed::InvalidLetter => "Invalid letter format. Use 'try letter <letter>'."@,
            Malformed::MissingLetter => "Missing letter. Use 'try letter <letter>'."@,
            Malformed::MissingWord => "Missing word. Use 'try word <word>'."@,
            Malformed::InvalidTry =>
                "Invalid 'try' command. Use 'try letter <letter>' or 'try word <word>'."@,
            Malformed::MissingSaveName => "Missing filename. Use 'save <filename>'."@,
            Malformed::MissingLoadName => "Missing filename. Use 'load <filename>'."@,
            Malformed::UnknownCommand =>
                "Invalid command. Type 'help' for a list of valid commands."@,
        }
    }
}

/// Whether `w` is one character that takes one byte in UTF-8.
pub open spec fn single_byte(w: Seq<char>) -> bool {
    w.len() == 1 && (w[0] as u32) < 0x80
}

/// The grammar of commands, on the words of a line: the first word names
/// the command, `try` takes a second word for what is tried, and the word
/// after that is the argument. Further words are ignored.
pub open spec fn parse_words(words: Seq<Seq<char>>) -> Result<CommandView, Malformed> {
    if words.len() == 0 {
        Err(Malformed::UnknownCommand)
    } else if words[0] == "try"@ {
        if words.len() >= 2 && words[1] == "letter"@ {
            if words.len() < 3 {
                Err(Malformed::MissingLetter)
            } else if single_byte(words[2]) {
                Ok(CommandView::TryLetter(words[2][0]))
            } else {
                Err(Malformed::InvalidLetter)
            }
        } else if words.len() >= 2 && words[1] == "word"@ {
            if words.len() < 3 {
                Err(Malformed::MissingWord)
            } else {
                Ok(CommandView::TryWord(words[2]))
            }
        } else {
            Err(Malformed::InvalidTry)
        }
    } else if words[0] == "help"@ {
        Ok(CommandView::Help)
    } else if words[0] == "info"@ {
        Ok(CommandView::Info)
    } else if words[0] == "save"@ {
        if words.len() < 2 {
            Err(Malformed::MissingSaveName)
        } else {
            Ok(CommandView::Save(words[1]))
        }
    } else if words[0] == "load"@ {
        if words.len() < 2 {
            Err(Malformed::MissingLoadName)
        } else {
            Ok(CommandView::Load(words[1]))
        }
    } else if words[0] == "quit"@ {
        Ok(CommandView::Quit)
    } else {
        Err(Malformed::UnknownCommand)
    }
}

/// Whether `result` reports `parsed`: the same command, or a parse error
/// that carries the message of the same failure.
pub open spec fn reports(
    result: Result<Command, HangmanErrors>,
    parsed: Result<CommandView, Malformed>,
) -> bool {
    match parsed {
        Ok(command) => result matches Ok(c) && c@ == command,
        Err(failure) => result matches Err(HangmanErrors::ParseError(m)) && m@
            == failure.message(),
    }
}

/// The UTF-8 encoding of a sequence has at least one byte for each of its
/// characters.
pub proof fn lemma_encoding_length(w: Seq<char>)
    ensures
        encode_utf8(w).len() >= w.len(),
    decreases w.len(),
{
    if w.len() > 0 {
        lemma_encoding_length(w.drop_first());
        char_is_scalar(w[0]);
        assert(encode_scalar(w[0] as u32).len() >= 1);
    }
}

/// A sequence of characters is a single byte in UTF-8 exactly when it is
/// one character below U+0080.
pub proof fn lemma_single_byte(w: Seq<char>)
    ensures
        single_byte(w) <==> encode_utf8(w).len() == 1,
{
    lemma_encoding_length(w);
    if w.len() == 1 {
        let rest = w.drop_first();
        assert(rest.len() == 0);
        assert(encode_utf8(rest).len() == 0);
        char_is_scalar(w[0]);
        assert(encode_utf8(w) == encode_scalar(w[0] as u32) + encode_utf8(rest));
        assert(encode_scalar(w[0] as u32).len() == 1 <==> (w[0] as u32) < 0x80);
    }
}

fn failure(message: &str) -> (result: Result<Command, HangmanErrors>)
    ensures
        result matches Err(HangmanErrors::ParseError(m)) && m@ == message@,
{
    Err(HangmanErrors::ParseError(message.to_owned()))
}

impl Command {
    /// Reads a command from the words of a line.
    pub fn from_words(words: &Vec<String>) -> (result: Result<Command, HangmanErrors>)
        ensures
            reports(result, parse_words(texts(words@))),
    {
        let ghost ws = texts(words@);
        assert(ws.len() == words.len());
        assert(forall|i: int| 0 <= i < words.len() ==> ws[i] == #[trigger] words@[i]@);
        if words.len() == 0 {
            return failure("Invalid command. Type 'help' for a list of valid commands.");
        }
        let first = words[0].as_str();
        if same_text(first, "try") {
            if words.len() >= 2 && same_text(words[1].as_str(), "letter") {
                if words.len() < 3 {
                    return failure("Missing letter. Use 'try letter <letter>'.");
                }
                let letter = words[2].as_str();
                proof {
                    lemma_single_byte(letter@);
                }
                if letter.as_bytes().len() == 1 {
                    return Ok(Command::TryLetter(letter.get_char(0)));
                }
                failure("Invalid letter format. Use 'try letter <letter>'.")
            } else if words.len() >= 2 && same_text(words[1].as_str(), "word") {
                if words.len() < 3 {
                    return failure("Missing word. Use 'try word <word>'.");
                }
                Ok(Command::TryWord(words[2].clone()))
            } else {
                failure("Invalid 'try' command. Use 'try letter <letter>' or 'try word <word>'.")
            }
        } else if same_text(first, "help") {
            Ok(Command::Help)
        } else if same_text(first, "info") {
            Ok(Command::Info)
        } else if same_text(first, "save") {
            if words.len() < 2 {
                return failure("Missing filename. Use 'save <filename>'.");
            }
            Ok(Command::Save(words[1].clone()))
        } else if same_text(first, "load") {
            if words.len() < 2 {
                return failure("Missing filename. Use 'load <filename>'.");
            }
            Ok(Command::Load(words[1].clone()))
        } else if same_text(first, "quit") {
            Ok(Command::Quit)
        } else {
            failure("Invalid command. Type 'help' for a list of valid commands.")
        }
    }

    /// Reads a command from a line: the line is trimmed, put in lower
    /// case and split at white space, and the words are read by the
    /// grammar of [`parse_words`].
    pub fn parse(line: &str) -> (result: Result<Command, HangmanErrors>)
        ensures
            reports(result, parse_words(whitespace_words(lowercased(trimmed(line@))))),
    {
        let lowered = to_lowercase(trim(line));
        let words = split_whitespace(lowered.as_str());
        Command::from_words(&words)
    }
}

impl std::str::FromStr for Command {
    type Err = HangmanErrors;

    /// Reads a command from a line, as [`Command::parse`] does.
    fn from_str(s: &str) -> (result: Result<Self, Self::Err>)
        ensures
            reports(result, parse_words(whitespace_words(lowercased(trimmed(s@))))),
    {
        Command::parse(s)
    }
}

} // verus!
