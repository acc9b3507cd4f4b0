//! The texts shown to the player: what an error says, how a game looks,
//! the answer to a guess and the drawing of the gallows.

use crate::errors::HangmanErrors;
use crate::game::{GameView, HangmanGame, State};
use crate::text::{debug_format, debug_text, decimal, push_char, push_decimal};
use vstd::prelude::*;
use vstd::string::StringExecFns;

verus! {

/// Formats an `std::io::Error` by its `Display`. The text depends on what
/// the error holds, which is opaque here, so nothing is claimed of it.
#[verifier::external_body]
fn io_error_text(e: &std::io::Error) -> (text: String) {
    e.to_string()
}

/// What is said of an empty list of words.
pub open spec fn empty_wordlist_text() -> Seq<char> {
    "Couldn't load any valid wordlist!\n"@ + "Searched locations:\n"@
        + "  - ~/.hangman_words.txt\n"@ + "  - A file provided via `-w <filename>`\n"@ + "\n"@
        + "Note that a wordlist needs to consist of at least one valid word\n"@
        + "(made up of alphabetical characters only)\n"@
}

impl HangmanErrors {
    /// Whether `text` is what this error says. Of an error of the file
    /// system the text is whatever that error says of itself.
    pub open spec fn says(self, text: Seq<char>) -> bool {
        match self {
            HangmanErrors::IoError(_) => true,
            HangmanErrors::ParseError(input) => text == "Invalid command: "@ + debug_text(input@)
                + ". "@ + "Try the 'help' command for a list of valid commands"@,
            HangmanErrors::BadGuess(message) => text == message@,
            HangmanErrors::InvalidSolution(word) => text == "Invalid word given for solution: "@
                + debug_text(word@) + ". "@ + "Needs to consist of alphabetical letters only"@,
            HangmanErrors::HangmanGameOver => text == "Game is already over!"@,
            HangmanErrors::EmptyWordlist => text == empty_wordlist_text(),
        }
    }

    /// What the error says to the player.
    pub fn to_string(&self) -> (text: String)
        ensures
            self.says(text@),
    {
        match self {
            HangmanErrors::IoError(e) => io_error_text(e),
            HangmanErrors::ParseError(input) => {
                let mut text = "Invalid command: ".to_owned();
                text.append(debug_format(input.as_str()).as_str());
                text.append(". ");
                text.append("Try the 'help' command for a list of valid commands");
                text
            },
            HangmanErrors::BadGuess(message) => message.clone(),
            HangmanErrors::InvalidSolution(word) => {
                let mut text = "Invalid word given for solution: ".to_owned();
                text.append(debug_format(word.as_str()).as_str());
                text.append(". ");
                text.append("Needs to consist of alphabetical letters only");
                text
            },
            HangmanErrors::HangmanGameOver => "Game is already over!".to_owned(),
            HangmanErrors::EmptyWordlist => {
                let mut text = "Couldn't load any valid wordlist!\n".to_owned();
                text.append("Searched locations:\n");
                text.append("  - ~/.hangman_words.txt\n");
                text.append("  - A file provided via `-w <filename>`\n");
                text.append("\n");
                text.append("Note that a wordlist needs to consist of at least one valid word\n");
                text.append("(made up of alphabetical characters only)\n");
                text
            },
        }
    }
}

/// The solution with each letter followed by a blank, and `_` in place of
/// each letter that was not tried.
pub open spec fn masked(solution: Seq<char>, tried: Set<char>) -> Seq<char> {
    Seq::new(
        2 * solution.len(),
        |i: int|
            if i % 2 == 1 {
                ' '
            } else if tried.contains(solution[i / 2]) {
                solution[i / 2]
            } else {
                '_'
            },
    )
}

impl GameView {
    /// How the game looks: the banner of a finished game with the
    /// solution, or the attempts left and the masked solution.
    pub open spec fn picture(self) -> Seq<char> {
        match self.state {
            State::Victory => "Winner!\nThe word is: "@ + self.solution,
            State::Unsuccessful => "Sorry, no attempts left. You lost!\nThe word is: "@
                + self.solution,
            State::Pending => "Attempts left: "@ + decimal(self.attempts_remaining) + "\n"@
                + masked(self.solution, self.attempted_letters),
        }
    }
}

impl HangmanGame {
    /// How the game looks to the player.
    pub fn to_string(&self) -> (text: String)
        ensures
            text@ == self@.picture(),
    {
        let solution = self.solution();
        match self.state() {
            State::Victory => {
                let mut text = "Winner!\nThe word is: ".to_owned();
                text.append(solution);
                text
            },
            State::Unsuccessful => {
                let mut text = "Sorry, no attempts left. You lost!\nThe word is: ".to_owned();
                text.append(solution);
                text
            },
            State::Pending => {
                let mut text = "Attempts left: ".to_owned();
                push_decimal(&mut text, self.attempts_remaining());
                text.append("\n");
                let ghost head = text@;
                let ghost tried = self@.attempted_letters;
                let n = solution.unicode_len();
                let mut i: usize = 0;
                while i < n
                    invariant
                        i <= n,
                        n == solution@.len(),
                        tried == self@.attempted_letters,
                        text@ == head + masked(solution@.take(i as int), tried),
                    decreases n - i,
                {
                    let letter = solution.get_char(i);
                    if self.has_tried_letter(letter) {
                        push_char(&mut text, letter);
                    } else {
                        push_char(&mut text, '_');
                    }
                    push_char(&mut text, ' ');
                    assert(text@ =~= head + masked(solution@.take(i + 1), tried));
                    i += 1;
                }
                assert(solution@.take(n as int) == solution@);
                text
            },
        }
    }
}

/// What a guess is answered with.
pub open spec fn response_text(response: Result<bool, HangmanErrors>, text: Seq<char>) -> bool {
    match response {
        Ok(true) => text == "Good guess!"@,
        Ok(false) => text == "Sorry, no dice"@,
        Err(e) => exists|said: Seq<char>| e.says(said) && text == "Error: "@ + said,
    }
}

/// The answer to a guess: praise, regret, or the error after `Error: `.
pub fn guess_response(response: &Result<bool, HangmanErrors>) -> (text: String)
    ensures
        response_text(*response, text@),
{
    match response {
        Ok(true) => "Good guess!".to_owned(),
        Ok(false) => "Sorry, no dice".to_owned(),
        Err(e) => {
            let said = e.to_string();
            let mut text = "Error: ".to_owned();
            text.append(said.as_str());
            assert(e.says(said@) && text@ == "Error: "@ + said@);
            text
        },
    }
}

/// The drawings of the gallows, from the empty one to the complete one.
pub open spec fn stages() -> Seq<Seq<char>> {
    seq![
        "   \n   \n   \n   \n   \n"@,
        "   \n   \n   \n   \n   \n  +\n"@,
        "   \n   \n   \n   \n  |\n  +\n"@,
        "   \n   \n   \n  |\n  |\n  +\n"@,
        "   \n   \n  O\n  |\n  |\n  +\n"@,
        "   \n   \n  O\n /|\n  |\n  +\n"@,
        "   \n   \n  O\n /|\\\n  |\n  +\n"@,
        "   \n   \n  O\n /|\\\n / \n  +\n"@,
        "   \n   \n  O\n /|\\\n / \\\n  +\n"@,
    ]
}

/// Which drawing goes with `attempts` attempts left: the complete one
/// with none, one stage back for each attempt, the empty one from eight on.
pub open spec fn stage_index(attempts: nat) -> int {
    if attempts >= 8 {
        0
    } else {
        8 - attempts
    }
}

/// The drawing of the gallows for `attempts_remaining` attempts left.
pub fn hangman_stage(attempts_remaining: u32) -> (drawing: &'static str)
    ensures
        drawing@ == stages()[stage_index(attempts_remaining as nat)],
{
    if attempts_remaining >= 8 {
        "   \n   \n   \n   \n   \n"
    } else if attempts_remaining == 7 {
        "   \n   \n   \n   \n   \n  +\n"
    } else if attempts_remaining == 6 {
        "   \n   \n   \n   \n  |\n  +\n"
    } else if attempts_remaining == 5 {
        "   \n   \n   \n  |\n  |\n  +\n"
    } else if attempts_remaining == 4 {
        "   \n   \n  O\n  |\n  |\n  +\n"
    } else if attempts_remaining == 3 {
        "   \n   \n  O\n /|\n  |\n  +\n"
    } else if attempts_remaining == 2 {
        "   \n   \n  O\n /|\\\n  |\n  +\n"
    } else if attempts_remaining == 1 {
        "   \n   \n  O\n /|\\\n / \n  +\n"
    } else {
        "   \n   \n  O\n /|\\\n / \\\n  +\n"
    }
}

} // verus!
