//! The rules of the game: one solution, the letters and words tried so
//! far, the attempts that are left, and whether the game is won or lost.

use crate::errors::HangmanErrors;
use crate::text::{alphabetic, is_alphabetic, same_text, texts};
use rand::Rng;
use vstd::prelude::*;

verus! {

/// Where a game stands.
#[derive(Clone, Copy, Debug, PartialEq, Eq, Structural)]
pub enum State {
    /// Guesses are still taken.
    Pending,
    /// The solution was found.
    Victory,
    /// The attempts ran out.
    Unsuccessful,
}

/// A game as a mathematical value.
pub struct GameView {
    pub solution: Seq<char>,
    pub attempted_letters: Set<char>,
    pub attempted_words: Set<Seq<char>>,
    pub attempts_remaining: nat,
    pub state: State,
    pub score: nat,
}

/// Why a guess is not taken.
pub enum Rejection {
    /// The game is already won or lost.
    GameOver,
    /// The same letter or word was tried before.
    Repeated,
}

/// Whether `word` can be a solution: it is not empty and all its
/// characters are alphabetic.
pub open spec fn valid_solution(word: Seq<char>) -> bool {
    word.len() > 0 && forall|i: int| 0 <= i < word.len() ==> alphabetic(#[trigger] word[i])
}

impl GameView {
    /// The game before any guess.
    pub open spec fn fresh(attempts: nat, solution: Seq<char>) -> GameView {
        GameView {
            solution,
            attempted_letters: Set::empty(),
            attempted_words: Set::empty(),
            attempts_remaining: attempts,
            state: State::Pending,
            score: 0,
        }
    }

    /// The letters that occur in the solution.
    pub open spec fn solution_letters(self) -> Set<char> {
        self.solution.to_set()
    }

    /// Whether the game is won or lost.
    pub open spec fn is_over(self) -> bool {
        self.state != State::Pending
    }

    /// The game after a wrong guess: one attempt fewer, never below
    /// zero, and lost once none is left.
    pub open spec fn after_miss(self) -> GameView {
        let left: nat = if self.attempts_remaining > 0 {
            (self.attempts_remaining - 1) as nat
        } else {
            0
        };
        GameView {
            attempts_remaining: left,
            state: if left == 0 {
                State::Unsuccessful
            } else {
                self.state
            },
            ..self
        }
    }

    /// Whether every letter of the solution has been tried once `c` is
    /// tried too.
    pub open spec fn completes(self, c: char) -> bool {
        self.solution_letters().subset_of(self.attempted_letters.insert(c))
    }

    /// What a guess of the letter `c` answers: a rejection, or whether the
    /// guess was good.
    pub open spec fn letter_answer(self, c: char) -> Result<bool, Rejection> {
        if self.is_over() {
            Err(Rejection::GameOver)
        } else if self.attempted_letters.contains(c) {
            Err(Rejection::Repeated)
        } else {
            Ok(self.completes(c) || self.solution.contains(c))
        }
    }

    /// The game after a guess of the letter `c`.
    pub open spec fn after_letter(self, c: char) -> GameView {
        if self.letter_answer(c) is Err {
            self
        } else {
            let tried = GameView { attempted_letters: self.attempted_letters.insert(c), ..self };
            if self.completes(c) {
                GameView { state: State::Victory, ..tried }
            } else if self.solution.contains(c) {
                tried
            } else {
                tried.after_miss()
            }
        }
    }

    /// What a guess of the whole word `w` answers.
    pub open spec fn word_answer(self, w: Seq<char>) -> Result<bool, Rejection> {
        if self.is_over() {
            Err(Rejection::GameOver)
        } else if self.attempted_words.contains(w) {
            Err(Rejection::Repeated)
        } else {
            Ok(w == self.solution)
        }
    }

    /// The game after a guess of the whole word `w`.
    pub open spec fn after_word(self, w: Seq<char>) -> GameView {
        if self.word_answer(w) is Err {
            self
        } else {
            let tried = GameView { attempted_words: self.attempted_words.insert(w), ..self };
            if w == self.solution {
                GameView { state: State::Victory, ..tried }
            } else {
                tried.after_miss()
            }
        }
    }
}

/// Whether `result` gives `answer`: the same verdict on the guess, or the
/// error that stands for the same rejection, a repeated guess with
/// `complaint` as its text.
pub open spec fn answers(
    result: Result<bool, HangmanErrors>,
    answer: Result<bool, Rejection>,
    complaint: Seq<char>,
) -> bool {
    match answer {
        Ok(good) => result matches Ok(b) && b == good,
        Err(Rejection::GameOver) => result matches Err(HangmanErrors::HangmanGameOver),
        Err(Rejection::Repeated) => result matches Err(HangmanErrors::BadGuess(m)) && m@
            == complaint,
    }
}

/// Whether `c` occurs in `v`.
fn holds(v: &Vec<char>, c: char) -> (found: bool)
    ensures
        found == v@.contains(c),
{
    let mut i: usize = 0;
    while i < v.len()
        invariant
            i <= v.len(),
            forall|k: int| 0 <= k < i ==> v@[k] != c,
        decreases v.len() - i,
    {
        if v[i] == c {
            return true;
        }
        i += 1;
    }
    false
}

/// Whether every element of `part` occurs in `whole`.
fn holds_all(whole: &Vec<char>, part: &Vec<char>) -> (all: bool)
    ensures
        all == part@.to_set().subset_of(whole@.to_set()),
{
    let mut i: usize = 0;
    while i < part.len()
        invariant
            i <= part.len(),
            forall|k: int| 0 <= k < i ==> whole@.contains(#[trigger] part@[k]),
        decreases part.len() - i,
    {
        if !holds(whole, part[i]) {
            assert(part@.to_set().contains(part@[i as int]));
            return false;
        }
        i += 1;
    }
    assert forall|c: char| part@.to_set().contains(c) implies whole@.to_set().contains(c) by {
        let k = choose|k: int| 0 <= k < part@.len() && part@[k] == c;
        assert(whole@.contains(part@[k]));
    }
    true
}

/// Whether a string with the characters of `w` occurs in `v`.
fn holds_text(v: &Vec<String>, w: &str) -> (found: bool)
    ensures
        found == texts(v@).contains(w@),
{
    let mut i: usize = 0;
    while i < v.len()
        invariant
            i <= v.len(),
            texts(v@).len() == v.len(),
            forall|k: int| 0 <= k < i ==> texts(v@)[k] != w@,
        decreases v.len() - i,
    {
        if same_text(v[i].as_str(), w) {
            assert(texts(v@)[i as int] == w@);
            return true;
        }
        i += 1;
    }
    false
}

/// The characters of `word`, in order.
fn chars_of(word: &str) -> (chars: Vec<char>)
    ensures
        chars@ == word@,
{
    let n = word.unicode_len();
    let mut chars: Vec<char> = Vec::new();
    let mut i: usize = 0;
    while i < n
        invariant
            i <= n,
            n == word@.len(),
            chars@ == word@.take(i as int),
        decreases n - i,
    {
        chars.push(word.get_char(i));
        assert(word@.take(i + 1) == word@.take(i as int).push(word@[i as int]));
        i += 1;
    }
    assert(word@.take(n as int) == word@);
    chars
}

/// Whether every character of `chars` is alphabetic.
fn all_alphabetic(chars: &Vec<char>) -> (all: bool)
    ensures
        all == forall|i: int| 0 <= i < chars@.len() ==> alphabetic(#[trigger] chars@[i]),
{
    let mut i: usize = 0;
    while i < chars.len()
        invariant
            i <= chars.len(),
            forall|k: int| 0 <= k < i ==> alphabetic(#[trigger] chars@[k]),
        decreases chars.len() - i,
    {
        if !is_alphabetic(chars[i]) {
            return false;
        }
        i += 1;
    }
    true
}

/// The elements of `v`, each once, in the order in which they first occur.
fn distinct(v: &Vec<char>) -> (once: Vec<char>)
    ensures
        once@.no_duplicates(),
        once@.to_set() == v@.to_set(),
{
    let mut once: Vec<char> = Vec::new();
    let mut i: usize = 0;
    while i < v.len()
        invariant
            i <= v.len(),
            once@.no_duplicates(),
            once@.to_set() == v@.take(i as int).to_set(),
        decreases v.len() - i,
    {
        let c = v[i];
        proof {
            assert(v@.take(i + 1) == v@.take(i as int).push(c));
            v@.take(i as int).lemma_push_to_set_commute(c);
            once@.lemma_push_to_set_commute(c);
        }
        if !holds(&once, c) {
            once.push(c);
        } else {
            assert(once@.to_set().insert(c) == once@.to_set());
        }
        i += 1;
    }
    assert(v@.take(v.len() as int) == v@);
    once
}

/// The strings of `v`, each text once, in the order in which they first
/// occur.
fn distinct_texts(v: &Vec<String>) -> (once: Vec<String>)
    ensures
        texts(once@).no_duplicates(),
        texts(once@).to_set() == texts(v@).to_set(),
{
    let mut once: Vec<String> = Vec::new();
    let mut i: usize = 0;
    while i < v.len()
        invariant
            i <= v.len(),
            texts(once@).no_duplicates(),
            texts(once@).to_set() == texts(v@).take(i as int).to_set(),
        decreases v.len() - i,
    {
        let ghost t = texts(v@);
        let ghost before = once@;
        proof {
            assert(t.take(i + 1) == t.take(i as int).push(v@[i as int]@));
            t.take(i as int).lemma_push_to_set_commute(v@[i as int]@);
            texts(once@).lemma_push_to_set_commute(v@[i as int]@);
        }
        if !holds_text(&once, v[i].as_str()) {
            once.push(v[i].clone());
            assert(texts(once@) == texts(before).push(v@[i as int]@));
        } else {
            assert(texts(once@).to_set().insert(v@[i as int]@) == texts(once@).to_set());
        }
        i += 1;
    }
    assert(texts(v@).take(v.len() as int) == texts(v@));
    once
}

/// A game as plain values, as it is written to a file and read back.
/// The two lists stand for sets: order and repetition mean nothing.
#[derive(Debug)]
pub struct SavedGame {
    pub solution: String,
    pub attempted_letters: Vec<char>,
    pub attempted_words: Vec<String>,
    pub attempts_remaining: u32,
    pub state: State,
    pub score: u32,
}

impl View for SavedGame {
    type V = GameView;

    open spec fn view(&self) -> GameView {
        GameView {
            solution: self.solution@,
            attempted_letters: self.attempted_letters@.to_set(),
            attempted_words: texts(self.attempted_words@).to_set(),
            attempts_remaining: self.attempts_remaining as nat,
            state: self.state,
            score: self.score as nat,
        }
    }
}

/// One game.
pub struct HangmanGame {
    attempted_letters: Vec<char>,
    attempted_words: Vec<String>,
    attempts_remaining: u32,
    state: State,
    solution: String,
    solution_letters: Vec<char>,
    score: u32,
}

impl View for HangmanGame {
    type V = GameView;

    closed spec fn view(&self) -> GameView {
        GameView {
            solution: self.solution@,
            attempted_letters: self.attempted_letters@.to_set(),
            attempted_words: texts(self.attempted_words@).to_set(),
            attempts_remaining: self.attempts_remaining as nat,
            state: self.state,
            score: self.score as nat,
        }
    }
}

impl HangmanGame {
    /// What holds of every game that this library hands out: nothing is
    /// listed twice, and the letters of the solution are those that occur
    /// in it.
    pub closed spec fn wf(&self) -> bool {
        &&& self.attempted_letters@.no_duplicates()
        &&& texts(self.attempted_words@).no_duplicates()
        &&& self.solution_letters@.no_duplicates()
        &&& self.solution_letters@.to_set() == self.solution@.to_set()
    }

    /// A new game on `solution` with `attempts` wrong guesses allowed.
    /// The word is refused, and handed back in the error, unless it is a
    /// valid solution.
    pub fn new(attempts: u32, solution: &str) -> (result: Result<Self, HangmanErrors>)
        ensures
            valid_solution(solution@) ==> (result matches Ok(game) && game.wf() && game@
                == GameView::fresh(attempts as nat, solution@)),
            !valid_solution(solution@) ==> (result matches Err(
                HangmanErrors::InvalidSolution(word),
            ) && word@ == solution@),
    {
        if solution.is_empty() {
            return Err(HangmanErrors::InvalidSolution(String::new()));
        }
        let letters = chars_of(solution);
        if !all_alphabetic(&letters) {
            return Err(HangmanErrors::InvalidSolution(solution.to_owned()));
        }
        let solution_letters = distinct(&letters);
        let game = HangmanGame {
            attempted_letters: Vec::new(),
            attempted_words: Vec::new(),
            attempts_remaining: attempts,
            state: State::Pending,
            solution: solution.to_owned(),
            solution_letters,
            score: 0,
        };
        assert(game.attempted_letters@.to_set() == Set::<char>::empty());
        assert(texts(game.attempted_words@).to_set() == Set::<Seq<char>>::empty());
        Ok(game)
    }

    /// Spends one attempt on a wrong guess, and ends the game as lost
    /// once none is left.
    fn miss(&mut self)
        requires
            old(self).wf(),
        ensures
            final(self).wf(),
            final(self)@ == old(self)@.after_miss(),
    {
        if self.attempts_remaining > 0 {
            self.attempts_remaining -= 1;
        }
        if self.attempts_remaining == 0 {
            self.state = State::Unsuccessful;
        }
    }

    /// Takes a guess of one letter. A finished game and a letter tried
    /// before are refused and change nothing. A letter that completes
    /// the solution wins the game; another letter of the solution costs
    /// nothing; any other letter costs one attempt.
    pub fn guess_letter(&mut self, guess: char) -> (result: Result<bool, HangmanErrors>)
        requires
            old(self).wf(),
        ensures
            final(self).wf(),
            answers(result, old(self)@.letter_answer(guess), "You already tried this letter!"@),
            final(self)@ == old(self)@.after_letter(guess),
    {
        if self.is_over() {
            return Err(HangmanErrors::HangmanGameOver);
        }
        if holds(&self.attempted_letters, guess) {
            return Err(HangmanErrors::BadGuess("You already tried this letter!".to_owned()));
        }
        proof {
            self.attempted_letters@.lemma_push_to_set_commute(guess);
        }
        self.attempted_letters.push(guess);
        proof {
            assert(self.attempted_letters@.to_set() == old(self)@.attempted_letters.insert(guess));
            assert(self.solution_letters@.contains(guess) <==> self.solution_letters@.to_set().contains(
                guess,
            ));
            assert(self.solution@.contains(guess) <==> self.solution@.to_set().contains(guess));
        }
        if holds_all(&self.attempted_letters, &self.solution_letters) {
            self.state = State::Victory;
            Ok(true)
        } else if holds(&self.solution_letters, guess) {
            Ok(true)
        } else {
            self.miss();
            Ok(false)
        }
    }

    /// Takes a guess of the whole word. A finished game and a word tried
    /// before are refused and change nothing. The solution itself wins
    /// the game; any other word costs one attempt.
    pub fn guess_word(&mut self, guess: &str) -> (result: Result<bool, HangmanErrors>)
        requires
            old(self).wf(),
        ensures
            final(self).wf(),
            answers(result, old(self)@.word_answer(guess@), "You already tried this word!"@),
            final(self)@ == old(self)@.after_word(guess@),
    {
        if self.is_over() {
            return Err(HangmanErrors::HangmanGameOver);
        }
        if holds_text(&self.attempted_words, guess) {
            return Err(HangmanErrors::BadGuess("You already tried this word!".to_owned()));
        }
        proof {
            texts(self.attempted_words@).lemma_push_to_set_commute(guess@);
        }
        let ghost before = self.attempted_words@;
        let owned = guess.to_owned();
        self.attempted_words.push(owned);
        assert(texts(self.attempted_words@) == texts(before).push(guess@));
        if same_text(guess, self.solution.as_str()) {
            self.state = State::Victory;
            Ok(true)
        } else {
            self.miss();
            Ok(false)
        }
    }

    /// The word to be found.
    pub fn solution(&self) -> (word: &str)
        ensures
            word@ == self@.solution,
    {
        self.solution.as_str()
    }

    /// The letters that occur in the solution, each once.
    pub fn solution_letters(&self) -> (letters: &Vec<char>)
        requires
            self.wf(),
        ensures
            letters@.no_duplicates(),
            letters@.to_set() == self@.solution_letters(),
    {
        &self.solution_letters
    }

    /// The letters tried so far, each once.
    pub fn attempted_letters(&self) -> (letters: &Vec<char>)
        requires
            self.wf(),
        ensures
            letters@.no_duplicates(),
            letters@.to_set() == self@.attempted_letters,
    {
        &self.attempted_letters
    }

    /// The words tried so far, each once.
    pub fn attempted_words(&self) -> (words: &Vec<String>)
        requires
            self.wf(),
        ensures
            texts(words@).no_duplicates(),
            texts(words@).to_set() == self@.attempted_words,
    {
        &self.attempted_words
    }

    /// Whether the letter `c` was tried.
    pub fn has_tried_letter(&self, c: char) -> (tried: bool)
        ensures
            tried == self@.attempted_letters.contains(c),
    {
        holds(&self.attempted_letters, c)
    }

    /// How many wrong guesses are still allowed.
    pub fn attempts_remaining(&self) -> (left: u32)
        ensures
            left == self@.attempts_remaining,
    {
        self.attempts_remaining
    }

    /// Where the game stands.
    pub fn state(&self) -> (state: State)
        ensures
            state == self@.state,
    {
        self.state
    }

    /// The points of this game.
    pub fn score(&self) -> (score: u32)
        ensures
            score == self@.score,
    {
        self.score
    }

    /// The game as plain values, each tried letter and word listed once.
    pub fn to_saved(&self) -> (saved: SavedGame)
        requires
            self.wf(),
        ensures
            saved@ == self@,
            saved.attempted_letters@.no_duplicates(),
            texts(saved.attempted_words@).no_duplicates(),
    {
        SavedGame {
            solution: self.solution.clone(),
            attempted_letters: self.attempted_letters.clone(),
            attempted_words: distinct_texts(&self.attempted_words),
            attempts_remaining: self.attempts_remaining,
            state: self.state,
            score: self.score,
        }
    }

    /// The game that `saved` describes. What was saved is taken as it
    /// is: a finished game comes back finished, and whether the state
    /// fits the guesses and the attempts is not looked into.
    pub fn from_saved(saved: SavedGame) -> (game: HangmanGame)
        ensures
            game.wf(),
            game@ == saved@,
    {
        let solution_letters = distinct(&chars_of(saved.solution.as_str()));
        HangmanGame {
            attempted_letters: distinct(&saved.attempted_letters),
            attempted_words: distinct_texts(&saved.attempted_words),
            attempts_remaining: saved.attempts_remaining,
            state: saved.state,
            solution: saved.solution,
            solution_letters,
            score: saved.score,
        }
    }

    /// Whether the game is won or lost.
    pub fn is_over(&self) -> (over: bool)
        ensures
            over == self@.is_over(),
    {
        match self.state {
            State::Pending => false,
            _ => true,
        }
    }
}

/// A letter that was not tried before, guessed in a pending game of which
/// some letter is still missing, is good exactly when the solution holds
/// it. Where an attempt is left, the guess costs one exactly when it is
/// not good; a good guess costs nothing in any case.
pub proof fn lemma_fresh_letter_is_good_iff_in_solution(g: GameView, c: char)
    requires
        g.state == State::Pending,
        !g.attempted_letters.contains(c),
        !g.solution_letters().subset_of(g.attempted_letters),
        g.attempts_remaining > 0 || g.solution.contains(c),
    ensures
        g.letter_answer(c) == Ok::<bool, Rejection>(g.solution.contains(c)),
        g.after_letter(c).attempts_remaining == g.attempts_remaining - 1 <==> g.letter_answer(c)
            == Ok::<bool, Rejection>(false),
        g.solution.contains(c) ==> g.after_letter(c).attempts_remaining == g.attempts_remaining,
{
    if g.completes(c) && !g.solution.contains(c) {
        assert forall|x: char| g.solution_letters().contains(x) implies g.attempted_letters.contains(
            x,
        ) by {
            assert(g.attempted_letters.insert(c).contains(x));
        }
    }
}

/// A letter that was not tried before and completes the solution wins a
/// pending game, however many attempts are left, and costs none.
pub proof fn lemma_completing_letter_wins(g: GameView, c: char)
    requires
        g.state == State::Pending,
        !g.attempted_letters.contains(c),
        g.solution_letters().subset_of(g.attempted_letters.insert(c)),
    ensures
        g.letter_answer(c) == Ok::<bool, Rejection>(true),
        g.after_letter(c).state == State::Victory,
        g.after_letter(c).attempts_remaining == g.attempts_remaining,
{
}

/// A word that was not tried before, guessed in a pending game, wins it
/// if it is the solution, whatever the attempts; otherwise it is wrong.
/// Where an attempt is left, the guess costs one exactly when the word is
/// not the solution; the solution costs nothing in any case.
pub proof fn lemma_fresh_word_costs_iff_wrong(g: GameView, w: Seq<char>)
    requires
        g.state == State::Pending,
        !g.attempted_words.contains(w),
        g.attempts_remaining > 0 || w == g.solution,
    ensures
        g.word_answer(w) == Ok::<bool, Rejection>(w == g.solution),
        g.after_word(w).attempts_remaining == g.attempts_remaining - 1 <==> w != g.solution,
        w == g.solution ==> g.after_word(w).state == State::Victory && g.after_word(
            w,
        ).attempts_remaining == g.attempts_remaining,
{
}

/// In a pending game, a letter or a word that was tried before is
/// rejected as repeated, and the game stays as it was.
pub proof fn lemma_repeated_guess_changes_nothing(g: GameView, c: char, w: Seq<char>)
    requires
        g.state == State::Pending,
    ensures
        g.attempted_letters.contains(c) ==> g.letter_answer(c) == Err::<bool, Rejection>(
            Rejection::Repeated,
        ) && g.after_letter(c) == g,
        g.attempted_words.contains(w) ==> g.word_answer(w) == Err::<bool, Rejection>(
            Rejection::Repeated,
        ) && g.after_word(w) == g,
{
}

/// A game that is won or lost rejects every guess, and stays as it was.
pub proof fn lemma_finished_game_changes_nothing(g: GameView, c: char, w: Seq<char>)
    requires
        g.state != State::Pending,
    ensures
        g.letter_answer(c) == Err::<bool, Rejection>(Rejection::GameOver),
        g.after_letter(c) == g,
        g.word_answer(w) == Err::<bool, Rejection>(Rejection::GameOver),
        g.after_word(w) == g,
{
}

/// A guess takes at most one attempt and never gives one back. A guess
/// that takes the last attempt loses the game, and a game is lost only
/// with no attempt left.
pub proof fn lemma_last_attempt_loses(g: GameView, c: char, w: Seq<char>)
    ensures
        g.attempts_remaining - 1 <= g.after_letter(c).attempts_remaining <= g.attempts_remaining,
        g.attempts_remaining - 1 <= g.after_word(w).attempts_remaining <= g.attempts_remaining,
        g.after_letter(c).attempts_remaining < g.attempts_remaining && g.after_letter(
            c,
        ).attempts_remaining == 0 ==> g.after_letter(c).state == State::Unsuccessful,
        g.after_word(w).attempts_remaining < g.attempts_remaining && g.after_word(
            w,
        ).attempts_remaining == 0 ==> g.after_word(w).state == State::Unsuccessful,
        g.state != State::Unsuccessful && g.after_letter(c).state == State::Unsuccessful ==> g.after_letter(
            c,
        ).attempts_remaining == 0,
        g.state != State::Unsuccessful && g.after_word(w).state == State::Unsuccessful ==> g.after_word(
            w,
        ).attempts_remaining == 0,
{
}

/// Saving a game and restoring it gives the same game: what
/// [`HangmanGame::to_saved`] returns describes the game, and what
/// [`HangmanGame::from_saved`] returns is the game described.
pub proof fn lemma_restoring_undoes_saving(
    game: HangmanGame,
    saved: SavedGame,
    restored: HangmanGame,
)
    requires
        saved@ == game@,
        restored@ == saved@,
    ensures
        restored@ == game@,
        restored@.solution == game@.solution,
        restored@.attempted_letters == game@.attempted_letters,
        restored@.attempted_words == game@.attempted_words,
        restored@.attempts_remaining == game@.attempts_remaining,
        restored@.state == game@.state,
        restored@.score == game@.score,
{
}

impl GameView {
    /// What holds of every game that starts fresh and goes on by guesses:
    /// while it is pending some letter of the solution is missing, and once
    /// it is lost no attempt is left.
    pub open spec fn coherent(self) -> bool {
        &&& self.state == State::Pending ==> !self.solution_letters().subset_of(
            self.attempted_letters,
        )
        &&& self.state == State::Unsuccessful ==> self.attempts_remaining == 0
    }
}

/// A fresh game on a word that is not empty is coherent, and a guess
/// leaves a coherent game coherent.
pub proof fn lemma_games_stay_coherent(
    g: GameView,
    c: char,
    w: Seq<char>,
    attempts: nat,
    solution: Seq<char>,
)
    ensures
        solution.len() > 0 ==> GameView::fresh(attempts, solution).coherent(),
        g.coherent() ==> g.after_letter(c).coherent(),
        g.coherent() ==> g.after_word(w).coherent(),
{
    if solution.len() > 0 {
        assert(solution.to_set().contains(solution[0]));
    }
}

/// How many words the vocabulary holds.
pub const VOCABULARY_SIZE: usize = 7;

/// The words a solution is drawn from.
pub open spec fn vocabulary() -> Seq<Seq<char>> {
    seq!["rust"@, "cargo"@, "compiler"@, "borrow"@, "ownership"@, "trait"@, "macro"@]
}

/// The word of the vocabulary at `index`.
pub fn word_at(index: usize) -> (word: &'static str)
    requires
        index < VOCABULARY_SIZE,
    ensures
        word@ == vocabulary()[index as int],
{
    if index == 0 {
        "rust"
    } else if index == 1 {
        "cargo"
    } else if index == 2 {
        "compiler"
    } else if index == 3 {
        "borrow"
    } else if index == 4 {
        "ownership"
    } else if index == 5 {
        "trait"
    } else {
        "macro"
    }
}

/// `rand::rngs::ThreadRng`, carried through unread.
#[verifier::external_type_specification]
#[verifier::external_body]
pub struct ExThreadRng(rand::rngs::ThreadRng);

/// `rand::thread_rng` hands out the generator of the current thread,
/// seeded by the system. Nothing is claimed of it.
pub assume_specification[ rand::thread_rng ]() -> (rng: rand::rngs::ThreadRng);

/// Draws a number from `0..bound` by `Rng::gen_range`, which panics on an
/// empty range. The number is random: all that is claimed is the range
/// it lies in.
#[verifier::external_body]
fn random_below(rng: &mut rand::rngs::ThreadRng, bound: usize) -> (index: usize)
    requires
        bound > 0,
    ensures
        index < bound,
{
    rng.gen_range(0..bound)
}

/// A word of the vocabulary, drawn at random.
pub fn get_random_word() -> (word: &'static str)
    ensures
        vocabulary().contains(word@),
{
    let mut rng = rand::thread_rng();
    let index = random_below(&mut rng, VOCABULARY_SIZE);
    word_at(index)
}

} // verus!
