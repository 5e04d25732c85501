//! The game of hangman: a secret word, the letters guessed so far, and the
//! wrong guesses that are left.

use crate::text::{chars_of, first_letter, pieces, space, split_at_each, trim, trimmed};
use rand::Rng;
use vstd::prelude::*;

verus! {

/// The number of wrong guesses that a player may make.
pub const NUM_INCORRECT_GUESSES: u32 = 5;

/// `Rng::gen_range` of `rand` on the generator of the current thread, from
/// zero: some number below `bound`.
#[verifier::external_body]
fn random_below(bound: usize) -> (n: usize)
    requires
        bound > 0,
    ensures
        n < bound,
{
    rand::thread_rng().gen_range(0, bound)
}

/// The word on line `index` of the lines of a list of words, without the
/// white space around it.
pub fn word_at(lines: &Vec<String>, index: usize) -> (word: String)
    requires
        index < lines@.len(),
    ensures
        word@ == trimmed(lines@[index as int]@),
{
    trim(lines[index].as_str())
}

/// Picks one of the words of a list, one to a line, at random.
pub fn pick_a_random_word(file_string: &str) -> (word: String)
    ensures
        exists|index: int|
            0 <= index < pieces(file_string@, '\n').len() && word@ == trimmed(
                #[trigger] pieces(file_string@, '\n')[index],
            ),
{
    let lines = split_at_each(file_string, '\n');
    let index = random_below(lines.len());
    assert(lines.deep_view()[index as int] == lines@[index as int]@);
    word_at(&lines, index)
}

/// What a guess came to.
#[derive(Clone, Copy, Debug, PartialEq, Eq, Structural)]
pub enum Guess {
    /// The line held no letter.
    Nothing,
    /// The letter had been guessed before.
    Repeated,
    /// The letter is in the word.
    Hit,
    /// The letter is not in the word.
    Miss,
}

impl Guess {
    /// What the player is told after the guess; nothing after a hit.
    pub open spec fn told(self) -> Option<Seq<char>> {
        match self {
            Guess::Nothing => Some("please input a character!"@),
            Guess::Repeated => Some("You have already guessed this character"@),
            Guess::Hit => None,
            Guess::Miss => Some("Sorry, that letter is not in the word"@),
        }
    }

    /// The message for the player after the guess; nothing after a hit.
    pub fn message(self) -> (text: Option<&'static str>)
        ensures
            text is Some <==> self.told() is Some,
            text matches Some(t) ==> Some(t@) == self.told(),
    {
        match self {
            Guess::Nothing => Some("please input a character!"),
            Guess::Repeated => Some("You have already guessed this character"),
            Guess::Hit => None,
            Guess::Miss => Some("Sorry, that letter is not in the word"),
        }
    }
}

/// A game in progress.
#[derive(Clone, Debug, PartialEq, Eq)]
pub struct Hangman {
    secret: Vec<char>,
    guessed: Vec<char>,
    guesses_left: u32,
}

/// The word with a dash in place of each letter that is not among `guessed`.
pub open spec fn revealed(secret: Seq<char>, guessed: Seq<char>) -> Seq<char> {
    Seq::new(
        secret.len(),
        |i: int|
            if guessed.contains(secret[i]) {
                secret[i]
            } else {
                '-'
            },
    )
}

/// Every letter of the word is among `guessed`.
pub open spec fn solved(secret: Seq<char>, guessed: Seq<char>) -> bool {
    forall|i: int| 0 <= i < secret.len() ==> guessed.contains(#[trigger] secret[i])
}

/// What guessing with `line` comes to in a game with this word and these
/// letters guessed: the guess is the first character of the line that is not
/// white space.
pub open spec fn judged(secret: Seq<char>, guessed: Seq<char>, line: Seq<char>) -> Guess {
    match first_letter(line) {
        None => Guess::Nothing,
        Some(c) => if guessed.contains(c) {
            Guess::Repeated
        } else if secret.contains(c) {
            Guess::Hit
        } else {
            Guess::Miss
        },
    }
}

fn holds(letters: &Vec<char>, c: char) -> (found: bool)
    ensures
        found == letters@.contains(c),
{
    let mut i: usize = 0;
    while i < letters.len()
        invariant
            i <= letters@.len(),
            forall|k: int| 0 <= k < i ==> letters@[k] != c,
        decreases letters@.len() - i,
    {
        if letters[i] == c {
            return true;
        }
        i += 1;
    }
    false
}

fn first_letter_of(line: &str) -> (letter: Option<char>)
    ensures
        letter == first_letter(line@),
{
    let chars = chars_of(line);
    let mut i: usize = 0;
    assert(chars@.skip(0) =~= chars@);
    while i < chars.len()
        invariant
            i <= chars@.len(),
            chars@ == line@,
            first_letter(line@) == first_letter(chars@.skip(i as int)),
        decreases chars@.len() - i,
    {
        assert(chars@.skip(i as int).drop_first() =~= chars@.skip(i + 1));
        if !space(chars[i]) {
            return Some(chars[i]);
        }
        i += 1;
    }
    None
}

impl Hangman {
    /// The secret word.
    pub closed spec fn secret(&self) -> Seq<char> {
        self.secret@
    }

    /// The letters guessed so far, in the order of the guesses.
    pub closed spec fn guessed(&self) -> Seq<char> {
        self.guessed@
    }

    /// The number of wrong guesses that the player may still make.
    pub closed spec fn left(&self) -> nat {
        self.guesses_left as nat
    }

    /// A new game on `secret_word`: nothing guessed, all wrong guesses left.
    pub fn new(secret_word: &str) -> (game: Hangman)
        ensures
            game.secret() == secret_word@,
            game.guessed() == Seq::<char>::empty(),
            game.left() == NUM_INCORRECT_GUESSES,
    {
        Hangman {
            secret: chars_of(secret_word),
            guessed: Vec::new(),
            guesses_left: NUM_INCORRECT_GUESSES,
        }
    }

    /// The number of wrong guesses that the player may still make.
    pub fn guesses_left(&self) -> (left: u32)
        ensures
            left == self.left(),
    {
        self.guesses_left
    }

    /// The letters guessed so far, in the order of the guesses.
    pub fn guessed_letters(&self) -> (letters: String)
        ensures
            letters@ == self.guessed(),
    {
        let letters = crate::text::string_of(&self.guessed, 0, self.guessed.len());
        assert(self.guessed@.subrange(0, self.guessed@.len() as int) =~= self.guessed@);
        letters
    }

    /// The word as the player knows it: a dash for each letter not guessed.
    pub fn word_so_far(&self) -> (word: String)
        ensures
            word@ == revealed(self.secret(), self.guessed()),
    {
        let mut shown: Vec<char> = Vec::new();
        let mut i: usize = 0;
        while i < self.secret.len()
            invariant
                i <= self.secret@.len(),
                shown@.len() == i,
                forall|k: int|
                    0 <= k < i ==> shown@[k] == revealed(self.secret@, self.guessed@)[k],
            decreases self.secret@.len() - i,
        {
            let c = self.secret[i];
            if holds(&self.guessed, c) {
                shown.push(c);
            } else {
                shown.push('-');
            }
            i += 1;
        }
        let word = crate::text::string_of(&shown, 0, shown.len());
        assert(shown@.subrange(0, shown@.len() as int) =~= revealed(self.secret@, self.guessed@));
        word
    }

    /// Whether every letter of the word has been guessed.
    pub fn is_solved(&self) -> (done: bool)
        ensures
            done == solved(self.secret(), self.guessed()),
    {
        let mut i: usize = 0;
        while i < self.secret.len()
            invariant
                i <= self.secret@.len(),
                forall|k: int| 0 <= k < i ==> self.guessed@.contains(#[trigger] self.secret@[k]),
            decreases self.secret@.len() - i,
        {
            if !holds(&self.guessed, self.secret[i]) {
                return false;
            }
            i += 1;
        }
        true
    }

    /// Whether the game goes on: there are wrong guesses left and the word
    /// is not yet found.
    pub fn is_open(&self) -> (open: bool)
        ensures
            open == (self.left() > 0 && !solved(self.secret(), self.guessed())),
    {
        self.guesses_left > 0 && !self.is_solved()
    }

    /// Takes a guess: the first character of `line` that is not white space.
    /// A letter not guessed before joins the letters guessed; one that is
    /// not in the word costs a wrong guess. A line without a letter and a
    /// letter guessed before change nothing.
    pub fn guess(&mut self, line: &str) -> (outcome: Guess)
        requires
            old(self).left() > 0,
        ensures
            outcome == judged(old(self).secret(), old(self).guessed(), line@),
            final(self).secret() == old(self).secret(),
            final(self).guessed() == if outcome is Hit || outcome is Miss {
                old(self).guessed().push(first_letter(line@)->0)
            } else {
                old(self).guessed()
            },
            final(self).left() == if outcome is Miss {
                old(self).left() - 1
            } else {
                old(self).left() as int
            },
    {
        match first_letter_of(line) {
            None => Guess::Nothing,
            Some(c) => {
                if holds(&self.guessed, c) {
                    Guess::Repeated
                } else {
                    self.guessed.push(c);
                    if holds(&self.secret, c) {
                        Guess::Hit
                    } else {
                        self.guesses_left -= 1;
                        Guess::Miss
                    }
                }
            },
        }
    }
}

} // verus!
