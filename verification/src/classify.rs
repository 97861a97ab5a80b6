//! The match classifier's mathematical model, and small verified helpers on
//! characters and strings.
//!
//! The model deliberately mirrors the two-pass algorithm: a position is a
//! `Match` when word and guess agree there; otherwise it is `Misplaced`
//! exactly when the guessed letter occurs somewhere in the word at a
//! position that is itself not a match (the "leftover" letters of the first
//! pass). The leftover pool is consulted by membership only, so several
//! guess positions may be satisfied by one leftover occurrence; the counting
//! consequences of that choice are worked out in `laws`.

use vstd::prelude::*;

verus! {

/// Per-position feedback for one guess.
#[derive(Clone, Copy, Debug, PartialEq, Eq, Structural)]
pub enum MatchType {
    /// The guessed letter stands at this position in the word.
    Match,
    /// The guessed letter occurs in the word, but not at this position.
    Misplaced,
    /// The guessed letter accounts for no leftover letter of the word.
    NoMatch,
}

/// The letter `c` occurs in `word` at some position where `guess` misses,
/// i.e. `c` is in the pool of leftover letters the first pass collects.
pub open spec fn in_leftover(word: Seq<char>, guess: Seq<char>, c: char) -> bool {
    exists|j: int| 0 <= j < word.len() && word[j] != guess[j] && word[j] == c
}

/// The classification of `guess` against `word`: one tag per position.
pub open spec fn classify(word: Seq<char>, guess: Seq<char>) -> Seq<MatchType> {
    Seq::new(
        word.len(),
        |i: int|
            if word[i] == guess[i] {
                MatchType::Match
            } else if in_leftover(word, guess, guess[i]) {
                MatchType::Misplaced
            } else {
                MatchType::NoMatch
            },
    )
}

/// The greens of a classification: each matched letter with its position,
/// in position order.
pub open spec fn greens_of(word: Seq<char>, guess: Seq<char>) -> Seq<(char, usize)>
    decreases word.len(),
{
    if word.len() == 0 {
        Seq::empty()
    } else {
        let prefix = greens_of(word.drop_last(), guess.drop_last());
        if word.last() == guess.last() {
            prefix.push((word.last(), (word.len() - 1) as usize))
        } else {
            prefix
        }
    }
}

/// The letter `c` is marked `Misplaced` somewhere in the classification of
/// `guess` against `word`: `c` is a yellow of that guess.
pub open spec fn is_yellow(word: Seq<char>, guess: Seq<char>, c: char) -> bool {
    exists|i: int|
        0 <= i < word.len() && classify(word, guess)[i] == MatchType::Misplaced && guess[i] == c
}

/// The characters of a string, as a vector.
pub fn chars_of(s: &str) -> (r: Vec<char>)
    ensures
        r@ == s@,
{
    let n = s.unicode_len();
    let mut r: Vec<char> = Vec::new();
    let mut i: usize = 0;
    while i < n
        invariant
            i <= n,
            n == s@.len(),
            r@ == s@.take(i as int),
        decreases n - i,
    {
        r.push(s.get_char(i));
        proof {
            assert(s@.take(i + 1 as int) =~= s@.take(i as int).push(s@[i as int]));
        }
        i += 1;
    }
    proof {
        assert(s@.take(n as int) =~= s@);
    }
    r
}

/// Whether the vector holds the character `c`.
pub fn contains_char(v: &Vec<char>, c: char) -> (r: bool)
    ensures
        r == v@.contains(c),
{
    let mut i: usize = 0;
    while i < v.len()
        invariant
            i <= v@.len(),
            forall|j: int| 0 <= j < i ==> v@[j] != c,
        decreases v@.len() - i,
    {
        if v[i] == c {
            return true;
        }
        i += 1;
    }
    false
}

/// Whether every tag of a classification is `Match`.
pub fn all_match(tags: &Vec<MatchType>) -> (r: bool)
    ensures
        r == (forall|i: int| 0 <= i < tags@.len() ==> tags@[i] == MatchType::Match),
{
    let mut i: usize = 0;
    while i < tags.len()
        invariant
            i <= tags@.len(),
            forall|j: int| 0 <= j < i ==> tags@[j] == MatchType::Match,
        decreases tags@.len() - i,
    {
        if tags[i] != MatchType::Match {
            return false;
        }
        i += 1;
    }
    true
}

} // verus!
