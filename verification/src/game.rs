//! The game configuration and the decisions of one turn.
//!
//! `Config` owns the secret word, the dictionary, and the hard-mode state
//! left behind by the previous guess. `determine_match` classifies a guess
//! and replaces that state; `is_good_hard_mode_guess` validates a guess
//! against it; `play_turn` strings the per-turn decisions together so that a
//! driver only performs I/O.

use vstd::prelude::*;

use crate::classify::MatchType;
use crate::classify::all_match;
use crate::classify::chars_of;
use crate::classify::classify;
use crate::classify::contains_char;
use crate::classify::greens_of;
use crate::classify::in_leftover;
use crate::classify::is_yellow;
use crate::hard_mode::HardMatches;
use crate::hard_mode::greens_hold;
use crate::hard_mode::is_green_position;
use crate::hard_mode::yellow_holds;
use crate::hard_mode::yellows_hold;
use crate::laws::lemma_all_match_iff_equal;

verus! {

/// Attempts a player is allowed before the word is revealed.
pub const GUESSES: i32 = 6;

/// Length, in characters, of every word and guess.
pub const WORD_LENGTH: usize = 5;

/// One game: the secret word, the dictionary, whether hard mode is on, and
/// the hard-mode state of the previous guess.
#[derive(Debug)]
pub struct Config {
    pub hard: bool,
    pub word: String,
    pub words: Vec<String>,
    pub hard_matches: Option<HardMatches>,
}

impl Config {
    /// The dictionary, each word as its character sequence.
    pub open spec fn spec_word_list(&self) -> Seq<Seq<char>> {
        self.words.deep_view()
    }

    /// The hard-mode state carried over from the previous guess, if any.
    pub open spec fn spec_hard_matches(&self) -> Option<HardMatches> {
        self.hard_matches
    }

    /// Every recorded green position lies inside the word.
    pub open spec fn wf(&self) -> bool {
        match self.spec_hard_matches() {
            Some(hm) => forall|k: int|
                0 <= k < hm.greens@.len() ==> (#[trigger] hm.greens@[k]).1 < self.word@.len(),
            None => true,
        }
    }

    /// Hard mode allows `guess`: vacuously before the first guess, and
    /// otherwise exactly when the previous greens and yellows are reused.
    pub open spec fn hard_guess_allowed(&self, guess: Seq<char>) -> bool {
        match self.spec_hard_matches() {
            Some(hm) => greens_hold(hm.greens@, guess) && yellows_hold(
                hm.greens@,
                hm.yellows@,
                guess,
            ),
            None => true,
        }
    }

    /// A fresh game: no guess has been made yet.
    pub fn new(word: String, words: Vec<String>, hard: bool) -> (c: Config)
        ensures
            c.word == word,
            c.hard == hard,
            c.spec_word_list() == words.deep_view(),
            c.spec_hard_matches() is None,
            c.wf(),
    {
        Config { word, words, hard, hard_matches: None }
    }

    /// Whether `guess` is a word of the dictionary.
    pub fn in_list(&self, guess: &str) -> (r: bool)
        ensures
            r == self.spec_word_list().contains(guess@),
    {
        let g = guess.to_owned();
        let mut i: usize = 0;
        while i < self.words.len()
            invariant
                i <= self.words@.len(),
                g@ == guess@,
                forall|j: int| 0 <= j < i ==> self.words.deep_view()[j] != guess@,
            decreases self.words@.len() - i,
        {
            if self.words[i] == g {
                proof {
                    assert(self.spec_word_list()[i as int] == guess@);
                }
                return true;
            }
            i += 1;
        }
        false
    }

    /// Whether `guess` satisfies the hard-mode rule against the feedback of
    /// the previous guess. Before any guess, every guess is allowed.
    pub fn is_good_hard_mode_guess(&self, guess: &String) -> (r: bool)
        requires
            self.wf(),
            guess@.len() == self.word@.len(),
        ensures
            r == self.hard_guess_allowed(guess@),
            self.spec_hard_matches() is None ==> r,
    {
        match &self.hard_matches {
            None => true,
            Some(hm) => {
                let gchars = chars_of(guess.as_str());
                let mut k: usize = 0;
                while k < hm.greens.len()
                    invariant
                        k <= hm.greens@.len(),
                        gchars@ == guess@,
                        self.spec_hard_matches() == Some(*hm),
                        self.wf(),
                        guess@.len() == self.word@.len(),
                        forall|j: int|
                            0 <= j < k ==> guess@[(#[trigger] hm.greens@[j]).1 as int]
                                == hm.greens@[j].0,
                    decreases hm.greens@.len() - k,
                {
                    let (c, idx) = hm.greens[k];
                    proof {
                        assert(self.spec_hard_matches()->Some_0 == *hm);
                        assert(hm.greens@[k as int].1 < self.word@.len());
                    }
                    if gchars[idx] != c {
                        return false;
                    }
                    k += 1;
                }
                let mut t: usize = 0;
                while t < hm.yellows.len()
                    invariant
                        t <= hm.yellows@.len(),
                        gchars@ == guess@,
                        self.spec_hard_matches() == Some(*hm),
                        greens_hold(hm.greens@, guess@),
                        forall|j: int|
                            0 <= j < t ==> yellow_holds(
                                hm.greens@,
                                guess@,
                                #[trigger] hm.yellows@[j],
                            ),
                    decreases hm.yellows@.len() - t,
                {
                    if !appears_outside_greens(&hm.greens, &gchars, hm.yellows[t]) {
                        return false;
                    }
                    t += 1;
                }
                true
            },
        }
    }

    /// The game accepts `guess` as an attempt: it has the right length, it
    /// is a dictionary word, and, in hard mode, it reuses the previous
    /// feedback.
    pub open spec fn guess_accepted(&self, guess: Seq<char>) -> bool {
        &&& guess.len() == WORD_LENGTH
        &&& self.spec_word_list().contains(guess)
        &&& (self.hard ==> self.hard_guess_allowed(guess))
    }

    /// The hard-mode state records exactly the feedback of classifying
    /// `guess` against `word`.
    pub open spec fn records_feedback(&self, word: Seq<char>, guess: Seq<char>) -> bool {
        &&& self.spec_hard_matches() is Some
        &&& self.spec_hard_matches()->Some_0.greens@ == greens_of(word, guess)
        &&& forall|c: char|
            self.spec_hard_matches()->Some_0.yellows@.contains(c) <==> is_yellow(word, guess, c)
    }

    /// Classify `guess` against the secret word, and replace the hard-mode
    /// state with the greens and yellows of this classification.
    pub fn determine_match(&mut self, guess: &String) -> (tags: Vec<MatchType>)
        requires
            guess@.len() == old(self).word@.len(),
        ensures
            tags@ == classify(old(self).word@, guess@),
            tags@.len() == old(self).word@.len(),
            final(self).word == old(self).word,
            final(self).hard == old(self).hard,
            final(self).spec_word_list() == old(self).spec_word_list(),
            final(self).records_feedback(old(self).word@, guess@),
            final(self).wf(),
    {
        let ghost w = self.word@;
        let ghost g = guess@;
        let wchars = chars_of(self.word.as_str());
        let gchars = chars_of(guess.as_str());
        let n = wchars.len();

        let mut tags: Vec<MatchType> = Vec::new();
        let mut leftover: Vec<char> = Vec::new();
        let mut greens: Vec<(char, usize)> = Vec::new();

        let mut i: usize = 0;
        while i < n
            invariant
                i <= n,
                n == w.len(),
                w.len() == g.len(),
                wchars@ == w,
                gchars@ == g,
                tags@.len() == i,
                forall|j: int|
                    0 <= j < i ==> tags@[j] == (if w[j] == g[j] {
                        MatchType::Match
                    } else {
                        MatchType::NoMatch
                    }),
                forall|c: char|
                    leftover@.contains(c) <==> exists|j: int|
                        0 <= j < i && w[j] != g[j] && w[j] == c,
                greens@ == greens_of(w.take(i as int), g.take(i as int)),
                forall|k: int| 0 <= k < greens@.len() ==> (#[trigger] greens@[k]).1 < i,
            decreases n - i,
        {
            let ghost leftover_before = leftover@;
            if wchars[i] == gchars[i] {
                greens.push((wchars[i], i));
                tags.push(MatchType::Match);
            } else {
                leftover.push(wchars[i]);
                tags.push(MatchType::NoMatch);
            }
            proof {
                assert(w.take(i + 1 as int).drop_last() =~= w.take(i as int));
                assert(g.take(i + 1 as int).drop_last() =~= g.take(i as int));
                if w[i as int] != g[i as int] {
                    assert forall|c: char| leftover@.contains(c) <==> exists|j: int|
                        0 <= j < i + 1 && w[j] != g[j] && w[j] == c by {
                        if leftover@.contains(c) {
                            let idx = choose|idx: int|
                                0 <= idx < leftover@.len() && leftover@[idx] == c;
                            if idx < leftover_before.len() {
                                assert(leftover_before.contains(c));
                            } else {
                                assert(c == w[i as int]);
                            }
                        }
                        if exists|j: int| 0 <= j < i + 1 && w[j] != g[j] && w[j] == c {
                            let j = choose|j: int| 0 <= j < i + 1 && w[j] != g[j] && w[j] == c;
                            if j < i {
                                assert(leftover_before.contains(c));
                                let idx = choose|idx: int|
                                    0 <= idx < leftover_before.len() && leftover_before[idx] == c;
                                assert(leftover@[idx] == c);
                            } else {
                                assert(leftover@.last() == c);
                            }
                        }
                    }
                }
            }
            i += 1;
        }
        proof {
            assert(w.take(n as int) =~= w);
            assert(g.take(n as int) =~= g);
        }

        let mut yellows: Vec<char> = Vec::new();
        let mut i2: usize = 0;
        while i2 < n
            invariant
                i2 <= n,
                n == w.len(),
                w.len() == g.len(),
                gchars@ == g,
                tags@.len() == n,
                forall|j: int|
                    i2 <= j < n ==> tags@[j] == (if w[j] == g[j] {
                        MatchType::Match
                    } else {
                        MatchType::NoMatch
                    }),
                forall|j: int| 0 <= j < i2 ==> tags@[j] == classify(w, g)[j],
                forall|c: char| leftover@.contains(c) <==> in_leftover(w, g, c),
                forall|c: char|
                    yellows@.contains(c) <==> exists|j: int|
                        0 <= j < i2 && classify(w, g)[j] == MatchType::Misplaced && g[j] == c,
            decreases n - i2,
        {
            let gi = gchars[i2];
            let ghost yellows_before = yellows@;
            if tags[i2] == MatchType::NoMatch && contains_char(&leftover, gi) {
                tags[i2] = MatchType::Misplaced;
                let already = contains_char(&yellows, gi);
                if !already {
                    yellows.push(gi);
                }
                proof {
                    assert(classify(w, g)[i2 as int] == MatchType::Misplaced);
                    if !already {
                        assert(yellows@.last() == gi);
                    }
                    assert(yellows@.contains(gi));
                }
            }
            proof {
                assert forall|c: char| yellows@.contains(c) <==> exists|j: int|
                    0 <= j < i2 + 1 && classify(w, g)[j] == MatchType::Misplaced && g[j] == c by {
                    if yellows@.contains(c) {
                        let idx = choose|idx: int|
                            0 <= idx < yellows@.len() && yellows@[idx] == c;
                        if idx < yellows_before.len() {
                            assert(yellows_before.contains(c));
                        } else {
                            assert(c == g[i2 as int]);
                        }
                    }
                    if exists|j: int|
                        0 <= j < i2 + 1 && classify(w, g)[j] == MatchType::Misplaced && g[j] == c {
                        let j = choose|j: int|
                            0 <= j < i2 + 1 && classify(w, g)[j] == MatchType::Misplaced && g[j]
                                == c;
                        if j < i2 {
                            assert(yellows_before.contains(c));
                            let idx = choose|idx: int|
                                0 <= idx < yellows_before.len() && yellows_before[idx] == c;
                            assert(yellows@[idx] == c);
                        } else {
                            assert(c == g[i2 as int]);
                            assert(yellows@.contains(c));
                        }
                    }
                }
            }
            i2 += 1;
        }
        proof {
            assert(tags@ =~= classify(w, g));
        }

        self.hard_matches = Some(HardMatches { greens, yellows });
        tags
    }

    /// Decide one turn of the game for `guess`, the `attempts_made + 1`-th
    /// attempt: reject it without consuming an attempt, or classify it and
    /// say whether the game is won, lost, or goes on.
    pub fn play_turn(&mut self, guess: &String, attempts_made: i32) -> (t: Turn)
        requires
            old(self).wf(),
            old(self).word@.len() == WORD_LENGTH,
            0 <= attempts_made < GUESSES,
        ensures
            final(self).word == old(self).word,
            final(self).hard == old(self).hard,
            final(self).spec_word_list() == old(self).spec_word_list(),
            final(self).wf(),
            (t is WrongLength) <==> guess@.len() != WORD_LENGTH,
            (t is NotInList) <==> (guess@.len() == WORD_LENGTH && !old(self).spec_word_list().contains(guess@)),
            (t is HardViolation) <==> (guess@.len() == WORD_LENGTH && old(self).spec_word_list().contains(guess@) && old(self).hard && !old(self).hard_guess_allowed(guess@)),
            !old(self).guess_accepted(guess@) ==> *final(self) == *old(self),
            (t is Won) <==> (old(self).guess_accepted(guess@) && guess@ == old(self).word@),
            (t is Lost) <==> (old(self).guess_accepted(guess@) && guess@ != old(self).word@ && attempts_made + 1 == GUESSES),
            (t is Continue) <==> (old(self).guess_accepted(guess@) && guess@ != old(self).word@ && attempts_made + 1 < GUESSES),
            t matches Turn::Won(tags) ==> tags@ == classify(old(self).word@, guess@),
            t matches Turn::Lost(tags) ==> tags@ == classify(old(self).word@, guess@),
            t matches Turn::Continue(tags) ==> tags@ == classify(old(self).word@, guess@),
            old(self).guess_accepted(guess@) ==> final(self).records_feedback(
                old(self).word@,
                guess@,
            ),
    {
        let gchars = chars_of(guess.as_str());
        if gchars.len() != WORD_LENGTH {
            Turn::WrongLength
        } else if !self.in_list(guess.as_str()) {
            Turn::NotInList
        } else if self.hard && !self.is_good_hard_mode_guess(guess) {
            Turn::HardViolation
        } else {
            let tags = self.determine_match(guess);
            proof {
                lemma_all_match_iff_equal(old(self).word@, guess@);
            }
            if all_match(&tags) {
                Turn::Won(tags)
            } else if attempts_made + 1 == GUESSES {
                Turn::Lost(tags)
            } else {
                Turn::Continue(tags)
            }
        }
    }
}

/// The outcome of offering one guess to the game.
#[derive(Debug)]
pub enum Turn {
    /// Rejected: the guess does not have `WORD_LENGTH` characters. No
    /// attempt is consumed.
    WrongLength,
    /// Rejected: the guess is not a dictionary word. No attempt is consumed.
    NotInList,
    /// Rejected: hard mode is on and the guess does not reuse the previous
    /// feedback. No attempt is consumed.
    HardViolation,
    /// Accepted and correct: the classification is all `Match`.
    Won(Vec<MatchType>),
    /// Accepted, wrong, and it was the last attempt.
    Lost(Vec<MatchType>),
    /// Accepted and wrong, with attempts still left.
    Continue(Vec<MatchType>),
}

/// Relies on `rand::random_range`: a sample from the uniform distribution
/// over `0..n` lies below `n`; `n > 0` keeps the range non-empty, on which
/// the function would panic.
#[verifier::external_body]
fn random_below(n: usize) -> (r: usize)
    requires
        n > 0,
    ensures
        r < n,
{
    rand::random_range(0..n)
}

/// A randomly chosen word of the list, or `None` when the list is empty.
pub fn pick_random_word(words: &Vec<String>) -> (r: Option<String>)
    ensures
        (r is Some) <==> words@.len() > 0,
        r matches Some(w) ==> exists|i: int| 0 <= i < words@.len() && w == words@[i],
{
    if words.len() == 0 {
        None
    } else {
        let i = random_below(words.len());
        Some(words[i].clone())
    }
}

/// Whether position `i` is pinned down by one of the greens.
fn position_is_green(greens: &Vec<(char, usize)>, i: usize) -> (r: bool)
    ensures
        r == is_green_position(greens@, i as int),
{
    let mut k: usize = 0;
    while k < greens.len()
        invariant
            k <= greens@.len(),
            forall|j: int| 0 <= j < k ==> (#[trigger] greens@[j]).1 != i,
        decreases greens@.len() - k,
    {
        if greens[k].1 == i {
            return true;
        }
        k += 1;
    }
    false
}

/// Whether the letter `y` appears among the characters of the guess at a
/// position the greens leave free.
fn appears_outside_greens(greens: &Vec<(char, usize)>, gchars: &Vec<char>, y: char) -> (r: bool)
    ensures
        r == yellow_holds(greens@, gchars@, y),
{
    let mut i: usize = 0;
    while i < gchars.len()
        invariant
            i <= gchars@.len(),
            forall|j: int| 0 <= j < i ==> !(gchars@[j] == y && !is_green_position(greens@, j)),
        decreases gchars@.len() - i,
    {
        if gchars[i] == y && !position_is_green(greens, i) {
            return true;
        }
        i += 1;
    }
    false
}

} // verus!
