//! Laws of the classifier, stated over the model and proved once and for
//! all: the classification of a word against itself, the characterization of
//! `Match` positions, and the bound on how often a letter can be scored.

use vstd::prelude::*;

use crate::classify::MatchType;
use crate::classify::classify;
use crate::classify::in_leftover;

verus! {

/// Occurrences of `c` among the first `n` characters of `s`.
pub open spec fn count_char_upto(s: Seq<char>, c: char, n: int) -> nat
    decreases n,
{
    if n <= 0 {
        0
    } else {
        count_char_upto(s, c, n - 1) + if s[n - 1] == c {
            1nat
        } else {
            0nat
        }
    }
}

/// Occurrences of `c` in `s`.
pub open spec fn count_char(s: Seq<char>, c: char) -> nat {
    count_char_upto(s, c, s.len() as int)
}

/// Positions `i < n` where word and guess agree and the letter is `c`.
pub open spec fn green_count(w: Seq<char>, g: Seq<char>, c: char, n: int) -> nat
    decreases n,
{
    if n <= 0 {
        0
    } else {
        green_count(w, g, c, n - 1) + if w[n - 1] == g[n - 1] && g[n - 1] == c {
            1nat
        } else {
            0nat
        }
    }
}

/// Positions `i < n` where word and guess disagree and the guessed letter is
/// `c`: the occurrences of `c` the guess offers beyond the greens.
pub open spec fn guess_leftover_count(w: Seq<char>, g: Seq<char>, c: char, n: int) -> nat
    decreases n,
{
    if n <= 0 {
        0
    } else {
        guess_leftover_count(w, g, c, n - 1) + if w[n - 1] != g[n - 1] && g[n - 1] == c {
            1nat
        } else {
            0nat
        }
    }
}

/// Positions `i < n` where word and guess disagree and the word's letter is
/// `c`: the occurrences of `c` in the leftover pool.
pub open spec fn word_leftover_count(w: Seq<char>, g: Seq<char>, c: char, n: int) -> nat
    decreases n,
{
    if n <= 0 {
        0
    } else {
        word_leftover_count(w, g, c, n - 1) + if w[n - 1] != g[n - 1] && w[n - 1] == c {
            1nat
        } else {
            0nat
        }
    }
}

/// Positions `i < n` where the guessed letter is `c` and the classification
/// scores it, as `Match` or as `Misplaced`.
pub open spec fn scored_count(w: Seq<char>, g: Seq<char>, c: char, n: int) -> nat
    decreases n,
{
    if n <= 0 {
        0
    } else {
        scored_count(w, g, c, n - 1) + if g[n - 1] == c && classify(w, g)[n - 1]
            != MatchType::NoMatch {
            1nat
        } else {
            0nat
        }
    }
}

/// Law: a word classified against itself is all `Match`.
pub proof fn lemma_classify_self(w: Seq<char>)
    ensures
        classify(w, w) == Seq::new(w.len(), |i: int| MatchType::Match),
{
    assert(classify(w, w) =~= Seq::new(w.len(), |i: int| MatchType::Match));
}

/// Law: a position is `Match` exactly when word and guess agree there.
pub proof fn lemma_match_iff_equal(w: Seq<char>, g: Seq<char>, i: int)
    requires
        w.len() == g.len(),
        0 <= i < w.len(),
    ensures
        (classify(w, g)[i] == MatchType::Match) <==> (w[i] == g[i]),
{
}

/// Law: the classification is all `Match` exactly when the guess is the
/// word.
pub proof fn lemma_all_match_iff_equal(w: Seq<char>, g: Seq<char>)
    requires
        w.len() == g.len(),
    ensures
        (forall|i: int| 0 <= i < w.len() ==> classify(w, g)[i] == MatchType::Match) <==> (w == g),
{
    if forall|i: int| 0 <= i < w.len() ==> classify(w, g)[i] == MatchType::Match {
        assert forall|i: int| 0 <= i < w.len() implies w[i] == g[i] by {
            lemma_match_iff_equal(w, g, i);
        }
        assert(w =~= g);
    }
}

/// Every position counts in exactly one of the greens and the leftover pool
/// of the word.
proof fn lemma_count_splits(w: Seq<char>, g: Seq<char>, c: char, n: int)
    requires
        w.len() == g.len(),
        0 <= n <= w.len(),
    ensures
        count_char_upto(w, c, n) == green_count(w, g, c, n) + word_leftover_count(w, g, c, n),
    decreases n,
{
    if n > 0 {
        lemma_count_splits(w, g, c, n - 1);
    }
}

/// A scored position is a green of `c`, or, when `c` is a leftover letter at
/// all, an offer of `c` outside the greens.
proof fn lemma_scored_splits(w: Seq<char>, g: Seq<char>, c: char, n: int)
    requires
        w.len() == g.len(),
        0 <= n <= w.len(),
    ensures
        scored_count(w, g, c, n) == green_count(w, g, c, n) + if in_leftover(w, g, c) {
            guess_leftover_count(w, g, c, n)
        } else {
            0nat
        },
    decreases n,
{
    if n > 0 {
        lemma_scored_splits(w, g, c, n - 1);
        if g[n - 1] == c && w[n - 1] != g[n - 1] {
            assert(classify(w, g)[n - 1] != MatchType::NoMatch <==> in_leftover(w, g, c));
        }
    }
}

/// A leftover occurrence witnessed at position `j` makes the pool's count of
/// its letter positive.
proof fn lemma_word_leftover_witness(w: Seq<char>, g: Seq<char>, c: char, j: int, n: int)
    requires
        0 <= j < n,
        w[j] != g[j],
        w[j] == c,
    ensures
        word_leftover_count(w, g, c, n) >= 1,
    decreases n,
{
    if j < n - 1 {
        lemma_word_leftover_witness(w, g, c, j, n - 1);
    }
}

/// Law: a letter is scored (`Match` or `Misplaced`) at most as often as it
/// occurs in the word. The leftover pool is consulted by membership, not
/// consumed, so the bound asks that the guess not offer the letter outside
/// the greens more often than a non-empty pool holds it.
pub proof fn lemma_scored_at_most_occurrences(w: Seq<char>, g: Seq<char>, c: char)
    requires
        w.len() == g.len(),
        word_leftover_count(w, g, c, w.len() as int) == 0 || guess_leftover_count(
            w,
            g,
            c,
            w.len() as int,
        ) <= word_leftover_count(w, g, c, w.len() as int),
    ensures
        scored_count(w, g, c, w.len() as int) <= count_char(w, c),
{
    let n = w.len() as int;
    lemma_count_splits(w, g, c, n);
    lemma_scored_splits(w, g, c, n);
    if in_leftover(w, g, c) {
        let j = choose|j: int| 0 <= j < w.len() && w[j] != g[j] && w[j] == c;
        lemma_word_leftover_witness(w, g, c, j, n);
    }
}

} // verus!
