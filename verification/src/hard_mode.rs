//! The hard-mode state and the predicates the validator is specified with.
//!
//! Hard mode constrains a guess by the feedback of the immediately preceding
//! guess: every green letter must be repeated at its position, and every
//! yellow letter must appear somewhere among the positions the greens do not
//! already pin down.

use vstd::prelude::*;

verus! {

/// The feedback of the previous guess that hard mode carries over: the
/// matched letters with their positions, and the set of misplaced letters.
#[derive(Debug)]
pub struct HardMatches {
    /// Letters confirmed at a position, in position order.
    pub greens: Vec<(char, usize)>,
    /// Letters confirmed present but misplaced, without repetition.
    pub yellows: Vec<char>,
}

/// Every green letter stands at its recorded position in `guess`.
pub open spec fn greens_hold(greens: Seq<(char, usize)>, guess: Seq<char>) -> bool {
    forall|k: int| 0 <= k < greens.len() ==> guess[(#[trigger] greens[k]).1 as int] == greens[k].0
}

/// Position `i` is pinned down by one of the greens.
pub open spec fn is_green_position(greens: Seq<(char, usize)>, i: int) -> bool {
    exists|k: int| 0 <= k < greens.len() && (#[trigger] greens[k]).1 == i
}

/// The letter `y` appears in `guess` at some position the greens leave free.
pub open spec fn yellow_holds(greens: Seq<(char, usize)>, guess: Seq<char>, y: char) -> bool {
    exists|i: int| 0 <= i < guess.len() && guess[i] == y && !is_green_position(greens, i)
}

/// Every yellow letter appears in `guess` outside the green positions.
pub open spec fn yellows_hold(
    greens: Seq<(char, usize)>,
    yellows: Seq<char>,
    guess: Seq<char>,
) -> bool {
    forall|k: int| 0 <= k < yellows.len() ==> yellow_holds(greens, guess, #[trigger] yellows[k])
}

} // verus!
