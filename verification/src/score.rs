//! Objective-function scores.
//!
//! A score is either a finite fixed-point value or the sentinel
//! `Infinite`, which stands for "never evaluated / worse than anything".

use vstd::prelude::*;

verus! {

/// The value of the objective function at a particle, as a fixed-point
/// number (see `fixed::SCALE`), or `Infinite` before any evaluation.
#[derive(Clone, Copy, PartialEq, Eq, Structural, Debug)]
pub enum Score {
    Finite(i64),
    Infinite,
}

/// `a` is at most `b` in the score order; `Infinite` sits above every
/// finite value.
pub open spec fn score_le(a: Score, b: Score) -> bool {
    match (a, b) {
        (Score::Finite(x), Score::Finite(y)) => x <= y,
        (Score::Finite(_), Score::Infinite) => true,
        (Score::Infinite, Score::Infinite) => true,
        (Score::Infinite, Score::Finite(_)) => false,
    }
}

/// `a` is strictly below `b` in the score order.
pub open spec fn score_lt(a: Score, b: Score) -> bool {
    score_le(a, b) && a != b
}

impl Score {
    /// Whether `self` is strictly better (lower) than `other`.
    pub fn is_below(&self, other: &Score) -> (r: bool)
        ensures
            r == score_lt(*self, *other),
    {
        match (self, other) {
            (Score::Finite(x), Score::Finite(y)) => x < y,
            (Score::Finite(_), Score::Infinite) => true,
            _ => false,
        }
    }
}

/// The score order is transitive.
pub proof fn lemma_score_le_trans(a: Score, b: Score, c: Score)
    requires
        score_le(a, b),
        score_le(b, c),
    ensures
        score_le(a, c),
{
}

/// The least score of a sequence; `Infinite` for the empty sequence.
pub open spec fn seq_min(s: Seq<Score>) -> Score
    decreases s.len(),
{
    if s.len() == 0 {
        Score::Infinite
    } else {
        let m = seq_min(s.drop_last());
        if score_lt(s.last(), m) {
            s.last()
        } else {
            m
        }
    }
}

/// The minimum of a sequence is at most each of its elements.
pub proof fn lemma_seq_min_le(s: Seq<Score>, i: int)
    requires
        0 <= i < s.len(),
    ensures
        score_le(seq_min(s), s[i]),
    decreases s.len(),
{
    if i == s.len() - 1 {
    } else {
        lemma_seq_min_le(s.drop_last(), i);
        assert(s.drop_last()[i] == s[i]);
    }
}

/// A nonempty sequence attains its minimum.
pub proof fn lemma_seq_min_attained(s: Seq<Score>) -> (k: int)
    requires
        s.len() > 0,
    ensures
        0 <= k < s.len(),
        s[k] == seq_min(s),
    decreases s.len(),
{
    if score_lt(s.last(), seq_min(s.drop_last())) {
        s.len() - 1
    } else if s.len() == 1 {
        assert(seq_min(s) == s[0]);
        0
    } else {
        let k = lemma_seq_min_attained(s.drop_last());
        assert(s.drop_last()[k] == s[k]);
        k
    }
}

} // verus!
