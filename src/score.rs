use vstd::prelude::*;

verus! {

/// Which side of the true value a cached score stands on.
#[derive(Debug, PartialEq, Eq, Structural, Copy, Clone)]
pub enum ScoreBound {
    UpperBound,
    Exact,
    LowerBound,
}

/// A search score: four times the value, the two low bits holding the bound tag
/// (0 exact, 1 lower bound, 3 upper bound).
#[derive(Debug, PartialEq, Eq, Structural, Copy, Clone, PartialOrd, Ord)]
pub struct Score(pub i32);

/// The bound that tag bits `t` stand for.
pub open spec fn bound_of_tag(t: int) -> ScoreBound {
    if t == 0 {
        ScoreBound::Exact
    } else if t == 1 {
        ScoreBound::LowerBound
    } else {
        ScoreBound::UpperBound
    }
}

/// `x` rounded to the exact score whose tag it would carry: `(x + 1)` with the tag bits
/// cleared.
pub open spec fn exact_part(x: int) -> int {
    (x + 1) - (x + 1) % 4
}

/// The tag bits of a word: its remainder modulo four, taken from the word's distance to
/// `i32::MIN` (a multiple of four) so that it is never negative.
fn low_bits(x: i32) -> (r: i32)
    ensures
        r == (x as int) % 4,
{
    let y: u64 = (x as i64 - i32::MIN as i64) as u64;
    ((y % 4) as i32)
}

/// The exact score of a value.
pub open spec fn exact_score(v: int) -> Score {
    Score((4 * v) as i32)
}

/// The score retagged as an upper bound.
pub open spec fn upper_bound_score(s: Score) -> Score {
    Score((exact_part(s.0 as int) - 1) as i32)
}

/// The score retagged as a lower bound.
pub open spec fn lower_bound_score(s: Score) -> Score {
    Score((exact_part(s.0 as int) + 1) as i32)
}

/// The negated score.
pub open spec fn negated(s: Score) -> Score {
    Score((-s.0) as i32)
}

impl Score {
    /// The word lies in the range that negation and retagging keep, and carries one of the
    /// three tags.
    pub open spec fn wf(self) -> bool {
        i32::MIN + 3 <= self.0 <= i32::MAX - 2 && (self.0 as int) % 4 != 2
    }

    pub open spec fn tag(self) -> int {
        (self.0 as int) % 4
    }

    pub fn lowest() -> (r: Self)
        ensures
            r.0 == i32::MIN + 4,
            r.wf(),
            r.tag() == 0,
    {
        Self(i32::MIN + 4)
    }

    pub fn initial_alpha() -> (r: Self)
        ensures
            r.0 == i32::MIN + 5,
            r.wf(),
    {
        Self(i32::MIN + 5)
    }

    pub fn initial_beta() -> (r: Self)
        ensures
            r.0 == 2147483639,
            r.wf(),
    {
        Self(2147483639)
    }

    pub fn exact(value: i32) -> (r: Self)
        requires
            -536870911 <= value <= 536870911,
        ensures
            r == exact_score(value as int),
            r.0 == 4 * value,
            r.wf(),
            r.tag() == 0,
    {
        Self(4 * value)
    }

    pub fn make_exact(self) -> (r: Self)
        requires
            self.wf(),
        ensures
            r.0 == exact_part(self.0 as int),
            r.wf(),
            r.tag() == 0,
            i32::MIN + 4 <= r.0 <= i32::MAX - 3,
    {
        let x: i32 = self.0 + 1;
        let t: i32 = low_bits(x);
        Self(x - t)
    }

    pub fn make_lower_bound(self) -> (r: Self)
        requires
            self.wf(),
        ensures
            r == lower_bound_score(self),
            r.wf(),
            r.tag() == 1,
    {
        Self(self.make_exact().0 + 1)
    }

    pub fn make_upper_bound(self) -> (r: Self)
        requires
            self.wf(),
        ensures
            r == upper_bound_score(self),
            r.wf(),
            r.tag() == 3,
    {
        Self(self.make_exact().0 - 1)
    }

    pub fn bound(&self) -> (r: ScoreBound)
        ensures
            r == bound_of_tag(self.tag()),
    {
        let t: i32 = low_bits(self.0);
        if t == 0 {
            ScoreBound::Exact
        } else if t == 1 {
            ScoreBound::LowerBound
        } else {
            ScoreBound::UpperBound
        }
    }

    /// Arithmetic negation of the word: the value changes sign, a lower bound becomes an
    /// upper bound and back.
    pub fn neg(self) -> (r: Self)
        requires
            self.wf(),
        ensures
            r == negated(self),
            r.wf(),
    {
        Self(-self.0)
    }
}

/// Tagging laws: an exact score is tagged exact, retagging it as an upper bound tags it
/// so, and negating twice gives the score back.
pub proof fn lemma_score_tags(v: i32, s: Score)
    requires
        -536870911 <= v <= 536870911,
        s.wf(),
    ensures
        bound_of_tag(exact_score(v as int).tag()) == ScoreBound::Exact,
        bound_of_tag(upper_bound_score(exact_score(v as int)).tag()) == ScoreBound::UpperBound,
        negated(negated(s)) == s,
{
}

} // verus!
