//! Levels of body detail, ordered from the fullest down, and the test a
//! drawing routine uses to decide whether a part is worth adding at the
//! level a model is drawn at.
use vstd::prelude::*;

verus! {

/// How much geometry a model is worth at its current distance from the eye.
#[derive(Clone, Copy, PartialEq, Eq, Debug, Structural)]
pub enum BodyDetail {
    Full,
    Reduced,
    Distant,
}

impl BodyDetail {
    /// Position of a detail tier in the order `Distant < Reduced < Full`.
    pub open spec fn rank_spec(self) -> u8 {
        match self {
            BodyDetail::Distant => 0,
            BodyDetail::Reduced => 1,
            BodyDetail::Full => 2,
        }
    }

    pub fn rank(self) -> (r: u8)
        ensures
            r == self.rank_spec(),
    {
        match self {
            BodyDetail::Distant => 0,
            BodyDetail::Reduced => 1,
            BodyDetail::Full => 2,
        }
    }

    /// True when this tier draws at least as much as `tier`.
    pub fn at_least(self, tier: BodyDetail) -> (r: bool)
        ensures
            r == (self.rank_spec() >= tier.rank_spec()),
    {
        self.rank() >= tier.rank()
    }
}

/// `at_least` orders the tiers: every tier is at least itself, the order is
/// transitive and total, and `Full` is at least every tier while every tier
/// is at least `Distant`.
pub proof fn lemma_detail_order(a: BodyDetail, b: BodyDetail, c: BodyDetail)
    ensures
        a.rank_spec() >= a.rank_spec(),
        a.rank_spec() >= b.rank_spec() && b.rank_spec() >= c.rank_spec() ==> a.rank_spec()
            >= c.rank_spec(),
        a.rank_spec() >= b.rank_spec() || b.rank_spec() >= a.rank_spec(),
        a.rank_spec() >= b.rank_spec() && b.rank_spec() >= a.rank_spec() ==> a == b,
        BodyDetail::Full.rank_spec() >= a.rank_spec(),
        a.rank_spec() >= BodyDetail::Distant.rank_spec(),
{
}

} // verus!
