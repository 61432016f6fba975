//! A keep's structure and economy: how many mural towers it rings itself
//! with, which of them fly banners, how much mana it can hold, and how much
//! it must hold to take the realm.
use vstd::prelude::*;
use crate::world::count_below;

verus! {

/// Lowest and highest tier a keep is drawn at.
pub const MIN_TIER: i32 = 1;
pub const MAX_TIER: i32 = 6;
/// Mural towers on the smallest and the largest enceinte.
pub const TOWERS_MIN: i64 = 4;
pub const TOWERS_MAX: i64 = 8;
/// Banners never fly from more than this many towers, whatever the tier.
pub const MAX_TOWER_BANNERS: usize = 3;

/// A stored tier pulled into the range a keep is drawn at.
pub open spec fn drawn_tier_spec(tier: int) -> int {
    if tier < MIN_TIER {
        MIN_TIER as int
    } else if tier > MAX_TIER {
        MAX_TIER as int
    } else {
        tier
    }
}

pub fn drawn_tier(tier: i32) -> (t: i32)
    ensures
        t == drawn_tier_spec(tier as int),
        MIN_TIER <= t <= MAX_TIER,
{
    if tier < MIN_TIER {
        MIN_TIER
    } else if tier > MAX_TIER {
        MAX_TIER
    } else {
        tier
    }
}

/// Mural towers on a keep of `tier`: four at the start, one more every second
/// tier, one more again when the keep's own coin (`extra`) says so, and never
/// fewer than four nor more than eight.
pub open spec fn tower_count_spec(tier: int, extra: bool) -> int {
    let raw = TOWERS_MIN + (if tier >= 0 {
        tier / 2
    } else {
        -((-tier) / 2)
    }) + if extra {
        1int
    } else {
        0int
    };
    if raw > TOWERS_MAX {
        TOWERS_MAX as int
    } else if raw < TOWERS_MIN {
        TOWERS_MIN as int
    } else {
        raw
    }
}

pub fn tower_count(tier: i32, extra: bool) -> (n: usize)
    ensures
        n == tower_count_spec(tier as int, extra),
        TOWERS_MIN <= n <= TOWERS_MAX,
{
    let t = tier as i64;
    let half = if t >= 0 {
        t / 2
    } else {
        -((-t) / 2)
    };
    let mut towers: i64 = TOWERS_MIN + half;
    if extra {
        towers = towers + 1;
    }
    if towers > TOWERS_MAX {
        towers = TOWERS_MAX;
    }
    if towers < TOWERS_MIN {
        towers = TOWERS_MIN;
    }
    towers as usize
}

/// Towers that fly a banner on a keep of drawn tier `tier`: one, plus one for
/// every third tier, up to three; none at all unless the keep is close
/// enough to be drawn in full.
pub open spec fn banner_count_spec(full_detail: bool, tier: int) -> int {
    if !full_detail {
        0
    } else if 1 + tier / 3 > MAX_TOWER_BANNERS {
        MAX_TOWER_BANNERS as int
    } else {
        1 + tier / 3
    }
}

pub fn banner_count(full_detail: bool, tier: i32) -> (n: usize)
    requires
        MIN_TIER <= tier <= MAX_TIER,
    ensures
        n == banner_count_spec(full_detail, tier as int),
        n <= MAX_TOWER_BANNERS,
{
    let mut banners: usize = if full_detail {
        1 + tier as usize / 3
    } else {
        0
    };
    if banners > MAX_TOWER_BANNERS {
        banners = MAX_TOWER_BANNERS;
    }
    banners
}

/// Whether tower `index` flies a banner: the banners run round the ring from
/// the keep's own starting tower `offset`.
pub open spec fn flagged_spec(index: int, offset: int, towers: int, banners: int) -> bool {
    banners > 0 && (index + offset) % towers < banners
}

pub fn tower_flagged(index: usize, offset: usize, towers: usize, banners: usize) -> (r: bool)
    requires
        towers > 0,
        index + offset <= usize::MAX,
    ensures
        r == flagged_spec(index as int, offset as int, towers as int, banners as int),
{
    banners > 0 && (index + offset) % towers < banners
}

/// Mana a keep of `tier` can hold; raising a tier is what buys headroom.
pub open spec fn capacity_spec(tier: int) -> int {
    240 * tier
}

pub fn keep_capacity(tier: i32) -> (c: i64)
    ensures
        c == capacity_spec(tier as int),
{
    240 * (tier as i64)
}

/// Mana that must sit in your keep to take realm `realm`.
pub open spec fn realm_target_spec(realm: int) -> int {
    180 + 160 * realm
}

pub fn realm_target(realm: i32) -> (t: i64)
    ensures
        t == realm_target_spec(realm as int),
{
    180 + 160 * (realm as i64)
}

/// Ceiling of a wizard's own mana pool before any bonus from possessed orbs.
pub open spec fn base_mana_cap_spec(tier: int) -> int {
    120 + 50 * tier
}

pub fn base_mana_cap(tier: i32) -> (c: i64)
    ensures
        c == base_mana_cap_spec(tier as int),
{
    120 + 50 * (tier as i64)
}

/// Counting a predicate over indices shifted by one is counting it over the
/// range shifted by one.
proof fn lemma_count_shift(n: int, f: spec_fn(int) -> bool, g: spec_fn(int) -> bool)
    requires
        n >= 0,
        forall|i: int| #[trigger] g(i) == f(i + 1),
    ensures
        count_below(n, g) + (if f(0) {
            1int
        } else {
            0int
        }) == count_below(n + 1, f),
    decreases n,
{
    if n > 0 {
        lemma_count_shift(n - 1, f, g);
        assert(g(n - 1) == f(n));
        assert(count_below(n, g) == count_below(n - 1, g) + (if g(n - 1) {
            1int
        } else {
            0int
        }));
        assert(count_below(n + 1, f) == count_below(n, f) + (if f(n) {
            1int
        } else {
            0int
        }));
    } else {
        assert(count_below(1, f) == count_below(0, f) + (if f(0) {
            1int
        } else {
            0int
        }));
    }
}

/// Two predicates that agree below `n` count the same below `n`.
proof fn lemma_count_agree(n: int, f: spec_fn(int) -> bool, g: spec_fn(int) -> bool)
    requires
        n >= 0,
        forall|i: int| 0 <= i < n ==> #[trigger] f(i) == g(i),
    ensures
        count_below(n, f) == count_below(n, g),
    decreases n,
{
    if n > 0 {
        lemma_count_agree(n - 1, f, g);
        assert(f(n - 1) == g(n - 1));
    }
}

/// The ring predicate `p` read `o` slots round from each index.
pub open spec fn rotated(p: spec_fn(int) -> bool, t: int, o: int) -> spec_fn(int) -> bool {
    |i: int| p((i + o) % t)
}

/// Rotating a ring of `t` slots does not change how many satisfy `p`.
proof fn lemma_count_rotation(t: int, o: nat, p: spec_fn(int) -> bool)
    requires
        t > 0,
    ensures
        count_below(t, rotated(p, t, o as int)) == count_below(t, rotated(p, t, 0)),
    decreases o,
{
    if o > 0 {
        let q = rotated(p, t, o - 1);
        let r = rotated(p, t, o as int);
        lemma_count_rotation(t, (o - 1) as nat, p);
        assert forall|i: int| #[trigger] r(i) == q(i + 1) by {
            assert((i + 1) + (o - 1) == i + o);
        }
        lemma_count_shift(t, q, r);
        assert(count_below(t + 1, q) == count_below(t, q) + (if q(t) {
            1int
        } else {
            0int
        }));
        assert((t + (o - 1)) % t == (o - 1) % t) by {
            vstd::arithmetic::div_mod::lemma_mod_add_multiples_vanish(o - 1, t);
        }
        assert((0 + (o - 1)) == o - 1);
        assert(q(t) == q(0));
    }
}

/// Indices below `n` that are below `b`: all of `0..b` when `b <= n`.
proof fn lemma_count_prefix(n: int, b: int)
    requires
        0 <= b <= n,
    ensures
        count_below(n, |i: int| i < b) == b,
    decreases n,
{
    if n > b {
        lemma_count_prefix(n - 1, b);
    } else if n > 0 {
        lemma_count_prefix_full(n);
    }
}

proof fn lemma_count_prefix_full(n: int)
    requires
        n >= 0,
    ensures
        count_below(n, |i: int| i < n) == n,
    decreases n,
{
    if n > 0 {
        lemma_count_prefix_full(n - 1);
        lemma_count_agree(n - 1, |i: int| i < n, |i: int| i < n - 1);
    }
}

/// Exactly `banners` towers of a ring fly a banner, wherever the run starts:
/// the worst-case instance count of a keep is knowable in advance.
pub proof fn lemma_banner_towers_exact(towers: int, offset: nat, banners: int)
    requires
        0 < banners <= towers,
    ensures
        count_below(towers, |i: int| flagged_spec(i, offset as int, towers, banners)) == banners,
{
    let p = |j: int| j < banners;
    lemma_count_rotation(towers, offset, p);
    lemma_count_agree(
        towers,
        |i: int| flagged_spec(i, offset as int, towers, banners),
        rotated(p, towers, offset as int),
    );
    assert forall|i: int| 0 <= i < towers implies #[trigger] rotated(p, towers, 0)(i) == p(i) by {
        vstd::arithmetic::div_mod::lemma_small_mod(i as nat, towers as nat);
    }
    lemma_count_agree(towers, rotated(p, towers, 0), p);
    lemma_count_prefix(towers, banners);
}

/// Every keep the game draws rings itself with four to eight towers and flies
/// at most three banners, so its banners never outnumber its towers.
pub proof fn lemma_keep_bounds(tier: int, extra: bool, full_detail: bool)
    requires
        MIN_TIER <= tier <= MAX_TIER,
    ensures
        TOWERS_MIN <= tower_count_spec(tier, extra) <= TOWERS_MAX,
        0 <= banner_count_spec(full_detail, tier) <= MAX_TOWER_BANNERS,
        banner_count_spec(full_detail, tier) <= tower_count_spec(tier, extra),
{
}

/// Each tier holds more than the last, and a realm's target rises with the
/// realm.
pub proof fn lemma_economy_rises(tier: int, realm: int)
    ensures
        capacity_spec(tier + 1) > capacity_spec(tier),
        realm_target_spec(realm + 1) > realm_target_spec(realm),
        base_mana_cap_spec(tier + 1) > base_mana_cap_spec(tier),
{
}

} // verus!
