//! The spell book: which spells a realm has unlocked, which one is selected,
//! what each costs, and whether a cast is allowed to go ahead.
//!
//! Spells are numbered as the page shows them: 0 Firebolt, 1 Chain lightning,
//! 2 Crater, 3 Volcano, 4 Earthquake, 5 Meteor, 6 Shield, 7 Mend, 8 Haste,
//! 9 Claim, 10 Wraith, 11 Sunburst, 12 Fortress.
use vstd::prelude::*;

verus! {

/// Number of spells in the book.
pub const SPELL_COUNT: i32 = 13;
/// Slot of the Firebolt.
pub const FIREBOLT: i32 = 0;
/// Slot of Claim.
pub const CLAIM: i32 = 9;
/// Slot of Mend.
pub const MEND: i32 = 7;
/// Slot of the Fortress, which raises your keep a tier.
pub const FORTRESS: i32 = 12;
/// Highest tier a keep can be raised to.
pub const MAX_KEEP_TIER: i32 = 6;

/// Realm from which spell `s` is unlocked. Firebolt, Claim, Mend and Fortress
/// are always available; they report realm 1.
pub open spec fn unlock_realm(s: int) -> int {
    if s == 1 {
        2
    } else if s == 2 || s == 6 {
        3
    } else if s == 4 || s == 8 {
        4
    } else if s == 10 {
        5
    } else if s == 3 {
        6
    } else if s == 5 {
        7
    } else if s == 11 {
        8
    } else {
        1
    }
}

/// Whether spell `s` is unlocked in realm `level`.
pub open spec fn unlocked_in(level: int, s: int) -> bool {
    unlock_realm(s) == 1 || level >= unlock_realm(s)
}

/// Mana price of spell `s` for a caster whose keep stands at `tier`. Every
/// Fortress tier costs more than the last.
pub open spec fn price_spec(s: int, tier: int) -> int {
    if s == 0 {
        4
    } else if s == 1 {
        9
    } else if s == 2 {
        14
    } else if s == 3 {
        30
    } else if s == 4 {
        24
    } else if s == 5 {
        46
    } else if s == 6 {
        16
    } else if s == 7 {
        18
    } else if s == 8 {
        12
    } else if s == 9 {
        4
    } else if s == 10 {
        22
    } else if s == 11 {
        60
    } else {
        34 + 26 * tier
    }
}

/// The unlock table for realm `level`.
pub fn unlock_for(level: i32) -> (unlocked: Vec<bool>)
    ensures
        unlocked@.len() == SPELL_COUNT,
        forall|s: int| 0 <= s < SPELL_COUNT ==> unlocked@[s] == unlocked_in(level as int, s),
{
    let mut unlocked: Vec<bool> = Vec::new();
    let mut s: i32 = 0;
    while s < SPELL_COUNT
        invariant
            0 <= s <= SPELL_COUNT,
            unlocked@.len() == s,
            forall|k: int| 0 <= k < s ==> !unlocked@[k],
        decreases SPELL_COUNT - s,
    {
        unlocked.push(false);
        s = s + 1;
    }
    // firebolt, claim, mend, fortress
    unlocked.set(0, true);
    unlocked.set(9, true);
    unlocked.set(7, true);
    unlocked.set(12, true);
    if level >= 2 {
        unlocked.set(1, true);
    }
    if level >= 3 {
        unlocked.set(2, true);
    }
    if level >= 3 {
        unlocked.set(6, true);
    }
    if level >= 4 {
        unlocked.set(8, true);
    }
    if level >= 4 {
        unlocked.set(4, true);
    }
    if level >= 5 {
        unlocked.set(10, true);
    }
    if level >= 6 {
        unlocked.set(3, true);
    }
    if level >= 7 {
        unlocked.set(5, true);
    }
    if level >= 8 {
        unlocked.set(11, true);
    }
    unlocked
}

/// Price of spell `spell` for a caster whose keep stands at `tier`.
pub fn spell_price(spell: i32, tier: i32) -> (price: i64)
    requires
        0 <= spell < SPELL_COUNT,
    ensures
        price == price_spec(spell as int, tier as int),
{
    if spell == 0 {
        4
    } else if spell == 1 {
        9
    } else if spell == 2 {
        14
    } else if spell == 3 {
        30
    } else if spell == 4 {
        24
    } else if spell == 5 {
        46
    } else if spell == 6 {
        16
    } else if spell == 7 {
        18
    } else if spell == 8 {
        12
    } else if spell == 9 {
        4
    } else if spell == 10 {
        22
    } else if spell == 11 {
        60
    } else {
        34 + 26 * (tier as i64)
    }
}

/// Later realms never take a spell away: what is unlocked in one realm stays
/// unlocked in every realm after it.
pub proof fn lemma_unlocks_grow(lo: int, hi: int, s: int)
    requires
        lo <= hi,
        unlocked_in(lo, s),
    ensures
        unlocked_in(hi, s),
{
}

/// From realm eight on, the whole book is open; Firebolt, Claim, Mend and
/// Fortress are open in every realm.
pub proof fn lemma_unlock_extremes(level: int, s: int)
    requires
        0 <= s < SPELL_COUNT,
    ensures
        level >= 8 ==> unlocked_in(level, s),
        unlocked_in(level, FIREBOLT as int),
        unlocked_in(level, CLAIM as int),
        unlocked_in(level, MEND as int),
        unlocked_in(level, FORTRESS as int),
{
}

/// Each Fortress tier costs more than the one before it.
pub proof fn lemma_fortress_price_rises(tier: int)
    ensures
        price_spec(FORTRESS as int, tier + 1) > price_spec(FORTRESS as int, tier),
{
}

/// Remainder as `%` computes it on machine integers: it takes the sign of the
/// dividend.
pub open spec fn truncated_rem(t: int, m: int) -> int {
    if t >= 0 {
        t % m
    } else {
        -((-t) % m)
    }
}

/// Where cycling from `sel` by `dir` ends, given `left` steps still allowed:
/// `None` when a step would overflow or land on a negative slot.
pub open spec fn cycle_outcome(sel: int, dir: int, unlocked: Seq<bool>, left: nat) -> Option<int>
    decreases left,
{
    if left == 0 {
        Some(sel)
    } else if sel + dir < i32::MIN || sel + dir + SPELL_COUNT > i32::MAX {
        None
    } else {
        let next = truncated_rem(sel + dir + SPELL_COUNT, SPELL_COUNT as int);
        if next < 0 {
            None
        } else if unlocked[next] {
            Some(next)
        } else {
            cycle_outcome(next, dir, unlocked, (left - 1) as nat)
        }
    }
}

/// The unlock table and the selected slot.
pub struct SpellBook {
    unlocked: Vec<bool>,
    selected: i32,
}

impl SpellBook {
    /// Unlock flag of every slot.
    pub closed spec fn unlocked_spec(&self) -> Seq<bool> {
        self.unlocked@
    }

    /// The selected slot.
    pub closed spec fn selected_spec(&self) -> int {
        self.selected as int
    }

    /// One flag per spell, and the selection names a real slot.
    pub open spec fn wf(&self) -> bool {
        &&& self.unlocked_spec().len() == SPELL_COUNT
        &&& 0 <= self.selected_spec() < SPELL_COUNT
    }

    /// The book for realm `level`, with the Firebolt selected.
    pub fn for_realm(level: i32) -> (b: SpellBook)
        ensures
            b.wf(),
            b.selected_spec() == FIREBOLT,
            forall|s: int|
                0 <= s < SPELL_COUNT ==> b.unlocked_spec()[s] == unlocked_in(level as int, s),
    {
        SpellBook { unlocked: unlock_for(level), selected: 0 }
    }

    /// The selected slot.
    pub fn selected(&self) -> (s: i32)
        ensures
            s == self.selected_spec(),
    {
        self.selected
    }

    /// Whether slot `s` is unlocked; slots outside the book are not.
    pub fn is_unlocked(&self, s: i32) -> (r: bool)
        requires
            self.wf(),
        ensures
            r == (0 <= s < SPELL_COUNT && self.unlocked_spec()[s as int]),
    {
        if s >= 0 && s < SPELL_COUNT {
            self.unlocked[s as usize]
        } else {
            false
        }
    }

    /// Selects slot `s` if it is in the book and unlocked; otherwise leaves
    /// the selection alone.
    pub fn select_spell(&mut self, s: i32)
        requires
            old(self).wf(),
        ensures
            final(self).wf(),
            final(self).unlocked_spec() == old(self).unlocked_spec(),
            final(self).selected_spec() == (if 0 <= s < SPELL_COUNT && old(
                self,
            ).unlocked_spec()[s as int] {
                s as int
            } else {
                old(self).selected_spec()
            }),
    {
        if s >= 0 && s < SPELL_COUNT && self.unlocked[s as usize] {
            self.selected = s;
        }
    }

    /// Steps the selection by `dir` slots at a time, wrapping round the book,
    /// until it lands on an unlocked spell or has taken a full book's worth of
    /// steps.
    pub fn cycle_spell(&mut self, dir: i32)
        requires
            old(self).wf(),
            cycle_outcome(
                old(self).selected_spec(),
                dir as int,
                old(self).unlocked_spec(),
                SPELL_COUNT as nat,
            ) is Some,
        ensures
            final(self).wf(),
            final(self).unlocked_spec() == old(self).unlocked_spec(),
            Some(final(self).selected_spec()) == cycle_outcome(
                old(self).selected_spec(),
                dir as int,
                old(self).unlocked_spec(),
                SPELL_COUNT as nat,
            ),
    {
        let mut step: i32 = 0;
        while step < SPELL_COUNT
            invariant
                0 <= step <= SPELL_COUNT,
                self.wf(),
                self.unlocked_spec() == old(self).unlocked_spec(),
                cycle_outcome(
                    self.selected_spec(),
                    dir as int,
                    self.unlocked_spec(),
                    (SPELL_COUNT - step) as nat,
                ) == cycle_outcome(
                    old(self).selected_spec(),
                    dir as int,
                    old(self).unlocked_spec(),
                    SPELL_COUNT as nat,
                ),
                cycle_outcome(
                    self.selected_spec(),
                    dir as int,
                    self.unlocked_spec(),
                    (SPELL_COUNT - step) as nat,
                ) is Some,
            decreases SPELL_COUNT - step,
        {
            let t = self.selected + dir + SPELL_COUNT;
            let next = if t >= 0 {
                t % SPELL_COUNT
            } else {
                -((-t) % SPELL_COUNT)
            };
            self.selected = next;
            if self.unlocked[next as usize] {
                return;
            }
            step = step + 1;
        }
    }

    /// Whether cycling by `dir` from the current selection stays inside the
    /// book at every step; when it does not, the wrap would produce a
    /// negative slot.
    pub fn cycle_fits(&self, dir: i32) -> (ok: bool)
        requires
            self.wf(),
        ensures
            ok == (cycle_outcome(
                self.selected_spec(),
                dir as int,
                self.unlocked_spec(),
                SPELL_COUNT as nat,
            ) is Some),
    {
        let mut sel: i64 = self.selected as i64;
        let d: i64 = dir as i64;
        let mut step: i32 = 0;
        while step < SPELL_COUNT
            invariant
                0 <= step <= SPELL_COUNT,
                self.wf(),
                d == dir,
                0 <= sel < SPELL_COUNT,
                cycle_outcome(
                    sel as int,
                    dir as int,
                    self.unlocked_spec(),
                    (SPELL_COUNT - step) as nat,
                ) == cycle_outcome(
                    self.selected_spec(),
                    dir as int,
                    self.unlocked_spec(),
                    SPELL_COUNT as nat,
                ),
            decreases SPELL_COUNT - step,
        {
            if sel + d < i32::MIN as i64 || sel + d + 13 > i32::MAX as i64 {
                return false;
            }
            let t = sel + d + 13;
            let next = if t >= 0 {
                t % 13
            } else {
                -((-t) % 13)
            };
            if next < 0 {
                return false;
            }
            if self.unlocked[next as usize] {
                return true;
            }
            sel = next;
            step = step + 1;
        }
        true
    }

    /// Decides whether caster `caster` (0 is the player) may cast slot
    /// `spell` now. The player is held to the unlock table and the cooldowns;
    /// a Fortress needs a standing keep below the top tier with its caster
    /// over it; and the price must be affordable.
    ///
    /// `cooldown_clear`, `at_keep` and `affordable` are the outcomes of the
    /// caller's own distance, timer and mana comparisons.
    pub fn may_cast(
        &self,
        caster: usize,
        spell: i32,
        cooldown_clear: bool,
        keep_standing: bool,
        keep_tier: i32,
        at_keep: bool,
        affordable: bool,
    ) -> (ok: bool)
        requires
            self.wf(),
        ensures
            ok == (0 <= spell < SPELL_COUNT && (caster != 0 || self.unlocked_spec()[spell as int])
                && (caster != 0 || cooldown_clear) && (spell != FORTRESS || (keep_standing
                && keep_tier < MAX_KEEP_TIER && at_keep)) && affordable),
    {
        if spell < 0 || spell >= SPELL_COUNT {
            return false;
        }
        if caster == 0 && !self.unlocked[spell as usize] {
            return false;
        }
        if caster == 0 && !cooldown_clear {
            return false;
        }
        if spell == FORTRESS {
            if !keep_standing || keep_tier >= MAX_KEEP_TIER {
                return false;
            }
            if !at_keep {
                return false;
            }
        }
        affordable
    }
}

/// Cycling from `n` is sure to stop on an unlocked spell as long as the slot
/// it would reach after its remaining steps is unlocked.
proof fn lemma_cycle_reaches(n: int, dir: int, unlocked: Seq<bool>, left: nat)
    requires
        0 <= n < SPELL_COUNT,
        unlocked.len() == SPELL_COUNT,
        unlocked[(n + left * dir) % 13],
        cycle_outcome(n, dir, unlocked, left) is Some,
    ensures
        ({
            let m = cycle_outcome(n, dir, unlocked, left)->0;
            0 <= m < SPELL_COUNT && unlocked[m]
        }),
    decreases left,
{
    if left == 0 {
        assert((n + 0 * dir) % 13 == n) by (nonlinear_arith)
            requires
                0 <= n < 13,
        ;
    } else {
        let t = n + dir + 13;
        let next = truncated_rem(t, 13);
        assert(next >= 0);
        assert(next == t % 13);
        if !unlocked[next] {
            assert((next + (left - 1) * dir) % 13 == (n + left * dir) % 13) by (nonlinear_arith)
                requires
                    next == (n + dir + 13) % 13,
                    left >= 1,
            {
                vstd::arithmetic::div_mod::lemma_add_mod_noop(n + dir + 13, (left - 1) * dir, 13);
                assert((n + dir + 13) + (left - 1) * dir == (n + left * dir) + 13);
                vstd::arithmetic::div_mod::lemma_mod_add_multiples_vanish(n + left * dir, 13);
                vstd::arithmetic::div_mod::lemma_mod_twice((left - 1) * dir, 13);
                vstd::arithmetic::div_mod::lemma_add_mod_noop(next, (left - 1) * dir, 13);
            }
            lemma_cycle_reaches(next, dir, unlocked, (left - 1) as nat);
        }
    }
}

/// Starting from an unlocked selection, a cycle always ends on an unlocked
/// spell, whatever the step: after a full book of steps it is back where it
/// began.
pub proof fn lemma_cycle_lands_unlocked(sel: int, dir: int, unlocked: Seq<bool>)
    requires
        0 <= sel < SPELL_COUNT,
        unlocked.len() == SPELL_COUNT,
        unlocked[sel],
        cycle_outcome(sel, dir, unlocked, SPELL_COUNT as nat) is Some,
    ensures
        ({
            let m = cycle_outcome(sel, dir, unlocked, SPELL_COUNT as nat)->0;
            0 <= m < SPELL_COUNT && unlocked[m]
        }),
{
    assert((sel + 13 * dir) % 13 == sel) by (nonlinear_arith)
        requires
            0 <= sel < 13,
    {
        vstd::arithmetic::div_mod::lemma_mod_multiples_vanish(dir, sel, 13);
    }
    lemma_cycle_reaches(sel, dir, unlocked, SPELL_COUNT as nat);
}

} // verus!
