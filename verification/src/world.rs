//! The discrete half of the world: which creature, orb and projectile slots
//! are in use and by whom, who carries what, the spell book, the keeps'
//! tiers, which wizards are alive, how the realm stands and the minimap, and
//! the choices made from them (targets, direct hits, claims, hatching, keep
//! tiers, a rival's return). Positions, distances and health are
//! not held here: where a choice depends on a distance, the caller passes
//! keys that sort as the distances do.
use vstd::prelude::*;
use crate::creatures::{CreatureKind, Faction};
use crate::minimap::{Minimap, minimap_side, side_spec, shaded_byte, MINIMAP_BYTES};
use crate::spells::{SpellBook, MAX_KEEP_TIER};
use crate::creatures::hatch_kind;
use crate::buffers::first_free;

verus! {

/// Creature slots.
pub const MAX_CREATURES: usize = 460;
/// Mana orb slots.
pub const MAX_ORBS: usize = 768;
/// Projectile slots.
pub const MAX_PROJECTILES: usize = 128;
/// Wizards: the player and up to two rivals.
pub const WIZARD_COUNT: usize = 3;
/// The player is wizard 0.
pub const PLAYER: usize = 0;

/// What a minimap dot stands for; `code` is the number the page keys its
/// colours on.
#[derive(Clone, Copy, PartialEq, Eq, Debug, Structural)]
pub enum MapBlip {
    Player,
    RivalWizard,
    WildCreature,
    AlliedCreature,
    ClaimedOrb,
    Nest,
    PlayerCastle,
    RivalCastle,
    RivalOrb,
    Balloon,
    UnclaimedOrb,
}

impl MapBlip {
    pub open spec fn code_spec(self) -> int {
        match self {
            MapBlip::Player => 0,
            MapBlip::RivalWizard => 1,
            MapBlip::WildCreature => 2,
            MapBlip::AlliedCreature => 3,
            MapBlip::ClaimedOrb => 4,
            MapBlip::Nest => 5,
            MapBlip::PlayerCastle => 6,
            MapBlip::RivalCastle => 7,
            MapBlip::RivalOrb => 8,
            MapBlip::Balloon => 9,
            MapBlip::UnclaimedOrb => 10,
        }
    }

    /// The number the page keys this dot's colour on.
    pub fn code(self) -> (c: u8)
        ensures
            c == self.code_spec(),
    {
        match self {
            MapBlip::Player => 0,
            MapBlip::RivalWizard => 1,
            MapBlip::WildCreature => 2,
            MapBlip::AlliedCreature => 3,
            MapBlip::ClaimedOrb => 4,
            MapBlip::Nest => 5,
            MapBlip::PlayerCastle => 6,
            MapBlip::RivalCastle => 7,
            MapBlip::RivalOrb => 8,
            MapBlip::Balloon => 9,
            MapBlip::UnclaimedOrb => 10,
        }
    }
}

/// Projectile kinds, numbered as the state buffers number them.
#[derive(Clone, Copy, PartialEq, Eq, Debug, Structural)]
pub enum ProjectileKind {
    Firebolt,
    CreatureBolt,
    Meteor,
    DragonFire,
}

impl ProjectileKind {
    /// Smoke puffs shed per tick: fire leaves a thick wake, a meteor a
    /// thicker one, a plain bolt only a wisp.
    pub open spec fn trail_puffs_spec(self) -> int {
        match self {
            ProjectileKind::Meteor => 5,
            ProjectileKind::Firebolt | ProjectileKind::DragonFire => 3,
            ProjectileKind::CreatureBolt => 1,
        }
    }

    pub fn trail_puffs(self) -> (n: u32)
        ensures
            n == self.trail_puffs_spec(),
    {
        match self {
            ProjectileKind::Meteor => 5,
            ProjectileKind::Firebolt | ProjectileKind::DragonFire => 3,
            ProjectileKind::CreatureBolt => 1,
        }
    }
}

/// Number of indices below `n` that satisfy `pred`.
pub open spec fn count_below(n: int, pred: spec_fn(int) -> bool) -> int
    decreases n,
{
    if n <= 0 {
        0
    } else {
        count_below(n - 1, pred) + if pred(n - 1) {
            1int
        } else {
            0int
        }
    }
}

/// A count of indices below `n` is between zero and `n`.
pub proof fn lemma_count_below_bounded(n: int, pred: spec_fn(int) -> bool)
    requires
        n >= 0,
    ensures
        0 <= count_below(n, pred) <= n,
    decreases n,
{
    if n > 0 {
        lemma_count_below_bounded(n - 1, pred);
    }
}

/// Turning one index from failing to passing a predicate adds one to the
/// count below `n` if the index is below `n`, and nothing otherwise.
pub proof fn lemma_count_below_flip(n: int, before: spec_fn(int) -> bool, after: spec_fn(int) -> bool, i: int)
    requires
        n >= 0,
        !before(i),
        after(i),
        forall|k: int| 0 <= k < n && k != i ==> #[trigger] before(k) == after(k),
    ensures
        count_below(n, after) == count_below(n, before) + (if 0 <= i < n {
            1int
        } else {
            0int
        }),
    decreases n,
{
    if n > 0 {
        lemma_count_below_flip(n - 1, before, after, i);
    }
}

/// The creature slots.
pub struct Creatures {
    pub alive: Vec<bool>,
    pub kind: Vec<CreatureKind>,
    pub faction: Vec<Faction>,
}

/// The mana orb slots: whether each is loose in the world, which balloon (if
/// any) is carrying it, and who has claimed it (the wild meaning nobody).
pub struct Orbs {
    pub alive: Vec<bool>,
    pub carried_by: Vec<Option<usize>>,
    pub claimed_by: Vec<Faction>,
}

/// The projectile slots.
pub struct Projectiles {
    pub alive: Vec<bool>,
    pub kind: Vec<ProjectileKind>,
    pub owner: Vec<Faction>,
}

/// The discrete world.
pub struct World {
    pub creatures: Creatures,
    pub orbs: Orbs,
    pub projectiles: Projectiles,
    pub spells: SpellBook,
    /// Tier of each wizard's keep.
    pub keep_tiers: Vec<i32>,
    /// The realm being played, from 1 upward.
    pub realm: i32,
    /// Rivals in this realm (wizards 1..=rival_count).
    pub rival_count: usize,
    pub minimap: Minimap,
    /// Which wizards are alive.
    pub wizard_alive: Vec<bool>,
    /// How the realm stands.
    pub outcome: Outcome,
}

/// A vector of `n` copies of `v`.
fn filled<T: Copy>(n: usize, v: T) -> (out: Vec<T>)
    ensures
        out@ == Seq::new(n as nat, |k: int| v),
{
    let mut out: Vec<T> = Vec::new();
    let mut k: usize = 0;
    while k < n
        invariant
            k <= n,
            out@.len() == k,
            forall|m: int| 0 <= m < k ==> out@[m] == v,
        decreases n - k,
    {
        out.push(v);
        k = k + 1;
    }
    assert(out@ =~= Seq::new(n as nat, |m: int| v));
    out
}

/// Rivals a realm fields: two from realm five on, one before.
pub open spec fn rivals_for_spec(realm: int) -> int {
    if realm >= 5 {
        2
    } else {
        1
    }
}

pub fn rivals_for(realm: i32) -> (n: usize)
    ensures
        n == rivals_for_spec(realm as int),
{
    if realm >= 5 {
        2
    } else {
        1
    }
}

/// The whole half of `x`, rounded toward zero as machine division rounds.
pub open spec fn half_toward_zero(x: int) -> int {
    if x >= 0 {
        x / 2
    } else {
        -((-x) / 2)
    }
}

impl World {
    /// Every table has one entry per slot and the selection is valid.
    pub open spec fn wf(&self) -> bool {
        &&& self.creatures.alive@.len() == MAX_CREATURES
        &&& self.creatures.kind@.len() == MAX_CREATURES
        &&& self.creatures.faction@.len() == MAX_CREATURES
        &&& self.orbs.alive@.len() == MAX_ORBS
        &&& self.orbs.carried_by@.len() == MAX_ORBS
        &&& self.orbs.claimed_by@.len() == MAX_ORBS
        &&& self.projectiles.alive@.len() == MAX_PROJECTILES
        &&& self.projectiles.kind@.len() == MAX_PROJECTILES
        &&& self.projectiles.owner@.len() == MAX_PROJECTILES
        &&& self.spells.wf()
        &&& self.keep_tiers@.len() == WIZARD_COUNT
        &&& 1 <= self.rival_count < WIZARD_COUNT
        &&& self.minimap.wf()
        &&& self.wizard_alive@.len() == WIZARD_COUNT
    }

    /// A balloon carries at most one live orb at a time.
    pub open spec fn carries_at_most_one(&self) -> bool {
        forall|i: int, j: int|
            0 <= i < self.orbs.alive@.len() && 0 <= j < self.orbs.alive@.len()
                && self.orbs.alive@[i] && self.orbs.alive@[j]
                && self.orbs.carried_by@[i] is Some && self.orbs.carried_by@[i]
                == self.orbs.carried_by@[j] ==> i == j
    }

    /// Slot `i` holds a living wild creature that is not a nest: the creatures
    /// a nest counts before it hatches another.
    pub open spec fn is_wild_roamer(&self, i: int) -> bool {
        &&& self.creatures.alive@[i]
        &&& self.creatures.faction@[i].0 == 0
        &&& self.creatures.kind@[i] != CreatureKind::Nest
    }

    /// Slot `i` holds a living balloon flying for wizard `wizard`.
    pub open spec fn is_balloon_of(&self, i: int, wizard: int) -> bool {
        &&& self.creatures.alive@[i]
        &&& self.creatures.kind@[i] == CreatureKind::Balloon
        &&& self.creatures.faction@[i].0 == wizard + 1
    }

    /// An empty realm `realm`: no creatures, orbs or projectiles, every keep
    /// at tier one, the spell book for the realm, a blank minimap.
    pub fn new(realm: i32) -> (w: World)
        ensures
            w.wf(),
            w.realm == realm,
            w.rival_count == rivals_for_spec(realm as int),
            forall|i: int| 0 <= i < MAX_CREATURES ==> !w.creatures.alive@[i],
            forall|i: int| 0 <= i < MAX_ORBS ==> !w.orbs.alive@[i],
            forall|i: int| 0 <= i < MAX_PROJECTILES ==> !w.projectiles.alive@[i],
            forall|k: int| 0 <= k < WIZARD_COUNT ==> w.keep_tiers@[k] == 1,
            w.spells.selected_spec() == 0,
            forall|s: int|
                0 <= s < crate::spells::SPELL_COUNT ==> w.spells.unlocked_spec()[s]
                    == crate::spells::unlocked_in(realm as int, s),
            w.carries_at_most_one(),
            forall|m: int| 0 <= m < MINIMAP_BYTES ==> w.minimap.pixels@[m] == 0,
            forall|k: int| 0 <= k < WIZARD_COUNT ==> w.wizard_alive@[k] == (k <= w.rival_count),
            w.outcome == Outcome::Playing,
    {
        let rival_count = rivals_for(realm);
        let mut alive: Vec<bool> = Vec::new();
        let mut k: usize = 0;
        while k < WIZARD_COUNT
            invariant
                k <= WIZARD_COUNT,
                alive@.len() == k,
                forall|m: int| 0 <= m < k ==> alive@[m] == (m <= rival_count),
            decreases WIZARD_COUNT - k,
        {
            alive.push(k <= rival_count);
            k = k + 1;
        }
        World {
            creatures: Creatures {
                alive: filled(MAX_CREATURES, false),
                kind: filled(MAX_CREATURES, CreatureKind::SandWorm),
                faction: filled(MAX_CREATURES, Faction(0)),
            },
            orbs: Orbs {
                alive: filled(MAX_ORBS, false),
                carried_by: filled(MAX_ORBS, None),
                claimed_by: filled(MAX_ORBS, Faction(0)),
            },
            projectiles: Projectiles {
                alive: filled(MAX_PROJECTILES, false),
                kind: filled(MAX_PROJECTILES, ProjectileKind::Firebolt),
                owner: filled(MAX_PROJECTILES, Faction(0)),
            },
            spells: SpellBook::for_realm(realm),
            keep_tiers: filled(WIZARD_COUNT, 1),
            realm,
            rival_count,
            minimap: Minimap::new(),
            wizard_alive: alive,
            outcome: Outcome::Playing,
        }
    }

    // ---- creatures ---------------------------------------------------------

    /// Takes the lowest free creature slot for a `kind` of `faction`.
    /// Returns `None`, changing nothing, when every slot is in use.
    pub fn spawn_creature(&mut self, kind: CreatureKind, faction: Faction) -> (slot: Option<usize>)
        requires
            old(self).wf(),
        ensures
            final(self).wf(),
            final(self).orbs == old(self).orbs,
            final(self).projectiles == old(self).projectiles,
            final(self).spells == old(self).spells,
            final(self).keep_tiers == old(self).keep_tiers,
            final(self).realm == old(self).realm,
            final(self).wizard_alive == old(self).wizard_alive,
            final(self).outcome == old(self).outcome,
            final(self).rival_count == old(self).rival_count,
            final(self).minimap == old(self).minimap,
            match slot {
                Some(i) => {
                    &&& i < MAX_CREATURES
                    &&& !old(self).creatures.alive@[i as int]
                    &&& forall|k: int| 0 <= k < i ==> old(self).creatures.alive@[k]
                    &&& final(self).creatures.alive@ == old(self).creatures.alive@.update(
                        i as int,
                        true,
                    )
                    &&& final(self).creatures.kind@ == old(self).creatures.kind@.update(
                        i as int,
                        kind,
                    )
                    &&& final(self).creatures.faction@ == old(self).creatures.faction@.update(
                        i as int,
                        faction,
                    )
                },
                None => {
                    &&& forall|k: int| 0 <= k < MAX_CREATURES ==> old(self).creatures.alive@[k]
                    &&& final(self).creatures == old(self).creatures
                },
            },
    {
        let slot = first_free(&self.creatures.alive);
        match slot {
            Some(i) => {
                self.creatures.alive.set(i, true);
                self.creatures.kind.set(i, kind);
                self.creatures.faction.set(i, faction);
            },
            None => {},
        }
        slot
    }

    /// Removes creature `i` and returns the mana it drops.
    pub fn kill_creature(&mut self, i: usize) -> (mana: u32)
        requires
            old(self).wf(),
            i < MAX_CREATURES,
        ensures
            final(self).wf(),
            mana == old(self).creatures.kind@[i as int].mana_reward_spec(),
            mana == 0 <==> (old(self).creatures.kind@[i as int] == CreatureKind::Wraith || old(
                self,
            ).creatures.kind@[i as int] == CreatureKind::Balloon),
            final(self).creatures.alive@ == old(self).creatures.alive@.update(i as int, false),
            final(self).creatures.kind@ == old(self).creatures.kind@,
            final(self).creatures.faction@ == old(self).creatures.faction@,
            final(self).orbs == old(self).orbs,
            final(self).projectiles == old(self).projectiles,
            final(self).spells == old(self).spells,
            final(self).keep_tiers == old(self).keep_tiers,
            final(self).realm == old(self).realm,
            final(self).wizard_alive == old(self).wizard_alive,
            final(self).outcome == old(self).outcome,
            final(self).rival_count == old(self).rival_count,
            final(self).minimap == old(self).minimap,
    {
        proof {
            crate::creatures::lemma_mana_only_from_the_wild(self.creatures.kind@[i as int]);
        }
        self.creatures.alive.set(i, false);
        self.creatures.kind[i].mana_reward()
    }

    /// Living wild creatures other than nests.
    pub fn wild_population(&self) -> (n: i32)
        requires
            self.wf(),
        ensures
            n == count_below(MAX_CREATURES as int, |i: int| self.is_wild_roamer(i)),
            0 <= n <= MAX_CREATURES,
    {
        let ghost pred = |i: int| self.is_wild_roamer(i);
        let mut count: i32 = 0;
        let mut i: usize = 0;
        while i < MAX_CREATURES
            invariant
                self.wf(),
                i <= MAX_CREATURES,
                pred == (|i: int| self.is_wild_roamer(i)),
                count == count_below(i as int, pred),
                0 <= count <= i,
            decreases MAX_CREATURES - i,
        {
            proof {
                lemma_count_below_bounded(i as int, pred);
            }
            if self.creatures.alive[i] && self.creatures.faction[i].0 == 0
                && self.creatures.kind[i] != CreatureKind::Nest {
                count = count + 1;
            }
            i = i + 1;
        }
        count
    }

    /// A nest's timer has run out: while the wild holds fewer than eight
    /// creatures plus three per realm, the nest hatches the kind its `roll`
    /// (in `0..=4`) names into the lowest free slot; otherwise nothing
    /// changes. Returns the slot hatched into.
    pub fn hatch_step(&mut self, roll: i32) -> (slot: Option<usize>)
        requires
            old(self).wf(),
            0 <= roll <= 4,
            i32::MIN <= 3 * old(self).realm,
            8 + 3 * old(self).realm <= i32::MAX,
        ensures
            final(self).wf(),
            final(self).orbs == old(self).orbs,
            final(self).projectiles == old(self).projectiles,
            final(self).spells == old(self).spells,
            final(self).keep_tiers == old(self).keep_tiers,
            final(self).realm == old(self).realm,
            final(self).wizard_alive == old(self).wizard_alive,
            final(self).outcome == old(self).outcome,
            final(self).rival_count == old(self).rival_count,
            final(self).minimap == old(self).minimap,
            !(count_below(MAX_CREATURES as int, |i: int| old(self).is_wild_roamer(i)) < 8 + 3
                * (old(self).realm as int)) ==> slot is None && final(self).creatures == old(
                self,
            ).creatures,
            match slot {
                Some(i) => {
                    &&& count_below(MAX_CREATURES as int, |i: int| old(self).is_wild_roamer(i))
                        < 8 + 3 * (old(self).realm as int)
                    &&& i < MAX_CREATURES
                    &&& !old(self).creatures.alive@[i as int]
                    &&& forall|k: int| 0 <= k < i ==> old(self).creatures.alive@[k]
                    &&& final(self).creatures.alive@ == old(self).creatures.alive@.update(
                        i as int,
                        true,
                    )
                    &&& final(self).creatures.kind@[i as int].index_spec() == (if roll == 4 {
                        1
                    } else {
                        roll as int
                    })
                    &&& final(self).creatures.kind@ == old(self).creatures.kind@.update(
                        i as int,
                        final(self).creatures.kind@[i as int],
                    )
                    &&& final(self).creatures.faction@ == old(self).creatures.faction@.update(
                        i as int,
                        Faction(0),
                    )
                },
                None => final(self).creatures == old(self).creatures && (count_below(
                    MAX_CREATURES as int,
                    |i: int| old(self).is_wild_roamer(i),
                ) < 8 + 3 * (old(self).realm as int) ==> forall|k: int|
                    0 <= k < MAX_CREATURES ==> old(self).creatures.alive@[k]),
            },
            count_below(MAX_CREATURES as int, |i: int| final(self).is_wild_roamer(i)) <= (if count_below(
                MAX_CREATURES as int,
                |i: int| old(self).is_wild_roamer(i),
            ) < 8 + 3 * (old(self).realm as int) {
                8 + 3 * (old(self).realm as int)
            } else {
                count_below(MAX_CREATURES as int, |i: int| old(self).is_wild_roamer(i))
            }),
    {
        if !self.nest_may_hatch() {
            return None;
        }
        let kind = hatch_kind(roll);
        let ghost before = *self;
        let slot = self.spawn_creature(kind, Faction(0));
        proof {
            match slot {
                Some(i) => {
                    assert forall|k: int| 0 <= k < MAX_CREATURES && k != i implies #[trigger] before.is_wild_roamer(k)
                        == self.is_wild_roamer(k) by {}
                    lemma_count_below_flip(
                        MAX_CREATURES as int,
                        |k: int| before.is_wild_roamer(k),
                        |k: int| self.is_wild_roamer(k),
                        i as int,
                    );
                },
                None => {
                    assert((|k: int| self.is_wild_roamer(k)) =~= (|k: int| before.is_wild_roamer(k)));
                },
            }
        }
        slot
    }

    /// Living balloons flying for `wizard`.
    pub fn balloon_count(&self, wizard: usize) -> (n: i32)
        requires
            self.wf(),
            wizard < WIZARD_COUNT,
        ensures
            n == count_below(MAX_CREATURES as int, |i: int| self.is_balloon_of(i, wizard as int)),
            0 <= n <= MAX_CREATURES,
    {
        let ghost pred = |i: int| self.is_balloon_of(i, wizard as int);
        let owner: u8 = (wizard + 1) as u8;
        let mut count: i32 = 0;
        let mut i: usize = 0;
        while i < MAX_CREATURES
            invariant
                self.wf(),
                wizard < WIZARD_COUNT,
                owner == wizard + 1,
                i <= MAX_CREATURES,
                pred == (|i: int| self.is_balloon_of(i, wizard as int)),
                count == count_below(i as int, pred),
                0 <= count <= i,
            decreases MAX_CREATURES - i,
        {
            proof {
                lemma_count_below_bounded(i as int, pred);
            }
            if self.creatures.alive[i] && self.creatures.kind[i] == CreatureKind::Balloon
                && self.creatures.faction[i].0 == owner {
                count = count + 1;
            }
            i = i + 1;
        }
        count
    }

    /// How many balloons `wizard` may keep aloft: one more than its keep's
    /// tier for the player; for a rival, its tier but never more than one
    /// plus half the realm.
    pub open spec fn balloon_cap_spec(&self, wizard: int) -> int {
        let tier = self.keep_tiers@[wizard] as int;
        if wizard == 0 {
            tier + 1
        } else if 1 + half_toward_zero(self.realm as int) < tier {
            1 + half_toward_zero(self.realm as int)
        } else {
            tier
        }
    }

    pub fn balloon_cap(&self, wizard: usize) -> (cap: i64)
        requires
            self.wf(),
            wizard < WIZARD_COUNT,
            wizard == 0 ==> self.keep_tiers@[0] < i32::MAX,
        ensures
            cap == self.balloon_cap_spec(wizard as int),
    {
        let tier = self.keep_tiers[wizard] as i64;
        let realm = self.realm as i64;
        let half = if realm >= 0 {
            realm / 2
        } else {
            -((-realm) / 2)
        };
        if wizard == 0 {
            tier + 1
        } else if 1 + half < tier {
            1 + half
        } else {
            tier
        }
    }

    /// When its balloon timer runs out, a keep launches another balloon only
    /// while its wizard has fewer aloft than the cap allows.
    pub fn balloon_due(&self, wizard: usize) -> (due: bool)
        requires
            self.wf(),
            wizard < WIZARD_COUNT,
            wizard == 0 ==> self.keep_tiers@[0] < i32::MAX,
        ensures
            due == (count_below(MAX_CREATURES as int, |i: int| self.is_balloon_of(i, wizard as int))
                < self.balloon_cap_spec(wizard as int)),
    {
        (self.balloon_count(wizard) as i64) < self.balloon_cap(wizard)
    }

    /// A nest hatches when its timer runs out only while the wild holds fewer
    /// than eight creatures plus three per realm.
    pub fn nest_may_hatch(&self) -> (ok: bool)
        requires
            self.wf(),
            i32::MIN <= 3 * self.realm,
            8 + 3 * self.realm <= i32::MAX,
        ensures
            ok == (count_below(MAX_CREATURES as int, |i: int| self.is_wild_roamer(i)) < 8 + 3
                * (self.realm as int)),
    {
        (self.wild_population() as i64) < 8 + 3 * (self.realm as i64)
    }

    /// The periodic trickle adds a creature only while the wild holds fewer
    /// than seven plus the realm.
    pub fn trickle_due(&self) -> (ok: bool)
        requires
            self.wf(),
            7 + self.realm <= i32::MAX,
        ensures
            ok == (count_below(MAX_CREATURES as int, |i: int| self.is_wild_roamer(i)) < 7
                + self.realm as int),
    {
        (self.wild_population() as i64) < 7 + (self.realm as i64)
    }

    /// Minimap dot for creature `i`: balloons and nests by kind, then the
    /// player's creatures, then the first rival's (which share the rival orb
    /// colour), and everything else as wild.
    pub fn creature_blip(&self, i: usize) -> (b: MapBlip)
        requires
            self.wf(),
            i < MAX_CREATURES,
        ensures
            b == (if self.creatures.kind@[i as int] == CreatureKind::Balloon {
                MapBlip::Balloon
            } else if self.creatures.kind@[i as int] == CreatureKind::Nest {
                MapBlip::Nest
            } else if self.creatures.faction@[i as int].0 == 1 {
                MapBlip::AlliedCreature
            } else if self.creatures.faction@[i as int].0 == 2 {
                MapBlip::RivalOrb
            } else {
                MapBlip::WildCreature
            }),
    {
        let kind = self.creatures.kind[i];
        let faction = self.creatures.faction[i];
        match kind {
            CreatureKind::Balloon => MapBlip::Balloon,
            CreatureKind::Nest => MapBlip::Nest,
            _ => {
                if faction.is_player() {
                    MapBlip::AlliedCreature
                } else if faction.0 == 2 {
                    MapBlip::RivalOrb
                } else {
                    MapBlip::WildCreature
                }
            },
        }
    }

    // ---- orbs --------------------------------------------------------------

    /// Takes the lowest free orb slot for a fresh, unclaimed, uncarried orb.
    pub fn spawn_orb(&mut self) -> (slot: Option<usize>)
        requires
            old(self).wf(),
            old(self).carries_at_most_one(),
        ensures
            final(self).wf(),
            final(self).spells == old(self).spells,
            final(self).keep_tiers == old(self).keep_tiers,
            final(self).realm == old(self).realm,
            final(self).wizard_alive == old(self).wizard_alive,
            final(self).outcome == old(self).outcome,
            final(self).rival_count == old(self).rival_count,
            final(self).minimap == old(self).minimap,
            final(self).carries_at_most_one(),
            final(self).creatures == old(self).creatures,
            final(self).projectiles == old(self).projectiles,
            match slot {
                Some(i) => {
                    &&& i < MAX_ORBS
                    &&& !old(self).orbs.alive@[i as int]
                    &&& forall|k: int| 0 <= k < i ==> old(self).orbs.alive@[k]
                    &&& final(self).orbs.alive@ == old(self).orbs.alive@.update(i as int, true)
                    &&& final(self).orbs.carried_by@ == old(self).orbs.carried_by@.update(
                        i as int,
                        None,
                    )
                    &&& final(self).orbs.claimed_by@ == old(self).orbs.claimed_by@.update(
                        i as int,
                        Faction(0),
                    )
                },
                None => {
                    &&& forall|k: int| 0 <= k < MAX_ORBS ==> old(self).orbs.alive@[k]
                    &&& final(self).orbs == old(self).orbs
                },
            },
    {
        let slot = first_free(&self.orbs.alive);
        match slot {
            Some(i) => {
                self.orbs.alive.set(i, true);
                self.orbs.carried_by.set(i, None);
                self.orbs.claimed_by.set(i, Faction(0));
            },
            None => {},
        }
        slot
    }

    /// The live orb balloon `balloon` is carrying, if any (the lowest such
    /// slot).
    pub fn orb_carried_by(&self, balloon: usize) -> (orb: Option<usize>)
        requires
            self.wf(),
        ensures
            match orb {
                Some(i) => i < MAX_ORBS && self.orbs.alive@[i as int]
                    && self.orbs.carried_by@[i as int] == Some(balloon) && forall|k: int|
                    0 <= k < i ==> !(self.orbs.alive@[k] && self.orbs.carried_by@[k] == Some(
                        balloon,
                    )),
                None => forall|k: int|
                    0 <= k < MAX_ORBS ==> !(self.orbs.alive@[k] && self.orbs.carried_by@[k]
                        == Some(balloon)),
            },
    {
        let mut i: usize = 0;
        while i < MAX_ORBS
            invariant
                self.wf(),
                i <= MAX_ORBS,
                forall|k: int|
                    0 <= k < i ==> !(self.orbs.alive@[k] && self.orbs.carried_by@[k] == Some(
                        balloon,
                    )),
            decreases MAX_ORBS - i,
        {
            if self.orbs.alive[i] {
                match self.orbs.carried_by[i] {
                    Some(b) => {
                        if b == balloon {
                            return Some(i);
                        }
                    },
                    None => {},
                }
            }
            i = i + 1;
        }
        None
    }

    /// Whether balloon `balloon` may go after orb `orb`: it must be loose,
    /// not already carried, and claimed by the balloon's own faction. Unclaimed
    /// gold is ignored until somebody casts Claim on it.
    pub fn orb_wanted_by(&self, balloon: usize, orb: usize) -> (r: bool)
        requires
            self.wf(),
            balloon < MAX_CREATURES,
            orb < MAX_ORBS,
        ensures
            r == (self.orbs.alive@[orb as int] && self.orbs.carried_by@[orb as int] is None
                && self.orbs.claimed_by@[orb as int] == self.creatures.faction@[balloon as int]),
    {
        self.orbs.alive[orb] && self.orbs.carried_by[orb].is_none()
            && self.orbs.claimed_by[orb].0 == self.creatures.faction[balloon].0
    }

    /// Balloon `balloon` may go after orb `orb`.
    pub open spec fn wants_orb(&self, balloon: int, orb: int) -> bool {
        &&& self.orbs.alive@[orb]
        &&& self.orbs.carried_by@[orb] is None
        &&& self.orbs.claimed_by@[orb] == self.creatures.faction@[balloon]
    }

    /// The orb balloon `balloon` should make for: of the orbs it may go
    /// after, the one with the smallest `dist_keys` entry below `range_key`,
    /// the lowest slot among equals.
    ///
    /// `dist_keys[k]` orders orb `k` by its distance from the balloon (any
    /// key that sorts as the distances do); `range_key` is the key of the
    /// search range.
    pub fn nearest_claimed_orb(&self, balloon: usize, dist_keys: &Vec<u32>, range_key: u32) -> (orb:
        Option<usize>)
        requires
            self.wf(),
            balloon < MAX_CREATURES,
            dist_keys@.len() == MAX_ORBS,
        ensures
            match orb {
                Some(i) => {
                    &&& i < MAX_ORBS
                    &&& self.wants_orb(balloon as int, i as int)
                    &&& self.orbs.alive@[i as int]
                    &&& self.orbs.carried_by@[i as int] is None
                    &&& self.orbs.claimed_by@[i as int] == self.creatures.faction@[balloon as int]
                    &&& dist_keys@[i as int] < range_key
                    &&& forall|k: int|
                        0 <= k < MAX_ORBS && self.wants_orb(balloon as int, k) ==> dist_keys@[k]
                            >= dist_keys@[i as int]
                    &&& forall|k: int|
                        0 <= k < i && self.wants_orb(balloon as int, k) ==> dist_keys@[k]
                            > dist_keys@[i as int]
                },
                None => forall|k: int|
                    0 <= k < MAX_ORBS && self.wants_orb(balloon as int, k) ==> dist_keys@[k]
                        >= range_key,
            },
    {
        let mut best: Option<usize> = None;
        let mut best_key: u32 = range_key;
        let mut i: usize = 0;
        while i < MAX_ORBS
            invariant
                self.wf(),
                balloon < MAX_CREATURES,
                dist_keys@.len() == MAX_ORBS,
                i <= MAX_ORBS,
                best_key <= range_key,
                match best {
                    Some(b) => {
                        &&& b < i
                        &&& self.wants_orb(balloon as int, b as int)
                        &&& dist_keys@[b as int] == best_key
                        &&& best_key < range_key
                        &&& forall|k: int|
                            0 <= k < b && self.wants_orb(balloon as int, k) ==> dist_keys@[k]
                                > best_key
                    },
                    None => best_key == range_key,
                },
                forall|k: int|
                    0 <= k < i && self.wants_orb(balloon as int, k) ==> dist_keys@[k] >= best_key,
            decreases MAX_ORBS - i,
        {
            if self.orb_wanted_by(balloon, i) && dist_keys[i] < best_key {
                best = Some(i);
                best_key = dist_keys[i];
            }
            i = i + 1;
        }
        best
    }

    /// Balloon `balloon` hooks orb `orb`.
    pub fn grab_orb(&mut self, balloon: usize, orb: usize)
        requires
            old(self).wf(),
            old(self).carries_at_most_one(),
            orb < MAX_ORBS,
            old(self).orbs.alive@[orb as int],
            old(self).orbs.carried_by@[orb as int] is None,
            forall|k: int|
                0 <= k < MAX_ORBS ==> !(old(self).orbs.alive@[k] && old(self).orbs.carried_by@[k]
                    == Some(balloon)),
        ensures
            final(self).wf(),
            final(self).carries_at_most_one(),
            final(self).spells == old(self).spells,
            final(self).keep_tiers == old(self).keep_tiers,
            final(self).realm == old(self).realm,
            final(self).wizard_alive == old(self).wizard_alive,
            final(self).outcome == old(self).outcome,
            final(self).rival_count == old(self).rival_count,
            final(self).minimap == old(self).minimap,
            final(self).orbs.carried_by@ == old(self).orbs.carried_by@.update(
                orb as int,
                Some(balloon),
            ),
            final(self).orbs.alive@ == old(self).orbs.alive@,
            final(self).orbs.claimed_by@ == old(self).orbs.claimed_by@,
            final(self).creatures == old(self).creatures,
            final(self).projectiles == old(self).projectiles,
    {
        let ghost before = *self;
        self.orbs.carried_by.set(orb, Some(balloon));
        proof {
            lemma_grab_keeps_one_each(before, *self, balloon, orb);
        }
    }

    /// Orb `orb` reaches its balloon's keep and is banked: it leaves the
    /// world.
    pub fn bank_orb(&mut self, orb: usize)
        requires
            old(self).wf(),
            old(self).carries_at_most_one(),
            orb < MAX_ORBS,
        ensures
            final(self).wf(),
            final(self).spells == old(self).spells,
            final(self).keep_tiers == old(self).keep_tiers,
            final(self).realm == old(self).realm,
            final(self).wizard_alive == old(self).wizard_alive,
            final(self).outcome == old(self).outcome,
            final(self).rival_count == old(self).rival_count,
            final(self).minimap == old(self).minimap,
            final(self).carries_at_most_one(),
            final(self).orbs.alive@ == old(self).orbs.alive@.update(orb as int, false),
            final(self).orbs.carried_by@ == old(self).orbs.carried_by@,
            final(self).orbs.claimed_by@ == old(self).orbs.claimed_by@,
            final(self).creatures == old(self).creatures,
            final(self).projectiles == old(self).projectiles,
    {
        self.orbs.alive.set(orb, false);
    }

    /// Balloon `balloon` lets go of whatever it carries (its keep fell, or it
    /// was shot down).
    pub fn release_balloon_cargo(&mut self, balloon: usize)
        requires
            old(self).wf(),
            old(self).carries_at_most_one(),
        ensures
            final(self).wf(),
            final(self).spells == old(self).spells,
            final(self).keep_tiers == old(self).keep_tiers,
            final(self).realm == old(self).realm,
            final(self).wizard_alive == old(self).wizard_alive,
            final(self).outcome == old(self).outcome,
            final(self).rival_count == old(self).rival_count,
            final(self).minimap == old(self).minimap,
            final(self).carries_at_most_one(),
            final(self).orbs.alive@ == old(self).orbs.alive@,
            final(self).orbs.claimed_by@ == old(self).orbs.claimed_by@,
            forall|k: int|
                0 <= k < MAX_ORBS ==> final(self).orbs.carried_by@[k] == (if old(
                    self,
                ).orbs.carried_by@[k] == Some(balloon) {
                    None
                } else {
                    old(self).orbs.carried_by@[k]
                }),
            final(self).creatures == old(self).creatures,
            final(self).projectiles == old(self).projectiles,
    {
        let mut i: usize = 0;
        while i < MAX_ORBS
            invariant
                self.wf(),
                self.carries_at_most_one(),
                i <= MAX_ORBS,
                self.orbs.alive@ == old(self).orbs.alive@,
                self.orbs.claimed_by@ == old(self).orbs.claimed_by@,
                self.creatures == old(self).creatures,
                self.projectiles == old(self).projectiles,
                self.spells == old(self).spells,
                self.keep_tiers == old(self).keep_tiers,
                self.realm == old(self).realm,
                self.wizard_alive == old(self).wizard_alive,
                self.outcome == old(self).outcome,
                self.rival_count == old(self).rival_count,
                self.minimap == old(self).minimap,
                forall|k: int|
                    0 <= k < MAX_ORBS ==> self.orbs.carried_by@[k] == (if k < i && old(
                        self,
                    ).orbs.carried_by@[k] == Some(balloon) {
                        None
                    } else {
                        old(self).orbs.carried_by@[k]
                    }),
            decreases MAX_ORBS - i,
        {
            let held = self.orbs.carried_by[i];
            match held {
                Some(b) => {
                    if b == balloon {
                        self.orbs.carried_by.set(i, None);
                    }
                },
                None => {},
            }
            i = i + 1;
        }
    }

    /// Claim: orb `orb` becomes `faction`'s for its balloons to ferry home.
    /// Orbs already carried, already that faction's, or gone are left alone;
    /// returns whether the orb changed hands.
    pub fn claim_orb(&mut self, orb: usize, faction: Faction) -> (claimed: bool)
        requires
            old(self).wf(),
            old(self).carries_at_most_one(),
            orb < MAX_ORBS,
        ensures
            final(self).wf(),
            final(self).spells == old(self).spells,
            final(self).keep_tiers == old(self).keep_tiers,
            final(self).realm == old(self).realm,
            final(self).wizard_alive == old(self).wizard_alive,
            final(self).outcome == old(self).outcome,
            final(self).rival_count == old(self).rival_count,
            final(self).minimap == old(self).minimap,
            final(self).carries_at_most_one(),
            claimed == (old(self).orbs.alive@[orb as int] && old(self).orbs.carried_by@[orb as int] is None
                && old(self).orbs.claimed_by@[orb as int] != faction),
            final(self).orbs.claimed_by@ == (if claimed {
                old(self).orbs.claimed_by@.update(orb as int, faction)
            } else {
                old(self).orbs.claimed_by@
            }),
            final(self).orbs.alive@ == old(self).orbs.alive@,
            final(self).orbs.carried_by@ == old(self).orbs.carried_by@,
            final(self).creatures == old(self).creatures,
            final(self).projectiles == old(self).projectiles,
    {
        if !self.orbs.alive[orb] || self.orbs.carried_by[orb].is_some()
            || self.orbs.claimed_by[orb].0 == faction.0 {
            return false;
        }
        self.orbs.claimed_by.set(orb, faction);
        true
    }

    /// Orb `orb` is one a Claim by `faction` takes: loose, not carried, not
    /// already `faction`'s, and keyed no further than the Claim's reach (an
    /// orb exactly at the reach is taken).
    pub open spec fn claimable(&self, orb: int, faction: Faction, keys: Seq<u32>, reach: int) -> bool {
        &&& self.orbs.alive@[orb]
        &&& self.orbs.carried_by@[orb] is None
        &&& self.orbs.claimed_by@[orb] != faction
        &&& keys[orb] <= reach
    }

    /// The Claim spell: every orb it can take (see `claimable`) becomes
    /// `faction`'s. Returns the slots claimed, lowest first; the caster gains
    /// mana only when it is not empty.
    ///
    /// `dist_keys[k]` orders orb `k` by its distance from the caster (any key
    /// that sorts as the distances do); `reach_key` is the key of the reach.
    pub fn claim_sweep(&mut self, faction: Faction, dist_keys: &Vec<u32>, reach_key: u32) -> (claimed:
        Vec<usize>)
        requires
            old(self).wf(),
            old(self).carries_at_most_one(),
            dist_keys@.len() == MAX_ORBS,
        ensures
            final(self).wf(),
            final(self).carries_at_most_one(),
            forall|k: int|
                0 <= k < MAX_ORBS ==> final(self).orbs.claimed_by@[k] == (if old(self).claimable(
                    k,
                    faction,
                    dist_keys@,
                    reach_key as int,
                ) {
                    faction
                } else {
                    old(self).orbs.claimed_by@[k]
                }),
            forall|j: int| 0 <= j < claimed@.len() ==> claimed@[j] < MAX_ORBS,
            forall|j: int, m: int| 0 <= j < m < claimed@.len() ==> claimed@[j] < claimed@[m],
            forall|j: int|
                #![trigger claimed@[j]]
                0 <= j < claimed@.len() ==> {
                    &&& old(self).orbs.alive@[claimed@[j] as int]
                    &&& old(self).orbs.carried_by@[claimed@[j] as int] is None
                    &&& old(self).orbs.claimed_by@[claimed@[j] as int] != faction
                    &&& dist_keys@[claimed@[j] as int] <= reach_key
                    &&& final(self).orbs.claimed_by@[claimed@[j] as int] == faction
                },
            forall|k: usize|
                k < MAX_ORBS ==> (claimed@.contains(k) <==> old(self).claimable(
                    k as int,
                    faction,
                    dist_keys@,
                    reach_key as int,
                )),
            final(self).orbs.alive@ == old(self).orbs.alive@,
            final(self).orbs.carried_by@ == old(self).orbs.carried_by@,
            final(self).creatures == old(self).creatures,
            final(self).projectiles == old(self).projectiles,
            final(self).spells == old(self).spells,
            final(self).keep_tiers == old(self).keep_tiers,
            final(self).realm == old(self).realm,
            final(self).wizard_alive == old(self).wizard_alive,
            final(self).outcome == old(self).outcome,
            final(self).rival_count == old(self).rival_count,
            final(self).minimap == old(self).minimap,
    {
        let mut claimed: Vec<usize> = Vec::new();
        let mut i: usize = 0;
        while i < MAX_ORBS
            invariant
                self.wf(),
                self.carries_at_most_one(),
                dist_keys@.len() == MAX_ORBS,
                i <= MAX_ORBS,
                self.orbs.alive@ == old(self).orbs.alive@,
                self.orbs.carried_by@ == old(self).orbs.carried_by@,
                self.creatures == old(self).creatures,
                self.projectiles == old(self).projectiles,
                self.spells == old(self).spells,
                self.keep_tiers == old(self).keep_tiers,
                self.realm == old(self).realm,
                self.wizard_alive == old(self).wizard_alive,
                self.outcome == old(self).outcome,
                self.rival_count == old(self).rival_count,
                self.minimap == old(self).minimap,
                forall|k: int|
                    0 <= k < MAX_ORBS ==> self.orbs.claimed_by@[k] == (if k < i && old(
                        self,
                    ).claimable(k, faction, dist_keys@, reach_key as int) {
                        faction
                    } else {
                        old(self).orbs.claimed_by@[k]
                    }),
                forall|j: int| 0 <= j < claimed@.len() ==> claimed@[j] < i,
                forall|j: int, m: int| 0 <= j < m < claimed@.len() ==> claimed@[j] < claimed@[m],
                forall|k: usize|
                    k < i ==> (claimed@.contains(k) <==> old(self).claimable(
                        k as int,
                        faction,
                        dist_keys@,
                        reach_key as int,
                    )),
            decreases MAX_ORBS - i,
        {
            let take = self.orbs.alive[i] && self.orbs.carried_by[i].is_none()
                && self.orbs.claimed_by[i].0 != faction.0 && dist_keys[i] <= reach_key;
            assert(take == old(self).claimable(i as int, faction, dist_keys@, reach_key as int));
            let ghost prev = claimed@;
            if take {
                self.orbs.claimed_by.set(i, faction);
                claimed.push(i);
            }
            proof {
                assert forall|k: usize| k < i + 1 implies (claimed@.contains(k) <==> old(self).claimable(
                    k as int,
                    faction,
                    dist_keys@,
                    reach_key as int,
                )) by {
                    if claimed@.contains(k) {
                        let j = choose|j: int| 0 <= j < claimed@.len() && claimed@[j] == k;
                        if j < prev.len() {
                            assert(prev[j] == k);
                            assert(prev.contains(k));
                        }
                    }
                    if k < i && prev.contains(k) {
                        let j = choose|j: int| 0 <= j < prev.len() && prev[j] == k;
                        assert(claimed@[j] == k);
                    }
                    if k == i && take {
                        assert(claimed@[prev.len() as int] == k);
                    }
                    if k == i && prev.contains(k) {
                        let j = choose|j: int| 0 <= j < prev.len() && prev[j] == k;
                        assert(prev[j] < i);
                    }
                }
            }
            i = i + 1;
        }
        proof {
            assert forall|j: int|
                #![trigger claimed@[j]]
                0 <= j < claimed@.len() implies {
                    &&& old(self).orbs.alive@[claimed@[j] as int]
                    &&& old(self).orbs.carried_by@[claimed@[j] as int] is None
                    &&& old(self).orbs.claimed_by@[claimed@[j] as int] != faction
                    &&& dist_keys@[claimed@[j] as int] <= reach_key
                    &&& self.orbs.claimed_by@[claimed@[j] as int] == faction
                } by {
                assert(claimed@.contains(claimed@[j]));
            }
        }
        claimed
    }

    /// The Fortress: wizard `wizard`'s keep rises a tier if it is below the
    /// top tier. Returns whether it rose.
    pub fn raise_keep_tier(&mut self, wizard: usize) -> (raised: bool)
        requires
            old(self).wf(),
            wizard < WIZARD_COUNT,
        ensures
            final(self).wf(),
            raised == (old(self).keep_tiers@[wizard as int] < MAX_KEEP_TIER),
            final(self).keep_tiers@ == (if raised {
                old(self).keep_tiers@.update(
                    wizard as int,
                    (old(self).keep_tiers@[wizard as int] + 1) as i32,
                )
            } else {
                old(self).keep_tiers@
            }),
            final(self).creatures == old(self).creatures,
            final(self).orbs == old(self).orbs,
            final(self).projectiles == old(self).projectiles,
            final(self).spells == old(self).spells,
            final(self).realm == old(self).realm,
            final(self).wizard_alive == old(self).wizard_alive,
            final(self).outcome == old(self).outcome,
            final(self).rival_count == old(self).rival_count,
            final(self).minimap == old(self).minimap,
    {
        let tier = self.keep_tiers[wizard];
        if tier >= MAX_KEEP_TIER {
            return false;
        }
        self.keep_tiers.set(wizard, tier + 1);
        true
    }

    /// Wizard `wizard` has been brought to no health. The player's fall loses
    /// the realm; a rival simply drops out of the sky until it returns.
    pub fn wizard_falls(&mut self, wizard: usize)
        requires
            old(self).wf(),
            wizard <= old(self).rival_count,
        ensures
            final(self).wf(),
            wizard == PLAYER ==> final(self).outcome == Outcome::Lost && final(self).wizard_alive
                == old(self).wizard_alive,
            wizard != PLAYER ==> final(self).outcome == old(self).outcome
                && final(self).wizard_alive@ == old(self).wizard_alive@.update(wizard as int, false),
            final(self).creatures == old(self).creatures,
            final(self).orbs == old(self).orbs,
            final(self).projectiles == old(self).projectiles,
            final(self).spells == old(self).spells,
            final(self).keep_tiers == old(self).keep_tiers,
            final(self).realm == old(self).realm,
            final(self).rival_count == old(self).rival_count,
            final(self).minimap == old(self).minimap,
    {
        if wizard == PLAYER {
            self.outcome = Outcome::Lost;
        } else {
            self.wizard_alive.set(wizard, false);
        }
    }

    /// A fallen rival comes back once its respawn timer has run out, but only
    /// while its keep still stands: a rival whose keep is ruined never
    /// returns. Returns whether it came back.
    pub fn rival_returns(&mut self, rival: usize, timer_done: bool, keep_standing: bool) -> (back:
        bool)
        requires
            old(self).wf(),
            1 <= rival <= old(self).rival_count,
        ensures
            final(self).wf(),
            back == (!old(self).wizard_alive@[rival as int] && timer_done && keep_standing),
            final(self).wizard_alive@ == (if back {
                old(self).wizard_alive@.update(rival as int, true)
            } else {
                old(self).wizard_alive@
            }),
            !keep_standing ==> final(self).wizard_alive@ == old(self).wizard_alive@,
            final(self).outcome == old(self).outcome,
            final(self).creatures == old(self).creatures,
            final(self).orbs == old(self).orbs,
            final(self).projectiles == old(self).projectiles,
            final(self).spells == old(self).spells,
            final(self).keep_tiers == old(self).keep_tiers,
            final(self).realm == old(self).realm,
            final(self).rival_count == old(self).rival_count,
            final(self).minimap == old(self).minimap,
    {
        if !self.wizard_alive[rival] && timer_done && keep_standing {
            self.wizard_alive.set(rival, true);
            true
        } else {
            false
        }
    }

    /// The end-of-tick verdict (see `settle_outcome`), recorded in the world.
    pub fn settle(&mut self, player_banked: bool, rival_banked: bool, player_dead: bool)
        requires
            old(self).wf(),
        ensures
            final(self).wf(),
            final(self).outcome == settle_outcome_spec(
                old(self).outcome,
                player_banked,
                rival_banked,
                player_dead,
            ),
            final(self).wizard_alive == old(self).wizard_alive,
            final(self).creatures == old(self).creatures,
            final(self).orbs == old(self).orbs,
            final(self).projectiles == old(self).projectiles,
            final(self).spells == old(self).spells,
            final(self).keep_tiers == old(self).keep_tiers,
            final(self).realm == old(self).realm,
            final(self).rival_count == old(self).rival_count,
            final(self).minimap == old(self).minimap,
    {
        self.outcome = settle_outcome(self.outcome, player_banked, rival_banked, player_dead);
    }

    /// Minimap dot for orb `orb`: the player's, nobody's yet, or a rival's.
    pub fn orb_blip(&self, orb: usize) -> (b: MapBlip)
        requires
            self.wf(),
            orb < MAX_ORBS,
        ensures
            b == (if self.orbs.claimed_by@[orb as int].0 == 1 {
                MapBlip::ClaimedOrb
            } else if self.orbs.claimed_by@[orb as int].0 == 0 {
                MapBlip::UnclaimedOrb
            } else {
                MapBlip::RivalOrb
            }),
    {
        let owner = self.orbs.claimed_by[orb];
        if owner.is_player() {
            MapBlip::ClaimedOrb
        } else if owner.is_wild() {
            MapBlip::UnclaimedOrb
        } else {
            MapBlip::RivalOrb
        }
    }

    // ---- projectiles -------------------------------------------------------

    /// Takes the lowest free projectile slot; `None` when all are in flight.
    pub fn spawn_projectile(&mut self, kind: ProjectileKind, owner: Faction) -> (slot: Option<usize>)
        requires
            old(self).wf(),
        ensures
            final(self).wf(),
            final(self).spells == old(self).spells,
            final(self).keep_tiers == old(self).keep_tiers,
            final(self).realm == old(self).realm,
            final(self).wizard_alive == old(self).wizard_alive,
            final(self).outcome == old(self).outcome,
            final(self).rival_count == old(self).rival_count,
            final(self).minimap == old(self).minimap,
            final(self).creatures == old(self).creatures,
            final(self).orbs == old(self).orbs,
            match slot {
                Some(i) => {
                    &&& i < MAX_PROJECTILES
                    &&& !old(self).projectiles.alive@[i as int]
                    &&& forall|k: int| 0 <= k < i ==> old(self).projectiles.alive@[k]
                    &&& final(self).projectiles.alive@ == old(self).projectiles.alive@.update(
                        i as int,
                        true,
                    )
                    &&& final(self).projectiles.kind@ == old(self).projectiles.kind@.update(
                        i as int,
                        kind,
                    )
                    &&& final(self).projectiles.owner@ == old(self).projectiles.owner@.update(
                        i as int,
                        owner,
                    )
                },
                None => {
                    &&& forall|k: int|
                        0 <= k < MAX_PROJECTILES ==> old(self).projectiles.alive@[k]
                    &&& final(self).projectiles == old(self).projectiles
                },
            },
    {
        let slot = first_free(&self.projectiles.alive);
        match slot {
            Some(i) => {
                self.projectiles.alive.set(i, true);
                self.projectiles.kind.set(i, kind);
                self.projectiles.owner.set(i, owner);
            },
            None => {},
        }
        slot
    }

    /// Whether projectile `p` can strike creature `c`: the creature must be
    /// alive, of another faction, and not a balloon (cargo is never a target).
    pub fn projectile_can_hit(&self, p: usize, c: usize) -> (r: bool)
        requires
            self.wf(),
            p < MAX_PROJECTILES,
            c < MAX_CREATURES,
        ensures
            r == (self.creatures.alive@[c as int] && self.creatures.faction@[c as int]
                != self.projectiles.owner@[p as int] && self.creatures.kind@[c as int]
                != CreatureKind::Balloon),
    {
        self.creatures.alive[c] && self.creatures.faction[c].0 != self.projectiles.owner[p].0
            && self.creatures.kind[c] != CreatureKind::Balloon
    }

    /// Creature `index` may pick a fight with creature `other`.
    pub open spec fn targets(&self, index: int, other: int) -> bool {
        &&& self.creatures.alive@[other]
        &&& other != index
        &&& self.creatures.faction@[other] != self.creatures.faction@[index]
        &&& self.creatures.kind@[other] != CreatureKind::Balloon
    }

    /// Whether creature `index` may pick a fight with creature `other`: the
    /// other must be alive, somebody else, of another faction, and not a
    /// balloon (cargo is never a target).
    pub fn can_target(&self, index: usize, other: usize) -> (r: bool)
        requires
            self.wf(),
            index < MAX_CREATURES,
            other < MAX_CREATURES,
        ensures
            r == self.targets(index as int, other as int),
            r ==> self.creatures.alive@[other as int] && other != index
                && self.creatures.faction@[other as int] != self.creatures.faction@[index as int]
                && self.creatures.kind@[other as int] != CreatureKind::Balloon,
    {
        self.creatures.alive[other] && other != index
            && self.creatures.faction[other].0 != self.creatures.faction[index].0
            && self.creatures.kind[other] != CreatureKind::Balloon
    }

    /// Creature `i` is the one `index` should go for: one it may fight, keyed
    /// below `range`, no other such creature keyed lower, none before it
    /// keyed the same.
    pub open spec fn is_nearest_target(&self, index: int, keys: Seq<u32>, range: int, i: int) -> bool {
        &&& 0 <= i < MAX_CREATURES
        &&& self.targets(index, i)
        &&& keys[i] < range
        &&& forall|k: int| 0 <= k < MAX_CREATURES && self.targets(index, k) ==> keys[k] >= keys[i]
        &&& forall|k: int| 0 <= k < i && self.targets(index, k) ==> keys[k] > keys[i]
    }

    /// No creature `index` may fight is keyed below `range`.
    pub open spec fn none_within(&self, index: int, keys: Seq<u32>, range: int) -> bool {
        forall|k: int| 0 <= k < MAX_CREATURES && self.targets(index, k) ==> keys[k] >= range
    }

    /// The creature `index` should go for: of those it may fight, the one
    /// with the smallest `dist_keys` entry below `range_key`, the lowest slot
    /// among equals.
    ///
    /// `dist_keys[k]` orders creature `k` by its distance from `index` (any
    /// key that sorts as the distances do); `range_key` is the key of the
    /// creature's reach.
    pub fn nearest_enemy_creature(&self, index: usize, dist_keys: &Vec<u32>, range_key: u32) -> (target:
        Option<usize>)
        requires
            self.wf(),
            index < MAX_CREATURES,
            dist_keys@.len() == MAX_CREATURES,
        ensures
            match target {
                Some(i) => self.is_nearest_target(index as int, dist_keys@, range_key as int, i as int)
                    && self.creatures.alive@[i as int] && i != index
                    && self.creatures.faction@[i as int] != self.creatures.faction@[index as int]
                    && self.creatures.kind@[i as int] != CreatureKind::Balloon,
                None => self.none_within(index as int, dist_keys@, range_key as int),
            },
    {
        let mut best: Option<usize> = None;
        let mut best_key: u32 = range_key;
        let mut other: usize = 0;
        while other < MAX_CREATURES
            invariant
                self.wf(),
                index < MAX_CREATURES,
                dist_keys@.len() == MAX_CREATURES,
                other <= MAX_CREATURES,
                best_key <= range_key,
                match best {
                    Some(b) => {
                        &&& b < other
                        &&& self.targets(index as int, b as int)
                        &&& dist_keys@[b as int] == best_key
                        &&& best_key < range_key
                        &&& forall|k: int|
                            0 <= k < b && self.targets(index as int, k) ==> dist_keys@[k]
                                > best_key
                    },
                    None => best_key == range_key,
                },
                forall|k: int|
                    0 <= k < other && self.targets(index as int, k) ==> dist_keys@[k] >= best_key,
            decreases MAX_CREATURES - other,
        {
            if self.can_target(index, other) && dist_keys[other] < best_key {
                best = Some(other);
                best_key = dist_keys[other];
            }
            other = other + 1;
        }
        best
    }

    /// Wizard `w` is the one a wild creature eyes first: alive, among the
    /// wizards of this realm, with the smallest `scores` entry below `cap`,
    /// the lowest among equals.
    pub open spec fn is_best_wizard(&self, scores: Seq<u32>, cap: int, w: int) -> bool {
        &&& 0 <= w <= self.rival_count
        &&& self.wizard_alive@[w]
        &&& scores[w] < cap
        &&& forall|v: int| 0 <= v <= self.rival_count && self.wizard_alive@[v] ==> scores[v] >= scores[w]
        &&& forall|v: int| 0 <= v < w && self.wizard_alive@[v] ==> scores[v] > scores[w]
    }

    /// The wizard a wild creature eyes first: of the living wizards of this
    /// realm, the one with the smallest `scores` entry below `cap`, the lowest
    /// among equals. `scores[w]` orders wizard `w` by its distance from the
    /// creature, weighted in the player's disfavour.
    pub fn best_wizard(&self, scores: &Vec<u32>, cap: u32) -> (w: Option<usize>)
        requires
            self.wf(),
            scores@.len() == WIZARD_COUNT,
        ensures
            match w {
                Some(v) => self.is_best_wizard(scores@, cap as int, v as int) && v
                    <= self.rival_count && self.wizard_alive@[v as int] && scores@[v as int] < cap,
                None => forall|v: int|
                    0 <= v <= self.rival_count && self.wizard_alive@[v] ==> scores@[v] >= cap,
            },
    {
        let mut best: Option<usize> = None;
        let mut best_score: u32 = cap;
        let mut wizard: usize = 0;
        while wizard <= self.rival_count
            invariant
                self.wf(),
                scores@.len() == WIZARD_COUNT,
                wizard <= self.rival_count + 1,
                best_score <= cap,
                match best {
                    Some(b) => {
                        &&& b < wizard
                        &&& self.wizard_alive@[b as int]
                        &&& scores@[b as int] == best_score
                        &&& best_score < cap
                        &&& forall|v: int| 0 <= v < b && self.wizard_alive@[v] ==> scores@[v] > best_score
                    },
                    None => best_score == cap,
                },
                forall|v: int| 0 <= v < wizard && self.wizard_alive@[v] ==> scores@[v] >= best_score,
            decreases self.rival_count + 1 - wizard,
        {
            if self.wizard_alive[wizard] && scores[wizard] < best_score {
                best = Some(wizard);
                best_score = scores[wizard];
            }
            wizard = wizard + 1;
        }
        best
    }

    /// What wild creature `index` goes for: the wizard it eyes first if that
    /// wizard is inside its aggro range, otherwise the nearest creature it
    /// may fight within sight, otherwise nothing.
    ///
    /// `scores` and `cap` are as for `best_wizard`; `wizard_keys[w]`
    /// orders wizard `w` by plain distance and `aggro_key` is the key of the
    /// creature's aggro range; `creature_keys` and `sight_key` are as for
    /// `nearest_enemy_creature`.
    pub fn pick_target_for_wild(
        &self,
        index: usize,
        scores: &Vec<u32>,
        cap: u32,
        wizard_keys: &Vec<u32>,
        aggro_key: u32,
        creature_keys: &Vec<u32>,
        sight_key: u32,
    ) -> (target: Option<Target>)
        requires
            self.wf(),
            index < MAX_CREATURES,
            scores@.len() == WIZARD_COUNT,
            wizard_keys@.len() == WIZARD_COUNT,
            creature_keys@.len() == MAX_CREATURES,
        ensures
            match target {
                Some(Target::Wizard(w)) => self.is_best_wizard(scores@, cap as int, w as int)
                    && wizard_keys@[w as int] < aggro_key,
                Some(Target::Creature(i)) => (forall|w: int|
                    self.is_best_wizard(scores@, cap as int, w) ==> wizard_keys@[w]
                        >= aggro_key) && self.is_nearest_target(
                    index as int,
                    creature_keys@,
                    sight_key as int,
                    i as int,
                ),
                None => (forall|w: int|
                    self.is_best_wizard(scores@, cap as int, w) ==> wizard_keys@[w]
                        >= aggro_key) && self.none_within(
                    index as int,
                    creature_keys@,
                    sight_key as int,
                ),
            },
    {
        let eyed = self.best_wizard(scores, cap);
        match eyed {
            Some(w) => {
                if wizard_keys[w] < aggro_key {
                    return Some(Target::Wizard(w));
                }
                proof {
                    self.lemma_best_wizard_unique(scores@, cap as int, w as int);
                }
            },
            None => {},
        }
        match self.nearest_enemy_creature(index, creature_keys, sight_key) {
            Some(i) => Some(Target::Creature(i)),
            None => None,
        }
    }

    /// At most one wizard is the one eyed first.
    proof fn lemma_best_wizard_unique(&self, scores: Seq<u32>, cap: int, w: int)
        requires
            self.is_best_wizard(scores, cap, w),
        ensures
            forall|v: int| self.is_best_wizard(scores, cap, v) ==> v == w,
    {
        assert forall|v: int| self.is_best_wizard(scores, cap, v) implies v == w by {
            if v < w {
                assert(scores[v] > scores[w]);
            } else if w < v {
                assert(scores[w] > scores[v]);
            }
        }
    }

    /// The wizard a summon of `faction` fights once no hostile creature is
    /// in sight: the player's summons fight the first rival, everyone else's
    /// fight the player.
    pub open spec fn opponent_of(faction: Faction) -> int {
        if faction.0 == 1 {
            1
        } else {
            PLAYER as int
        }
    }

    /// What summon `index` goes for: the nearest creature it may fight within
    /// sight, otherwise its faction's opponent wizard if that wizard is in
    /// this realm and alive, otherwise nothing.
    pub fn pick_target_for_ally(
        &self,
        index: usize,
        creature_keys: &Vec<u32>,
        sight_key: u32,
    ) -> (target: Option<Target>)
        requires
            self.wf(),
            index < MAX_CREATURES,
            creature_keys@.len() == MAX_CREATURES,
        ensures
            ({
                let opponent = Self::opponent_of(self.creatures.faction@[index as int]);
                match target {
                    Some(Target::Creature(i)) => self.is_nearest_target(
                        index as int,
                        creature_keys@,
                        sight_key as int,
                        i as int,
                    ),
                    Some(Target::Wizard(w)) => self.none_within(
                        index as int,
                        creature_keys@,
                        sight_key as int,
                    ) && w == opponent && opponent <= self.rival_count && self.wizard_alive@[opponent],
                    None => self.none_within(index as int, creature_keys@, sight_key as int) && !(
                    opponent <= self.rival_count && self.wizard_alive@[opponent]),
                }
            }),
    {
        match self.nearest_enemy_creature(index, creature_keys, sight_key) {
            Some(i) => {
                return Some(Target::Creature(i));
            },
            None => {},
        }
        let opponent: usize = if self.creatures.faction[index].is_player() {
            1
        } else {
            PLAYER
        };
        if opponent <= self.rival_count && self.wizard_alive[opponent] {
            Some(Target::Wizard(opponent))
        } else {
            None
        }
    }

    /// Wizard `w` is a candidate for projectile `p`'s direct hit: one of
    /// this realm's wizards, alive, not of the projectile's faction, and keyed
    /// inside the hit radius.
    pub open spec fn in_direct_hit(&self, p: int, keys: Seq<u32>, radius: int, w: int) -> bool {
        &&& 0 <= w <= self.rival_count
        &&& self.wizard_alive@[w]
        &&& self.projectiles.owner@[p].0 != w + 1
        &&& keys[w] < radius
    }

    /// The wizard projectile `p` strikes directly, if any: the lowest-numbered
    /// candidate (see `in_direct_hit`).
    pub fn direct_hit(&self, p: usize, hit_keys: &Vec<u32>, radius_key: u32) -> (hit:
        Option<usize>)
        requires
            self.wf(),
            p < MAX_PROJECTILES,
            hit_keys@.len() == WIZARD_COUNT,
        ensures
            match hit {
                Some(w) => {
                    &&& self.in_direct_hit(p as int, hit_keys@, radius_key as int, w as int)
                    &&& w <= self.rival_count
                    &&& self.wizard_alive@[w as int]
                    &&& self.projectiles.owner@[p as int].0 != w + 1
                    &&& hit_keys@[w as int] < radius_key
                    &&& forall|v: int|
                        0 <= v < w ==> !self.in_direct_hit(
                            p as int,
                            hit_keys@,
                            radius_key as int,
                            v,
                        )
                },
                None => forall|v: int|
                    !self.in_direct_hit(p as int, hit_keys@, radius_key as int, v),
            },
    {
        let owner = self.projectiles.owner[p].0 as usize;
        let mut wizard: usize = 0;
        while wizard <= self.rival_count
            invariant
                self.wf(),
                p < MAX_PROJECTILES,
                hit_keys@.len() == WIZARD_COUNT,
                owner == self.projectiles.owner@[p as int].0,
                wizard <= self.rival_count + 1,
                forall|v: int|
                    0 <= v < wizard ==> !self.in_direct_hit(
                        p as int,
                        hit_keys@,
                        radius_key as int,
                        v,
                    ),
            decreases self.rival_count + 1 - wizard,
        {
            if self.wizard_alive[wizard] && owner != wizard + 1 && hit_keys[wizard] < radius_key {
                return Some(wizard);
            }
            wizard = wizard + 1;
        }
        None
    }

    /// Projectile `p` has landed and leaves the world. Its full damage lands
    /// directly on at most one wizard, the lowest-numbered candidate, before
    /// the splash; that wizard is returned.
    ///
    /// `hit_keys[w]` orders wizard `w` by its distance from the impact (any
    /// key that sorts as the distances do) and `radius_key` is the key of the
    /// hit radius.
    pub fn detonate_projectile(
        &mut self,
        p: usize,
        hit_keys: &Vec<u32>,
        radius_key: u32,
    ) -> (hit: Option<usize>)
        requires
            old(self).wf(),
            p < MAX_PROJECTILES,
            hit_keys@.len() == WIZARD_COUNT,
        ensures
            final(self).wf(),
            final(self).spells == old(self).spells,
            final(self).keep_tiers == old(self).keep_tiers,
            final(self).realm == old(self).realm,
            final(self).wizard_alive == old(self).wizard_alive,
            final(self).outcome == old(self).outcome,
            final(self).rival_count == old(self).rival_count,
            final(self).minimap == old(self).minimap,
            final(self).projectiles.alive@ == old(self).projectiles.alive@.update(p as int, false),
            final(self).projectiles.kind@ == old(self).projectiles.kind@,
            final(self).projectiles.owner@ == old(self).projectiles.owner@,
            final(self).creatures == old(self).creatures,
            final(self).orbs == old(self).orbs,
            match hit {
                Some(w) => {
                    &&& old(self).in_direct_hit(p as int, hit_keys@, radius_key as int, w as int)
                    &&& forall|v: int|
                        0 <= v < w ==> !old(self).in_direct_hit(
                            p as int,
                            hit_keys@,
                            radius_key as int,
                            v,
                        )
                },
                None => forall|v: int|
                    !old(self).in_direct_hit(p as int, hit_keys@, radius_key as int, v),
            },
    {
        let hit = self.direct_hit(p, hit_keys, radius_key);
        self.projectiles.alive.set(p, false);
        hit
    }

    // ---- minimap -----------------------------------------------------------

    /// Rasterises the terrain into the minimap: an image `side` pixels square
    /// (clamped into `1..=160`), `shades` giving each pixel's colour row by
    /// row, every pixel opaque.
    pub fn rasterise_minimap(&mut self, side: usize, shades: &Vec<[u8; 3]>)
        requires
            old(self).wf(),
            shades@.len() == side_spec(side as int) * side_spec(side as int),
        ensures
            final(self).wf(),
            final(self).spells == old(self).spells,
            final(self).keep_tiers == old(self).keep_tiers,
            final(self).realm == old(self).realm,
            final(self).wizard_alive == old(self).wizard_alive,
            final(self).outcome == old(self).outcome,
            final(self).rival_count == old(self).rival_count,
            forall|m: int|
                0 <= m < MINIMAP_BYTES ==> final(self).minimap.pixels@[m] == (if m < 4 * side_spec(
                    side as int,
                ) * side_spec(side as int) {
                    shaded_byte(shades@, m)
                } else {
                    old(self).minimap.pixels@[m]
                }),
            final(self).creatures == old(self).creatures,
            final(self).orbs == old(self).orbs,
            final(self).projectiles == old(self).projectiles,
    {
        let n = minimap_side(side);
        self.minimap.paint(n, shades);
    }
}

/// What a creature has set its sights on.
#[derive(Clone, Copy, PartialEq, Eq, Debug, Structural)]
pub enum Target {
    /// A wizard, by number.
    Wizard(usize),
    /// A creature, by slot.
    Creature(usize),
}

/// How a realm stands; `code` is the number the page reads.
#[derive(Clone, Copy, PartialEq, Eq, Debug, Structural)]
pub enum Outcome {
    Playing,
    Won,
    Lost,
    RivalWon,
}

impl Outcome {
    pub open spec fn code_spec(self) -> int {
        match self {
            Outcome::Playing => 0,
            Outcome::Won => 1,
            Outcome::Lost => 2,
            Outcome::RivalWon => 3,
        }
    }

    pub fn code(self) -> (c: u8)
        ensures
            c == self.code_spec(),
    {
        match self {
            Outcome::Playing => 0,
            Outcome::Won => 1,
            Outcome::Lost => 2,
            Outcome::RivalWon => 3,
        }
    }
}

/// The end-of-tick verdict on a realm still in play.
pub open spec fn settle_outcome_spec(
    current: Outcome,
    player_banked: bool,
    rival_banked: bool,
    player_dead: bool,
) -> Outcome {
    if current != Outcome::Playing {
        current
    } else if player_dead {
        Outcome::Lost
    } else if rival_banked {
        Outcome::RivalWon
    } else if player_banked {
        Outcome::Won
    } else {
        Outcome::Playing
    }
}

/// The end-of-tick verdict on a realm still in play: banking the target
/// wins it, a rival banking theirs loses it to them, and the player's death
/// outranks both. A settled realm stays settled.
pub fn settle_outcome(
    current: Outcome,
    player_banked: bool,
    rival_banked: bool,
    player_dead: bool,
) -> (o: Outcome)
    ensures
        o == settle_outcome_spec(current, player_banked, rival_banked, player_dead),
        current != Outcome::Playing ==> o == current,
        current == Outcome::Playing && player_dead ==> o == Outcome::Lost,
        current == Outcome::Playing && !player_dead && rival_banked ==> o == Outcome::RivalWon,
        current == Outcome::Playing && !player_dead && !rival_banked && player_banked ==> o
            == Outcome::Won,
        current == Outcome::Playing && !player_dead && !rival_banked && !player_banked ==> o
            == Outcome::Playing,
{
    if current != Outcome::Playing {
        return current;
    }
    let mut o = Outcome::Playing;
    if player_banked {
        o = Outcome::Won;
    }
    if rival_banked {
        o = Outcome::RivalWon;
    }
    if player_dead {
        o = Outcome::Lost;
    }
    o
}

/// Nests placed when realm `realm` is generated.
pub open spec fn starting_nests_spec(realm: int) -> int {
    9 + 2 * realm
}

pub fn starting_nests(realm: i32) -> (n: i64)
    requires
        i32::MIN <= 2 * realm,
        9 + 2 * realm <= i32::MAX,
    ensures
        n == starting_nests_spec(realm as int),
{
    9 + 2 * (realm as i64)
}

/// Wild creatures placed when realm `realm` is generated.
pub open spec fn starting_wild_spec(realm: int) -> int {
    24 + 6 * realm
}

pub fn starting_wild(realm: i32) -> (n: i64)
    requires
        i32::MIN <= 6 * realm,
        24 + 6 * realm <= i32::MAX,
    ensures
        n == starting_wild_spec(realm as int),
{
    24 + 6 * (realm as i64)
}

/// Whether a starting wild creature in realm `realm` rolls for a dragon at
/// all: only from realm six on.
pub fn rolls_for_dragon(realm: i32) -> (r: bool)
    ensures
        r == (realm >= 6),
{
    realm >= 6
}

/// Kind of a starting wild creature: the kind numbered by `first` (in
/// `0..4`), unless a dragon roll was made and came up zero.
pub fn starting_wild_kind(first: i32, dragon_roll: Option<i32>) -> (k: CreatureKind)
    requires
        0 <= first < 4,
    ensures
        k.index_spec() == (if dragon_roll == Some(0i32) {
            7
        } else {
            first as int
        }),
{
    match dragon_roll {
        Some(r) => {
            if r == 0 {
                return CreatureKind::Dragon;
            }
        },
        None => {},
    }
    CreatureKind::from_index(first)
}

/// A nest never has more wild company than there are creature slots.
pub proof fn lemma_wild_population_bounded(w: World)
    ensures
        0 <= count_below(MAX_CREATURES as int, |i: int| w.is_wild_roamer(i)) <= MAX_CREATURES,
{
    lemma_count_below_bounded(MAX_CREATURES as int, |i: int| w.is_wild_roamer(i));
}

/// Hooking an orb keeps every balloon down to one orb, provided the balloon
/// had nothing in tow and the orb was loose.
pub proof fn lemma_grab_keeps_one_each(before: World, after: World, balloon: usize, orb: usize)
    requires
        before.wf(),
        before.carries_at_most_one(),
        orb < MAX_ORBS,
        before.orbs.carried_by@[orb as int] is None,
        forall|k: int|
            0 <= k < MAX_ORBS ==> !(before.orbs.alive@[k] && before.orbs.carried_by@[k] == Some(
                balloon,
            )),
        after.orbs.alive@ == before.orbs.alive@,
        after.orbs.carried_by@ == before.orbs.carried_by@.update(orb as int, Some(balloon)),
    ensures
        after.carries_at_most_one(),
{
    assert forall|i: int, j: int|
        0 <= i < after.orbs.alive@.len() && 0 <= j < after.orbs.alive@.len()
            && after.orbs.alive@[i] && after.orbs.alive@[j] && after.orbs.carried_by@[i] is Some
            && after.orbs.carried_by@[i] == after.orbs.carried_by@[j] implies i == j by {
        if i != j {
            if i == orb as int {
                assert(before.orbs.carried_by@[j] == Some(balloon));
            } else if j == orb as int {
                assert(before.orbs.carried_by@[i] == Some(balloon));
            } else {
                assert(before.orbs.carried_by@[i] == before.orbs.carried_by@[j]);
            }
        }
    }
}

/// Letting go of its cargo leaves a balloon carrying nothing.
pub proof fn lemma_release_empties(before: World, after: World, balloon: usize)
    requires
        before.wf(),
        after.orbs.alive@ == before.orbs.alive@,
        after.orbs.carried_by@.len() == MAX_ORBS,
        forall|k: int|
            0 <= k < MAX_ORBS ==> after.orbs.carried_by@[k] == (if before.orbs.carried_by@[k]
                == Some(balloon) {
                None
            } else {
                before.orbs.carried_by@[k]
            }),
    ensures
        forall|k: int| 0 <= k < MAX_ORBS ==> after.orbs.carried_by@[k] != Some(balloon),
{
}

/// The player may always keep one balloon more than its keep's tier aloft;
/// a rival never more than its tier.
pub proof fn lemma_balloon_caps(w: World, wizard: int)
    requires
        w.wf(),
        0 <= wizard < WIZARD_COUNT,
    ensures
        wizard == 0 ==> w.balloon_cap_spec(wizard) == w.keep_tiers@[wizard] + 1,
        wizard != 0 ==> w.balloon_cap_spec(wizard) <= w.keep_tiers@[wizard],
{
}

/// How the end-of-tick verdict answers. A realm already settled stays as it
/// is. In a realm still in play: the player's death loses it whatever was
/// banked; otherwise a rival that has banked its target takes the realm
/// whatever the player banked; otherwise the player's banking wins it; and
/// with nothing banked and the player alive play goes on.
pub proof fn lemma_settle_verdicts(player_banked: bool, rival_banked: bool, player_dead: bool, settled: Outcome)
    requires
        settled != Outcome::Playing,
    ensures
        settle_outcome_spec(settled, player_banked, rival_banked, player_dead) == settled,
        settle_outcome_spec(Outcome::Playing, player_banked, rival_banked, true) == Outcome::Lost,
        settle_outcome_spec(Outcome::Playing, player_banked, true, false) == Outcome::RivalWon,
        settle_outcome_spec(Outcome::Playing, true, false, false) == Outcome::Won,
        settle_outcome_spec(Outcome::Playing, false, false, false) == Outcome::Playing,
        settle_outcome_spec(
            settle_outcome_spec(Outcome::Playing, player_banked, rival_banked, player_dead),
            player_banked,
            rival_banked,
            player_dead,
        ) == settle_outcome_spec(Outcome::Playing, player_banked, rival_banked, player_dead),
{
}

/// Only a living creature can be fought: whatever a creature may target is
/// alive, somebody else, of another faction and not a balloon.
pub proof fn lemma_targets_are_living_foes(w: World, index: int, other: int)
    requires
        w.targets(index, other),
    ensures
        w.creatures.alive@[other],
        other != index,
        w.creatures.faction@[other] != w.creatures.faction@[index],
        w.creatures.kind@[other] != CreatureKind::Balloon,
{
}

/// Only balloons aloft count: shooting down one of a wizard's balloons
/// (its slot dying, nothing else changing) lowers that wizard's balloon
/// count by exactly one.
pub proof fn lemma_shot_down_balloon_leaves_the_count(before: World, after: World, i: int, wizard: int)
    requires
        before.wf(),
        after.wf(),
        0 <= i < MAX_CREATURES,
        before.creatures.alive@[i],
        before.creatures.kind@[i] == CreatureKind::Balloon,
        before.creatures.faction@[i].0 == wizard + 1,
        after.creatures.alive@ == before.creatures.alive@.update(i, false),
        after.creatures.kind@ == before.creatures.kind@,
        after.creatures.faction@ == before.creatures.faction@,
    ensures
        count_below(MAX_CREATURES as int, |k: int| after.is_balloon_of(k, wizard)) + 1 == count_below(
            MAX_CREATURES as int,
            |k: int| before.is_balloon_of(k, wizard),
        ),
{
    assert forall|k: int| 0 <= k < MAX_CREATURES && k != i implies #[trigger] after.is_balloon_of(
        k,
        wizard,
    ) == before.is_balloon_of(k, wizard) by {}
    lemma_count_below_flip(
        MAX_CREATURES as int,
        |k: int| after.is_balloon_of(k, wizard),
        |k: int| before.is_balloon_of(k, wizard),
        i,
    );
}

/// Only living creatures count as the wild's population: when a wild
/// creature other than a nest dies (nothing else changing), the population
/// a nest checks before hatching drops by exactly one.
pub proof fn lemma_dead_roamer_leaves_the_population(before: World, after: World, i: int)
    requires
        before.wf(),
        after.wf(),
        0 <= i < MAX_CREATURES,
        before.creatures.alive@[i],
        before.creatures.faction@[i].0 == 0,
        before.creatures.kind@[i] != CreatureKind::Nest,
        after.creatures.alive@ == before.creatures.alive@.update(i, false),
        after.creatures.kind@ == before.creatures.kind@,
        after.creatures.faction@ == before.creatures.faction@,
    ensures
        count_below(MAX_CREATURES as int, |k: int| after.is_wild_roamer(k)) + 1 == count_below(
            MAX_CREATURES as int,
            |k: int| before.is_wild_roamer(k),
        ),
{
    assert forall|k: int| 0 <= k < MAX_CREATURES && k != i implies #[trigger] after.is_wild_roamer(k)
        == before.is_wild_roamer(k) by {}
    lemma_count_below_flip(
        MAX_CREATURES as int,
        |k: int| after.is_wild_roamer(k),
        |k: int| before.is_wild_roamer(k),
        i,
    );
}

} // verus!
