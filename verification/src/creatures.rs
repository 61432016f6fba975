//! Creature kinds, factions and the fixed facts about each kind: how much
//! health it spawns with, how high it hovers, what it drops when killed, how
//! fast it moves and how hard it hits.
//!
//! Distances and speeds are whole world units, and times are whole seconds
//! scaled where noted, so every table here is exact.
use vstd::prelude::*;

verus! {

/// Every kind of creature. The first eight keep the numbering the state
/// buffers and the minimap use (0 worm .. 7 dragon).
#[derive(Clone, Copy, PartialEq, Eq, Debug, Structural)]
pub enum CreatureKind {
    SandWorm,
    Wasp,
    Troll,
    Griffin,
    Nest,
    Wraith,
    Balloon,
    Dragon,
    Villager,
    Soldier,
}

/// Number of creature kinds.
pub const KIND_COUNT: i32 = 10;

impl CreatureKind {
    /// The kind's number.
    pub open spec fn index_spec(self) -> int {
        match self {
            CreatureKind::SandWorm => 0,
            CreatureKind::Wasp => 1,
            CreatureKind::Troll => 2,
            CreatureKind::Griffin => 3,
            CreatureKind::Nest => 4,
            CreatureKind::Wraith => 5,
            CreatureKind::Balloon => 6,
            CreatureKind::Dragon => 7,
            CreatureKind::Villager => 8,
            CreatureKind::Soldier => 9,
        }
    }

    /// The kind's number.
    pub fn index(self) -> (i: i32)
        ensures
            i == self.index_spec(),
            0 <= i < KIND_COUNT,
    {
        match self {
            CreatureKind::SandWorm => 0,
            CreatureKind::Wasp => 1,
            CreatureKind::Troll => 2,
            CreatureKind::Griffin => 3,
            CreatureKind::Nest => 4,
            CreatureKind::Wraith => 5,
            CreatureKind::Balloon => 6,
            CreatureKind::Dragon => 7,
            CreatureKind::Villager => 8,
            CreatureKind::Soldier => 9,
        }
    }

    /// The kind with number `i`.
    pub fn from_index(i: i32) -> (k: CreatureKind)
        requires
            0 <= i < KIND_COUNT,
        ensures
            k.index_spec() == i,
    {
        if i == 0 {
            CreatureKind::SandWorm
        } else if i == 1 {
            CreatureKind::Wasp
        } else if i == 2 {
            CreatureKind::Troll
        } else if i == 3 {
            CreatureKind::Griffin
        } else if i == 4 {
            CreatureKind::Nest
        } else if i == 5 {
            CreatureKind::Wraith
        } else if i == 6 {
            CreatureKind::Balloon
        } else if i == 7 {
            CreatureKind::Dragon
        } else if i == 8 {
            CreatureKind::Villager
        } else {
            CreatureKind::Soldier
        }
    }

    /// Health a fresh creature of this kind spawns with. Big things are a
    /// fight; swarm types stay thin so they read as chaff.
    pub open spec fn max_health_spec(self) -> int {
        match self {
            CreatureKind::SandWorm => 165,
            CreatureKind::Wasp => 22,
            CreatureKind::Troll => 340,
            CreatureKind::Griffin => 200,
            CreatureKind::Nest => 430,
            CreatureKind::Wraith => 110,
            CreatureKind::Balloon => 30,
            CreatureKind::Dragon => 1500,
            _ => 30,
        }
    }

    pub fn max_health(self) -> (h: u32)
        ensures
            h == self.max_health_spec(),
    {
        match self {
            CreatureKind::SandWorm => 165,
            CreatureKind::Wasp => 22,
            CreatureKind::Troll => 340,
            CreatureKind::Griffin => 200,
            CreatureKind::Nest => 430,
            CreatureKind::Wraith => 110,
            CreatureKind::Balloon => 30,
            CreatureKind::Dragon => 1500,
            _ => 30,
        }
    }

    /// Height above the ground the kind spawns at.
    pub open spec fn hover_height_spec(self) -> int {
        match self {
            CreatureKind::Wasp => 26,
            CreatureKind::Griffin => 34,
            CreatureKind::Wraith => 20,
            CreatureKind::Balloon => 46,
            CreatureKind::Dragon => 52,
            _ => 3,
        }
    }

    pub fn hover_height(self) -> (h: u32)
        ensures
            h == self.hover_height_spec(),
    {
        match self {
            CreatureKind::Wasp => 26,
            CreatureKind::Griffin => 34,
            CreatureKind::Wraith => 20,
            CreatureKind::Balloon => 46,
            CreatureKind::Dragon => 52,
            _ => 3,
        }
    }

    /// Mana dropped when a creature of this kind is killed. Summons and
    /// balloons carry none.
    pub open spec fn mana_reward_spec(self) -> int {
        match self {
            CreatureKind::SandWorm => 15,
            CreatureKind::Wasp => 8,
            CreatureKind::Troll => 28,
            CreatureKind::Griffin => 20,
            CreatureKind::Nest => 60,
            CreatureKind::Dragon => 110,
            CreatureKind::Wraith => 0,
            CreatureKind::Balloon => 0,
            _ => 8,
        }
    }

    pub fn mana_reward(self) -> (m: u32)
        ensures
            m == self.mana_reward_spec(),
    {
        match self {
            CreatureKind::SandWorm => 15,
            CreatureKind::Wasp => 8,
            CreatureKind::Troll => 28,
            CreatureKind::Griffin => 20,
            CreatureKind::Nest => 60,
            CreatureKind::Dragon => 110,
            CreatureKind::Wraith => 0,
            CreatureKind::Balloon => 0,
            _ => 8,
        }
    }

    /// Wasps, griffins, wraiths and dragons fly; everything else walks.
    pub open spec fn flies_spec(self) -> bool {
        match self {
            CreatureKind::Wasp | CreatureKind::Griffin | CreatureKind::Wraith
            | CreatureKind::Dragon => true,
            _ => false,
        }
    }

    pub fn flies(self) -> (r: bool)
        ensures
            r == self.flies_spec(),
    {
        match self {
            CreatureKind::Wasp | CreatureKind::Griffin | CreatureKind::Wraith
            | CreatureKind::Dragon => true,
            _ => false,
        }
    }

    /// Top speed in world units per second.
    pub open spec fn move_speed_spec(self) -> int {
        match self {
            CreatureKind::SandWorm => 24,
            CreatureKind::Wasp => 74,
            CreatureKind::Troll => 20,
            CreatureKind::Griffin => 82,
            CreatureKind::Wraith => 58,
            CreatureKind::Dragon => 66,
            _ => 26,
        }
    }

    pub fn move_speed(self) -> (s: u32)
        ensures
            s == self.move_speed_spec(),
    {
        match self {
            CreatureKind::SandWorm => 24,
            CreatureKind::Wasp => 74,
            CreatureKind::Troll => 20,
            CreatureKind::Griffin => 82,
            CreatureKind::Wraith => 58,
            CreatureKind::Dragon => 66,
            _ => 26,
        }
    }

    /// Damage of one melee strike.
    pub open spec fn melee_damage_spec(self) -> int {
        match self {
            CreatureKind::Wasp => 4,
            CreatureKind::Troll => 11,
            CreatureKind::Griffin => 7,
            CreatureKind::Wraith => 20,
            CreatureKind::Dragon => 17,
            _ => 6,
        }
    }

    pub fn melee_damage(self) -> (d: u32)
        ensures
            d == self.melee_damage_spec(),
    {
        match self {
            CreatureKind::Wasp => 4,
            CreatureKind::Troll => 11,
            CreatureKind::Griffin => 7,
            CreatureKind::Wraith => 20,
            CreatureKind::Dragon => 17,
            _ => 6,
        }
    }

    /// How close a wizard must come before a wild creature of this kind goes
    /// for them.
    pub open spec fn aggro_range_spec(self) -> int {
        match self {
            CreatureKind::Wasp | CreatureKind::Griffin => 300,
            CreatureKind::Dragon => 380,
            _ => 200,
        }
    }

    pub fn aggro_range(self) -> (r: u32)
        ensures
            r == self.aggro_range_spec(),
    {
        match self {
            CreatureKind::Wasp | CreatureKind::Griffin => 300,
            CreatureKind::Dragon => 380,
            _ => 200,
        }
    }

    /// Range inside which the kind holds station and shoots rather than
    /// closing to melee; kinds with no ranged attack have none.
    pub open spec fn firing_range_spec(self) -> Option<u32> {
        match self {
            CreatureKind::SandWorm => Some(150u32),
            CreatureKind::Troll => Some(170u32),
            CreatureKind::Dragon => Some(210u32),
            _ => None,
        }
    }

    pub fn firing_range(self) -> (r: Option<u32>)
        ensures
            r == self.firing_range_spec(),
    {
        match self {
            CreatureKind::SandWorm => Some(150),
            CreatureKind::Troll => Some(170),
            CreatureKind::Dragon => Some(210),
            _ => None,
        }
    }

    /// Bolts loosed per ranged attack: a dragon breathes three.
    pub open spec fn volley_spec(self) -> int {
        if self == CreatureKind::Dragon {
            3
        } else {
            1
        }
    }

    pub fn volley(self) -> (n: u32)
        ensures
            n == self.volley_spec(),
    {
        match self {
            CreatureKind::Dragon => 3,
            _ => 1,
        }
    }

    /// Villagers never fight.
    pub open spec fn is_civilian_spec(self) -> bool {
        self == CreatureKind::Villager
    }

    pub fn is_civilian(self) -> (r: bool)
        ensures
            r == self.is_civilian_spec(),
    {
        match self {
            CreatureKind::Villager => true,
            _ => false,
        }
    }

    /// Villagers and soldiers belong to a keep and are leashed to it.
    pub open spec fn is_garrison_spec(self) -> bool {
        self == CreatureKind::Villager || self == CreatureKind::Soldier
    }

    pub fn is_garrison(self) -> (r: bool)
        ensures
            r == self.is_garrison_spec(),
    {
        match self {
            CreatureKind::Villager | CreatureKind::Soldier => true,
            _ => false,
        }
    }
}

/// Allegiance: 0 is the wild, and wizard `w` (0 being the player) fields
/// faction `w + 1`.
#[derive(Clone, Copy, PartialEq, Eq, Debug, Structural)]
pub struct Faction(pub u8);

impl Faction {
    /// The wild.
    pub fn wild() -> (f: Faction)
        ensures
            f.0 == 0,
    {
        Faction(0)
    }

    /// The faction of wizard `wizard`.
    pub fn of_wizard(wizard: usize) -> (f: Faction)
        requires
            wizard < 255,
        ensures
            f.0 == wizard + 1,
    {
        Faction((wizard + 1) as u8)
    }

    /// The wizard this faction belongs to, if it is not the wild.
    pub fn wizard(self) -> (w: Option<usize>)
        ensures
            self.0 == 0 ==> w is None,
            self.0 != 0 ==> w == Some((self.0 - 1) as usize),
    {
        if self.0 == 0 {
            None
        } else {
            Some((self.0 - 1) as usize)
        }
    }

    pub fn is_wild(self) -> (r: bool)
        ensures
            r == (self.0 == 0),
    {
        self.0 == 0
    }

    pub fn is_player(self) -> (r: bool)
        ensures
            r == (self.0 == 1),
    {
        self.0 == 1
    }
}

/// Kind of creature a nest hatches from a roll in `0..=4`. The roll of four,
/// which would be another nest, hatches a wasp instead, so a nest never
/// hatches a nest.
pub fn hatch_kind(roll: i32) -> (k: CreatureKind)
    requires
        0 <= roll <= 4,
    ensures
        k.index_spec() == (if roll == 4 {
            1
        } else {
            roll as int
        }),
        k != CreatureKind::Nest,
{
    let r = if roll == 4 {
        1
    } else {
        roll
    };
    CreatureKind::from_index(r)
}

/// Kind of creature the periodic trickle adds: a griffin when the first roll
/// (in `0..4`) comes up three, otherwise the kind numbered by the second roll
/// (in `0..3`).
pub fn trickle_kind(first: i32, second: i32) -> (k: CreatureKind)
    requires
        0 <= first < 4,
        0 <= second < 3,
    ensures
        k.index_spec() == (if first == 3 {
            3
        } else {
            second as int
        }),
{
    if first == 3 {
        CreatureKind::Griffin
    } else {
        CreatureKind::from_index(second)
    }
}

/// Summons (wraiths) and balloons carry no mana; every other creature
/// drops some when killed.
pub proof fn lemma_mana_only_from_the_wild(kind: CreatureKind)
    ensures
        kind.mana_reward_spec() == 0 <==> (kind == CreatureKind::Wraith || kind
            == CreatureKind::Balloon),
        kind.mana_reward_spec() >= 0,
{
}

/// Wasps, griffins, wraiths and dragons fly and everything else walks;
/// fliers spawn well above the ground, walkers just on it, and balloons
/// (which ferry rather than fly) highest but one.
pub proof fn lemma_fliers_and_walkers(kind: CreatureKind)
    ensures
        kind.flies_spec() <==> (kind == CreatureKind::Wasp || kind == CreatureKind::Griffin || kind
            == CreatureKind::Wraith || kind == CreatureKind::Dragon),
        kind.flies_spec() ==> kind.hover_height_spec() >= 20,
        !kind.flies_spec() && kind != CreatureKind::Balloon ==> kind.hover_height_spec() == 3,
        kind.hover_height_spec() <= CreatureKind::Dragon.hover_height_spec(),
{
}

/// The dragon is the toughest creature and drops the most mana; the wasp
/// is the thinnest.
pub proof fn lemma_dragon_is_the_prize(kind: CreatureKind)
    ensures
        kind.max_health_spec() <= CreatureKind::Dragon.max_health_spec(),
        kind.mana_reward_spec() <= CreatureKind::Dragon.mana_reward_spec(),
        CreatureKind::Wasp.max_health_spec() <= kind.max_health_spec(),
        kind.max_health_spec() > 0,
{
}

/// Only sand worms, trolls and dragons shoot, a dragon loosing three bolts
/// at a time and every other kind one; only villagers never fight, and
/// villagers and soldiers are the keeps' garrison.
pub proof fn lemma_fighting_roles(kind: CreatureKind)
    ensures
        kind.firing_range_spec() is Some <==> (kind == CreatureKind::SandWorm || kind
            == CreatureKind::Troll || kind == CreatureKind::Dragon),
        kind.volley_spec() == 3 <==> kind == CreatureKind::Dragon,
        kind.volley_spec() == 1 <==> kind != CreatureKind::Dragon,
        kind.is_civilian_spec() <==> kind == CreatureKind::Villager,
        kind.is_civilian_spec() ==> kind.is_garrison_spec(),
        kind.is_garrison_spec() <==> (kind == CreatureKind::Villager || kind
            == CreatureKind::Soldier),
{
}

} // verus!
