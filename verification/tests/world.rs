use aetherloom::creatures::{hatch_kind, trickle_kind, CreatureKind, Faction};
use aetherloom::world::{
    rivals_for, settle_outcome, starting_nests, starting_wild, starting_wild_kind, rolls_for_dragon,
    MapBlip, Outcome, ProjectileKind, Target, World, MAX_CREATURES, MAX_ORBS, MAX_PROJECTILES,
};

#[test]
fn new_world_is_empty() {
    let w = World::new(1);
    assert_eq!(w.rival_count, 1);
    assert_eq!(World::new(5).rival_count, 2);
    assert_eq!(rivals_for(4), 1);
    assert!(w.creatures.alive.iter().all(|a| !a));
    assert!(w.orbs.alive.iter().all(|a| !a));
    assert!(w.projectiles.alive.iter().all(|a| !a));
    assert_eq!(w.keep_tiers, vec![1, 1, 1]);
    assert_eq!(w.wild_population(), 0);
    assert_eq!(w.minimap.pixels.len(), 102_400);
}

#[test]
fn creatures_take_the_lowest_free_slot() {
    let mut w = World::new(1);
    assert_eq!(w.spawn_creature(CreatureKind::Troll, Faction::wild()), Some(0));
    assert_eq!(w.spawn_creature(CreatureKind::Wasp, Faction::wild()), Some(1));
    assert_eq!(w.kill_creature(0), 28);
    assert_eq!(w.spawn_creature(CreatureKind::Nest, Faction::wild()), Some(0));
    assert_eq!(w.creatures.kind[0], CreatureKind::Nest);
    for _ in 2..MAX_CREATURES {
        assert!(w.spawn_creature(CreatureKind::Wraith, Faction::of_wizard(0)).is_some());
    }
    assert_eq!(w.spawn_creature(CreatureKind::Wasp, Faction::wild()), None);
}

#[test]
fn wild_population_ignores_nests_and_pets() {
    let mut w = World::new(2);
    w.spawn_creature(CreatureKind::Nest, Faction::wild());
    w.spawn_creature(CreatureKind::Troll, Faction::wild());
    w.spawn_creature(CreatureKind::Wasp, Faction::wild());
    w.spawn_creature(CreatureKind::Wraith, Faction::of_wizard(0));
    w.spawn_creature(CreatureKind::Balloon, Faction::of_wizard(1));
    assert_eq!(w.wild_population(), 2);
    w.kill_creature(1);
    assert_eq!(w.wild_population(), 1);
}

#[test]
fn nest_and_trickle_thresholds() {
    let mut w = World::new(1);
    for _ in 0..10 {
        w.spawn_creature(CreatureKind::SandWorm, Faction::wild());
    }
    // realm 1: nests hatch below 11, the trickle adds below 8
    assert!(w.nest_may_hatch());
    assert!(!w.trickle_due());
    w.spawn_creature(CreatureKind::SandWorm, Faction::wild());
    assert!(!w.nest_may_hatch());
    w.realm = 2;
    assert!(w.nest_may_hatch());
}

#[test]
fn balloon_caps_follow_keep_tier() {
    let mut w = World::new(3);
    w.keep_tiers = vec![2, 4, 1];
    assert_eq!(w.balloon_cap(0), 3);
    // rival: min(1 + realm / 2, tier)
    assert_eq!(w.balloon_cap(1), 2);
    assert_eq!(w.balloon_cap(2), 1);
    w.realm = -3;
    assert_eq!(w.balloon_cap(1), 0);
    w.realm = 3;
    for _ in 0..2 {
        w.spawn_creature(CreatureKind::Balloon, Faction::of_wizard(0));
    }
    w.spawn_creature(CreatureKind::Balloon, Faction::of_wizard(1));
    assert_eq!(w.balloon_count(0), 2);
    assert_eq!(w.balloon_count(1), 1);
    assert!(w.balloon_due(0));
    assert!(w.balloon_due(1));
    w.spawn_creature(CreatureKind::Balloon, Faction::of_wizard(1));
    assert!(!w.balloon_due(1));
}

#[test]
fn balloons_carry_one_orb_and_let_go() {
    let mut w = World::new(1);
    let balloon = w.spawn_creature(CreatureKind::Balloon, Faction::of_wizard(0)).unwrap();
    let a = w.spawn_orb().unwrap();
    let b = w.spawn_orb().unwrap();
    assert_eq!((a, b), (0, 1));
    assert!(!w.orb_wanted_by(balloon, a));
    assert!(w.claim_orb(a, Faction::of_wizard(0)));
    assert!(!w.claim_orb(a, Faction::of_wizard(0)));
    assert!(w.orb_wanted_by(balloon, a));
    assert_eq!(w.orb_carried_by(balloon), None);
    w.grab_orb(balloon, a);
    assert_eq!(w.orb_carried_by(balloon), Some(a));
    assert!(!w.orb_wanted_by(balloon, a));
    assert!(!w.claim_orb(a, Faction::of_wizard(1)));
    w.release_balloon_cargo(balloon);
    assert_eq!(w.orb_carried_by(balloon), None);
    w.grab_orb(balloon, a);
    w.bank_orb(a);
    assert_eq!(w.orb_carried_by(balloon), None);
    assert_eq!(w.spawn_orb(), Some(0));
    assert_eq!(w.orbs.carried_by[0], None);
    assert_eq!(w.orbs.claimed_by[0], Faction::wild());
    for _ in 2..MAX_ORBS {
        assert!(w.spawn_orb().is_some());
    }
    assert_eq!(w.spawn_orb(), None);
}

#[test]
fn map_blips_by_kind_and_faction() {
    let mut w = World::new(5);
    let balloon = w.spawn_creature(CreatureKind::Balloon, Faction::of_wizard(0)).unwrap();
    let nest = w.spawn_creature(CreatureKind::Nest, Faction::wild()).unwrap();
    let pet = w.spawn_creature(CreatureKind::Wraith, Faction::of_wizard(0)).unwrap();
    let rival_pet = w.spawn_creature(CreatureKind::Wraith, Faction::of_wizard(1)).unwrap();
    let second_rival_pet = w.spawn_creature(CreatureKind::Wraith, Faction::of_wizard(2)).unwrap();
    let wild = w.spawn_creature(CreatureKind::Dragon, Faction::wild()).unwrap();
    assert_eq!(w.creature_blip(balloon), MapBlip::Balloon);
    assert_eq!(w.creature_blip(nest), MapBlip::Nest);
    assert_eq!(w.creature_blip(pet), MapBlip::AlliedCreature);
    assert_eq!(w.creature_blip(rival_pet), MapBlip::RivalOrb);
    assert_eq!(w.creature_blip(second_rival_pet), MapBlip::WildCreature);
    assert_eq!(w.creature_blip(wild), MapBlip::WildCreature);
    let orb = w.spawn_orb().unwrap();
    assert_eq!(w.orb_blip(orb), MapBlip::UnclaimedOrb);
    w.claim_orb(orb, Faction::of_wizard(0));
    assert_eq!(w.orb_blip(orb), MapBlip::ClaimedOrb);
    w.claim_orb(orb, Faction::of_wizard(1));
    assert_eq!(w.orb_blip(orb), MapBlip::RivalOrb);
    let codes: Vec<u8> = [
        MapBlip::Player,
        MapBlip::RivalWizard,
        MapBlip::WildCreature,
        MapBlip::AlliedCreature,
        MapBlip::ClaimedOrb,
        MapBlip::Nest,
        MapBlip::PlayerCastle,
        MapBlip::RivalCastle,
        MapBlip::RivalOrb,
        MapBlip::Balloon,
        MapBlip::UnclaimedOrb,
    ]
    .iter()
    .map(|b| b.code())
    .collect();
    assert_eq!(codes, (0..11).collect::<Vec<u8>>());
}

#[test]
fn projectiles_spawn_hit_and_detonate() {
    let mut w = World::new(1);
    let bolt = w.spawn_projectile(ProjectileKind::Firebolt, Faction::of_wizard(0)).unwrap();
    let troll = w.spawn_creature(CreatureKind::Troll, Faction::wild()).unwrap();
    let pet = w.spawn_creature(CreatureKind::Wraith, Faction::of_wizard(0)).unwrap();
    let balloon = w.spawn_creature(CreatureKind::Balloon, Faction::of_wizard(1)).unwrap();
    assert!(w.projectile_can_hit(bolt, troll));
    assert!(!w.projectile_can_hit(bolt, pet));
    assert!(!w.projectile_can_hit(bolt, balloon));
    let radius = (13.0f32 * 13.0).to_bits();
    // the player's own bolt never strikes the player; the rival is inside
    // the radius
    let keys = vec![(1.0f32).to_bits(), (100.0f32).to_bits(), 0];
    assert_eq!(w.detonate_projectile(bolt, &keys, radius), Some(1));
    assert!(!w.projectiles.alive[bolt]);
    assert_eq!(w.spawn_projectile(ProjectileKind::Meteor, Faction::wild()), Some(0));
    for _ in 1..MAX_PROJECTILES {
        assert!(w.spawn_projectile(ProjectileKind::CreatureBolt, Faction::wild()).is_some());
    }
    assert_eq!(w.spawn_projectile(ProjectileKind::CreatureBolt, Faction::wild()), None);
    assert_eq!(ProjectileKind::Meteor.trail_puffs(), 5);
    assert_eq!(ProjectileKind::Firebolt.trail_puffs(), 3);
    assert_eq!(ProjectileKind::DragonFire.trail_puffs(), 3);
    assert_eq!(ProjectileKind::CreatureBolt.trail_puffs(), 1);
}

#[test]
fn minimap_raster_is_opaque_and_row_major() {
    let mut w = World::new(1);
    let shades: Vec<[u8; 3]> = (0..4u8).map(|k| [k, 10 + k, 20 + k]).collect();
    w.rasterise_minimap(2, &shades);
    assert_eq!(&w.minimap.pixels[0..16], &[0, 10, 20, 255, 1, 11, 21, 255, 2, 12, 22, 255, 3, 13, 23, 255]);
    assert!(w.minimap.pixels[16..].iter().all(|&b| b == 0));
    let one = vec![[9u8, 8, 7]];
    w.rasterise_minimap(0, &one);
    assert_eq!(&w.minimap.pixels[0..8], &[9, 8, 7, 255, 1, 11, 21, 255]);
    let big: Vec<[u8; 3]> = vec![[5, 5, 5]; 160 * 160];
    w.rasterise_minimap(1000, &big);
    assert!(w.minimap.pixels.chunks(4).all(|p| p == [5, 5, 5, 255]));
}

#[test]
fn creature_tables() {
    assert_eq!(CreatureKind::Dragon.max_health(), 1500);
    assert_eq!(CreatureKind::Wasp.max_health(), 22);
    assert_eq!(CreatureKind::Villager.max_health(), 30);
    assert_eq!(CreatureKind::Balloon.hover_height(), 46);
    assert_eq!(CreatureKind::Troll.hover_height(), 3);
    assert_eq!(CreatureKind::Nest.mana_reward(), 60);
    assert_eq!(CreatureKind::Wraith.mana_reward(), 0);
    assert_eq!(CreatureKind::Griffin.move_speed(), 82);
    assert_eq!(CreatureKind::Wraith.melee_damage(), 20);
    assert_eq!(CreatureKind::Dragon.aggro_range(), 380);
    assert_eq!(CreatureKind::Troll.firing_range(), Some(170));
    assert_eq!(CreatureKind::Wasp.firing_range(), None);
    assert_eq!(CreatureKind::Dragon.volley(), 3);
    assert!(CreatureKind::Griffin.flies());
    assert!(!CreatureKind::Troll.flies());
    assert!(CreatureKind::Villager.is_civilian());
    assert!(CreatureKind::Soldier.is_garrison());
    assert!(!CreatureKind::Soldier.is_civilian());
    for i in 0..10 {
        assert_eq!(CreatureKind::from_index(i).index(), i);
    }
}

#[test]
fn factions_name_their_wizards() {
    assert_eq!(Faction::wild().wizard(), None);
    assert_eq!(Faction::of_wizard(0), Faction(1));
    assert_eq!(Faction::of_wizard(2).wizard(), Some(2));
    assert!(Faction::of_wizard(0).is_player());
    assert!(Faction(0).is_wild());
}

#[test]
fn spawn_kind_rolls() {
    assert_eq!(hatch_kind(0), CreatureKind::SandWorm);
    assert_eq!(hatch_kind(3), CreatureKind::Griffin);
    assert_eq!(hatch_kind(4), CreatureKind::Wasp);
    assert_eq!(trickle_kind(3, 0), CreatureKind::Griffin);
    assert_eq!(trickle_kind(1, 2), CreatureKind::Troll);
    assert_eq!(starting_wild_kind(2, None), CreatureKind::Troll);
    assert_eq!(starting_wild_kind(2, Some(0)), CreatureKind::Dragon);
    assert_eq!(starting_wild_kind(1, Some(5)), CreatureKind::Wasp);
    assert!(rolls_for_dragon(6));
    assert!(!rolls_for_dragon(5));
    assert_eq!(starting_nests(1), 11);
    assert_eq!(starting_wild(3), 42);
}

#[test]
fn outcome_verdicts() {
    assert_eq!(settle_outcome(Outcome::Playing, false, false, false), Outcome::Playing);
    assert_eq!(settle_outcome(Outcome::Playing, true, false, false), Outcome::Won);
    assert_eq!(settle_outcome(Outcome::Playing, true, true, false), Outcome::RivalWon);
    assert_eq!(settle_outcome(Outcome::Playing, true, true, true), Outcome::Lost);
    assert_eq!(settle_outcome(Outcome::Won, false, true, true), Outcome::Won);
    assert_eq!(settle_outcome(Outcome::Lost, true, false, false), Outcome::Lost);
    assert_eq!([Outcome::Playing.code(), Outcome::Won.code(), Outcome::Lost.code(), Outcome::RivalWon.code()], [0, 1, 2, 3]);
}

#[test]
fn balloons_seek_the_nearest_orb_of_their_own() {
    let mut w = World::new(1);
    let balloon = w.spawn_creature(CreatureKind::Balloon, Faction::of_wizard(0)).unwrap();
    for _ in 0..4 {
        w.spawn_orb();
    }
    // orb 0 stays unclaimed gold; 1..=3 become the player's
    for orb in 1..4 {
        assert!(w.claim_orb(orb, Faction::of_wizard(0)));
    }
    let range = (220.0f32 * 220.0).to_bits();
    let mut keys = vec![u32::MAX; MAX_ORBS];
    keys[0] = (10.0f32).to_bits();
    keys[1] = (900.0f32).to_bits();
    keys[2] = (400.0f32).to_bits();
    keys[3] = (400.0f32).to_bits();
    // orb 0 is nearer but unclaimed; 2 and 3 tie, the lower slot wins
    assert_eq!(w.nearest_claimed_orb(balloon, &keys, range), Some(2));
    w.grab_orb(balloon, 2);
    assert_eq!(w.nearest_claimed_orb(balloon, &keys, range), Some(3));
    keys[3] = (60_000.0f32).to_bits();
    keys[1] = (50_000.0f32).to_bits();
    assert_eq!(w.nearest_claimed_orb(balloon, &keys, range), None);
}

fn key(d: f32) -> u32 {
    d.to_bits()
}

#[test]
fn creatures_pick_the_nearest_foe_they_may_fight() {
    let mut w = World::new(1);
    let troll = w.spawn_creature(CreatureKind::Troll, Faction::wild()).unwrap();
    let wraith = w.spawn_creature(CreatureKind::Wraith, Faction::of_wizard(0)).unwrap();
    let balloon = w.spawn_creature(CreatureKind::Balloon, Faction::of_wizard(0)).unwrap();
    let wasp = w.spawn_creature(CreatureKind::Wasp, Faction::wild()).unwrap();
    let far_wraith = w.spawn_creature(CreatureKind::Wraith, Faction::of_wizard(1)).unwrap();
    assert!(w.can_target(troll, wraith));
    assert!(!w.can_target(troll, balloon));
    assert!(!w.can_target(troll, wasp));
    assert!(!w.can_target(troll, troll));
    let mut keys = vec![u32::MAX; MAX_CREATURES];
    keys[wraith] = key(900.0);
    keys[balloon] = key(4.0);
    keys[wasp] = key(1.0);
    keys[far_wraith] = key(900.0);
    let sight = key(300.0 * 300.0);
    // the balloon and the fellow wasp are nearer but never targets; the two
    // wraiths tie and the lower slot wins
    assert_eq!(w.nearest_enemy_creature(troll, &keys, sight), Some(wraith));
    keys[wraith] = key(100_000.0);
    keys[far_wraith] = key(100_000.0);
    assert_eq!(w.nearest_enemy_creature(troll, &keys, sight), None);
}

#[test]
fn wild_creatures_eye_wizards_before_creatures() {
    let mut w = World::new(1);
    let troll = w.spawn_creature(CreatureKind::Troll, Faction::wild()).unwrap();
    let wraith = w.spawn_creature(CreatureKind::Wraith, Faction::of_wizard(0)).unwrap();
    // even marked alive, wizard 2 is not in play in realm 1
    w.wizard_alive = vec![true, true, true];
    let cap = f32::MAX.to_bits();
    let mut creature_keys = vec![u32::MAX; MAX_CREATURES];
    creature_keys[wraith] = key(50.0);
    let sight = key(300.0 * 300.0);
    let aggro = key(120.0 * 120.0);
    let scores = vec![key(5000.0), key(6000.0), key(1.0)];
    assert_eq!(w.best_wizard(&scores, cap), Some(0));
    let near = vec![key(5000.0), key(6000.0), key(1.0)];
    assert_eq!(
        w.pick_target_for_wild(troll, &scores, cap, &near, aggro, &creature_keys, sight),
        Some(Target::Wizard(0))
    );
    // the eyed wizard is out of aggro range: fall back to the wraith
    let far = vec![key(20_000.0), key(6000.0), key(1.0)];
    assert_eq!(
        w.pick_target_for_wild(troll, &scores, cap, &far, aggro, &creature_keys, sight),
        Some(Target::Creature(wraith))
    );
    // a dead player is never eyed
    w.wizard_alive = vec![false, true, true];
    assert_eq!(w.best_wizard(&scores, cap), Some(1));
    w.wizard_alive = vec![false, false, false];
    assert_eq!(w.best_wizard(&scores, cap), None);
    creature_keys[wraith] = u32::MAX;
    assert_eq!(
        w.pick_target_for_wild(troll, &scores, cap, &far, aggro, &creature_keys, sight),
        None
    );
}

#[test]
fn summons_hunt_creatures_then_the_opposing_wizard() {
    let mut w = World::new(1);
    let mine = w.spawn_creature(CreatureKind::Wraith, Faction::of_wizard(0)).unwrap();
    let theirs = w.spawn_creature(CreatureKind::Wraith, Faction::of_wizard(1)).unwrap();
    let troll = w.spawn_creature(CreatureKind::Troll, Faction::wild()).unwrap();
    assert_eq!(w.wizard_alive, vec![true, true, false]);
    let mut keys = vec![u32::MAX; MAX_CREATURES];
    keys[troll] = key(400.0);
    let sight = key(260.0 * 260.0);
    assert_eq!(w.pick_target_for_ally(mine, &keys, sight), Some(Target::Creature(troll)));
    keys[troll] = u32::MAX;
    // the player's summons go for the first rival, the rival's for the player
    assert_eq!(w.pick_target_for_ally(mine, &keys, sight), Some(Target::Wizard(1)));
    assert_eq!(w.pick_target_for_ally(theirs, &keys, sight), Some(Target::Wizard(0)));
    w.wizard_falls(1);
    assert_eq!(w.pick_target_for_ally(mine, &keys, sight), None);
}

#[test]
fn direct_hits_take_the_lowest_wizard_in_reach() {
    let mut w = World::new(5);
    assert_eq!(w.wizard_alive, vec![true, true, true]);
    let meteor = w.spawn_projectile(ProjectileKind::Meteor, Faction::wild()).unwrap();
    let radius = (13.0f32 * 13.0).to_bits();
    let both_near = vec![(150.0f32).to_bits(), (2.0f32).to_bits(), (1.0f32).to_bits()];
    // wizards 0 and 1 are both inside; the lowest-numbered takes the hit
    assert_eq!(w.direct_hit(meteor, &both_near, radius), Some(0));
    w.wizard_alive = vec![false, true, true];
    assert_eq!(w.direct_hit(meteor, &both_near, radius), Some(1));
    w.wizard_alive = vec![true, true, true];
    let all_far = vec![(170.0f32).to_bits(), (900.0f32).to_bits(), (400.0f32).to_bits()];
    assert_eq!(w.detonate_projectile(meteor, &all_far, radius), None);
    assert!(!w.projectiles.alive[meteor]);
    // a rival's bolt skips its own wizard
    let bolt = w.spawn_projectile(ProjectileKind::Firebolt, Faction::of_wizard(2)).unwrap();
    let only_two = vec![(900.0f32).to_bits(), (900.0f32).to_bits(), (1.0f32).to_bits()];
    assert_eq!(w.direct_hit(bolt, &only_two, radius), None);
}

#[test]
fn wizards_fall_and_rivals_return_while_their_keep_stands() {
    let mut w = World::new(1);
    assert_eq!(w.outcome, Outcome::Playing);
    w.wizard_falls(1);
    assert_eq!(w.wizard_alive, vec![true, false, false]);
    assert_eq!(w.outcome, Outcome::Playing);
    // timer still running, or keep ruined: stays down
    assert!(!w.rival_returns(1, false, true));
    assert!(!w.rival_returns(1, true, false));
    assert_eq!(w.wizard_alive, vec![true, false, false]);
    assert!(w.rival_returns(1, true, true));
    assert_eq!(w.wizard_alive, vec![true, true, false]);
    // already back: nothing to do
    assert!(!w.rival_returns(1, true, true));
    // the player's fall loses the realm, and a lost realm stays lost
    w.wizard_falls(0);
    assert_eq!(w.outcome, Outcome::Lost);
    w.settle(true, false, false);
    assert_eq!(w.outcome, Outcome::Lost);
    let mut v = World::new(2);
    v.settle(true, false, false);
    assert_eq!(v.outcome, Outcome::Won);
}

#[test]
fn a_new_realm_starts_blank_with_its_wizards_alive() {
    let w = World::new(1);
    assert!(w.minimap.pixels.iter().all(|&b| b == 0));
    assert_eq!(w.wizard_alive, vec![true, true, false]);
    assert_eq!(w.outcome, Outcome::Playing);
    assert_eq!(World::new(5).wizard_alive, vec![true, true, true]);
}

#[test]
fn claim_takes_every_loose_orb_in_reach() {
    let mut w = World::new(1);
    for _ in 0..6 {
        w.spawn_orb();
    }
    let balloon = w.spawn_creature(CreatureKind::Balloon, Faction::of_wizard(0)).unwrap();
    w.grab_orb(balloon, 1);
    assert!(w.claim_orb(2, Faction::of_wizard(0)));
    assert!(w.claim_orb(3, Faction::of_wizard(1)));
    w.bank_orb(4);
    let reach = (200.0f32 * 200.0).to_bits();
    let mut keys = vec![0u32; MAX_ORBS];
    keys[5] = (50_000.0f32).to_bits();
    // 0 is loose gold; 1 is carried; 2 is already the player's; 3 is the
    // rival's and can be taken; 4 is gone; 5 is out of reach
    let claimed = w.claim_sweep(Faction::of_wizard(0), &keys, reach);
    assert_eq!(claimed, vec![0, 3]);
    assert_eq!(w.orbs.claimed_by[0], Faction::of_wizard(0));
    assert_eq!(w.orbs.claimed_by[3], Faction::of_wizard(0));
    assert_eq!(w.orbs.claimed_by[5], Faction::wild());
    assert!(w.claim_sweep(Faction::of_wizard(0), &keys, reach).is_empty());
    // an orb exactly at the reach is taken
    keys[5] = reach;
    assert_eq!(w.claim_sweep(Faction::of_wizard(0), &keys, reach), vec![5]);
}

#[test]
fn fortress_raises_a_keep_to_the_top_tier_and_no_further() {
    let mut w = World::new(1);
    for tier in 2..=6 {
        assert!(w.raise_keep_tier(0));
        assert_eq!(w.keep_tiers[0], tier);
    }
    assert!(!w.raise_keep_tier(0));
    assert_eq!(w.keep_tiers, vec![6, 1, 1]);
    assert!(w.raise_keep_tier(2));
    assert_eq!(w.keep_tiers, vec![6, 1, 2]);
}

#[test]
fn nests_hatch_only_below_the_wild_bound() {
    let mut w = World::new(1);
    // realm 1: bound is 8 + 3 = 11
    assert_eq!(w.hatch_step(4), Some(0));
    assert_eq!(w.creatures.kind[0], CreatureKind::Wasp);
    assert_eq!(w.hatch_step(0), Some(1));
    assert_eq!(w.creatures.kind[1], CreatureKind::SandWorm);
    for _ in 2..11 {
        assert!(w.hatch_step(2).is_some());
    }
    assert_eq!(w.wild_population(), 11);
    assert_eq!(w.hatch_step(3), None);
    assert_eq!(w.wild_population(), 11);
}
