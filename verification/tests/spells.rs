use aetherloom::spells::{spell_price, unlock_for, SpellBook, FORTRESS, SPELL_COUNT};

#[test]
fn first_realm_unlocks_the_basic_four() {
    let u = unlock_for(1);
    let open: Vec<usize> = (0..13).filter(|&s| u[s]).collect();
    assert_eq!(open, vec![0, 7, 9, 12]);
    assert_eq!(unlock_for(-5), u);
}

#[test]
fn unlocks_grow_with_the_realm() {
    let expected_new = [
        (2, vec![1]),
        (3, vec![2, 6]),
        (4, vec![4, 8]),
        (5, vec![10]),
        (6, vec![3]),
        (7, vec![5]),
        (8, vec![11]),
    ];
    for (level, fresh) in expected_new.iter() {
        let before = unlock_for(level - 1);
        let after = unlock_for(*level);
        for s in 0..13 {
            if before[s] {
                assert!(after[s]);
            }
            assert_eq!(after[s] && !before[s], fresh.contains(&s));
        }
    }
    assert!(unlock_for(8).iter().all(|&b| b));
    assert!(unlock_for(40).iter().all(|&b| b));
}

#[test]
fn prices_and_fortress_tiers() {
    let base = [4, 9, 14, 30, 24, 46, 16, 18, 12, 4, 22, 60];
    for (s, p) in base.iter().enumerate() {
        assert_eq!(spell_price(s as i32, 3), *p);
    }
    assert_eq!(spell_price(FORTRESS, 0), 34);
    assert_eq!(spell_price(FORTRESS, 1), 60);
    assert_eq!(spell_price(FORTRESS, 5), 164);
}

#[test]
fn selecting_a_locked_spell_is_ignored() {
    let mut b = SpellBook::for_realm(1);
    assert_eq!(b.selected(), 0);
    b.select_spell(3);
    assert_eq!(b.selected(), 0);
    b.select_spell(9);
    assert_eq!(b.selected(), 9);
    b.select_spell(13);
    assert_eq!(b.selected(), 9);
    b.select_spell(-1);
    assert_eq!(b.selected(), 9);
}

#[test]
fn cycling_skips_locked_spells() {
    let mut b = SpellBook::for_realm(1);
    b.cycle_spell(1);
    assert_eq!(b.selected(), 7);
    b.cycle_spell(1);
    assert_eq!(b.selected(), 9);
    b.cycle_spell(1);
    assert_eq!(b.selected(), 12);
    b.cycle_spell(1);
    assert_eq!(b.selected(), 0);
    b.cycle_spell(-1);
    assert_eq!(b.selected(), 12);
    b.cycle_spell(-1);
    assert_eq!(b.selected(), 9);
}

#[test]
fn cycling_by_a_whole_book_stays_put() {
    let mut b = SpellBook::for_realm(8);
    b.select_spell(5);
    b.cycle_spell(SPELL_COUNT);
    assert_eq!(b.selected(), 5);
    b.cycle_spell(2);
    assert_eq!(b.selected(), 7);
}

#[test]
fn cycling_always_lands_unlocked() {
    for level in 1..9 {
        for dir in [-13, -5, -1, 1, 2, 6, 12, 13, 27] {
            let mut b = SpellBook::for_realm(level);
            for _ in 0..20 {
                b.cycle_spell(dir);
                assert!(b.is_unlocked(b.selected()));
            }
        }
    }
}

#[test]
fn cast_permission_rules() {
    let b = SpellBook::for_realm(1);
    // the player is held to the unlock table and the cooldown
    assert!(b.may_cast(0, 0, true, true, 1, false, true));
    assert!(!b.may_cast(0, 3, true, true, 1, false, true));
    assert!(!b.may_cast(0, 0, false, true, 1, false, true));
    // rivals are not
    assert!(b.may_cast(1, 3, false, true, 1, false, true));
    // out of the book
    assert!(!b.may_cast(1, 13, true, true, 1, true, true));
    assert!(!b.may_cast(1, -1, true, true, 1, true, true));
    // the fortress needs a standing keep below the top tier, with its caster over it
    assert!(b.may_cast(0, FORTRESS, true, true, 5, true, true));
    assert!(!b.may_cast(0, FORTRESS, true, true, 6, true, true));
    assert!(!b.may_cast(0, FORTRESS, true, false, 2, true, true));
    assert!(!b.may_cast(0, FORTRESS, true, true, 2, false, true));
    // and everything must be affordable
    assert!(!b.may_cast(0, 0, true, true, 1, true, false));
}

#[test]
fn cycle_fits_only_while_slots_stay_in_the_book() {
    let b = SpellBook::for_realm(1);
    assert!(b.cycle_fits(1));
    assert!(b.cycle_fits(-1));
    assert!(b.cycle_fits(-13));
    // 0 - 14 + 13 is -1: the wrap lands below slot 0
    assert!(!b.cycle_fits(-14));
    // 0 - 26 + 13 is -13, which wraps to slot 0 exactly
    assert!(b.cycle_fits(-26));
    assert!(!b.cycle_fits(i32::MAX));
    assert!(!b.cycle_fits(i32::MIN));
    let mut c = SpellBook::for_realm(1);
    c.cycle_spell(-26);
    assert_eq!(c.selected(), 0);
}
