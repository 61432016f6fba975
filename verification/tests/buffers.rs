use aetherloom::buffers::{first_free, ParticleRing, RecordBuffer};

#[test]
fn records_fill_from_the_front_then_drop() {
    let mut b: RecordBuffer<i32> = RecordBuffer::new(3, 4, 0);
    assert_eq!((b.count(), b.capacity(), b.stride()), (0, 3, 4));
    b.push(&[1, 2, 3, 4]);
    b.push(&[5, 6, 7, 8]);
    assert_eq!(b.count(), 2);
    assert_eq!(b.value(4), 5);
    assert_eq!(b.value(7), 8);
    assert_eq!(b.value(8), 0);
    b.push(&[9, 10, 11, 12]);
    b.push(&[13, 14, 15, 16]);
    assert_eq!(b.count(), 3);
    assert_eq!(b.value(11), 12);
    let all: Vec<i32> = (0..12).map(|k| b.value(k)).collect();
    assert_eq!(all, (1..13).collect::<Vec<i32>>());
}

#[test]
fn reset_starts_again_from_the_front() {
    let mut b: RecordBuffer<i32> = RecordBuffer::new(2, 2, -1);
    b.push(&[1, 2]);
    b.push(&[3, 4]);
    b.reset();
    assert_eq!(b.count(), 0);
    assert_eq!(b.value(2), 3);
    b.push(&[7, 8]);
    assert_eq!((b.count(), b.value(0), b.value(1), b.value(2)), (1, 7, 8, 3));
}

#[test]
fn event_block_holds_one_hundred_twenty_eight() {
    let mut b: RecordBuffer<u32> = RecordBuffer::new(128, 4, 0);
    for k in 0..200u32 {
        b.push(&[k, k, k, k]);
    }
    assert_eq!(b.count(), 128);
    assert_eq!(b.value(127 * 4), 127);
}

#[test]
fn ring_wraps_and_overwrites_the_oldest() {
    let mut r: ParticleRing<u32> = ParticleRing::new(3, 0);
    assert_eq!(r.spawn(10), 0);
    assert_eq!(r.spawn(11), 1);
    assert_eq!(r.spawn(12), 2);
    assert_eq!(r.head(), 0);
    assert_eq!(r.spawn(13), 0);
    assert_eq!((r.slot(0), r.slot(1), r.slot(2)), (13, 11, 12));
    r.set_slot(1, 99);
    assert_eq!(r.slot(1), 99);
    assert_eq!(r.head(), 1);
    assert_eq!(r.len(), 3);
}

#[test]
fn full_ring_walk_returns_to_start() {
    let mut r: ParticleRing<u8> = ParticleRing::new(4096, 0);
    for _ in 0..4096 {
        r.spawn(1);
    }
    assert_eq!(r.head(), 0);
    assert!((0..4096).all(|k| r.slot(k) == 1));
}

#[test]
fn first_free_finds_lowest_gap() {
    assert_eq!(first_free(&vec![true, false, true, false]), Some(1));
    assert_eq!(first_free(&vec![false]), Some(0));
    assert_eq!(first_free(&vec![true, true]), None);
    assert_eq!(first_free(&vec![]), None);
}
