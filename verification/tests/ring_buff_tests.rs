use librespectrum::bus::ring_buff::RingBuff;
use librespectrum::misc::ring_buff::RingBuff as MiscRingBuff;

#[test]
fn returns_length() {
    let mut buff = RingBuff::<u8, 3>::new();
    buff.push(1).push(2);
    assert_eq!(buff.len(), 2);
}

#[test]
fn allows_to_push_back_items() {
    let mut buff = RingBuff::<u8, 3>::new();
    buff.push(2).push(3);
    assert_eq!(buff.push_back(1).len(), 3);
    assert_eq!(buff.iter_to_head(), vec![1, 2, 3]);
}

#[test]
fn allows_to_iterate_from_head_to_tail() {
    let mut buff = RingBuff::<u8, 3>::new();
    buff.push(1).push(2).push(3);
    assert_eq!(buff.iter_to_tail(), vec![3, 2, 1]);
}

#[test]
fn allows_to_iterate_from_tail_to_head() {
    let mut buff = RingBuff::<u8, 3>::new();
    buff.push(1).push(2).push(3);
    assert_eq!(buff.iter_to_head(), vec![1, 2, 3]);
}

#[test]
fn push_evicts_tail_when_full() {
    let mut buff = RingBuff::<u8, 3>::new();
    buff.push(1).push(2);
    assert_eq!(buff.push(3).push(4).len(), 3);
    assert_eq!(buff.iter_to_tail(), vec![4, 3, 2]);
}

#[test]
fn push_back_evicts_head_when_full() {
    let mut buff = RingBuff::<u8, 3>::new();
    buff.push(1).push(2).push(3);
    assert_eq!(buff.push_back(0).len(), 3);
    assert_eq!(buff.iter_to_head(), vec![0, 1, 2]);
}

#[test]
fn ring_indices_wrap_around() {
    assert_eq!(RingBuff::<u8, 3>::next(2), 0);
    assert_eq!(RingBuff::<u8, 3>::next(0), 1);
    assert_eq!(RingBuff::<u8, 3>::prev(0), 2);
    assert_eq!(RingBuff::<u8, 3>::prev(2), 1);
    assert_eq!(RingBuff::<u8, 3>::new().size(), 3);
}

#[test]
fn ring_buff_returns_length() {
    let buff = MiscRingBuff::<u8, 3>::from(&[1, 2]);
    assert_eq!(buff.len(), 2);
}

#[test]
fn allows_to_iterate_through_items() {
    let buff = MiscRingBuff::<u8, 3>::from(&[1, 2, 3]);
    assert_eq!(buff.iter_to_tail(), vec![3, 2, 1]);
}

#[test]
fn behaves_like_ring_buffer() {
    let mut buff = MiscRingBuff::<u8, 3>::from(&[1, 2]);
    assert_eq!(buff.push(3).push(4).len(), 3);
    assert_eq!(buff.iter_to_tail(), vec![4, 3, 2]);
}
