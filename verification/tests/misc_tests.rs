use librespectrum::misc::u16_cell::U16Cell;
use librespectrum::misc::word::Word;

#[test]
fn allows_to_update_its_value_and_individual_high_and_low_halves() {
    let mut u16cell: U16Cell = Default::default();
    assert_eq!(u16cell.value(), 0);

    u16cell.set_value(0x1234);
    assert_eq!(u16cell.value(), 0x1234);
    assert_eq!(u16cell.bytes().hi, 0x12);
    assert_eq!(u16cell.bytes().lo, 0x34);

    u16cell.set_hi(0xab);
    assert_eq!(u16cell.value(), 0xab34);

    u16cell.set_lo(0xcd);
    assert_eq!(u16cell.value(), 0xabcd);
}

#[test]
fn word_should_allow_to_update_its_value_and_individual_high_and_low_halves() {
    let mut w: Word = Default::default();
    assert_eq!(w.word(), 0);

    w.set_word(0x1234);
    assert_eq!(w.word(), 0x1234);
    assert_eq!(w.bytes().hi, 0x12);
    assert_eq!(w.bytes().lo, 0x34);

    w.set_hi(0xab);
    assert_eq!(w.word(), 0xab34);

    w.set_lo(0xcd);
    assert_eq!(w.word(), 0xabcd);
}
