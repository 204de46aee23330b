use librespectrum::gfx::attributes::{Attributes, BRIGHT, FLASH};
use librespectrum::gfx::color::Color;
use librespectrum::gfx::color_attributes::Attributes as ColorAttributes;

#[test]
fn allows_to_update_individual_attributes() {
    let mut attr: Attributes = Default::default();
    assert!(!attr.contains(FLASH | BRIGHT));
    assert_eq!(attr.get_paper(), 7);
    assert_eq!(attr.get_ink(), 0);
    attr.set_paper(3);
    attr.set_ink(5);
    attr.insert(FLASH | BRIGHT);
    assert_eq!(attr.bits, 0b11011101);
}

#[test]
fn attributes_allows_to_update_individual_attributes() {
    let mut attr: ColorAttributes = Default::default();
    assert!(!attr.contains(FLASH | BRIGHT));
    assert_eq!(attr.get_paper().index(), 7);
    assert_eq!(attr.get_ink().index(), 0);
    attr.set_paper(Color::new(3));
    attr.set_ink(Color::new(5));
    attr.insert(FLASH | BRIGHT);
    assert_eq!(attr.bits, 0b11011101);
}

#[test]
fn color_rgb_by_brightness() {
    assert_eq!(Color::new(0).rgb_dim(), [0x00, 0x00, 0x00]);
    assert_eq!(Color::new(1).rgb_dim(), [0x00, 0x00, 0xee]);
    assert_eq!(Color::new(2).rgb_bright(), [0xff, 0x00, 0x00]);
    assert_eq!(Color::new(6).rgb_dim(), [0xee, 0xee, 0x00]);
    assert_eq!(Color::new(4).rgb_bright(), [0x00, 0xff, 0x00]);
    assert_eq!(Color::new(7).rgb_bright(), [0xff, 0xff, 0xff]);
    let palette = Color::palette();
    assert_eq!(palette.len(), 8);
    assert_eq!(palette[5].index(), 5);
    assert!(Color::new(3) == Color::new(3));
    assert!(Color::new(3) != Color::new(4));
}

#[test]
fn attribute_rgb_follows_brightness() {
    let mut attr = ColorAttributes::from_bits(0b00010101);
    assert_eq!(attr.get_ink_rgb(), [0x00, 0xee, 0xee]);
    assert_eq!(attr.get_paper_rgb(), [0xee, 0x00, 0x00]);
    attr.insert(BRIGHT);
    assert_eq!(attr.get_ink_rgb(), [0x00, 0xff, 0xff]);
}
