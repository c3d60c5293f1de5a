use neovide::color::{unpack_color, Color, OPAQUE};

#[test]
fn unpack_splits_channels() {
    let color = unpack_color(0x12_34_56);
    assert_eq!(color, Color { r: 0x12, g: 0x34, b: 0x56, a: 255 });
}

#[test]
fn unpack_is_always_opaque() {
    for packed in [0u64, 1, 0xFF_FFFF, 0x100_0000, u64::MAX] {
        assert_eq!(unpack_color(packed).a, OPAQUE);
    }
}

#[test]
fn unpack_round_trips_low_24_bits() {
    for packed in [0u64, 0xFF, 0xFF00, 0xFF_0000, 0xAB_CDEF, 0x1234_5678_9ABC_DEF0, u64::MAX] {
        assert_eq!(unpack_color(packed).rgb_bits() as u64, packed & 0xFF_FFFF);
    }
}

#[test]
fn unpack_ignores_high_bits() {
    assert_eq!(unpack_color(0xFF00_0000_00AB_CDEF), unpack_color(0xAB_CDEF));
    assert_eq!(unpack_color(0x1_00_00_00), unpack_color(0));
}

#[test]
fn rgba_bits_appends_alpha() {
    assert_eq!(unpack_color(0xFF_0000).rgba_bits(), 0xFF00_00FF);
    assert_eq!(Color { r: 1, g: 2, b: 3, a: 4 }.rgba_bits(), 0x0102_0304);
    assert_eq!(Color { r: 1, g: 2, b: 3, a: 4 }.rgb_bits(), 0x01_0203);
}

#[test]
fn white_and_black() {
    assert_eq!(unpack_color(0xFF_FFFF), Color { r: 255, g: 255, b: 255, a: 255 });
    assert_eq!(unpack_color(0), Color { r: 0, g: 0, b: 0, a: 255 });
}
