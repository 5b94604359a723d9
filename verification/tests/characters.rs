use epaint_font::character::invisible_char;

#[test]
fn formatting_characters_are_invisible() {
    for code_point in [
        0x0D, 0x200B, 0x200F, 0x202A, 0x202E, 0x2060, 0x2064, 0x2066, 0x206F, 0xFEFF,
    ] {
        assert!(invisible_char(char::from_u32(code_point).unwrap()));
    }
}

#[test]
fn their_neighbours_are_visible() {
    for code_point in [
        0x0A, 0x0C, 0x0E, 0x20, 0x200A, 0x2010, 0x2029, 0x202F, 0x205F, 0x2065, 0x2070, 0xFEFE,
        0xFF00,
    ] {
        assert!(!invisible_char(char::from_u32(code_point).unwrap()));
    }
}
