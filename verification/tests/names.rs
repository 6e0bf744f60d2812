use fat32::vfat::dir::{ascii_to_string, ucs_2_to_string};

#[test]
fn test_ascii_to_string() {
    let arr: [u8; 8] = [0x48, 0x45, 0x4C, 0x4C, 0x4F, 0x20, 0x4F, 0x00];
    assert_eq!(ascii_to_string(&arr), Some("HELLO".to_string()));

    let arr: [u8; 8] = [0x00, 0x45, 0x4C, 0x4C, 0x4F, 0x20, 0x00, 0x00];
    assert_eq!(ascii_to_string(&arr), None);
}

#[test]
fn test_ucs_2_to_string() {
    let arr = [
        0xD834, 0x041F, 0x0440, 0x0438, 0x0432, 0x0435, 0x0442, 0xDD1E, 0x0000, 0x0072,
    ];
    assert_eq!(ucs_2_to_string(&arr), "\u{FFFD}Привет\u{FFFD}".to_string());
}
