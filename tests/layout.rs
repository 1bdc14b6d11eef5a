use tropy::layout::{closing_label, row_prefix};

#[test]
fn rows_break_every_eighty_chunks() {
    assert_eq!(row_prefix(0, 0), "\n");
    assert_eq!(row_prefix(1, 1024), "");
    assert_eq!(row_prefix(79, 79 * 1024), "");
    assert_eq!(row_prefix(80, 80 * 1024), " \x1b[38;5;208m0x14000\x1b[0m\n");
    assert_eq!(row_prefix(160, 160), " \x1b[38;5;208m0xa0\x1b[0m\n");
}

#[test]
fn closing_label_after_partial_row() {
    assert_eq!(closing_label(0, 1024), "");
    assert_eq!(closing_label(1, 1), " \x1b[38;5;208m0x01\x1b[0m");
    assert_eq!(closing_label(5, 16), " \x1b[38;5;208m0x50\x1b[0m");
    assert_eq!(closing_label(81, 1024), " \x1b[38;5;208m0x14400\x1b[0m");
}

#[test]
fn closing_label_after_full_row() {
    assert_eq!(closing_label(80, 1024), " \x1b[38;5;208m0x00\x1b[0m");
    assert_eq!(closing_label(160, 4), " \x1b[38;5;208m0x140\x1b[0m");
}
