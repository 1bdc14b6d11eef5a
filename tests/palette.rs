use tropy::palette::{
    ansi_rgb_string, ansi_rgb_string_special, bucket, entropy_color, palette_color, palette_len,
    CubeColor,
};

#[test]
fn buckets_at_their_bounds() {
    assert_eq!(bucket(0), 0);
    assert_eq!(bucket(240), 0);
    assert_eq!(bucket(254), 0);
    assert_eq!(bucket(255), 1);
    assert_eq!(bucket(259), 1);
    assert_eq!(bucket(260), 2);
    assert_eq!(bucket(299), 15);
    assert_eq!(bucket(300), 16);
    assert_eq!(bucket(359), 35);
    assert_eq!(bucket(360), 36);
    assert_eq!(bucket(364), 36);
    assert_eq!(bucket(365), 37);
    assert_eq!(bucket(u32::MAX), 37);
}

#[test]
fn palette_runs_from_black_to_dark_red() {
    assert_eq!(palette_len(), 38);
    assert_eq!(palette_color(0), CubeColor { r: 0, g: 0, b: 0 });
    assert_eq!(palette_color(10), CubeColor { r: 1, g: 4, b: 5 });
    assert_eq!(palette_color(37), CubeColor { r: 2, g: 0, b: 0 });
    for i in 0..palette_len() {
        let c = palette_color(i);
        assert!(c.r <= 5 && c.g <= 5 && c.b <= 5);
    }
}

#[test]
fn entropy_colors_at_both_ends() {
    assert_eq!(entropy_color(240), CubeColor { r: 0, g: 0, b: 0 });
    assert_eq!(entropy_color(300), CubeColor { r: 2, g: 1, b: 5 });
    assert_eq!(entropy_color(360), CubeColor { r: 3, g: 0, b: 0 });
}

#[test]
fn foreground_escape_of_scaled_values() {
    assert_eq!(ansi_rgb_string_special("x".to_string(), 240), "\x1b[38;5;16mx\x1b[0m");
    assert_eq!(ansi_rgb_string_special("x".to_string(), 300), "\x1b[38;5;99mx\x1b[0m");
    assert_eq!(ansi_rgb_string_special("ab".to_string(), 360), "\x1b[38;5;124mab\x1b[0m");
    assert_eq!(ansi_rgb_string_special("x".to_string(), 400), "\x1b[38;5;88mx\x1b[0m");
}

#[test]
fn background_escape_of_cube_colors() {
    assert_eq!(ansi_rgb_string("  ".to_string(), 0, 0, 0), "\x1b[48;5;16m  \x1b[0m");
    assert_eq!(ansi_rgb_string("  ".to_string(), 5, 0, 1), "\x1b[48;5;197m  \x1b[0m");
    assert_eq!(ansi_rgb_string("  ".to_string(), 6, 6, 6), "\x1b[48;5;274m  \x1b[0m");
    assert_eq!(ansi_rgb_string("  ".to_string(), 7, 0, 0), "  ");
    assert_eq!(ansi_rgb_string("  ".to_string(), 0, 0, 9), "  ");
}
