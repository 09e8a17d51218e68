use horme::colors::{convert_hex_to_rgb, is_valid_hex_color, ColorPalette, Palette, Rgb};

#[test]
fn six_digit_hex_parses_exactly() {
    assert_eq!(
        convert_hex_to_rgb("#2b292d"),
        Rgb { r: 0x2b, g: 0x29, b: 0x2d }
    );
    assert_eq!(
        convert_hex_to_rgb("#FFFFFF"),
        Rgb { r: 255, g: 255, b: 255 }
    );
    assert_eq!(convert_hex_to_rgb("#000000"), Rgb { r: 0, g: 0, b: 0 });
}

#[test]
fn three_digit_hex_repeats_each_digit() {
    assert_eq!(convert_hex_to_rgb("#abc"), Rgb { r: 0xaa, g: 0xbb, b: 0xcc });
    assert_eq!(convert_hex_to_rgb("#F00"), Rgb { r: 255, g: 0, b: 0 });
}

#[test]
fn other_lengths_fall_back_to_black() {
    assert_eq!(convert_hex_to_rgb("#ab"), Rgb { r: 0, g: 0, b: 0 });
    assert_eq!(convert_hex_to_rgb("#abcde"), Rgb { r: 0, g: 0, b: 0 });
}

#[test]
fn validity_check_rejects_bad_strings() {
    assert!(is_valid_hex_color("#2b292d"));
    assert!(is_valid_hex_color("#abc"));
    assert!(is_valid_hex_color("#ab"));
    assert!(!is_valid_hex_color(""));
    assert!(!is_valid_hex_color("#2b292g"));
    assert!(!is_valid_hex_color("#xyz"));
}

#[test]
fn palette_reads_nine_colors_in_order() {
    let strings: Vec<String> = [
        "#2b292d", "#e0def4", "#1f1d2e", "#f6c177", "#c4a7e7", "#31748f", "#ebbcba", "#9ccfd8",
        "#eb6f92",
    ]
    .iter()
    .map(|s| s.to_string())
    .collect();
    for s in &strings {
        assert!(is_valid_hex_color(s));
    }
    let palette = ColorPalette::new(strings);
    assert_eq!(palette.background, Rgb { r: 0x2b, g: 0x29, b: 0x2d });
    assert_eq!(palette.cancelled, Rgb { r: 0xeb, g: 0x6f, b: 0x92 });
}

#[test]
fn default_palette_is_the_built_in_theme() {
    let palette = ColorPalette::default();
    assert_eq!(palette.background, Rgb { r: 25, g: 23, b: 36 });
    assert_eq!(palette.foreground, Rgb { r: 224, g: 222, b: 244 });
    let named = Palette::default();
    assert_eq!(named.name, "default");
    assert_eq!(named.colors, palette);
}

#[test]
fn named_palette_keeps_its_parts() {
    let palette = Palette::new("rose", ColorPalette::default());
    assert_eq!(palette.name, "rose");
    assert_eq!(palette.colors.done, Rgb { r: 49, g: 116, b: 143 });
}
