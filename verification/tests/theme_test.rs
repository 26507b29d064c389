use nexus_de::theme::{active_border_rgba, format_hex_color, NexusPalette, PaletteTones, ThemeError};

fn tones_with_primary(primary: (u8, u8, u8)) -> PaletteTones {
    PaletteTones {
        primary,
        primary_container: (1, 2, 3),
        on_primary_container: (4, 5, 6),
        secondary: (0x7D, 0xD3, 0xFC),
        surface: (7, 8, 9),
        surface_variant: (10, 11, 12),
        background: (13, 14, 15),
        outline: (16, 17, 18),
    }
}

#[test]
fn test_palette_from_hex() {
    let (r, g, b) = NexusPalette::seed_from_hex("#38BDF8").expect("Parse valid hex");
    assert_eq!((r, g, b), (0x38, 0xBD, 0xF8));
    let palette = NexusPalette::from_tones(r, g, b, &tones_with_primary((r, g, b)), true);
    assert_eq!(palette.primary, "#38BDF8");
    assert_eq!(palette.active_border, "rgba(56, 189, 248, 0.95)");
    assert!(palette.primary.starts_with('#'));
    assert!(palette.surface.starts_with('#'));
    assert!(palette.background.starts_with('#'));
}

#[test]
fn test_palette_from_invalid_hex() {
    assert!(NexusPalette::seed_from_hex("invalid").is_err());
    assert!(NexusPalette::seed_from_hex("#12345").is_err());
}

#[test]
fn test_palette_hyprland_snippet() {
    let palette = NexusPalette::default();
    let snippet = palette.to_hyprland_snippet();
    assert!(snippet.contains("col.active_border"));
    assert!(snippet.contains("rgb("));
}

#[test]
fn hyprland_snippet_of_default_palette() {
    let snippet = NexusPalette::default().to_hyprland_snippet();
    assert_eq!(
        snippet,
        "general {\n    col.active_border = rgb(38BDF8) rgb(7DD3FC) 45deg\n    col.inactive_border = rgba(30293bee)\n}\n"
    );
}

#[test]
fn hyprland_snippet_strips_every_leading_hash() {
    let mut p = NexusPalette::default();
    p.primary = "##AB#12".to_string();
    p.secondary = "xyz".to_string();
    let snippet = p.to_hyprland_snippet();
    assert!(snippet.contains("rgb(AB#12) rgb(xyz) 45deg"));
}

#[test]
fn css_of_default_palette() {
    let css = NexusPalette::default().to_css();
    assert_eq!(
        css,
        ":root {\n  --nexus-primary: #38BDF8;\n  --nexus-on-primary: #031E2C;\n  --nexus-primary-container: #084C61;\n  --nexus-on-primary-container: #BEE9F7;\n  --nexus-secondary: #7DD3FC;\n  --nexus-surface: #0F172A;\n  --nexus-on-surface: #F8FAFC;\n  --nexus-surface-variant: #1E293B;\n  --nexus-outline: #475569;\n  --nexus-background: #020617;\n}\n"
    );
}

#[test]
fn default_palette_values() {
    let p = NexusPalette::default();
    assert_eq!(p.primary, "#38BDF8");
    assert_eq!(p.on_primary, "#031E2C");
    assert_eq!(p.background, "#020617");
    assert_eq!(p.active_border, "rgba(56, 189, 248, 1.0)");
    assert_eq!(p.inactive_border, "rgba(30, 41, 59, 0.7)");
}

fn seed(text: &str) -> Option<(u8, u8, u8)> {
    NexusPalette::seed_from_hex(text).ok()
}

#[test]
fn hex_seed_reads_with_and_without_hash() {
    assert_eq!(seed("#38BDF8"), Some((0x38, 0xBD, 0xF8)));
    assert_eq!(seed("38BDF8"), Some((0x38, 0xBD, 0xF8)));
    assert_eq!(seed("  ##38bdf8\t\n"), Some((0x38, 0xBD, 0xF8)));
}

#[test]
fn hex_seed_accepts_plus_signed_channels() {
    assert_eq!(seed("+f+f+f"), Some((15, 15, 15)));
    assert_eq!(seed("++ffff"), None);
    assert_eq!(seed("-fffff"), None);
}

#[test]
fn hex_seed_rejects_bad_text() {
    assert_eq!(seed(""), None);
    assert_eq!(seed("#1234567"), None);
    assert_eq!(seed("#12345G"), None);
    assert_eq!(seed("# 123456"), None);
    // A two-byte character that fills a channel is not a number.
    assert_eq!(seed("\u{e9}1234"), None);
    match NexusPalette::seed_from_hex(" #zz0000 ") {
        Err(ThemeError::InvalidHex(text)) => assert_eq!(text, " #zz0000 "),
        other => panic!("unexpected {:?}", other),
    }
}

#[test]
fn hex_seed_rejects_text_whose_channels_split_a_character() {
    match NexusPalette::seed_from_hex("a\u{e9}123") {
        Err(ThemeError::InvalidHex(text)) => assert_eq!(text, "a\u{e9}123"),
        other => panic!("unexpected {:?}", other),
    }
    assert_eq!(seed("\u{20ac}123"), None);
}

#[test]
fn hex_colour_formatting() {
    assert_eq!(format_hex_color(0x38, 0xBD, 0xF8), "#38BDF8");
    assert_eq!(format_hex_color(0, 0, 0), "#000000");
    assert_eq!(format_hex_color(255, 10, 171), "#FF0AAB");
}

#[test]
fn hex_colour_roundtrip() {
    for (r, g, b) in [(0u8, 0u8, 0u8), (255, 255, 255), (1, 128, 254), (0x38, 0xBD, 0xF8)] {
        let text = format_hex_color(r, g, b);
        assert_eq!(seed(&text), Some((r, g, b)));
        assert_eq!(seed(&text[1..]), Some((r, g, b)));
    }
}

#[test]
fn active_border_formatting() {
    assert_eq!(active_border_rgba(56, 189, 248), "rgba(56, 189, 248, 0.95)");
    assert_eq!(active_border_rgba(0, 7, 100), "rgba(0, 7, 100, 0.95)");
}

#[test]
fn palette_from_tones() {
    let tones = PaletteTones {
        primary: (0x38, 0xBD, 0xF8),
        primary_container: (1, 2, 3),
        on_primary_container: (4, 5, 6),
        secondary: (0x7D, 0xD3, 0xFC),
        surface: (7, 8, 9),
        surface_variant: (10, 11, 12),
        background: (13, 14, 15),
        outline: (16, 17, 18),
    };
    let p = NexusPalette::from_tones(56, 189, 248, &tones, true);
    assert_eq!(p.primary, "#38BDF8");
    assert_eq!(p.on_primary, "#050B14");
    assert_eq!(p.primary_container, "#010203");
    assert_eq!(p.on_primary_container, "#040506");
    assert_eq!(p.secondary, "#7DD3FC");
    assert_eq!(p.surface, "#070809");
    assert_eq!(p.on_surface, "#F8FAFC");
    assert_eq!(p.surface_variant, "#0A0B0C");
    assert_eq!(p.outline, "#101112");
    assert_eq!(p.background, "#0D0E0F");
    assert_eq!(p.active_border, "rgba(56, 189, 248, 0.95)");
    assert_eq!(p.inactive_border, "rgba(40, 48, 66, 0.60)");
    let dark = NexusPalette::from_tones(56, 189, 248, &tones, false);
    assert_eq!(dark.on_primary, "#FFFFFF");
    assert!(p.to_hyprland_snippet().contains("rgb(38BDF8) rgb(7DD3FC)"));
}

#[test]
fn startup_palette_prefers_wallpaper_then_accent() {
    let wall = NexusPalette::from_tones(1, 2, 3, &tones_with_primary((1, 2, 3)), false);
    let accent = NexusPalette::from_tones(4, 5, 6, &tones_with_primary((4, 5, 6)), false);
    let bad = || Err(ThemeError::InvalidHex("x".to_string()));
    assert_eq!(
        NexusPalette::startup_palette(Some(Ok(wall.clone())), Ok(accent.clone())),
        wall
    );
    assert_eq!(NexusPalette::startup_palette(Some(bad()), Ok(accent.clone())), accent);
    assert_eq!(NexusPalette::startup_palette(None, Ok(accent.clone())), accent);
    assert_eq!(NexusPalette::startup_palette(None, bad()), NexusPalette::default());
    assert_eq!(NexusPalette::startup_palette(Some(bad()), bad()), NexusPalette::default());
}

fn synthetic_png() -> Vec<u8> {
    let img = image::RgbImage::from_fn(64, 64, |x, _y| {
        if x < 32 {
            image::Rgb([240, 80, 20])
        } else {
            image::Rgb([20, 20, 20])
        }
    });
    let mut bytes = std::io::Cursor::new(Vec::new());
    img.write_to(&mut bytes, image::ImageFormat::Png).expect("Encode test image");
    bytes.into_inner()
}

#[test]
fn wallpaper_thumbnail_of_synthetic_image() {
    let px = NexusPalette::wallpaper_thumbnail(&synthetic_png(), "PNG").expect("Decode");
    assert_eq!(px.len(), 4096);
    assert_eq!(px.iter().filter(|p| **p == (240, 80, 20)).count(), 2048);
    assert_eq!(px.iter().filter(|p| **p == (20, 20, 20)).count(), 2048);
}

#[test]
fn wallpaper_thumbnail_errors() {
    assert!(matches!(
        NexusPalette::wallpaper_thumbnail(&synthetic_png(), "unknownext"),
        Err(ThemeError::Image(_))
    ));
    assert!(matches!(
        NexusPalette::wallpaper_thumbnail(b"not an image", "png"),
        Err(ThemeError::Image(_))
    ));
    assert!(matches!(
        NexusPalette::wallpaper_thumbnail(&synthetic_png(), ""),
        Err(ThemeError::Image(image::ImageError::Unsupported(_)))
    ));
    assert!(matches!(
        NexusPalette::wallpaper_thumbnail(&synthetic_png(), "xyz"),
        Err(ThemeError::Image(image::ImageError::Unsupported(_)))
    ));
}
