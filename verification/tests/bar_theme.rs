use pengwm::theme::{builtin, hex, palette_from_entries, palette_from_text, parse_color, tokyo_night, Rgba};

#[test]
fn parse_hex_rgb() {
    let c = parse_color("#1a1b26").unwrap();
    assert_eq!(c.r, 0x1a);
    assert_eq!(c.g, 0x1b);
    assert_eq!(c.b, 0x26);
    assert_eq!(c.a, 255);
}

#[test]
fn parse_hex_rgba() {
    let c = parse_color("#1a1b26ff").unwrap();
    assert_eq!(c.a, 255);
}

#[test]
fn parse_hex_without_hash() {
    assert_eq!(parse_color("1a1b26"), parse_color("#1a1b26"));
}

#[test]
fn parse_hex_invalid() {
    assert!(parse_color("zzz").is_none());
    assert!(parse_color("#12345").is_none());
}

#[test]
fn default_is_tokyo_night() {
    assert_eq!(tokyo_night().background, hex("#1a1b26"));
}

#[test]
fn builtin_names_resolve() {
    for name in [
        "tokyo-night",
        "catppuccin-mocha",
        "nord",
        "dracula",
        "gruvbox-dark",
    ] {
        assert!(builtin(name).is_some(), "{name} should be built in");
    }
    assert!(builtin("nope").is_none());
}

#[test]
fn parse_color_alpha_whitespace_and_malformed() {
    assert_eq!(
        parse_color("  ##0a0b0c80 \n"),
        Some(Rgba {
            r: 0x0a,
            g: 0x0b,
            b: 0x0c,
            a: 0x80
        })
    );
    // Only hexadecimal digits make a colour: no sign, no other character.
    assert!(parse_color("+1a1b2").is_none());
    assert!(parse_color("#1a1b26\u{e9}").is_none());
    assert!(parse_color("#1a1b2\u{e9}6").is_none());
    assert!(parse_color("#1a1b2g").is_none());
    assert!(parse_color("#1a1b26f").is_none());
    assert_eq!(hex("not a colour"), Rgba { r: 255, g: 255, b: 255, a: 255 });
}

#[test]
fn builtin_names_ignore_case() {
    assert_eq!(builtin("NORD"), builtin("nord"));
    assert_eq!(builtin("Tokyo-Night"), Some(tokyo_night()));
    assert_eq!(builtin("nord").unwrap().accent, hex("#88c0d0"));
}

#[test]
fn theme_text_sets_named_colours() {
    let theme = palette_from_text(
        "background = \"#000000\"\nforeground = \"#ffffff\"\nfont_size = 14\n",
        tokyo_night(),
    )
    .unwrap();
    assert_eq!(theme.background, hex("#000000"));
    assert_eq!(theme.foreground, hex("#ffffff"));
    assert_eq!(theme.accent, tokyo_night().accent, "missing keys keep defaults");
}

#[test]
fn theme_text_keeps_base_for_bad_values_and_rejects_bad_toml() {
    let theme = palette_from_text("accent = \"+12345\"\nborder = 7\n", tokyo_night()).unwrap();
    assert_eq!(theme, tokyo_night());
    assert!(palette_from_text("not [ valid toml", tokyo_night()).is_none());
}

#[test]
fn palette_entries_replace_only_valid_colours() {
    let entries = vec![
        ("inactive".to_string(), Some("#010203".to_string())),
        ("accent".to_string(), Some("nope".to_string())),
        ("border".to_string(), None),
    ];
    let p = palette_from_entries(tokyo_night(), &entries);
    assert_eq!(p.inactive, Rgba { r: 1, g: 2, b: 3, a: 255 });
    assert_eq!(p.accent, tokyo_night().accent);
    assert_eq!(p.border, tokyo_night().border);
}

#[test]
fn colors_override_theme() {
    let overrides = pengwm::config::ColorOverrides {
        background: None,
        foreground: None,
        accent: Some("#ff0000".into()),
        inactive: Some("not a colour".into()),
        border: None,
    };
    let theme = pengwm::theme::apply_color_overrides(tokyo_night(), &overrides);
    assert_eq!(theme.accent, hex("#ff0000"));
    assert_eq!(theme.background, tokyo_night().background);
    assert_eq!(theme.inactive, tokyo_night().inactive);
}
