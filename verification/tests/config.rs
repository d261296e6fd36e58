use comet::config::{
    default_cursor_style, default_theme_name, default_true, validate_color, validate_config, AnsiColors,
    ColorsConfig, ConfigError, CursorConfig, FontConfig, RendererConfig, Theme, ThemeConfig,
};

fn opacity_in_range(opacity: f32) -> bool {
    (0.0..=1.0).contains(&opacity)
}

fn message(r: Result<(), ConfigError>) -> String {
    match r {
        Err(ConfigError::Validation(m)) => m,
        other => panic!("expected a validation error, got {:?}", other),
    }
}

fn palette(color: &str) -> AnsiColors {
    AnsiColors {
        black: color.to_string(),
        red: color.to_string(),
        green: color.to_string(),
        yellow: color.to_string(),
        blue: color.to_string(),
        magenta: color.to_string(),
        cyan: color.to_string(),
        white: color.to_string(),
        bright_black: color.to_string(),
        bright_red: color.to_string(),
        bright_green: color.to_string(),
        bright_yellow: color.to_string(),
        bright_blue: color.to_string(),
        bright_magenta: color.to_string(),
        bright_cyan: color.to_string(),
        bright_white: color.to_string(),
    }
}

#[test]
fn default_config_is_valid() {
    let font = FontConfig::default();
    let colors = ColorsConfig::default();
    let cursor = CursorConfig::default();
    assert!(validate_config(font.size, opacity_in_range(1.0), &colors, &cursor.style).is_ok());
}

#[test]
fn invalid_font_size_rejected() {
    let mut font = FontConfig::default();
    font.size = 0;
    let colors = ColorsConfig::default();
    let cursor = CursorConfig::default();
    assert!(validate_config(font.size, opacity_in_range(1.0), &colors, &cursor.style).is_err());
}

#[test]
fn invalid_opacity_rejected() {
    let font = FontConfig::default();
    let colors = ColorsConfig::default();
    let cursor = CursorConfig::default();
    assert!(validate_config(font.size, opacity_in_range(1.5), &colors, &cursor.style).is_err());
}

#[test]
fn invalid_color_format_rejected() {
    let font = FontConfig::default();
    let mut colors = ColorsConfig::default();
    colors.background = "not-a-color".to_string();
    let cursor = CursorConfig::default();
    assert!(validate_config(font.size, opacity_in_range(1.0), &colors, &cursor.style).is_err());
}

#[test]
fn invalid_cursor_style_rejected() {
    let font = FontConfig::default();
    let colors = ColorsConfig::default();
    let mut cursor = CursorConfig::default();
    cursor.style = "invalid".to_string();
    assert!(validate_config(font.size, opacity_in_range(1.0), &colors, &cursor.style).is_err());
}

#[test]
fn validation_messages_in_order() {
    let colors = ColorsConfig::default();
    assert_eq!(message(validate_config(0, true, &colors, "block")), "font.size must be > 0");
    assert_eq!(message(validate_config(201, true, &colors, "block")), "font.size must be <= 200");
    assert_eq!(message(validate_config(200, false, &colors, "block")), "window.opacity must be between 0.0 and 1.0");
    assert_eq!(
        message(validate_config(12, true, &colors, "blink")),
        "cursor.style must be one of: block, beam, underline, hollow_block, bar"
    );
    let mut bad = ColorsConfig::default();
    bad.cursor = "#12345g".to_string();
    assert_eq!(message(validate_config(12, true, &bad, "bar")), "colors.cursor contains invalid hex digits");
    bad.ansi = Some(palette("#zzzzzz"));
    bad.cursor = "#123456".to_string();
    assert_eq!(message(validate_config(12, true, &bad, "bar")), "colors.ansi.black contains invalid hex digits");
    for style in ["block", "beam", "underline", "hollow_block", "bar"] {
        assert!(validate_config(1, true, &ColorsConfig::default(), style).is_ok());
    }
}

#[test]
fn validate_color_messages() {
    assert!(validate_color("x", "#a0B1c2").is_ok());
    assert_eq!(message(validate_color("x", "#a0b1c")), "x must be a 6-digit hex color (e.g., '#rrggbb')");
    assert_eq!(message(validate_color("x", "a0b1c2d")), "x must be a 6-digit hex color (e.g., '#rrggbb')");
    assert_eq!(message(validate_color("x", "#é1234")), "x contains invalid hex digits");
}

#[test]
fn ansi_palette_validation() {
    assert!(palette("#000000").validate().is_ok());
    let mut p = palette("#000000");
    p.cyan = "#00000".to_string();
    assert_eq!(message(p.validate()), "colors.ansi.cyan must be a 6-digit hex color");
    let mut p = palette("#000000");
    p.bright_white = "#00000x".to_string();
    assert_eq!(message(p.validate()), "colors.ansi.bright_white contains invalid hex digits");
}

#[test]
fn colors_validation_checks_shapes_before_digits() {
    let mut c = ColorsConfig::default();
    assert!(c.validate_colors().is_ok());
    c.background = "#gggggg".to_string();
    c.selection = "#123".to_string();
    assert_eq!(message(c.validate_colors()), "colors.selection must be a 6-digit hex color");
    c.selection = "#123456".to_string();
    assert_eq!(message(c.validate_colors()), "colors.background contains invalid hex digits");
    c.background = "bad".to_string();
    assert_eq!(message(c.validate_colors()), "colors.background must be a 6-digit hex color (e.g., '#rrggbb')");
}

#[test]
fn defaults() {
    assert_eq!(default_cursor_style(), "block");
    assert!(default_true());
    assert_eq!(default_theme_name(), "mochi-dark");
    assert_eq!(ThemeConfig::default().name, "mochi-dark");
    assert!(RendererConfig::default().vsync);
    let f = FontConfig::default();
    assert_eq!((f.family.as_str(), f.size), ("JetBrains Mono", 14));
    let c = ColorsConfig::default();
    assert_eq!(c.background, "#1e1e2e");
    assert!(c.ansi.is_none());
}

fn theme() -> Theme {
    Theme {
        name: "t".to_string(),
        background: "#111111".to_string(),
        foreground: "#222222".to_string(),
        cursor: "#333333".to_string(),
        selection: "#444444".to_string(),
        ansi: palette("#555555"),
    }
}

#[test]
fn resolve_takes_theme_for_default_colors() {
    let mut c = ColorsConfig::default();
    c.foreground = "#abcdef".to_string();
    let r = c.resolve(Some(theme()));
    assert_eq!(r.background, "#111111");
    assert_eq!(r.foreground, "#abcdef");
    assert_eq!(r.cursor, "#333333");
    assert_eq!(r.selection, "#444444");
    assert_eq!(r.ansi.unwrap().red, "#555555");

    let mut c = ColorsConfig::default();
    c.ansi = Some(palette("#666666"));
    let r = c.resolve(Some(theme()));
    assert_eq!(r.ansi.unwrap().red, "#666666");

    let r = ColorsConfig::default().resolve(None);
    assert_eq!(r.background, "#1e1e2e");
    assert!(r.ansi.is_none());
}
