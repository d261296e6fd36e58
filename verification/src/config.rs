//! User configuration: defaults, validation of its values and the
//! resolution of colours against a theme.
//!
//! Finding, reading and parsing the configuration files is done by the
//! application; this module holds the rules applied to what was read.

use vstd::prelude::*;
use vstd::utf8::{encode_utf8, is_ascii_chars, is_ascii_chars_encode_utf8};
use crate::colors::hex_color;
use crate::text::{chars_of, push_str, string_from_chars, str_eq};

verus! {

broadcast use vstd::string::group_string_axioms;

/// Errors of configuration loading.
#[derive(Debug)]
pub enum ConfigError {
    /// The configuration directory could not be determined.
    ConfigDir(String),
    /// The configuration file could not be read (the I/O error's message).
    Io(String),
    /// The configuration file is not valid TOML (the parser's message).
    Parse(String),
    /// A configuration value is out of range or malformed.
    Validation(String),
}

/// `r` is the validation error with message `msg`.
pub open spec fn is_validation_error(r: Result<(), ConfigError>, msg: Seq<char>) -> bool {
    match r {
        Err(ConfigError::Validation(m)) => m@ == msg,
        _ => false,
    }
}

/// Font settings.
pub struct FontConfig {
    /// Font family name (e.g. "JetBrains Mono").
    pub family: String,
    /// Font size in points.
    pub size: u16,
}

impl Default for FontConfig {
    fn default() -> (c: Self)
        ensures
            c.family@ == "JetBrains Mono"@,
            c.size == 14,
    {
        Self { family: "JetBrains Mono".to_string(), size: 14 }
    }
}

/// The 16 ANSI colours as `#rrggbb` strings.
pub struct AnsiColors {
    pub black: String,
    pub red: String,
    pub green: String,
    pub yellow: String,
    pub blue: String,
    pub magenta: String,
    pub cyan: String,
    pub white: String,
    pub bright_black: String,
    pub bright_red: String,
    pub bright_green: String,
    pub bright_yellow: String,
    pub bright_blue: String,
    pub bright_magenta: String,
    pub bright_cyan: String,
    pub bright_white: String,
}

/// Colour settings as `#rrggbb` strings.
pub struct ColorsConfig {
    /// Default background colour.
    pub background: String,
    /// Default foreground (text) colour.
    pub foreground: String,
    /// Cursor colour.
    pub cursor: String,
    /// Selection highlight colour.
    pub selection: String,
    /// ANSI palette; the theme's when absent.
    pub ansi: Option<AnsiColors>,
}

/// Cursor settings.
pub struct CursorConfig {
    /// Cursor style: "block", "beam", "underline", "hollow_block" or "bar".
    pub style: String,
    /// Whether the cursor blinks.
    pub blink: bool,
}

/// Renderer settings.
pub struct RendererConfig {
    /// Whether to wait for vertical sync.
    pub vsync: bool,
}

/// The theme section: which theme to load.
pub struct ThemeConfig {
    /// Name of the theme file (without extension) in the themes directory.
    pub name: String,
}

/// A complete theme.
pub struct Theme {
    pub name: String,
    pub background: String,
    pub foreground: String,
    pub cursor: String,
    pub selection: String,
    pub ansi: AnsiColors,
}

/// Default background (Catppuccin Mocha).
pub open spec fn default_background() -> Seq<char> {
    "#1e1e2e"@
}

/// Default foreground (Catppuccin Mocha).
pub open spec fn default_foreground() -> Seq<char> {
    "#cdd6f4"@
}

/// Default cursor colour (Catppuccin Mocha).
pub open spec fn default_cursor_color() -> Seq<char> {
    "#f5e0dc"@
}

/// Default selection colour (Catppuccin Mocha).
pub open spec fn default_selection_color() -> Seq<char> {
    "#45475a"@
}

impl Default for ColorsConfig {
    /// The Catppuccin Mocha colours, without an ANSI palette.
    fn default() -> (c: Self)
        ensures
            c.background@ == default_background(),
            c.foreground@ == default_foreground(),
            c.cursor@ == default_cursor_color(),
            c.selection@ == default_selection_color(),
            c.ansi is None,
    {
        Self {
            background: "#1e1e2e".to_string(),
            foreground: "#cdd6f4".to_string(),
            cursor: "#f5e0dc".to_string(),
            selection: "#45475a".to_string(),
            ansi: None,
        }
    }
}

/// Default cursor style.
pub fn default_cursor_style() -> (s: String)
    ensures
        s@ == "block"@,
{
    "block".to_string()
}

/// Default for flags that are on unless switched off.
pub fn default_true() -> (b: bool)
    ensures
        b,
{
    true
}

/// Default theme name.
pub fn default_theme_name() -> (s: String)
    ensures
        s@ == "mochi-dark"@,
{
    "mochi-dark".to_string()
}

impl Default for CursorConfig {
    fn default() -> (c: Self)
        ensures
            c.style@ == "block"@,
            c.blink,
    {
        Self { style: "block".to_string(), blink: true }
    }
}

impl Default for RendererConfig {
    fn default() -> (c: Self)
        ensures
            c.vsync,
    {
        Self { vsync: true }
    }
}

impl Default for ThemeConfig {
    fn default() -> (c: Self)
        ensures
            c.name@ == "mochi-dark"@,
    {
        Self { name: default_theme_name() }
    }
}

// ---------------------------------------------------------------------------
// Validation
// ---------------------------------------------------------------------------

/// An ASCII hexadecimal digit.
pub open spec fn is_hex_digit(c: char) -> bool {
    ('0' <= c <= '9') || ('a' <= c <= 'f') || ('A' <= c <= 'F')
}

/// Starts with `#` and is seven bytes long in UTF-8.
pub open spec fn hex_shape_ok(c: Seq<char>) -> bool {
    c.len() > 0 && c[0] == '#' && encode_utf8(c).len() == 7
}

/// Every character after the first is a hex digit.
pub open spec fn hex_digits_ok(c: Seq<char>) -> bool {
    forall|i: int| 1 <= i < c.len() ==> is_hex_digit(#[trigger] c[i])
}

/// Whether `c` is an ASCII hexadecimal digit.
fn hex_digit_char(c: char) -> (b: bool)
    ensures
        b == is_hex_digit(c),
{
    ('0' <= c && c <= '9') || ('a' <= c && c <= 'f') || ('A' <= c && c <= 'F')
}

/// Whether `color` starts with `#` and is seven bytes long.
fn has_hex_shape(color: &str) -> (b: bool)
    ensures
        b == hex_shape_ok(color@),
{
    let chars = chars_of(color);
    chars.len() > 0 && chars[0] == '#' && color.as_bytes().len() == 7
}

/// Whether every character of `color` after the first is a hex digit.
fn has_hex_digits(color: &str) -> (b: bool)
    ensures
        b == hex_digits_ok(color@),
{
    let chars = chars_of(color);
    let mut i: usize = 1;
    while i < chars.len()
        invariant
            chars@ == color@,
            1 <= i,
            forall|k: int| 1 <= k < i && k < chars@.len() ==> is_hex_digit(#[trigger] chars@[k]),
        decreases chars.len() - i,
    {
        if !hex_digit_char(chars[i]) {
            return false;
        }
        i += 1;
    }
    true
}

/// A `String` made of `a` followed by `b` followed by `c`.
fn concat3(a: &str, b: &str, c: &str) -> (s: String)
    ensures
        s@ == a@ + b@ + c@,
{
    let mut v: Vec<char> = Vec::new();
    push_str(&mut v, a);
    push_str(&mut v, b);
    push_str(&mut v, c);
    string_from_chars(&v)
}

/// The error for a colour of the wrong shape, the `long` form naming an
/// example.
pub open spec fn shape_message(prefix: Seq<char>, name: Seq<char>, long: bool) -> Seq<char> {
    prefix + name + (if long {
        " must be a 6-digit hex color (e.g., '#rrggbb')"@
    } else {
        " must be a 6-digit hex color"@
    })
}

/// The error for a colour with a non-hex digit.
pub open spec fn digits_message(prefix: Seq<char>, name: Seq<char>) -> Seq<char> {
    prefix + name + " contains invalid hex digits"@
}

/// What checking colour `c` gives: `None` when it is `#` and six hex
/// digits, else the error message.
pub open spec fn color_error(prefix: Seq<char>, name: Seq<char>, c: Seq<char>, long: bool) -> Option<Seq<char>> {
    if !hex_shape_ok(c) {
        Some(shape_message(prefix, name, long))
    } else if !hex_digits_ok(c) {
        Some(digits_message(prefix, name))
    } else {
        None
    }
}

/// `r` reports `e`: `Ok` for `None`, the validation error for `Some`.
pub open spec fn reports(r: Result<(), ConfigError>, e: Option<Seq<char>>) -> bool {
    match e {
        None => r is Ok,
        Some(m) => is_validation_error(r, m),
    }
}

/// Checks one colour (see [`color_error`]).
fn check_color(prefix: &str, name: &str, color: &str, long: bool) -> (r: Result<(), ConfigError>)
    ensures
        reports(r, color_error(prefix@, name@, color@, long)),
{
    if !has_hex_shape(color) {
        let suffix = if long {
            " must be a 6-digit hex color (e.g., '#rrggbb')"
        } else {
            " must be a 6-digit hex color"
        };
        return Err(ConfigError::Validation(concat3(prefix, name, suffix)));
    }
    if !has_hex_digits(color) {
        return Err(ConfigError::Validation(concat3(prefix, name, " contains invalid hex digits")));
    }
    Ok(())
}

/// Checks that `color` is `#` followed by six hex digits; the messages name
/// the setting `name`.
pub fn validate_color(name: &str, color: &str) -> (r: Result<(), ConfigError>)
    ensures
        reports(r, color_error(""@, name@, color@, true)),
{
    check_color("", name, color, true)
}

/// Names of the ANSI colour settings, in order.
pub open spec fn ansi_names() -> Seq<Seq<char>> {
    seq![
        "black"@,
        "red"@,
        "green"@,
        "yellow"@,
        "blue"@,
        "magenta"@,
        "cyan"@,
        "white"@,
        "bright_black"@,
        "bright_red"@,
        "bright_green"@,
        "bright_yellow"@,
        "bright_blue"@,
        "bright_magenta"@,
        "bright_cyan"@,
        "bright_white"@,
    ]
}

/// The first error among the named colours from index `i` on, each checked
/// with `prefix` and the message form `long`.
pub open spec fn first_color_error(
    prefix: Seq<char>,
    names: Seq<Seq<char>>,
    colors: Seq<Seq<char>>,
    i: int,
    long: bool,
) -> Option<Seq<char>>
    decreases names.len() - i,
{
    if i < 0 || i >= names.len() || i >= colors.len() {
        None
    } else {
        match color_error(prefix, names[i], colors[i], long) {
            Some(m) => Some(m),
            None => first_color_error(prefix, names, colors, i + 1, long),
        }
    }
}

impl AnsiColors {
    /// The colours, in the order of [`ansi_names`].
    pub open spec fn colors(&self) -> Seq<Seq<char>> {
        seq![
            self.black@,
            self.red@,
            self.green@,
            self.yellow@,
            self.blue@,
            self.magenta@,
            self.cyan@,
            self.white@,
            self.bright_black@,
            self.bright_red@,
            self.bright_green@,
            self.bright_yellow@,
            self.bright_blue@,
            self.bright_magenta@,
            self.bright_cyan@,
            self.bright_white@,
        ]
    }

    /// The first malformed colour, as an error message in the short or
    /// `long` form.
    pub open spec fn palette_error(&self, long: bool) -> Option<Seq<char>> {
        first_color_error("colors.ansi."@, ansi_names(), self.colors(), 0, long)
    }

    /// The first malformed colour, as [`AnsiColors::validate`] reports it.
    pub open spec fn error(&self) -> Option<Seq<char>> {
        self.palette_error(false)
    }

    /// `other` holds the same colours.
    pub open spec fn same(&self, other: &AnsiColors) -> bool {
        self.colors() == other.colors()
    }

    /// Checks that every colour is `#` followed by six hex digits, in order;
    /// the first failure is reported.
    pub fn validate(&self) -> (r: Result<(), ConfigError>)
        ensures
            reports(r, self.error()),
    {
        self.check_palette(false)
    }

    /// Checks every colour in order, reporting the first failure in the
    /// short or `long` message form.
    fn check_palette(&self, long: bool) -> (r: Result<(), ConfigError>)
        ensures
            reports(r, self.palette_error(long)),
    {
        let names: [&str; 16] = [
            "black",
            "red",
            "green",
            "yellow",
            "blue",
            "magenta",
            "cyan",
            "white",
            "bright_black",
            "bright_red",
            "bright_green",
            "bright_yellow",
            "bright_blue",
            "bright_magenta",
            "bright_cyan",
            "bright_white",
        ];
        let colors: [&String; 16] = [
            &self.black,
            &self.red,
            &self.green,
            &self.yellow,
            &self.blue,
            &self.magenta,
            &self.cyan,
            &self.white,
            &self.bright_black,
            &self.bright_red,
            &self.bright_green,
            &self.bright_yellow,
            &self.bright_blue,
            &self.bright_magenta,
            &self.bright_cyan,
            &self.bright_white,
        ];
        let ghost name_views = Seq::new(16, |k: int| names@[k]@);
        let ghost color_views = Seq::new(16, |k: int| colors@[k]@);
        assert(name_views =~= ansi_names());
        assert(color_views =~= self.colors());
        let mut i: usize = 0;
        while i < 16
            invariant
                i <= 16,
                name_views == ansi_names(),
                color_views == self.colors(),
                forall|k: int| 0 <= k < 16 ==> (#[trigger] names@[k])@ == name_views[k],
                forall|k: int| 0 <= k < 16 ==> (#[trigger] colors@[k])@ == color_views[k],
                first_color_error("colors.ansi."@, name_views, color_views, 0, long) == first_color_error(
                    "colors.ansi."@,
                    name_views,
                    color_views,
                    i as int,
                    long,
                ),
            decreases 16 - i,
        {
            let color: &String = colors[i];
            let r = check_color("colors.ansi.", names[i], color.as_str(), long);
            if r.is_err() {
                return r;
            }
            i += 1;
        }
        Ok(())
    }

    /// A copy with the same colours.
    fn duplicate(&self) -> (c: Self)
        ensures
            c.same(self),
    {
        AnsiColors {
            black: self.black.clone(),
            red: self.red.clone(),
            green: self.green.clone(),
            yellow: self.yellow.clone(),
            blue: self.blue.clone(),
            magenta: self.magenta.clone(),
            cyan: self.cyan.clone(),
            white: self.white.clone(),
            bright_black: self.bright_black.clone(),
            bright_red: self.bright_red.clone(),
            bright_green: self.bright_green.clone(),
            bright_yellow: self.bright_yellow.clone(),
            bright_blue: self.bright_blue.clone(),
            bright_magenta: self.bright_magenta.clone(),
            bright_cyan: self.bright_cyan.clone(),
            bright_white: self.bright_white.clone(),
        }
    }
}

impl ColorsConfig {
    /// The first malformed colour as [`ColorsConfig::validate_colors`]
    /// reports it: the shape of the four main colours first, then their
    /// digits, then the ANSI palette.
    pub open spec fn colors_error(&self) -> Option<Seq<char>> {
        let bg = self.background@;
        let fg = self.foreground@;
        let cur = self.cursor@;
        let sel = self.selection@;
        if !hex_shape_ok(bg) {
            Some(shape_message("colors."@, "background"@, true))
        } else if !hex_shape_ok(fg) {
            Some(shape_message("colors."@, "foreground"@, false))
        } else if !hex_shape_ok(cur) {
            Some(shape_message("colors."@, "cursor"@, false))
        } else if !hex_shape_ok(sel) {
            Some(shape_message("colors."@, "selection"@, false))
        } else if !hex_digits_ok(bg) {
            Some(digits_message("colors."@, "background"@))
        } else if !hex_digits_ok(fg) {
            Some(digits_message("colors."@, "foreground"@))
        } else if !hex_digits_ok(cur) {
            Some(digits_message("colors."@, "cursor"@))
        } else if !hex_digits_ok(sel) {
            Some(digits_message("colors."@, "selection"@))
        } else {
            match self.ansi {
                Some(a) => a.error(),
                None => None,
            }
        }
    }

    /// The four main colours with their setting names, in order.
    pub open spec fn main_colors(&self) -> Seq<Seq<char>> {
        seq![self.background@, self.foreground@, self.cursor@, self.selection@]
    }

    /// `other` holds the same colours.
    pub open spec fn same(&self, other: &ColorsConfig) -> bool {
        &&& self.main_colors() == other.main_colors()
        &&& match (self.ansi, other.ansi) {
            (Some(a), Some(b)) => a.same(&b),
            (None, None) => true,
            _ => false,
        }
    }

    /// Validates only the colour fields (see [`ColorsConfig::colors_error`]).
    pub fn validate_colors(&self) -> (r: Result<(), ConfigError>)
        ensures
            reports(r, self.colors_error()),
    {
        if !has_hex_shape(self.background.as_str()) {
            return Err(
                ConfigError::Validation(concat3("colors.", "background", " must be a 6-digit hex color (e.g., '#rrggbb')")),
            );
        }
        if !has_hex_shape(self.foreground.as_str()) {
            return Err(ConfigError::Validation(concat3("colors.", "foreground", " must be a 6-digit hex color")));
        }
        if !has_hex_shape(self.cursor.as_str()) {
            return Err(ConfigError::Validation(concat3("colors.", "cursor", " must be a 6-digit hex color")));
        }
        if !has_hex_shape(self.selection.as_str()) {
            return Err(ConfigError::Validation(concat3("colors.", "selection", " must be a 6-digit hex color")));
        }
        if !has_hex_digits(self.background.as_str()) {
            return Err(ConfigError::Validation(concat3("colors.", "background", " contains invalid hex digits")));
        }
        if !has_hex_digits(self.foreground.as_str()) {
            return Err(ConfigError::Validation(concat3("colors.", "foreground", " contains invalid hex digits")));
        }
        if !has_hex_digits(self.cursor.as_str()) {
            return Err(ConfigError::Validation(concat3("colors.", "cursor", " contains invalid hex digits")));
        }
        if !has_hex_digits(self.selection.as_str()) {
            return Err(ConfigError::Validation(concat3("colors.", "selection", " contains invalid hex digits")));
        }
        match &self.ansi {
            Some(ansi) => ansi.validate(),
            None => Ok(()),
        }
    }

    /// A copy with the same colours.
    fn duplicate(&self) -> (c: Self)
        ensures
            c.same(self),
    {
        ColorsConfig {
            background: self.background.clone(),
            foreground: self.foreground.clone(),
            cursor: self.cursor.clone(),
            selection: self.selection.clone(),
            ansi: match &self.ansi {
                Some(a) => Some(a.duplicate()),
                None => None,
            },
        }
    }

    /// Resolves the colours against the configured theme, once loaded:
    /// without a theme they stay as they are; with one, an absent ANSI
    /// palette is taken from the theme, and each main colour still at its
    /// default value is replaced by the theme's.
    pub fn resolve(&self, theme: Option<Theme>) -> (r: Self)
        ensures
            match theme {
                None => r.same(self),
                Some(t) => {
                    &&& r.background@ == (if self.background@ == default_background() {
                        t.background@
                    } else {
                        self.background@
                    })
                    &&& r.foreground@ == (if self.foreground@ == default_foreground() {
                        t.foreground@
                    } else {
                        self.foreground@
                    })
                    &&& r.cursor@ == (if self.cursor@ == default_cursor_color() {
                        t.cursor@
                    } else {
                        self.cursor@
                    })
                    &&& r.selection@ == (if self.selection@ == default_selection_color() {
                        t.selection@
                    } else {
                        self.selection@
                    })
                    &&& match (self.ansi, r.ansi) {
                        (Some(mine), Some(out)) => out.same(&mine),
                        (None, Some(out)) => out.same(&t.ansi),
                        _ => false,
                    }
                },
            },
    {
        match theme {
            Some(theme) => {
                let mut resolved = self.duplicate();
                if resolved.ansi.is_none() {
                    resolved.ansi = Some(theme.ansi.duplicate());
                }
                let defaults = ColorsConfig::default();
                if resolved.background == defaults.background {
                    resolved.background = theme.background;
                }
                if resolved.foreground == defaults.foreground {
                    resolved.foreground = theme.foreground;
                }
                if resolved.cursor == defaults.cursor {
                    resolved.cursor = theme.cursor;
                }
                if resolved.selection == defaults.selection {
                    resolved.selection = theme.selection;
                }
                resolved
            },
            None => self.duplicate(),
        }
    }
}

/// The accepted cursor styles.
pub open spec fn valid_cursor_style(style: Seq<char>) -> bool {
    style == "block"@ || style == "beam"@ || style == "underline"@ || style == "hollow_block"@ || style == "bar"@
}

/// The first problem of a configuration, in the order checked: font size,
/// window opacity (`opacity_in_range` tells whether it lies in
/// `0.0..=1.0`), the four main colours, the ANSI palette, the cursor style.
pub open spec fn config_error(font_size: u16, opacity_in_range: bool, colors: ColorsConfig, cursor_style: Seq<char>) -> Option<
    Seq<char>,
> {
    if font_size == 0 {
        Some("font.size must be > 0"@)
    } else if font_size > 200 {
        Some("font.size must be <= 200"@)
    } else if !opacity_in_range {
        Some("window.opacity must be between 0.0 and 1.0"@)
    } else if first_color_error("colors."@, main_names(), colors.main_colors(), 0, true) is Some {
        first_color_error("colors."@, main_names(), colors.main_colors(), 0, true)
    } else if colors.ansi is Some && colors.ansi->0.palette_error(true) is Some {
        colors.ansi->0.palette_error(true)
    } else if !valid_cursor_style(cursor_style) {
        Some("cursor.style must be one of: block, beam, underline, hollow_block, bar"@)
    } else {
        None
    }
}

/// Setting names of the four main colours, in order.
pub open spec fn main_names() -> Seq<Seq<char>> {
    seq!["background"@, "foreground"@, "cursor"@, "selection"@]
}

/// Validates a configuration's values (see [`config_error`]); whether the
/// window opacity lies in `0.0..=1.0` is decided by the caller.
pub fn validate_config(font_size: u16, opacity_in_range: bool, colors: &ColorsConfig, cursor_style: &str) -> (r: Result<
    (),
    ConfigError,
>)
    ensures
        reports(r, config_error(font_size, opacity_in_range, *colors, cursor_style@)),
{
    if font_size == 0 {
        return Err(ConfigError::Validation("font.size must be > 0".to_string()));
    }
    if font_size > 200 {
        return Err(ConfigError::Validation("font.size must be <= 200".to_string()));
    }
    if !opacity_in_range {
        return Err(ConfigError::Validation("window.opacity must be between 0.0 and 1.0".to_string()));
    }
    proof {
        reveal_with_fuel(first_color_error, 5);
    }
    let r = check_color("colors.", "background", colors.background.as_str(), true);
    if r.is_err() {
        return r;
    }
    let r = check_color("colors.", "foreground", colors.foreground.as_str(), true);
    if r.is_err() {
        return r;
    }
    let r = check_color("colors.", "cursor", colors.cursor.as_str(), true);
    if r.is_err() {
        return r;
    }
    let r = check_color("colors.", "selection", colors.selection.as_str(), true);
    if r.is_err() {
        return r;
    }
    match &colors.ansi {
        Some(ansi) => {
            let r = ansi.check_palette(true);
            if r.is_err() {
                return r;
            }
        },
        None => {},
    }
    if !(str_eq(cursor_style, "block") || str_eq(cursor_style, "beam") || str_eq(cursor_style, "underline")
        || str_eq(cursor_style, "hollow_block") || str_eq(cursor_style, "bar")) {
        return Err(
            ConfigError::Validation(
                "cursor.style must be one of: block, beam, underline, hollow_block, bar".to_string(),
            ),
        );
    }
    Ok(())
}

/// A colour that validation accepts is one the renderer parses.
pub proof fn lemma_validated_color_parses(c: Seq<char>)
    requires
        hex_shape_ok(c),
        hex_digits_ok(c),
    ensures
        hex_color(encode_utf8(c)) is Some,
{
    assert(is_ascii_chars(c)) by {
        assert forall|i: int| 0 <= i < c.len() implies '\0' <= #[trigger] c[i] <= '\u{7f}' by {
            if i > 0 {
                assert(is_hex_digit(c[i]));
            }
        }
    }
    is_ascii_chars_encode_utf8(c);
    let b = encode_utf8(c);
    assert(c.len() == 7);
    assert(is_hex_digit(c[1]) && is_hex_digit(c[2]) && is_hex_digit(c[3]) && is_hex_digit(c[4]));
    assert(is_hex_digit(c[5]) && is_hex_digit(c[6]));
    assert(b[1] == c[1] as u8 && b[2] == c[2] as u8 && b[3] == c[3] as u8);
    assert(b[4] == c[4] as u8 && b[5] == c[5] as u8 && b[6] == c[6] as u8);
    assert(b[0] == c[0] as u8);
}

} // verus!
