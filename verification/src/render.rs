//! Value types of the renderer: cell and font sizes, cursor shape, viewport, backend settings and resource
//! handles, and the choice of colour palette.

use vstd::prelude::*;
use vstd::utf8::encode_utf8;
use crate::colors::{ansi_table, default_bg, default_cursor, default_fg, default_selection, hex_or, ColorPalette};
use crate::text::case_folded;

verus! {

/// Size of a cell in pixels (at least 1 x 1).
#[derive(Debug, Clone, Copy, PartialEq, Eq, Structural)]
pub struct CellSize {
    pub width: u32,
    pub height: u32,
}

impl CellSize {
    /// Creates a cell size, raising a zero dimension to 1.
    pub fn new(width: u32, height: u32) -> (c: Self)
        ensures
            c.width == (if width >= 1 { width } else { 1 }),
            c.height == (if height >= 1 { height } else { 1 }),
    {
        Self { width: if width >= 1 { width } else { 1 }, height: if height >= 1 { height } else { 1 } }
    }
}

/// Font size in pixels (at least 1).
#[derive(Debug, Clone, Copy, PartialEq, Eq, Hash, Structural)]
pub struct FontSize(pub u16);

impl FontSize {
    /// Creates a font size, raising 0 to 1.
    pub fn new(size: u16) -> (f: Self)
        ensures
            f.0 == (if size >= 1 { size } else { 1 }),
    {
        FontSize(if size >= 1 { size } else { 1 })
    }
}

/// Shape of the text cursor.
#[derive(Debug, Clone, Copy, PartialEq, Eq, Structural)]
pub enum CursorShape {
    Block,
    Beam,
    Underline,
    HollowBlock,
    Bar,
}

impl Default for CursorShape {
    fn default() -> (s: Self)
        ensures
            s == CursorShape::Block,
    {
        CursorShape::Block
    }
}

/// Phase of a blinking cursor.
#[derive(Debug, Clone, Copy, PartialEq, Eq, Structural)]
pub enum BlinkState {
    On,
    Off,
}

/// A rectangle of the window to render into.
#[derive(Debug, Clone, Copy, PartialEq, Eq, Structural)]
pub struct Viewport {
    pub x: u32,
    pub y: u32,
    pub width: u32,
    pub height: u32,
}

impl Default for Viewport {
    /// An 800 x 600 viewport at the origin.
    fn default() -> (v: Self)
        ensures
            v == (Viewport { x: 0, y: 0, width: 800, height: 600 }),
    {
        Viewport { x: 0, y: 0, width: 800, height: 600 }
    }
}

/// Colours chosen by the user for the renderer, as `#rrggbb` strings.
#[derive(Debug, Clone)]
pub struct CustomColors {
    pub background: String,
    pub foreground: String,
    pub cursor: String,
    pub selection: String,
}

/// The palette to render with: the custom colours when given, else the
/// built-in theme named `theme`.
pub fn resolve_palette(colors: Option<&CustomColors>, theme: &str) -> (p: ColorPalette)
    ensures
        match colors {
            Some(c) => p.is(
                ansi_table(),
                hex_or(encode_utf8(c.foreground@), default_fg()),
                hex_or(encode_utf8(c.background@), default_bg()),
                hex_or(encode_utf8(c.cursor@), default_cursor()),
                hex_or(encode_utf8(c.selection@), default_selection()),
                hex_or(encode_utf8(c.foreground@), default_fg()),
            ),
            None => if case_folded(theme@) == "light"@ {
                p.is_light()
            } else if case_folded(theme@) == "solarized-dark"@ {
                p.is_solarized_dark()
            } else {
                p.is_default()
            },
        },
{
    match colors {
        Some(c) => ColorPalette::from_hex(
            c.background.as_str(),
            c.foreground.as_str(),
            c.cursor.as_str(),
            c.selection.as_str(),
        ),
        None => ColorPalette::from_theme(theme),
    }
}

/// Rendering backends.
#[derive(Debug, Clone, Copy, PartialEq, Eq, Structural)]
pub enum BackendType {
    /// GPU backend.
    Wgpu,
    /// CPU software fallback.
    Cpu,
}

/// Backend settings.
#[derive(Debug, Clone)]
pub struct BackendConfig {
    pub backend: BackendType,
    pub width: u32,
    pub height: u32,
    pub vsync: bool,
}

impl Default for BackendConfig {
    /// The GPU backend, 800 x 600, with vertical sync.
    fn default() -> (c: Self)
        ensures
            c.backend == BackendType::Wgpu,
            c.width == 800,
            c.height == 600,
            c.vsync,
    {
        BackendConfig { backend: BackendType::Wgpu, width: 800, height: 600, vsync: true }
    }
}

/// Handle of an atlas texture.
#[derive(Debug, Clone, Copy, PartialEq, Eq, Structural)]
pub struct AtlasTexture {
    pub id: u64,
    pub width: u32,
    pub height: u32,
}

/// Handle of a vertex buffer.
#[derive(Debug, Clone, Copy, PartialEq, Eq, Structural)]
pub struct VertexBuffer {
    pub id: u64,
    pub size: usize,
}

/// Handle of an index buffer.
#[derive(Debug, Clone, Copy, PartialEq, Eq, Structural)]
pub struct IndexBuffer {
    pub id: u64,
    pub count: u32,
}

/// Handle of a uniform buffer.
#[derive(Debug, Clone, Copy, PartialEq, Eq, Structural)]
pub struct UniformBuffer {
    pub id: u64,
    pub size: usize,
}

/// Handle of a render pipeline.
#[derive(Debug, Clone, Copy, PartialEq, Eq, Structural)]
pub struct Pipeline {
    pub id: u64,
}

/// Operations common to backend buffers.
pub trait Buffer {
    /// Size in bytes.
    fn size(&self) -> u64;
    /// Identifier of the buffer.
    fn id(&self) -> u64;
}

/// Creates rendering backends (the backends themselves live with the
/// graphics code).
pub struct BackendFactory;

} // verus!
