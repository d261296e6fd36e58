use comet::cell::Color;
use comet::colors::{ansi_256_color, ansi_colors, palette_from_hex, parse_hex_color, resolve_color, ColorPalette, Rgba};
use comet::damage::{DamageRect, DamageTracker};
use comet::atlas::{AtlasRect, GlyphAtlas, GlyphKey};
use comet::cpu_backend::CpuBackend;
use comet::cursor_renderer::CursorRenderer;
use comet::font::{FontSlant, FontStyle};
use comet::glyph_cache::GlyphCache;
use comet::render::{
    resolve_palette, BackendConfig, BackendType, BlinkState, CellSize, CursorShape, CustomColors, FontSize, Viewport,
};
use comet::render_error::RendererError;

#[test]
fn test_rgba_creation() {
    let c = Rgba::rgb(255, 128, 64);
    assert_eq!(c.r, 255);
    assert_eq!(c.g, 128);
    assert_eq!(c.b, 64);
    assert_eq!(c.a, 255);
}

#[test]
fn test_rgba_from_rgb() {
    let c = Rgba::from_rgb(0xFF8040);
    assert_eq!(c.r, 0xFF);
    assert_eq!(c.g, 0x80);
    assert_eq!(c.b, 0x40);
}

#[test]
fn rgba_from_rgba_splits_four_channels() {
    let c = Rgba::from_rgba(0x11223344);
    assert_eq!(c, Rgba::new(0x11, 0x22, 0x33, 0x44));
    assert_eq!(Rgba::from_rgb(0xAB112233), Rgba::rgb(0x11, 0x22, 0x33));
    assert_eq!(Rgba::default(), Rgba::new(0, 0, 0, 0));
}

#[test]
fn test_ansi_256() {
    assert_eq!(ansi_256_color(0), ansi_colors()[0]);
    assert_eq!(ansi_256_color(15), ansi_colors()[15]);

    let c = ansi_256_color(16);
    assert_eq!(c.r, 0);
    assert_eq!(c.g, 0);
    assert_eq!(c.b, 0);

    let c = ansi_256_color(231);
    assert_eq!(c.r, 255);
    assert_eq!(c.g, 255);
    assert_eq!(c.b, 255);

    let c = ansi_256_color(232);
    assert_eq!(c.r, 8);
    let c = ansi_256_color(255);
    assert_eq!(c.r, 238);
}

#[test]
fn ansi_256_cube_entry() {
    // 16 + 36 * 1 + 6 * 2 + 3
    assert_eq!(ansi_256_color(67), Rgba::rgb(51, 102, 153));
    assert_eq!(ansi_colors()[12], Rgba::rgb(0x5C, 0x5C, 0xFF));
}

#[test]
fn test_palette_theme() {
    let dark = ColorPalette::from_theme("dark");
    assert_eq!(dark.default_bg, Rgba::rgb(0x1E, 0x1E, 0x1E));

    let light = ColorPalette::from_theme("light");
    assert_eq!(light.default_bg, Rgba::rgb(0xFF, 0xFF, 0xFF));
}

#[test]
fn palette_theme_names_ignore_case() {
    let sol = ColorPalette::from_theme("Solarized-Dark");
    assert_eq!(sol.default_bg, Rgba::rgb(0x00, 0x2B, 0x36));
    assert_eq!(sol.ansi[1], Rgba::rgb(0xDC, 0x32, 0x2F));
    let light = ColorPalette::from_theme("LIGHT");
    assert_eq!(light.cursor, Rgba::rgb(0, 0, 0));
}

#[test]
fn palette_get_and_set_ansi() {
    let mut p = ColorPalette::default();
    assert_eq!(p.get(1), Rgba::rgb(0xCD, 0x00, 0x00));
    assert_eq!(p.get(232), ansi_256_color(232));
    p.set_ansi(1, Rgba::rgb(1, 2, 3));
    assert_eq!(p.get(1), Rgba::rgb(1, 2, 3));
    p.set_ansi(20, Rgba::rgb(9, 9, 9));
    assert_eq!(p.get(20), ansi_256_color(20));
}

#[test]
fn parse_hex_color_cases() {
    assert_eq!(parse_hex_color("#1e1E2f"), Some(Rgba::rgb(0x1E, 0x1E, 0x2F)));
    assert_eq!(parse_hex_color("1e1e2e"), None);
    assert_eq!(parse_hex_color("#1e1e2"), None);
    assert_eq!(parse_hex_color("#1e1e2g"), None);
    assert_eq!(parse_hex_color("#+F0000"), None);
    assert_eq!(parse_hex_color("#+f+f+f"), None);
    assert_eq!(parse_hex_color("#ééé"), None);
    assert_eq!(parse_hex_color("#é1234"), None);
}

#[test]
fn palette_from_hex_falls_back_per_field() {
    let p = palette_from_hex("#000000", "bad", "#ff0000", "#333333");
    assert_eq!(p.default_bg, Rgba::rgb(0, 0, 0));
    assert_eq!(p.default_fg, Rgba::rgb(0xE5, 0xE5, 0xE5));
    assert_eq!(p.selection_fg, p.default_fg);
    assert_eq!(p.cursor, Rgba::rgb(0xFF, 0, 0));
    assert_eq!(p.selection_bg, Rgba::rgb(0x33, 0x33, 0x33));
    let q = ColorPalette::from_hex("#000000", "bad", "#ff0000", "#333333");
    assert_eq!(q.default_bg, p.default_bg);
    assert_eq!(q.ansi, ansi_colors());
}

#[test]
fn resolve_palette_prefers_custom_colors() {
    let custom = CustomColors {
        background: "#010203".to_string(),
        foreground: "#040506".to_string(),
        cursor: "#070809".to_string(),
        selection: "#0a0b0c".to_string(),
    };
    let p = resolve_palette(Some(&custom), "light");
    assert_eq!(p.default_bg, Rgba::rgb(1, 2, 3));
    let q = resolve_palette(None, "light");
    assert_eq!(q.default_bg, Rgba::rgb(0xFF, 0xFF, 0xFF));
}

#[test]
fn test_damage_rect() {
    let rect = DamageRect::new(10, 20, 100, 50);
    assert_eq!(rect.area(), 5000);
    assert!(!rect.is_empty());

    let empty = DamageRect::default();
    assert!(empty.is_empty());
}

#[test]
fn test_damage_rect_intersection() {
    let a = DamageRect::new(0, 0, 10, 10);
    let b = DamageRect::new(5, 5, 10, 10);
    let c = DamageRect::new(20, 20, 10, 10);

    assert!(a.intersects(&b));
    assert!(!a.intersects(&c));
}

#[test]
fn test_damage_rect_union() {
    let a = DamageRect::new(0, 0, 10, 10);
    let b = DamageRect::new(15, 15, 10, 10);
    let union = a.union(&b);

    assert_eq!(union.x, 0);
    assert_eq!(union.y, 0);
    assert_eq!(union.width, 25);
    assert_eq!(union.height, 25);
}

#[test]
fn test_damage_rect_clip() {
    let rect = DamageRect::new(5, 5, 20, 20);
    let bounds = DamageRect::new(10, 10, 10, 10);
    let clipped = rect.clip(&bounds);

    assert_eq!(clipped.x, 10);
    assert_eq!(clipped.y, 10);
    assert_eq!(clipped.width, 10);
    assert_eq!(clipped.height, 10);
}

#[test]
fn damage_rect_constructors() {
    assert_eq!(DamageRect::from_corners(7, 2, 3, 9), DamageRect::new(3, 2, 4, 7));
    assert_eq!(DamageRect::cell(4, 5), DamageRect::new(4, 5, 1, 1));
    assert_eq!(DamageRect::row(3, 80), DamageRect::new(0, 3, 80, 1));
    assert_eq!(DamageRect::column(6, 24), DamageRect::new(6, 0, 1, 24));
    let outer = DamageRect::new(0, 0, 10, 10);
    assert!(outer.contains(&DamageRect::new(2, 2, 8, 8)));
    assert!(!outer.contains(&DamageRect::new(2, 2, 9, 8)));
    assert!(DamageRect::new(0, 0, 5, 5).clip(&DamageRect::new(5, 0, 5, 5)).is_empty());
}

#[test]
fn test_damage_tracker() {
    let mut tracker = DamageTracker::new(80, 24);
    assert!(tracker.is_empty());

    tracker.add_cell(5, 10);
    assert_eq!(tracker.len(), 1);

    tracker.add_cell(6, 10);
    let damage = tracker.take_damage();
    assert_eq!(damage.len(), 1);
    assert_eq!(damage[0].width, 2);
}

#[test]
fn test_damage_tracker_full() {
    let mut tracker = DamageTracker::new(80, 24);
    tracker.mark_full();
    assert!(tracker.is_full());

    tracker.clear();
    assert!(!tracker.is_full());
    assert!(tracker.is_empty());
}

#[test]
fn test_damage_tracker_row() {
    let mut tracker = DamageTracker::new(80, 24);
    tracker.add_row(5);
    let damage = tracker.take_damage();
    assert_eq!(damage[0].width, 80);
    assert_eq!(damage[0].height, 1);
    assert_eq!(damage[0].y, 5);
}

#[test]
fn damage_is_clipped_and_ignored_off_screen() {
    let mut tracker = DamageTracker::new(10, 5);
    tracker.add(DamageRect::new(8, 3, 10, 10));
    tracker.add(DamageRect::new(20, 20, 3, 3));
    tracker.add_row_range(0, 4, 4);
    assert_eq!(tracker.get_damage(), vec![DamageRect::new(8, 3, 2, 2)]);
    tracker.mark_full();
    tracker.add_cell(0, 0);
    assert!(tracker.get_damage().is_empty());
    assert!(!tracker.is_empty());
}

#[test]
fn damage_merging_keeps_every_cell_covered() {
    let mut tracker = DamageTracker::new(200, 200);
    let mut added = Vec::new();
    for i in 0..70u32 {
        let r = DamageRect::new((i % 10) * 20, (i / 10) * 20, 2, 2);
        added.push(r);
        tracker.add(r);
    }
    let damage = tracker.get_damage();
    assert!(damage.len() <= 64);
    for r in &added {
        assert!(damage.iter().any(|d| d.contains(r)));
    }
    tracker.resize(20, 20);
    assert!(tracker.is_full());
    assert_eq!(tracker.len(), 0);
    tracker.add_all(&[DamageRect::cell(1, 1), DamageRect::cell(2, 1)]);
    assert_eq!(tracker.len(), 0);
}

#[test]
fn test_atlas_rect() {
    let rect = AtlasRect::new(10, 20, 100, 50);
    assert_eq!(rect.area(), 5000);
}

#[test]
fn test_glyph_key() {
    let key = GlyphKey::new(1, 42, 14, true, false);
    assert_eq!(key.font_id, 1);
    assert_eq!(key.glyph_id, 42);
    assert_eq!(key.size, 14);
    assert_eq!(key.style, 1);
}

#[test]
fn glyph_key_style_codes() {
    assert_eq!(GlyphKey::new(0, 0, 0, false, false).style, 0);
    assert_eq!(GlyphKey::new(0, 0, 0, false, true).style, 2);
    assert_eq!(GlyphKey::new(0, 0, 0, true, true).style, 3);
}

#[test]
fn test_cursor_shape() {
    assert_eq!(CursorShape::default(), CursorShape::Block);
}

#[test]
fn test_viewport() {
    let viewport = Viewport::default();
    assert_eq!(viewport.width, 800);
    assert_eq!(viewport.height, 600);
}

#[test]
fn sizes_are_at_least_one() {
    let size = CellSize::new(10, 20);
    assert_eq!((size.width, size.height), (10, 20));
    let size = CellSize::new(0, 0);
    assert_eq!((size.width, size.height), (1, 1));
    assert_eq!(FontSize::new(14).0, 14);
    assert_eq!(FontSize::new(0).0, 1);
}

#[test]
fn backend_defaults() {
    let c = BackendConfig::default();
    assert_eq!(c.backend, BackendType::Wgpu);
    assert_eq!((c.width, c.height, c.vsync), (800, 600, true));
    assert_ne!(BlinkState::On, BlinkState::Off);
}

#[test]
fn renderer_error_constructors() {
    assert!(matches!(RendererError::font("missing"), RendererError::Font(m) if m == "missing"));
    assert!(matches!(RendererError::atlas_full('x'), RendererError::AtlasFull('x')));
    assert!(matches!(RendererError::glyph_not_found('y'), RendererError::GlyphNotFound('y')));
    assert!(matches!(RendererError::other("boom"), RendererError::Other(m) if m == "boom"));
    assert!(matches!(RendererError::shader("s"), RendererError::Shader(m) if m == "s"));
}

#[test]
fn atlas_places_glyphs_on_shelves() {
    let mut atlas = GlyphAtlas::new(64, 64);
    assert_eq!(atlas.dimensions(), (64, 64));
    assert_eq!(atlas.memory_usage(), 4096);
    let a = GlyphKey::new(1, 1, 12, false, false);
    let b = GlyphKey::new(1, 2, 12, false, false);
    let c = GlyphKey::new(1, 3, 12, false, false);
    let ra = atlas.insert_glyph(a, 10, 8).unwrap();
    assert_eq!(ra, AtlasRect::new(0, 0, 10, 8));
    // Same height: same shelf, one texel of spacing.
    let rb = atlas.insert_glyph(b, 10, 8).unwrap();
    assert_eq!(rb, AtlasRect::new(11, 0, 10, 8));
    // Another height: a new shelf below, one texel of spacing.
    let rc = atlas.insert_glyph(c, 5, 4).unwrap();
    assert_eq!(rc, AtlasRect::new(0, 9, 5, 4));
    assert_eq!(atlas.glyph_count(), 3);
    assert_eq!(atlas.get_glyph(b), Some(rb));
    // Inserting a known glyph again gives its place back.
    assert_eq!(atlas.insert_glyph(a, 10, 8).unwrap(), ra);
    assert_eq!(atlas.glyph_count(), 3);
}

#[test]
fn atlas_rejects_bad_glyphs() {
    let mut atlas = GlyphAtlas::new(16, 16);
    let key = GlyphKey::new(0, 7, 10, true, false);
    assert!(matches!(atlas.insert_glyph(key, 0, 4), Err(RendererError::InvalidDimensions(_))));
    assert!(matches!(atlas.insert_glyph(key, 17, 4), Err(RendererError::AtlasFull(' '))));
    assert!(matches!(atlas.insert_glyph(key, 4, 17), Err(RendererError::AtlasFull(' '))));
    assert_eq!(atlas.glyph_count(), 0);
    atlas.insert_glyph(key, 4, 4).unwrap();
    atlas.clear();
    assert_eq!(atlas.glyph_count(), 0);
    assert_eq!(atlas.get_glyph(key), None);
    assert_eq!(atlas.insert_glyph(key, 4, 4).unwrap(), AtlasRect::new(0, 0, 4, 4));
}

#[test]
fn test_cursor_position_damage() {
    let mut dt = DamageTracker::new(80, 24);
    let mut cursor = CursorRenderer::new();

    // Default position is (0,0), so first set_position will mark damage
    cursor.set_position(&mut dt, 5, 10);
    let _initial = dt.take_damage();
    assert!(dt.is_empty());

    // Change position — should mark old and new as damaged
    cursor.set_position(&mut dt, 8, 11);
    let damage = dt.take_damage();
    assert_eq!(damage.len(), 2);

    // Staying put damages nothing
    cursor.set_position(&mut dt, 8, 11);
    assert!(dt.is_empty());
    assert_eq!(cursor.position(), (8, 11));
}

#[test]
fn test_cursor_visibility_damage() {
    let mut dt = DamageTracker::new(80, 24);
    let mut cursor = CursorRenderer::new();

    cursor.set_position(&mut dt, 5, 10);
    dt.clear();

    // Toggle visibility — should mark cursor cell as damaged
    cursor.set_visible(&mut dt, false);
    let damage = dt.take_damage();
    assert_eq!(damage.len(), 1);
    assert_eq!(damage[0].x, 5);
    assert_eq!(damage[0].y, 10);
    assert!(!cursor.should_render());
}

#[test]
fn test_cursor_blink_damage() {
    let mut dt = DamageTracker::new(80, 24);
    let mut cursor = CursorRenderer::new();
    cursor.set_position(&mut dt, 5, 10);
    cursor.set_blink(true);
    dt.clear();

    // Should not damage on first call (blink interval not elapsed)
    assert!(!cursor.update_blink(&mut dt, false));
    assert!(dt.is_empty());
}

#[test]
fn cursor_blink_flips_phase_when_interval_passed() {
    let mut dt = DamageTracker::new(80, 24);
    let mut cursor = CursorRenderer::new();
    cursor.set_position(&mut dt, 2, 3);
    dt.clear();
    assert!(cursor.update_blink(&mut dt, true));
    assert!(!cursor.should_render());
    assert_eq!(dt.take_damage(), vec![DamageRect::cell(2, 3)]);
    // Blinking off brings the cursor back on, without restarting the timer.
    cursor.set_blink(false);
    assert!(!cursor.update_blink(&mut dt, true));
    assert!(cursor.should_render());
    assert_eq!(dt.take_damage(), vec![DamageRect::cell(2, 3)]);
}

#[test]
fn test_cursor_activity_resets_blink() {
    let mut dt = DamageTracker::new(80, 24);
    let mut cursor = CursorRenderer::new();
    cursor.set_position(&mut dt, 5, 10);
    cursor.set_blink(true);

    // After activity, cursor should be visible (blink state = On)
    cursor.activity(&mut dt);
    assert!(cursor.should_render());
}

#[test]
fn test_cursor_shape_change_damage() {
    let mut dt = DamageTracker::new(80, 24);
    let mut cursor = CursorRenderer::new();
    cursor.set_position(&mut dt, 5, 10);
    dt.clear();

    // Change shape — should mark cursor as damaged
    cursor.set_shape(&mut dt, CursorShape::Underline);
    let damage = dt.take_damage();
    assert_eq!(damage.len(), 1);
    assert_eq!(damage[0].x, 5);
    assert_eq!(cursor.shape(), CursorShape::Underline);
}

#[test]
fn cursor_activity_ends_off_phase() {
    let mut dt = DamageTracker::new(80, 24);
    let mut cursor = CursorRenderer::new();
    cursor.update_blink(&mut dt, true);
    assert!(!cursor.should_render());
    dt.clear();
    cursor.activity(&mut dt);
    assert!(cursor.should_render());
    assert_eq!(dt.take_damage(), vec![DamageRect::cell(0, 0)]);
    // Already on: nothing to redraw.
    cursor.activity(&mut dt);
    assert!(dt.is_empty());
}

#[test]
fn test_font_style() {
    let style = FontStyle::normal();
    assert!(!style.is_bold());
    assert!(!style.is_italic());

    let bold = FontStyle::bold();
    assert!(bold.is_bold());

    let italic = FontStyle::italic();
    assert!(italic.is_italic());
}

#[test]
fn font_style_default_and_oblique() {
    assert_eq!(FontStyle::default(), FontStyle::normal());
    assert_eq!(FontStyle::normal().weight, 400);
    assert_eq!(FontStyle::bold().weight, 700);
    let oblique = FontStyle { style: FontSlant::Oblique, ..FontStyle::normal() };
    assert!(!oblique.is_italic());
    let semibold = FontStyle { weight: 600, ..FontStyle::normal() };
    assert!(!semibold.is_bold());
}

#[test]
fn test_max_entries_default() {
    let cache: GlyphCache<f32> = GlyphCache::new(GlyphAtlas::new(64, 64)).unwrap();
    assert_eq!(cache.max_entries(), 1024);
    assert!(cache.is_empty());
}

#[test]
fn glyph_cache_hits_and_misses() {
    let mut cache: GlyphCache<f32> = GlyphCache::new(GlyphAtlas::new(64, 64)).unwrap();
    let size = FontSize::new(12);
    let style = FontStyle::normal();
    assert!(cache.lookup('a', size, style).is_none());
    let placed = cache.insert('a', size, style, 6, 10, 7.5).unwrap();
    assert_eq!(placed.rect, AtlasRect::new(0, 0, 6, 10));
    assert_eq!(placed.advance_width, 7.5);
    let found = cache.lookup('a', size, style).unwrap();
    assert_eq!(found.rect, placed.rect);
    assert_eq!(found.advance_width, 7.5);
    // Another style is another glyph.
    assert!(cache.lookup('a', size, FontStyle::bold()).is_none());
    assert_eq!(cache.access_counts(), (1, 2));
    assert_eq!(cache.total_accesses(), 3);
    assert_eq!(cache.len(), 1);
    assert_eq!(cache.atlas().glyph_count(), 1);
}

#[test]
fn glyph_cache_evicts_least_recently_used() {
    let mut cache: GlyphCache<u8> = GlyphCache::with_max_entries(GlyphAtlas::new(64, 64), 2).unwrap();
    let size = FontSize::new(12);
    let style = FontStyle::normal();
    cache.insert('a', size, style, 4, 4, 1).unwrap();
    cache.insert('b', size, style, 4, 4, 2).unwrap();
    // 'a' becomes the most recently used, so 'b' goes first.
    assert!(cache.lookup('a', size, style).is_some());
    cache.insert('c', size, style, 4, 4, 3).unwrap();
    assert_eq!(cache.len(), 2);
    assert!(cache.lookup('b', size, style).is_none());
    assert!(cache.lookup('a', size, style).is_some());
    assert!(cache.lookup('c', size, style).is_some());
    // An evicted glyph keeps its place in the atlas.
    let again = cache.insert('b', size, style, 4, 4, 2).unwrap();
    assert_eq!(again.rect, AtlasRect::new(5, 0, 4, 4));
}

#[test]
fn glyph_cache_starts_over_when_atlas_full() {
    let mut cache: GlyphCache<u8> = GlyphCache::new(GlyphAtlas::new(10, 10)).unwrap();
    let size = FontSize::new(12);
    let style = FontStyle::normal();
    cache.insert('a', size, style, 8, 8, 1).unwrap();
    // No room left: everything is dropped and 'b' goes at the origin.
    let b = cache.insert('b', size, style, 8, 9, 2).unwrap();
    assert_eq!(b.rect, AtlasRect::new(0, 0, 8, 9));
    assert_eq!(cache.len(), 1);
    assert!(cache.lookup('a', size, style).is_none());
    // A glyph larger than the atlas fails even then.
    assert!(matches!(cache.insert('c', size, style, 11, 1, 3), Err(RendererError::AtlasFull(' '))));
    assert!(cache.is_empty());
    cache.insert('d', size, style, 2, 2, 4).unwrap();
    cache.clear();
    assert!(cache.is_empty());
    assert_eq!(cache.atlas().glyph_count(), 0);
}

#[test]
fn cpu_backend_surface() {
    let mut b = CpuBackend::new();
    assert_eq!(b.backend_type(), BackendType::Cpu);
    assert!(b.is_ready());
    assert_eq!(b.size(), (0, 0));
    b.initialize(4, 3).unwrap();
    assert_eq!(b.size(), (4, 3));
    assert_eq!(b.framebuffer().len(), 48);
    b.resize(2, 2).unwrap();
    assert_eq!(b.framebuffer().len(), 16);
    assert!(b.begin_frame().is_ok());
    assert!(b.framebuffer().iter().all(|&x| x == 0));
    assert!(b.end_frame().is_ok());
    assert!(b.present().is_ok());
}

#[test]
fn cpu_backend_handles_count_up() {
    let mut b = CpuBackend::default();
    let t = b.create_atlas_texture(8, 8).unwrap();
    assert_eq!((t.id, t.width, t.height), (1, 8, 8));
    let v = b.create_vertex_buffer(&[1, 2, 3]).unwrap();
    assert_eq!((v.id, v.size), (2, 3));
    let i = b.create_index_buffer(&[0, 0, 1, 0, 2]).unwrap();
    assert_eq!((i.id, i.count), (3, 2));
    let u = b.create_uniform_buffer(&[9; 16]).unwrap();
    assert_eq!((u.id, u.size), (4, 16));
}

#[test]
fn cpu_backend_buffers_update_in_place() {
    let mut b = CpuBackend::new();
    let v = b.create_vertex_buffer(&[1, 2, 3, 4]).unwrap();
    assert!(b.update_buffer(v.id, &[7, 8]).is_ok());
    assert!(matches!(b.update_buffer(v.id, &[0; 5]), Err(RendererError::Backend(m)) if m == "Buffer too small"));
    assert!(matches!(b.update_buffer(99, &[0]), Err(RendererError::Backend(m)) if m == "Buffer not found"));
}

#[test]
fn cpu_backend_atlas_upload_skips_rows_outside() {
    let mut b = CpuBackend::new();
    let t = b.create_atlas_texture(4, 3).unwrap();
    // A 2 x 2 image at (1, 2): only its first row fits in the texture.
    assert!(b.update_atlas(&t, 1, 2, 2, 2, &[5, 6, 7, 8]).is_ok());
    let missing = comet::render::AtlasTexture { id: 42, width: 1, height: 1 };
    assert!(matches!(
        b.update_atlas(&missing, 0, 0, 1, 1, &[1]),
        Err(RendererError::Backend(m)) if m == "Texture not found"
    ));
}

#[test]
fn cell_colours_resolve_against_the_palette() {
    let mut p = ColorPalette::default();
    p.set_ansi(1, Rgba::rgb(200, 0, 0));
    assert_eq!(resolve_color(Color::Default, &p), p.default_fg);
    assert_eq!(resolve_color(Color::Red, &p), Rgba::rgb(200, 0, 0));
    assert_eq!(resolve_color(Color::Indexed(1), &p), Rgba::rgb(200, 0, 0));
    assert_eq!(resolve_color(Color::Indexed(196), &p), ansi_256_color(196));
    assert_eq!(resolve_color(Color::Rgb(1, 2, 3), &p), Rgba::new(1, 2, 3, 255));
    assert_eq!(resolve_color(Color::BrightWhite, &p), p.ansi[15]);
}

#[test]
fn renderer_error_wgpu_stage_constructors() {
    assert!(matches!(RendererError::pipeline_creation("p"), RendererError::PipelineCreation(m) if m == "p"));
    assert!(matches!(RendererError::bind_group_creation("b"), RendererError::BindGroupCreation(m) if m == "b"));
    assert!(matches!(RendererError::buffer_creation("c"), RendererError::BufferCreation(m) if m == "c"));
    assert!(matches!(RendererError::texture_creation("t"), RendererError::TextureCreation(m) if m == "t"));
    assert!(matches!(RendererError::buffer_write("w"), RendererError::BufferWrite(m) if m == "w"));
    assert!(matches!(RendererError::command_submission("s"), RendererError::CommandSubmission(m) if m == "s"));
    assert!(matches!(RendererError::surface_config("f"), RendererError::SurfaceConfig(m) if m == "f"));
}

#[test]
fn glyph_cache_auto_resize_setting_keeps_glyphs() {
    let mut cache: GlyphCache<u8> = GlyphCache::new(GlyphAtlas::new(16, 16)).unwrap();
    cache.insert('a', FontSize::new(8), FontStyle::normal(), 2, 2, 1).unwrap();
    cache.set_auto_resize(false);
    assert_eq!(cache.len(), 1);
}

#[test]
fn damage_over_the_limit_joins_smallest_into_nearest() {
    let mut dt = DamageTracker::new(200, 10);
    for i in 0..65u32 {
        dt.add_cell(2 * i, 0);
    }
    let d = dt.get_damage();
    assert_eq!(d.len(), 64);
    assert_eq!(d[0], DamageRect::new(0, 0, 3, 1));
    assert_eq!(d[1], DamageRect::cell(4, 0));
    assert_eq!(d[63], DamageRect::cell(128, 0));
}
