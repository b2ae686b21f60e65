use epaper_station::error::WmError;
use epaper_station::glyphs::GlyphSet;
use epaper_station::screen::Color;
use epaper_station::screen::Screen;

/// A glyph table whose every glyph is an 8-pixel-wide, 16-pixel-tall
/// solid block.
fn solid_8x16_set(chars: &[char]) -> GlyphSet {
    let mut set = GlyphSet::new(16);
    for &ch in chars {
        assert!(set.add_glyph(ch, vec![0xffu8; 16]));
    }
    set
}

#[test]
fn text_wraps_exactly_once_on_ten_chars() {
    let glyphs = solid_8x16_set(&['a']);
    let mut s = Screen::new(64, 64, Color::White);
    let cursor = s.text(0, 0, 16, "aaaaaaaaaa", Color::Black, &glyphs).unwrap();
    // Eight glyphs fill the first line; the ninth wraps; two stand on the
    // second line, so the cursor ends at 16.
    assert_eq!(cursor, 16);
    for x in 0..64 {
        for y in 0..16 {
            assert_eq!(s.get_pixel(x, y).unwrap(), Color::Black);
        }
    }
    for x in 0..64 {
        for y in 16..32 {
            let expected = if x < 16 { Color::Black } else { Color::White };
            assert_eq!(s.get_pixel(x, y).unwrap(), expected);
        }
    }
    for x in 0..64 {
        for y in 32..64 {
            assert_eq!(s.get_pixel(x, y).unwrap(), Color::White);
        }
    }
}

#[test]
fn text_newline_resets_cursor_and_advances_line() {
    let glyphs = solid_8x16_set(&['a']);
    let mut s = Screen::new(64, 64, Color::White);
    let cursor = s.text(8, 0, 16, "a\na", Color::Red, &glyphs).unwrap();
    assert_eq!(cursor, 16);
    assert_eq!(s.get_pixel(8, 0).unwrap(), Color::Red);
    assert_eq!(s.get_pixel(8, 16).unwrap(), Color::Red);
    assert_eq!(s.get_pixel(16, 0).unwrap(), Color::White);
    assert_eq!(s.get_pixel(0, 16).unwrap(), Color::White);
}

#[test]
fn text_returns_cursor_for_chaining() {
    let glyphs = solid_8x16_set(&['a', 'b']);
    let mut s = Screen::new(64, 32, Color::White);
    let cursor = s.text(0, 0, 16, "ab", Color::Black, &glyphs).unwrap();
    assert_eq!(cursor, 16);
    let cursor = s.text(cursor, 0, 16, "a", Color::Red, &glyphs).unwrap();
    assert_eq!(cursor, 24);
    assert_eq!(s.get_pixel(15, 0).unwrap(), Color::Black);
    assert_eq!(s.get_pixel(16, 0).unwrap(), Color::Red);
}

#[test]
fn text_unsupported_fontsize_fails() {
    let glyphs = solid_8x16_set(&['a']);
    let mut s = Screen::new(64, 32, Color::White);
    assert!(matches!(s.text(0, 0, 32, "a", Color::Black, &glyphs), Err(WmError::InvalidArgument)));
    assert!(matches!(s.text(0, 0, 0, "a", Color::Black, &glyphs), Err(WmError::InvalidArgument)));
    for x in 0..64 {
        for y in 0..32 {
            assert_eq!(s.get_pixel(x, y).unwrap(), Color::White);
        }
    }
}

#[test]
fn text_missing_glyph_aborts_without_rollback() {
    let glyphs = solid_8x16_set(&['a']);
    let mut s = Screen::new(64, 32, Color::White);
    let r = s.text(0, 0, 16, "az", Color::Black, &glyphs);
    assert!(matches!(r, Err(WmError::GlyphNotFound('z'))));
    // The glyph drawn before the failure stays on the canvas.
    assert_eq!(s.get_pixel(0, 0).unwrap(), Color::Black);
    assert_eq!(s.get_pixel(7, 15).unwrap(), Color::Black);
}

#[test]
fn text_glyph_taller_than_canvas_fails() {
    let glyphs = solid_8x16_set(&['a']);
    let mut s = Screen::new(64, 8, Color::White);
    assert!(matches!(s.text(0, 0, 16, "a", Color::Black, &glyphs), Err(WmError::InvalidArgument)));
}

#[test]
fn text_draws_glyph_pattern_exactly() {
    let mut set = GlyphSet::new(16);
    // Alternating full and empty rows.
    let mut pattern = Vec::new();
    for row in 0..16 {
        pattern.push(if row % 2 == 0 { 0xffu8 } else { 0x00u8 });
    }
    assert!(set.add_glyph('s', pattern));
    let mut s = Screen::new(64, 32, Color::White);
    s.text(4, 2, 16, "s", Color::Black, &set).unwrap();
    for y in 0..16 {
        for x in 0..8 {
            let expected = if y % 2 == 0 { Color::Black } else { Color::White };
            assert_eq!(s.get_pixel(4 + x, 2 + y).unwrap(), expected);
        }
    }
}

#[test]
fn glyph_table_rejects_duplicates() {
    let mut set = GlyphSet::new(16);
    assert!(set.add_glyph('a', vec![0u8; 16]));
    assert!(!set.add_glyph('a', vec![0xffu8; 16]));
    assert!(set.add_glyph('b', vec![0u8; 16]));
}
