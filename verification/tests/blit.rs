use epaper_station::error::WmError;
use epaper_station::screen::Color;
use epaper_station::screen::Screen;

#[test]
fn all_ones_blit_black_sets_rectangle_only() {
    let mut s = Screen::new(16, 8, Color::White);
    let ones = vec![0xffu8; 8 * 4 / 8];
    s.bitmap(0, 0, 8, 4, &ones, Color::Black).unwrap();
    for y in 0..8 {
        for x in 0..16 {
            let inside = x < 8 && y < 4;
            let expected = if inside { Color::Black } else { Color::White };
            assert_eq!(s.get_pixel(x, y).unwrap(), expected);
        }
    }
    // The red plane was never touched.
    for b in &s.red_bitmap {
        assert_eq!(*b, 0);
    }
}

#[test]
fn inverted_red_blit_of_zero_buffer_equals_red_rectangle() {
    let mut blitted = Screen::new(16, 8, Color::White);
    blitted.set_pixel(0, 0, Color::Black).unwrap();
    blitted.set_pixel(15, 7, Color::Red).unwrap();
    let mut filled = Screen::new(16, 8, Color::White);
    filled.set_pixel(0, 0, Color::Black).unwrap();
    filled.set_pixel(15, 7, Color::Red).unwrap();

    let zeros = vec![0u8; 8 * 3 / 8];
    blitted.bitmap(4, 2, 8, 3, &zeros, Color::InvRed).unwrap();
    filled.rectangle(4, 2, 8, 3, Color::Red).unwrap();
    for y in 0..8 {
        for x in 0..16 {
            assert_eq!(blitted.get_pixel(x, y).unwrap(), filled.get_pixel(x, y).unwrap());
        }
    }
    assert_eq!(blitted.black_bitmap, filled.black_bitmap);
    assert_eq!(blitted.red_bitmap, filled.red_bitmap);
}

#[test]
fn blit_source_bits_are_msb_first() {
    let mut s = Screen::new(16, 8, Color::White);
    // One row of eight pixels: 0b10100000 sets columns 0 and 2.
    s.bitmap(0, 0, 8, 1, &[0b1010_0000u8], Color::Black).unwrap();
    assert_eq!(s.get_pixel(0, 0).unwrap(), Color::Black);
    assert_eq!(s.get_pixel(1, 0).unwrap(), Color::White);
    assert_eq!(s.get_pixel(2, 0).unwrap(), Color::Black);
    for x in 3..8 {
        assert_eq!(s.get_pixel(x, 0).unwrap(), Color::White);
    }
}

#[test]
fn blit_rows_use_row_stride() {
    let mut s = Screen::new(16, 8, Color::Red);
    // Two rows of eight: the first all set, the second only column 7.
    s.bitmap(8, 6, 8, 2, &[0xffu8, 0x01u8], Color::Black).unwrap();
    for x in 8..16 {
        assert_eq!(s.get_pixel(x, 6).unwrap(), Color::Black);
    }
    for x in 8..15 {
        assert_eq!(s.get_pixel(x, 7).unwrap(), Color::Red);
    }
    assert_eq!(s.get_pixel(15, 7).unwrap(), Color::Black);
}

#[test]
fn blit_is_additive_overlay() {
    let mut s = Screen::new(16, 8, Color::White);
    s.set_pixel(1, 0, Color::Red).unwrap();
    // Source bit set only for column 0: column 1 keeps its red pixel.
    s.bitmap(0, 0, 8, 1, &[0b1000_0000u8], Color::Black).unwrap();
    assert_eq!(s.get_pixel(0, 0).unwrap(), Color::Black);
    assert_eq!(s.get_pixel(1, 0).unwrap(), Color::Red);
}

#[test]
fn blit_length_mismatch_fails_unchanged() {
    let mut s = Screen::new(16, 8, Color::White);
    let short = vec![0xffu8; 3];
    assert!(matches!(s.bitmap(0, 0, 8, 4, &short, Color::Black), Err(WmError::InvalidArgument)));
    for y in 0..8 {
        for x in 0..16 {
            assert_eq!(s.get_pixel(x, y).unwrap(), Color::White);
        }
    }
}

#[test]
fn blit_out_of_bounds_fails_unchanged() {
    let mut s = Screen::new(16, 8, Color::White);
    let ones = vec![0xffu8; 8 * 2 / 8];
    assert!(matches!(s.bitmap(12, 0, 8, 2, &ones, Color::Black), Err(WmError::InvalidArgument)));
    assert!(matches!(s.bitmap(0, 7, 8, 2, &ones, Color::Black), Err(WmError::InvalidArgument)));
    for y in 0..8 {
        for x in 0..16 {
            assert_eq!(s.get_pixel(x, y).unwrap(), Color::White);
        }
    }
}

#[test]
fn blit_inverted_black_draws_where_bits_are_clear() {
    let mut s = Screen::new(16, 8, Color::White);
    s.bitmap(0, 0, 8, 1, &[0b1111_0000u8], Color::InvBlack).unwrap();
    for x in 0..4 {
        assert_eq!(s.get_pixel(x, 0).unwrap(), Color::White);
    }
    for x in 4..8 {
        assert_eq!(s.get_pixel(x, 0).unwrap(), Color::Black);
    }
}
