use epaper_station::config::Config;
use epaper_station::error::WmError;
use epaper_station::icons::build_32x32_icon;
use epaper_station::icons::get_bit;
use epaper_station::schedule::require_refresh;
use epaper_station::sensor::crc_check;
use epaper_station::sensor::decode_reading;

#[test]
fn crc_check_accepts_matching_checksum() {
    assert!(crc_check(&[0, 0, 0, 0, 0, 0, 0x6a]));
    assert!(crc_check(&[0x01, 0x02, 0x03, 0x04, 0x05, 0x06, 0xce]));
    assert!(crc_check(&[0xAC, 0x33, 0x00, 0x12, 0x34, 0x56, 0x0b]));
}

#[test]
fn crc_check_rejects_corrupted_transfer() {
    assert!(!crc_check(&[0, 0, 0, 0, 0, 0, 0x6b]));
    assert!(!crc_check(&[0x01, 0x02, 0x03, 0x04, 0x05, 0x07, 0xce]));
}

#[test]
fn decode_reading_splits_the_twenty_bit_counts() {
    let transfer = [0x1C, 0x66, 0x66, 0x65, 0xEE, 0x66, 0x92];
    assert!(crc_check(&transfer));
    let (raw_h, raw_t) = decode_reading(&transfer);
    assert_eq!(raw_h, 419430);
    assert_eq!(raw_t, 388710);
    // Full-scale and zero transfers hit the count bounds.
    let (raw_h, raw_t) = decode_reading(&[0, 0xFF, 0xFF, 0xFF, 0xFF, 0xFF, 0]);
    assert_eq!(raw_h, 1048575);
    assert_eq!(raw_t, 1048575);
    let (raw_h, raw_t) = decode_reading(&[0xFF, 0, 0, 0, 0, 0, 0xFF]);
    assert_eq!(raw_h, 0);
    assert_eq!(raw_t, 0);
}

#[test]
fn get_bit_reads_msb_first_row_major() {
    let image = [0b1000_0010u8, 0b0000_0001u8];
    assert_eq!(get_bit(&image, 8, 0, 0), 1);
    assert_eq!(get_bit(&image, 8, 0, 1), 0);
    assert_eq!(get_bit(&image, 8, 0, 6), 1);
    assert_eq!(get_bit(&image, 8, 1, 7), 1);
    assert_eq!(get_bit(&image, 8, 1, 0), 0);
    // A sixteen-wide layout reads the same bytes as one row.
    assert_eq!(get_bit(&image, 16, 0, 15), 1);
}

#[test]
fn icon_downsample_keeps_solid_blocks() {
    let ones = vec![0xffu8; 512];
    let out = build_32x32_icon(&ones);
    assert_eq!(out.len(), 128);
    assert!(out.iter().all(|b| *b == 0xff));
    let zeros = vec![0u8; 512];
    let out = build_32x32_icon(&zeros);
    assert!(out.iter().all(|b| *b == 0));
}

#[test]
fn icon_downsample_takes_majority_of_each_block() {
    let mut image = vec![0u8; 512];
    // Three of the four bits of the top-left 2 x 2 block.
    image[0] = 0b1100_0000;
    image[8] = 0b1000_0000;
    let out = build_32x32_icon(&image);
    assert_eq!(out[0], 0b1000_0000);
    for b in &out[1..] {
        assert_eq!(*b, 0);
    }
    // Two bits are not a majority.
    let mut image = vec![0u8; 512];
    image[0] = 0b1100_0000;
    let out = build_32x32_icon(&image);
    assert!(out.iter().all(|b| *b == 0));
}

#[test]
fn refresh_is_due_at_the_top_of_waking_hours() {
    assert!(require_refresh(7, 0, 0));
    assert!(require_refresh(12, 0, 0));
    assert!(require_refresh(23, 0, 0));
    assert!(!require_refresh(6, 0, 0));
    assert!(!require_refresh(0, 0, 0));
    assert!(!require_refresh(12, 30, 0));
    assert!(!require_refresh(12, 0, 1));
    assert!(!require_refresh(24, 0, 0));
}

#[test]
fn config_defaults_match_the_shipped_panel() {
    let c = Config::default();
    assert_eq!(c.screen_width, 400);
    assert_eq!(c.screen_height, 300);
    assert_eq!(c.wifi_ssid, "");
    assert_eq!(c.wifi_psk, "");
    assert_eq!(c.qweather_key, "");
    assert_eq!(c.location, "");
    assert_eq!(c.city, "");
}

#[test]
fn error_messages_name_the_failure() {
    assert_eq!(WmError::InvalidArgument.message(), "Invalid Argument");
    assert_eq!(WmError::HardwareIO.message(), "Hardware IO Error");
    assert_eq!(WmError::GlyphNotFound('x').message(), "Glyph Not Found");
    assert_eq!(WmError::InternalError.message(), "Internal Error");
    assert_eq!(WmError::GlyphNotFound('x'), WmError::GlyphNotFound('x'));
    assert_ne!(WmError::GlyphNotFound('x'), WmError::GlyphNotFound('y'));
}
