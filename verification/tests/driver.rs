use epaper_station::device::BusOp;
use epaper_station::device::Device;
use epaper_station::device::PortEvent;
use epaper_station::device::RecordingPort;
use epaper_station::error::WmError;
use epaper_station::screen::Color;
use epaper_station::screen::Screen;
use epaper_station::ssd1683::build_ram_data;
use epaper_station::ssd1683::SSD1683;
use vstd::prelude::Seq;

fn cmd(c: u8) -> PortEvent {
    PortEvent::Command(c)
}

fn data(bytes: &[u8]) -> PortEvent {
    PortEvent::Data(bytes.to_vec())
}

#[test]
fn draw_all_white_canvas_emits_expected_payloads() {
    let s = Screen::new(16, 8, Color::White);
    let mut driver = SSD1683::new(RecordingPort::new());
    driver.draw(&s, false).unwrap();
    let expected = vec![
        PortEvent::Reset(false),
        PortEvent::Reset(true),
        cmd(0x12),
        cmd(0x01),
        data(&[7, 0, 0]),
        cmd(0x3A),
        data(&[0x1B]),
        cmd(0x3B),
        data(&[0x0B]),
        cmd(0x11),
        data(&[0x03]),
        cmd(0x44),
        data(&[0, 1]),
        cmd(0x45),
        data(&[0, 0, 7, 0]),
        cmd(0x2C),
        data(&[0x70]),
        cmd(0x3C),
        data(&[0x01]),
        cmd(0x4E),
        data(&[0x00]),
        cmd(0x4F),
        data(&[0, 0]),
        cmd(0x24),
        data(&[0xff; 16]),
        cmd(0x26),
        data(&[0x00; 16]),
        cmd(0x20),
    ];
    assert_eq!(driver.device.events, expected);
}

#[test]
fn partial_draw_selects_partial_activation() {
    let s = Screen::new(16, 8, Color::White);
    let mut driver = SSD1683::new(RecordingPort::new());
    driver.draw(&s, true).unwrap();
    let n = driver.device.events.len();
    assert_eq!(driver.device.events[n - 3], cmd(0x22));
    assert_eq!(driver.device.events[n - 2], data(&[0xFF]));
    assert_eq!(driver.device.events[n - 1], cmd(0x20));
}

#[test]
fn draw_border_bytes_follow_border_color() {
    for (border, byte) in [(Color::White, 0x01u8), (Color::Black, 0x00u8), (Color::Red, 0x06u8)] {
        let s = Screen::new(16, 8, border);
        let mut driver = SSD1683::new(RecordingPort::new());
        driver.draw(&s, false).unwrap();
        let events = &driver.device.events;
        let at = events.iter().position(|e| *e == cmd(0x3C)).unwrap();
        assert_eq!(events[at + 1], data(&[byte]));
    }
}

#[test]
fn draw_invalid_border_fails_before_transmitting() {
    let s = Screen::new(16, 8, Color::InvRed);
    let mut driver = SSD1683::new(RecordingPort::new());
    let r = driver.draw(&s, false);
    assert!(matches!(r, Err(WmError::InvalidArgument)));
    assert!(driver.device.events.is_empty());
}

#[test]
fn draw_serializes_mixed_canvas() {
    // One black and one red pixel on a white canvas: white-plane bits are
    // set everywhere else, the red plane only at the red pixel.
    let mut s = Screen::new(16, 8, Color::White);
    s.set_pixel(0, 0, Color::Black).unwrap();
    s.set_pixel(8, 0, Color::Red).unwrap();
    let mut driver = SSD1683::new(RecordingPort::new());
    driver.draw(&s, false).unwrap();
    let events = &driver.device.events;
    let at = events.iter().position(|e| *e == cmd(0x24)).unwrap();
    let bw = match &events[at + 1] {
        PortEvent::Data(d) => d.clone(),
        other => panic!("expected a data burst, got {:?}", other),
    };
    // Pixel 0 is black, pixel 8 red: the first two payload bytes lose
    // their top bits; everything else is white.
    assert_eq!(bw[0], 0x7f);
    assert_eq!(bw[1], 0x7f);
    for b in &bw[2..] {
        assert_eq!(*b, 0xff);
    }
    let at = events.iter().position(|e| *e == cmd(0x26)).unwrap();
    let red = match &events[at + 1] {
        PortEvent::Data(d) => d.clone(),
        other => panic!("expected a data burst, got {:?}", other),
    };
    assert_eq!(red[1], 0x80);
    for (i, b) in red.iter().enumerate() {
        if i != 1 {
            assert_eq!(*b, 0);
        }
    }
}

#[test]
fn build_ram_data_packs_msb_first() {
    let mut s = Screen::new(16, 8, Color::White);
    s.set_pixel(0, 0, Color::Red).unwrap();
    s.set_pixel(7, 0, Color::Red).unwrap();
    let red = build_ram_data(&s, Color::Red);
    assert_eq!(red.len(), 16);
    assert_eq!(red[0], 0b1000_0001);
    let white = build_ram_data(&s, Color::White);
    assert_eq!(white[0], 0b0111_1110);
}

/// A port whose bus fails on the nth transmission.
struct FlakyPort {
    sent: usize,
    fail_at: usize,
}

impl Device for FlakyPort {
    fn transcript(&self) -> Seq<BusOp> {
        unreachable!()
    }

    fn send_command(&mut self, _cmd: u8) -> Result<(), WmError> {
        self.sent += 1;
        if self.sent >= self.fail_at {
            Err(WmError::HardwareIO)
        } else {
            Ok(())
        }
    }

    fn send_data(&mut self, _data: &[u8]) -> Result<(), WmError> {
        self.sent += 1;
        if self.sent >= self.fail_at {
            Err(WmError::HardwareIO)
        } else {
            Ok(())
        }
    }

    fn set_reset(&mut self, _level: bool) -> Result<(), WmError> {
        self.sent += 1;
        if self.sent >= self.fail_at {
            Err(WmError::HardwareIO)
        } else {
            Ok(())
        }
    }

    fn read_busy(&self) -> bool {
        false
    }

    fn delay_ms(&self, _ms: u32) {}
}

#[test]
fn draw_aborts_on_bus_failure() {
    for fail_at in [1, 3, 10, 25] {
        let s = Screen::new(16, 8, Color::White);
        let mut driver = SSD1683::new(FlakyPort { sent: 0, fail_at });
        assert!(matches!(driver.draw(&s, false), Err(WmError::HardwareIO)));
    }
}

/// A port whose busy line never clears.
struct StuckPort;

impl Device for StuckPort {
    fn transcript(&self) -> Seq<BusOp> {
        unreachable!()
    }

    fn send_command(&mut self, _cmd: u8) -> Result<(), WmError> {
        Ok(())
    }

    fn send_data(&mut self, _data: &[u8]) -> Result<(), WmError> {
        Ok(())
    }

    fn set_reset(&mut self, _level: bool) -> Result<(), WmError> {
        Ok(())
    }

    fn read_busy(&self) -> bool {
        true
    }

    fn delay_ms(&self, _ms: u32) {}
}

#[test]
fn stuck_busy_line_fails_with_bounded_polling() {
    let s = Screen::new(16, 8, Color::White);
    let mut driver = SSD1683::with_poll_limit(StuckPort, 3);
    assert!(matches!(driver.draw(&s, false), Err(WmError::HardwareIO)));
}
