//! SSD1683 e-paper panel driver: the two-plane write-and-activate
//! protocol.
//!
//! A draw runs the reset handshake, programs the controller's registers
//! (gate count, timing, data-entry mode, RAM window, VCOM, border
//! waveform, RAM counters), streams both serialized planes into the
//! controller's RAM, waits for the busy line and triggers the physical
//! refresh. The controller reads 1 as white in its first RAM plane, so
//! the black/white payload carries a set bit exactly where a pixel is
//! `White`; the red plane is carried at face value.
use crate::device::BusOp;
use crate::device::Device;
use crate::error::WmError;
use crate::screen::Color;
use crate::screen::Screen;
use vstd::prelude::*;

verus! {

pub const DRIVER_CONTROL: u8 = 0x01;
pub const WRITE_DUMMY: u8 = 0x3A;
pub const WRITE_GATELINE: u8 = 0x3B;
pub const DATA_MODE: u8 = 0x11;
pub const SET_RAMXPOS: u8 = 0x44;
pub const SET_RAMYPOS: u8 = 0x45;
pub const WRITE_VCOM: u8 = 0x2C;
pub const WRITE_BORDER: u8 = 0x3C;
pub const SET_RAMXCOUNT: u8 = 0x4E;
pub const SET_RAMYCOUNT: u8 = 0x4F;
pub const WRITE_RAM: u8 = 0x24;
pub const WRITE_ALTRAM: u8 = 0x26;
pub const UPDATE_CONTROL: u8 = 0x22;
pub const MASTER_ACTIVATE: u8 = 0x20;
pub const SOFT_RESET: u8 = 0x12;

/// How often the busy line is polled (every 10 ms) before the driver
/// gives the draw up as a hardware fault.
pub const DEFAULT_BUSY_POLLS: u32 = 360000;

/// Indicator bit: 1 exactly when the pixel at `pos` matches `c`.
pub open spec fn pix_ind(g: Seq<Color>, c: Color, pos: int) -> u8 {
    if g[pos] == c {
        1u8
    } else {
        0u8
    }
}

/// Payload byte `i` of the RAM serialization for color `c`: the eight
/// pixels `8 * i ..< 8 * i + 8`, most significant bit first, each bit set
/// exactly where the pixel matches `c`.
pub open spec fn ram_byte(g: Seq<Color>, c: Color, i: int) -> u8 {
    (pix_ind(g, c, 8 * i) << 7) | (pix_ind(g, c, 8 * i + 1) << 6) | (pix_ind(g, c, 8 * i + 2)
        << 5) | (pix_ind(g, c, 8 * i + 3) << 4) | (pix_ind(g, c, 8 * i + 4) << 3) | (pix_ind(
        g,
        c,
        8 * i + 5,
    ) << 2) | (pix_ind(g, c, 8 * i + 6) << 1) | pix_ind(g, c, 8 * i + 7)
}

/// The full RAM payload for color `c`: one byte for every eight pixels.
pub open spec fn ram_bytes(g: Seq<Color>, c: Color) -> Seq<u8> {
    Seq::new((g.len() as int / 8) as nat, |i: int| ram_byte(g, c, i))
}

/// Whether a border color can be programmed into the border-waveform
/// register; the inverted blit modifiers are a protocol violation here.
pub open spec fn border_valid(c: Color) -> bool {
    c is White || c is Black || c is Red
}

/// The border-waveform register value for a valid border color.
pub open spec fn border_byte(c: Color) -> u8 {
    match c {
        Color::White => 0x01,
        Color::Red => 0x06,
        _ => 0x00,
    }
}

/// Every transmission of a full draw of `g` on a `w x h` panel, in
/// order: the reset handshake, the register programming, both RAM
/// payloads, and the activation (preceded, for a partial refresh, by the
/// update-control variant selection).
pub open spec fn draw_transcript(
    w: int,
    h: int,
    border: Color,
    g: Seq<Color>,
    partial: bool,
) -> Seq<BusOp> {
    seq![
        BusOp::Reset(false),
        BusOp::Reset(true),
        BusOp::Command(SOFT_RESET),
        BusOp::Command(DRIVER_CONTROL),
        BusOp::Data(seq![((h - 1) % 256) as u8, ((h - 1) / 256) as u8, 0u8]),
        BusOp::Command(WRITE_DUMMY),
        BusOp::Data(seq![0x1Bu8]),
        BusOp::Command(WRITE_GATELINE),
        BusOp::Data(seq![0x0Bu8]),
        BusOp::Command(DATA_MODE),
        BusOp::Data(seq![0x03u8]),
        BusOp::Command(SET_RAMXPOS),
        BusOp::Data(seq![0u8, (w / 8 - 1) as u8]),
        BusOp::Command(SET_RAMYPOS),
        BusOp::Data(seq![0u8, 0u8, ((h - 1) % 256) as u8, ((h - 1) / 256) as u8]),
        BusOp::Command(WRITE_VCOM),
        BusOp::Data(seq![0x70u8]),
        BusOp::Command(WRITE_BORDER),
        BusOp::Data(seq![border_byte(border)]),
        BusOp::Command(SET_RAMXCOUNT),
        BusOp::Data(seq![0u8]),
        BusOp::Command(SET_RAMYCOUNT),
        BusOp::Data(seq![0u8, 0u8]),
        BusOp::Command(WRITE_RAM),
        BusOp::Data(ram_bytes(g, Color::White)),
        BusOp::Command(WRITE_ALTRAM),
        BusOp::Data(ram_bytes(g, Color::Red)),
    ] + (if partial {
        seq![BusOp::Command(UPDATE_CONTROL), BusOp::Data(seq![0xFFu8])]
    } else {
        Seq::<BusOp>::empty()
    }) + seq![BusOp::Command(MASTER_ACTIVATE)]
}

/// Law: on an all-white canvas every byte of the black/white payload is
/// `0xFF` — this controller reads 1 as white in its first plane — and
/// every byte of the red payload is `0x00`.
pub proof fn lemma_white_frame_payload(g: Seq<Color>, i: int)
    requires
        g.len() % 8 == 0,
        forall|p: int| 0 <= p < g.len() ==> g[p] == Color::White,
        0 <= i < g.len() as int / 8,
    ensures
        ram_byte(g, Color::White, i) == 0xffu8,
        ram_byte(g, Color::Red, i) == 0x00u8,
{
    assert(8 * (g.len() as int / 8) == g.len()) by (nonlinear_arith)
        requires
            g.len() % 8 == 0,
    ;
    assert((1u8 << 7) | (1u8 << 6) | (1u8 << 5) | (1u8 << 4) | (1u8 << 3) | (1u8 << 2) | (1u8 << 1)
        | 1u8 == 0xffu8) by (bit_vector);
    assert((0u8 << 7) | (0u8 << 6) | (0u8 << 5) | (0u8 << 4) | (0u8 << 3) | (0u8 << 2) | (0u8 << 1)
        | 0u8 == 0x00u8) by (bit_vector);
}

/// Serializes the canvas into a RAM payload: one bit per pixel, set
/// exactly where the pixel matches `color`, packed most significant bit
/// first in row-major order.
pub fn build_ram_data(screen: &Screen, color: Color) -> (v: Vec<u8>)
    requires
        screen.wf(),
    ensures
        v@ == ram_bytes(screen.grid(), color),
{
    let total: usize = screen.get_width() * screen.get_height();
    let nbytes: usize = total / 8;
    let ghost g = screen.grid();
    let mut v: Vec<u8> = Vec::new();
    let mut i: usize = 0;
    while i < nbytes
        invariant
            i <= nbytes,
            nbytes == screen.area() / 8,
            screen.wf(),
            g == screen.grid(),
            v@.len() == i,
            forall|k: int| 0 <= k < i ==> v@[k] == ram_byte(g, color, k),
        decreases nbytes - i,
    {
        proof {
            assert(8 * (screen.area() / 8) == screen.area()) by (nonlinear_arith)
                requires
                    screen.area() % 8 == 0,
            ;
        }
        let base: usize = 8 * i;
        let b0: u8 = if screen.pixel_at_pos(base) == color {
            1
        } else {
            0
        };
        let b1: u8 = if screen.pixel_at_pos(base + 1) == color {
            1
        } else {
            0
        };
        let b2: u8 = if screen.pixel_at_pos(base + 2) == color {
            1
        } else {
            0
        };
        let b3: u8 = if screen.pixel_at_pos(base + 3) == color {
            1
        } else {
            0
        };
        let b4: u8 = if screen.pixel_at_pos(base + 4) == color {
            1
        } else {
            0
        };
        let b5: u8 = if screen.pixel_at_pos(base + 5) == color {
            1
        } else {
            0
        };
        let b6: u8 = if screen.pixel_at_pos(base + 6) == color {
            1
        } else {
            0
        };
        let b7: u8 = if screen.pixel_at_pos(base + 7) == color {
            1
        } else {
            0
        };
        let byte: u8 = (b0 << 7) | (b1 << 6) | (b2 << 5) | (b3 << 4) | (b4 << 3) | (b5 << 2) | (b6
            << 1) | b7;
        v.push(byte);
        i = i + 1;
    }
    proof {
        assert(v@ =~= ram_bytes(g, color));
    }
    v
}

/// The SSD1683 protocol engine over a device port. The busy line is
/// polled every 10 ms, at most `busy_poll_limit` times per wait; a line
/// that never clears fails the draw with `HardwareIO` instead of hanging
/// it forever.
pub struct SSD1683<D: Device> {
    pub device: D,
    pub busy_poll_limit: u32,
}

impl<D: Device> SSD1683<D> {
    /// A driver over the given port with the default busy-poll budget
    /// (one hour).
    pub fn new(device: D) -> (r: SSD1683<D>)
        ensures
            r.device == device,
            r.busy_poll_limit == DEFAULT_BUSY_POLLS,
    {
        SSD1683 { device, busy_poll_limit: DEFAULT_BUSY_POLLS }
    }

    /// A driver with an explicit busy-poll budget, for harnesses whose
    /// mock busy line never clears.
    pub fn with_poll_limit(device: D, busy_poll_limit: u32) -> (r: SSD1683<D>)
        ensures
            r.device == device,
            r.busy_poll_limit == busy_poll_limit,
    {
        SSD1683 { device, busy_poll_limit }
    }

    /// Blocks until the busy line deasserts, polling every 10 ms; gives
    /// up with `HardwareIO` after `busy_poll_limit` polls.
    fn wait_for_busy(&self) -> (r: Result<(), WmError>)
        ensures
            r is Err ==> r == Err::<(), WmError>(WmError::HardwareIO),
    {
        let mut polls: u32 = 0;
        while self.device.read_busy()
            invariant
                polls <= self.busy_poll_limit,
            decreases self.busy_poll_limit - polls,
        {
            if polls >= self.busy_poll_limit {
                return Err(WmError::HardwareIO);
            }
            self.device.delay_ms(10);
            polls = polls + 1;
        }
        Ok(())
    }

    /// Runs the reset handshake: reset line low, 10 ms, high, 10 ms,
    /// soft-reset command, the controller's settle second, then the busy
    /// wait.
    fn reset(&mut self) -> (r: Result<(), WmError>)
        ensures
            final(self).busy_poll_limit == old(self).busy_poll_limit,
            r is Ok ==> final(self).device.transcript() == old(self).device.transcript() + seq![
                BusOp::Reset(false),
                BusOp::Reset(true),
                BusOp::Command(SOFT_RESET),
            ],
    {
        let ghost t0 = self.device.transcript();
        match self.device.set_reset(false) {
            Ok(()) => (),
            Err(e) => {
                return Err(e);
            },
        }
        self.device.delay_ms(10);
        match self.device.set_reset(true) {
            Ok(()) => (),
            Err(e) => {
                return Err(e);
            },
        }
        self.device.delay_ms(10);
        match self.device.send_command(SOFT_RESET) {
            Ok(()) => (),
            Err(e) => {
                return Err(e);
            },
        }
        self.device.delay_ms(1000);
        match self.wait_for_busy() {
            Ok(()) => (),
            Err(e) => {
                return Err(e);
            },
        }
        proof {
            assert(self.device.transcript() =~= t0 + seq![
                BusOp::Reset(false),
                BusOp::Reset(true),
                BusOp::Command(SOFT_RESET),
            ]);
        }
        Ok(())
    }

    /// Sends a command followed by a single data byte.
    fn send_command_data(&mut self, cmd: u8, data: u8) -> (r: Result<(), WmError>)
        ensures
            final(self).busy_poll_limit == old(self).busy_poll_limit,
            r is Ok ==> final(self).device.transcript() == old(self).device.transcript() + seq![
                BusOp::Command(cmd),
                BusOp::Data(seq![data]),
            ],
    {
        let ghost t0 = self.device.transcript();
        match self.device.send_command(cmd) {
            Ok(()) => (),
            Err(e) => {
                return Err(e);
            },
        }
        let mut payload: Vec<u8> = Vec::new();
        payload.push(data);
        proof {
            assert(payload@ =~= seq![data]);
        }
        match self.device.send_data(payload.as_slice()) {
            Ok(()) => (),
            Err(e) => {
                return Err(e);
            },
        }
        proof {
            assert(self.device.transcript() =~= t0 + seq![
                BusOp::Command(cmd),
                BusOp::Data(seq![data]),
            ]);
        }
        Ok(())
    }

    /// Runs one full draw: the reset handshake, the register programming
    /// derived from the canvas dimensions and border color, both RAM
    /// payloads, the busy wait and the refresh activation (`partial`
    /// selects the faster partial-refresh activation variant, at the
    /// price of ghosting). An invalid border color is rejected with
    /// `InvalidArgument` before anything is transmitted. A failed
    /// transmission or a stuck busy line aborts the draw with the
    /// port's error; the controller is then in an undefined state and
    /// the whole sequence must be rerun from the reset.
    ///
    /// The dimension bounds are the controller's: the driver-control
    /// register holds `height - 1` in sixteen bits and the RAM X window
    /// `width / 8 - 1` in eight.
    #[verifier::rlimit(100)]
    pub fn draw(&mut self, screen: &Screen, partial: bool) -> (r: Result<(), WmError>)
        requires
            screen.wf(),
            screen.width as int % 8 == 0,
            8 <= screen.width <= 2048,
            1 <= screen.height <= 65536,
        ensures
            final(self).busy_poll_limit == old(self).busy_poll_limit,
            !border_valid(screen.border_color) ==> r == Err::<(), WmError>(
                WmError::InvalidArgument,
            ) && final(self).device.transcript() == old(self).device.transcript(),
            r is Ok ==> border_valid(screen.border_color) && final(self).device.transcript()
                == old(self).device.transcript() + draw_transcript(
                screen.width as int,
                screen.height as int,
                screen.border_color,
                screen.grid(),
                partial,
            ),
    {
        let border: u8 = match screen.get_border_color() {
            Color::White => 0x01,
            Color::Black => 0x00,
            Color::Red => 0x06,
            _ => {
                return Err(WmError::InvalidArgument);
            },
        };
        let ghost t0 = self.device.transcript();
        match self.reset() {
            Ok(()) => (),
            Err(e) => {
                return Err(e);
            },
        }
        match self.device.send_command(DRIVER_CONTROL) {
            Ok(()) => (),
            Err(e) => {
                return Err(e);
            },
        }
        let h1: usize = screen.get_height() - 1;
        let mut gates: Vec<u8> = Vec::new();
        gates.push((h1 % 256) as u8);
        gates.push((h1 / 256) as u8);
        gates.push(0);
        proof {
            assert(gates@ =~= seq![(h1 % 256) as u8, (h1 / 256) as u8, 0u8]);
        }
        match self.device.send_data(gates.as_slice()) {
            Ok(()) => (),
            Err(e) => {
                return Err(e);
            },
        }
        match self.send_command_data(WRITE_DUMMY, 0x1B) {
            Ok(()) => (),
            Err(e) => {
                return Err(e);
            },
        }
        match self.send_command_data(WRITE_GATELINE, 0x0B) {
            Ok(()) => (),
            Err(e) => {
                return Err(e);
            },
        }
        match self.send_command_data(DATA_MODE, 0x03) {
            Ok(()) => (),
            Err(e) => {
                return Err(e);
            },
        }
        match self.device.send_command(SET_RAMXPOS) {
            Ok(()) => (),
            Err(e) => {
                return Err(e);
            },
        }
        let mut xwin: Vec<u8> = Vec::new();
        xwin.push(0);
        xwin.push((screen.get_width() / 8 - 1) as u8);
        proof {
            assert(xwin@ =~= seq![0u8, (screen.width as int / 8 - 1) as u8]);
        }
        match self.device.send_data(xwin.as_slice()) {
            Ok(()) => (),
            Err(e) => {
                return Err(e);
            },
        }
        match self.device.send_command(SET_RAMYPOS) {
            Ok(()) => (),
            Err(e) => {
                return Err(e);
            },
        }
        let mut ywin: Vec<u8> = Vec::new();
        ywin.push(0);
        ywin.push(0);
        ywin.push((h1 % 256) as u8);
        ywin.push((h1 / 256) as u8);
        proof {
            assert(ywin@ =~= seq![0u8, 0u8, (h1 % 256) as u8, (h1 / 256) as u8]);
        }
        match self.device.send_data(ywin.as_slice()) {
            Ok(()) => (),
            Err(e) => {
                return Err(e);
            },
        }
        match self.send_command_data(WRITE_VCOM, 0x70) {
            Ok(()) => (),
            Err(e) => {
                return Err(e);
            },
        }
        match self.send_command_data(WRITE_BORDER, border) {
            Ok(()) => (),
            Err(e) => {
                return Err(e);
            },
        }
        match self.send_command_data(SET_RAMXCOUNT, 0x00) {
            Ok(()) => (),
            Err(e) => {
                return Err(e);
            },
        }
        match self.device.send_command(SET_RAMYCOUNT) {
            Ok(()) => (),
            Err(e) => {
                return Err(e);
            },
        }
        let mut ycount: Vec<u8> = Vec::new();
        ycount.push(0);
        ycount.push(0);
        proof {
            assert(ycount@ =~= seq![0u8, 0u8]);
        }
        match self.device.send_data(ycount.as_slice()) {
            Ok(()) => (),
            Err(e) => {
                return Err(e);
            },
        }
        let ram = build_ram_data(screen, Color::White);
        match self.device.send_command(WRITE_RAM) {
            Ok(()) => (),
            Err(e) => {
                return Err(e);
            },
        }
        match self.device.send_data(ram.as_slice()) {
            Ok(()) => (),
            Err(e) => {
                return Err(e);
            },
        }
        let altram = build_ram_data(screen, Color::Red);
        match self.device.send_command(WRITE_ALTRAM) {
            Ok(()) => (),
            Err(e) => {
                return Err(e);
            },
        }
        match self.device.send_data(altram.as_slice()) {
            Ok(()) => (),
            Err(e) => {
                return Err(e);
            },
        }
        match self.wait_for_busy() {
            Ok(()) => (),
            Err(e) => {
                return Err(e);
            },
        }
        if partial {
            match self.send_command_data(UPDATE_CONTROL, 0xFF) {
                Ok(()) => (),
                Err(e) => {
                    return Err(e);
                },
            }
        }
        match self.device.send_command(MASTER_ACTIVATE) {
            Ok(()) => (),
            Err(e) => {
                return Err(e);
            },
        }
        proof {
            let full = draw_transcript(
                screen.width as int,
                screen.height as int,
                screen.border_color,
                screen.grid(),
                partial,
            );
            assert(self.device.transcript() =~= t0 + full);
        }
        Ok(())
    }
}

} // verus!
