//! Two-plane packed framebuffer.
//!
//! A `Screen` owns two bit-planes (black and red) of `width * height` bits
//! each, packed eight pixels to a byte, least significant bit first. A
//! pixel is `Black` when its black-plane bit is set, else `Red` when its
//! red-plane bit is set, else `White`; the drawing operations keep the two
//! planes exclusive, so no position ever has both bits set.
use crate::bits::bit_get;
use crate::bits::bit_get_msb;
use crate::bits::clear_bit;
use crate::bits::lemma_bits_of_ones;
use crate::bits::lemma_bits_of_zero;
use crate::bits::read_bit;
use crate::bits::set_bit;
use crate::bits::filled;
use crate::error::WmError;
use vstd::prelude::*;

verus! {

/// A drawing color. `White`, `Black` and `Red` are storable pixel states;
/// `InvBlack` and `InvRed` exist as blit-time modifiers meaning "draw the
/// base color where the source bit is clear" and are never stored.
#[derive(Clone, Copy, PartialEq, Eq, Structural, Debug)]
pub enum Color {
    White,
    Black,
    Red,
    InvBlack,
    InvRed,
}

impl Color {
    /// The stored color this color draws with.
    pub open spec fn spec_base(self) -> Color {
        match self {
            Color::InvBlack => Color::Black,
            Color::InvRed => Color::Red,
            _ => self,
        }
    }

    /// Whether this color inverts the source bits of a blit.
    pub open spec fn spec_inverted(self) -> bool {
        self is InvBlack || self is InvRed
    }

    /// Executable counterpart of [`Color::spec_base`].
    pub fn base(self) -> (r: Color)
        ensures
            r == self.spec_base(),
    {
        match self {
            Color::InvBlack => Color::Black,
            Color::InvRed => Color::Red,
            _ => self,
        }
    }

    /// Executable counterpart of [`Color::spec_inverted`].
    pub fn inverted(self) -> (r: bool)
        ensures
            r == self.spec_inverted(),
    {
        match self {
            Color::InvBlack | Color::InvRed => true,
            _ => false,
        }
    }
}

impl Default for Color {
    /// The blank pixel state.
    fn default() -> (r: Color)
        ensures
            r is White,
    {
        Color::White
    }
}

/// The uniform pixel state a canvas holds after it is cleared with (or
/// constructed with a border of) the given color.
pub open spec fn fill_color(c: Color) -> Color {
    match c {
        Color::Black => Color::Black,
        Color::Red => Color::Red,
        _ => Color::White,
    }
}

/// Bit `pos` of a packed plane, eight bits to a byte, least significant
/// bit first.
pub open spec fn plane_bit(p: Seq<u8>, pos: int) -> bool {
    bit_get(p[pos / 8], (pos % 8) as u8)
}

/// A grid of uniform color, the state of a freshly cleared canvas.
pub open spec fn uniform_grid(n: nat, c: Color) -> Seq<Color> {
    Seq::new(n, |pos: int| c)
}

/// The grid that results from storing `c` at position `(x, y)`.
pub open spec fn set_pixel_spec(g: Seq<Color>, w: int, x: int, y: int, c: Color) -> Seq<Color> {
    g.update(x + y * w, c.spec_base())
}

/// Whether linear position `pos` of a `w`-wide grid lies in the rectangle
/// `[x, x + rw) x [y, y + rh)`.
pub open spec fn in_rect(w: int, x: int, y: int, rw: int, rh: int, pos: int) -> bool {
    &&& x <= pos % w < x + rw
    &&& y <= pos / w < y + rh
}

/// The grid that results from filling the rectangle `[x, x + rw) x
/// [y, y + rh)` with the base color of `c`.
pub open spec fn rect_spec(
    g: Seq<Color>,
    w: int,
    x: int,
    y: int,
    rw: int,
    rh: int,
    c: Color,
) -> Seq<Color> {
    Seq::new(
        g.len(),
        |pos: int|
            if in_rect(w, x, y, rw, rh, pos) {
                c.spec_base()
            } else {
                g[pos]
            },
    )
}

/// Bit `(i, j)` of a source bitmap of width `rw` (a multiple of 8):
/// row-major with a row stride of `rw / 8` bytes, most significant bit
/// first within each byte.
pub open spec fn src_bit(data: Seq<u8>, rw: int, i: int, j: int) -> bool {
    bit_get_msb(data[j * (rw / 8) + i / 8], (i % 8) as u8)
}

/// Whether source position `(i, j)` is foreground for a blit with color
/// `c`: a set source bit for the plain colors, a clear one for the
/// inverted colors.
pub open spec fn blit_fg(data: Seq<u8>, rw: int, c: Color, i: int, j: int) -> bool {
    src_bit(data, rw, i, j) != c.spec_inverted()
}

/// The grid that results from blitting `data` at `(x, y)` with size
/// `rw x rh` and color `c`: foreground positions take the base color of
/// `c`, background positions keep their old color.
pub open spec fn blit_spec(
    g: Seq<Color>,
    w: int,
    x: int,
    y: int,
    rw: int,
    rh: int,
    data: Seq<u8>,
    c: Color,
) -> Seq<Color> {
    Seq::new(
        g.len(),
        |pos: int|
            if in_rect(w, x, y, rw, rh, pos) && blit_fg(data, rw, c, pos % w - x, pos / w - y) {
                c.spec_base()
            } else {
                g[pos]
            },
    )
}

pub struct Screen {
    pub width: usize,
    pub height: usize,
    pub black_bitmap: Vec<u8>,
    pub red_bitmap: Vec<u8>,
    pub border_color: Color,
}

impl Screen {
    /// Number of pixels of the canvas.
    pub open spec fn area(self) -> int {
        self.width as int * self.height as int
    }

    /// Well-formedness: the area is a whole number of bytes, both planes
    /// hold exactly that many bytes, and no position has both plane bits
    /// set.
    pub open spec fn wf(self) -> bool {
        &&& self.area() % 8 == 0
        &&& self.area() <= usize::MAX
        &&& self.black_bitmap@.len() == self.area() / 8
        &&& self.red_bitmap@.len() == self.area() / 8
        &&& forall|pos: int|
            0 <= pos < self.area() ==> !(#[trigger] plane_bit(self.black_bitmap@, pos)
                && plane_bit(self.red_bitmap@, pos))
    }

    /// The color stored at linear position `pos`; the black plane takes
    /// priority over the red one.
    pub open spec fn pixel_pos(self, pos: int) -> Color {
        if plane_bit(self.black_bitmap@, pos) {
            Color::Black
        } else if plane_bit(self.red_bitmap@, pos) {
            Color::Red
        } else {
            Color::White
        }
    }

    /// The color stored at `(x, y)`, position `x + y * width`.
    pub open spec fn pixel(self, x: int, y: int) -> Color {
        self.pixel_pos(x + y * self.width)
    }

    /// The whole canvas as a row-major grid of stored colors.
    pub open spec fn grid(self) -> Seq<Color> {
        Seq::new(self.area() as nat, |pos: int| self.pixel_pos(pos))
    }

    /// Everything but the planes is unchanged.
    pub open spec fn same_shape(self, other: Screen) -> bool {
        &&& self.width == other.width
        &&& self.height == other.height
        &&& self.border_color == other.border_color
    }
}

/// Linear positions decompose uniquely into a byte index below `area / 8`
/// and a bit index below 8.
pub proof fn lemma_pos_byte(pos: int, area: int)
    by (nonlinear_arith)
    requires
        0 <= pos < area,
        area % 8 == 0,
    ensures
        0 <= pos / 8 < area / 8,
        0 <= pos % 8 < 8,
        pos == 8 * (pos / 8) + pos % 8,
{
}

/// Distinct positions touch a distinct byte or a distinct bit.
pub proof fn lemma_pos_distinct(p1: int, p2: int)
    by (nonlinear_arith)
    requires
        0 <= p1,
        0 <= p2,
        p1 != p2,
    ensures
        p1 / 8 != p2 / 8 || p1 % 8 != p2 % 8,
{
}

/// A coordinate pair inside the canvas yields a linear position inside the
/// area, and the position decomposes back into the pair.
pub proof fn lemma_grid_index(w: int, h: int, x: int, y: int)
    by (nonlinear_arith)
    requires
        0 <= x < w,
        0 <= y < h,
    ensures
        0 <= x + y * w < w * h,
        (x + y * w) % w == x,
        (x + y * w) / w == y,
{
}

/// A position decomposes into its column `pos % w` and row `pos / w`.
pub proof fn lemma_pos_decompose(w: int, pos: int)
    by (nonlinear_arith)
    requires
        0 < w,
        0 <= pos,
    ensures
        pos == (pos / w) * w + pos % w,
        0 <= pos % w < w,
        0 <= pos / w,
{
}

/// Multiplication is monotone in both nonnegative factors.
pub proof fn lemma_mul_le(a: int, b: int, c: int, d: int)
    by (nonlinear_arith)
    requires
        0 <= a <= c,
        0 <= b <= d,
    ensures
        a * b <= c * d,
{
}

/// A bitmap whose width is a multiple of 8 packs into `rw / 8` bytes per
/// row.
pub proof fn lemma_bytes_of_rows(rw: int, rh: int)
    by (nonlinear_arith)
    requires
        rw % 8 == 0,
        0 <= rw,
        0 <= rh,
    ensures
        (rw * rh) / 8 == (rw / 8) * rh,
{
}

/// The source byte of bit `(i, j)` lies inside the packed buffer.
pub proof fn lemma_src_index(rw: int, rh: int, i: int, j: int)
    by (nonlinear_arith)
    requires
        rw % 8 == 0,
        0 <= i < rw,
        0 <= j < rh,
    ensures
        0 <= j * (rw / 8) + i / 8 < (rw / 8) * rh,
        0 <= i % 8 < 8,
{
}

/// The state of a rectangle fill that has fully painted the first `cols`
/// columns and, in column `cols`, the first `rows` rows.
spec fn rect_partial(
    g: Seq<Color>,
    w: int,
    x: int,
    y: int,
    rw: int,
    rh: int,
    c: Color,
    cols: int,
    rows: int,
) -> Seq<Color> {
    Seq::new(
        g.len(),
        |pos: int|
            {
                let i = pos % w - x;
                let j = pos / w - y;
                if 0 <= i < rw && 0 <= j < rh && (i < cols || (i == cols && j < rows)) {
                    c.spec_base()
                } else {
                    g[pos]
                }
            },
    )
}

/// The state of a blit that has fully processed the first `cols` columns
/// and, in column `cols`, the first `rows` rows.
spec fn blit_partial(
    g: Seq<Color>,
    w: int,
    x: int,
    y: int,
    rw: int,
    rh: int,
    data: Seq<u8>,
    c: Color,
    cols: int,
    rows: int,
) -> Seq<Color> {
    Seq::new(
        g.len(),
        |pos: int|
            {
                let i = pos % w - x;
                let j = pos / w - y;
                if 0 <= i < rw && 0 <= j < rh && (i < cols || (i == cols && j < rows)) && blit_fg(
                    data,
                    rw,
                    c,
                    i,
                    j,
                ) {
                    c.spec_base()
                } else {
                    g[pos]
                }
            },
    )
}

impl Screen {
    /// Builds a canvas of the given dimensions with both planes zeroed,
    /// then fully sets the black plane for a `Black` border or the red
    /// plane for a `Red` border, so every pixel initially reads as the
    /// border fill.
    ///
    /// The pixel count must be a whole number of bytes for the packing
    /// scheme, and must fit the machine's address range.
    pub fn new(width: usize, height: usize, border_color: Color) -> (r: Screen)
        requires
            (width as int * height as int) % 8 == 0,
            width as int * height as int <= usize::MAX,
        ensures
            r.wf(),
            r.width == width,
            r.height == height,
            r.border_color == border_color,
            r.grid() == uniform_grid((width as int * height as int) as nat, fill_color(
                border_color,
            )),
            forall|x2: int, y2: int|
                0 <= x2 < width && 0 <= y2 < height ==> #[trigger] r.pixel(x2, y2) == fill_color(
                    border_color,
                ),
    {
        let bits: usize = width * height;
        let len: usize = bits / 8;
        let black_byte: u8 = if matches!(border_color, Color::Black) {
            0xff
        } else {
            0
        };
        let red_byte: u8 = if matches!(border_color, Color::Red) {
            0xff
        } else {
            0
        };
        let black_bitmap = filled(len, black_byte);
        let red_bitmap = filled(len, red_byte);
        let r = Screen { width, height, black_bitmap, red_bitmap, border_color };
        proof {
            lemma_bits_of_zero();
            lemma_bits_of_ones();
            assert forall|pos: int| 0 <= pos < r.area() implies r.pixel_pos(pos) == fill_color(
                border_color,
            ) && !(plane_bit(r.black_bitmap@, pos) && plane_bit(r.red_bitmap@, pos)) by {
                lemma_pos_byte(pos, r.area());
            }
            assert(r.grid() =~= uniform_grid((width as int * height as int) as nat, fill_color(
                border_color,
            )));
            assert forall|x2: int, y2: int|
                0 <= x2 < width && 0 <= y2 < height implies #[trigger] r.pixel(x2, y2)
                == fill_color(border_color) by {
                lemma_grid_index(width as int, height as int, x2, y2);
            }
        }
        r
    }

    /// The canvas height in pixels.
    pub fn get_height(&self) -> (r: usize)
        ensures
            r == self.height,
    {
        self.height
    }

    /// The canvas width in pixels.
    pub fn get_width(&self) -> (r: usize)
        ensures
            r == self.width,
    {
        self.width
    }

    /// The border color fixed at construction.
    pub fn get_border_color(&self) -> (r: Color)
        ensures
            r == self.border_color,
    {
        self.border_color
    }

    /// Resets every pixel: zeroes both planes, then fills the plane of
    /// `color` when it is exactly `Black` or `Red`; any other color leaves
    /// the canvas all `White`.
    pub fn clear(&mut self, color: Color)
        requires
            old(self).wf(),
        ensures
            final(self).wf(),
            final(self).same_shape(*old(self)),
            final(self).grid() == uniform_grid(old(self).area() as nat, fill_color(color)),
            forall|x2: int, y2: int|
                0 <= x2 < old(self).width && 0 <= y2 < old(self).height ==> #[trigger] final(self).pixel(x2, y2) == fill_color(color),
    {
        let len: usize = self.black_bitmap.len();
        let black_byte: u8 = if matches!(color, Color::Black) {
            0xff
        } else {
            0
        };
        let red_byte: u8 = if matches!(color, Color::Red) {
            0xff
        } else {
            0
        };
        self.black_bitmap = filled(len, black_byte);
        self.red_bitmap = filled(len, red_byte);
        proof {
            lemma_bits_of_zero();
            lemma_bits_of_ones();
            assert forall|pos: int| 0 <= pos < self.area() implies self.pixel_pos(pos)
                == fill_color(color) && !(plane_bit(self.black_bitmap@, pos) && plane_bit(
                self.red_bitmap@,
                pos,
            )) by {
                lemma_pos_byte(pos, self.area());
            }
            assert(self.grid() =~= uniform_grid(old(self).area() as nat, fill_color(color)));
            assert forall|x2: int, y2: int|
                0 <= x2 < old(self).width && 0 <= y2 < old(self).height implies #[trigger] self.pixel(
                x2,
                y2,
            ) == fill_color(color) by {
                lemma_grid_index(self.width as int, self.height as int, x2, y2);
            }
        }
    }

    /// The stored color at linear position `pos`.
    pub fn pixel_at_pos(&self, pos: usize) -> (c: Color)
        requires
            self.wf(),
            pos < self.area(),
        ensures
            c == self.pixel_pos(pos as int),
    {
        proof {
            lemma_pos_byte(pos as int, self.area());
        }
        let byte: usize = pos / 8;
        let bit: u8 = (pos % 8) as u8;
        if read_bit(self.black_bitmap[byte], bit) {
            Color::Black
        } else if read_bit(self.red_bitmap[byte], bit) {
            Color::Red
        } else {
            Color::White
        }
    }

    /// Stores `color` at `(x, y)`: clears the position in both planes,
    /// then sets the black-plane bit for `Black`/`InvBlack` or the
    /// red-plane bit for `Red`/`InvRed` (`White` leaves both clear), so
    /// the planes stay exclusive. Fails with `InvalidArgument` when the
    /// coordinates lie outside the canvas, leaving it unchanged.
    pub fn set_pixel(&mut self, x: usize, y: usize, color: Color) -> (r: Result<(), WmError>)
        requires
            old(self).wf(),
        ensures
            final(self).wf(),
            final(self).same_shape(*old(self)),
            r is Ok <==> (x < old(self).width && y < old(self).height),
            !(x < old(self).width && y < old(self).height) ==> r == Err::<(), WmError>(
                WmError::InvalidArgument,
            ) && *final(self) == *old(self),
            r is Ok ==> final(self).grid() == set_pixel_spec(
                old(self).grid(),
                old(self).width as int,
                x as int,
                y as int,
                color,
            ),
            r is Ok ==> forall|x2: int, y2: int|
                0 <= x2 < old(self).width && 0 <= y2 < old(self).height ==> #[trigger] final(self).pixel(x2, y2) == (if x2 == x as int && y2 == y as int {
                    color.spec_base()
                } else {
                    old(self).pixel(x2, y2)
                }),
    {
        if x >= self.width || y >= self.height {
            return Err(WmError::InvalidArgument);
        }
        proof {
            lemma_grid_index(self.width as int, self.height as int, x as int, y as int);
            lemma_pos_byte(x + y * self.width as int, self.area());
        }
        let pos: usize = x + y * self.width;
        let byte: usize = pos / 8;
        let bit: u8 = (pos % 8) as u8;
        match color {
            Color::Black | Color::InvBlack => {
                self.black_bitmap[byte] = set_bit(self.black_bitmap[byte], bit);
                self.red_bitmap[byte] = clear_bit(self.red_bitmap[byte], bit);
            },
            Color::Red | Color::InvRed => {
                self.black_bitmap[byte] = clear_bit(self.black_bitmap[byte], bit);
                self.red_bitmap[byte] = set_bit(self.red_bitmap[byte], bit);
            },
            Color::White => {
                self.black_bitmap[byte] = clear_bit(self.black_bitmap[byte], bit);
                self.red_bitmap[byte] = clear_bit(self.red_bitmap[byte], bit);
            },
        }
        proof {
            let target = pos as int;
            assert forall|p: int| 0 <= p < self.area() implies self.pixel_pos(p) == (if p == target {
                color.spec_base()
            } else {
                old(self).pixel_pos(p)
            }) by {
                lemma_pos_byte(p, self.area());
                if p != target {
                    lemma_pos_distinct(p, target);
                }
            }
            assert forall|p: int|
                0 <= p < self.area() implies !(#[trigger] plane_bit(self.black_bitmap@, p)
                && plane_bit(self.red_bitmap@, p)) by {
                lemma_pos_byte(p, self.area());
                assert(!(plane_bit(old(self).black_bitmap@, p) && plane_bit(
                    old(self).red_bitmap@,
                    p,
                )));
                if p != target {
                    lemma_pos_distinct(p, target);
                }
            }
            assert(self.grid() =~= set_pixel_spec(
                old(self).grid(),
                old(self).width as int,
                x as int,
                y as int,
                color,
            ));
            assert forall|x2: int, y2: int|
                0 <= x2 < old(self).width && 0 <= y2 < old(self).height implies #[trigger] self.pixel(
                x2,
                y2,
            ) == (if x2 == x as int && y2 == y as int {
                color.spec_base()
            } else {
                old(self).pixel(x2, y2)
            }) by {
                lemma_grid_index(self.width as int, self.height as int, x2, y2);
                lemma_grid_index(self.width as int, self.height as int, x as int, y as int);
                if !(x2 == x as int && y2 == y as int) {
                    assert(x2 + y2 * self.width as int != target) by {
                        lemma_grid_index(self.width as int, self.height as int, x2, y2);
                        lemma_grid_index(
                            self.width as int,
                            self.height as int,
                            x as int,
                            y as int,
                        );
                    }
                }
            }
        }
        Ok(())
    }

    /// Reads the stored color at `(x, y)`: `Black` when the black-plane
    /// bit is set (the black plane takes priority), else `Red` when the
    /// red-plane bit is set, else `White`. Fails with `InvalidArgument`
    /// when the coordinates lie outside the canvas.
    pub fn get_pixel(&self, x: usize, y: usize) -> (r: Result<Color, WmError>)
        requires
            self.wf(),
        ensures
            r is Ok <==> (x < self.width && y < self.height),
            x < self.width && y < self.height ==> r == Ok::<Color, WmError>(
                self.pixel(x as int, y as int),
            ),
            !(x < self.width && y < self.height) ==> r == Err::<Color, WmError>(
                WmError::InvalidArgument,
            ),
    {
        if x >= self.width || y >= self.height {
            return Err(WmError::InvalidArgument);
        }
        proof {
            lemma_grid_index(self.width as int, self.height as int, x as int, y as int);
        }
        let pos: usize = x + y * self.width;
        Ok(self.pixel_at_pos(pos))
    }

    /// Fills the rectangle `[x, x + width) x [y, y + height)` with
    /// `color`, pixel by pixel, so `White` clears while `Black`/`Red`
    /// (and their inverted variants) store their base color. Fails with
    /// `InvalidArgument` when the rectangle exceeds the canvas bounds,
    /// leaving it unchanged.
    pub fn rectangle(
        &mut self,
        x: usize,
        y: usize,
        width: usize,
        height: usize,
        color: Color,
    ) -> (r: Result<(), WmError>)
        requires
            old(self).wf(),
        ensures
            final(self).wf(),
            final(self).same_shape(*old(self)),
            r is Ok <==> (x + width <= old(self).width && y + height <= old(self).height),
            !(x + width <= old(self).width && y + height <= old(self).height) ==> r == Err::<
                (),
                WmError,
            >(WmError::InvalidArgument) && *final(self) == *old(self),
            r is Ok ==> final(self).grid() == rect_spec(
                old(self).grid(),
                old(self).width as int,
                x as int,
                y as int,
                width as int,
                height as int,
                color,
            ),
    {
        if width > self.width || x > self.width - width || height > self.height || y > self.height
            - height {
            return Err(WmError::InvalidArgument);
        }
        let ghost g0 = self.grid();
        let ghost w = self.width as int;
        let ghost h = self.height as int;
        let ghost xi = x as int;
        let ghost yi = y as int;
        let ghost rw = width as int;
        let ghost rh = height as int;
        let mut bmp_x: usize = 0;
        while bmp_x < width
            invariant
                self.wf(),
                self.same_shape(*old(self)),
                bmp_x <= width,
                x + width <= self.width,
                y + height <= self.height,
                self.grid() == rect_partial(g0, w, xi, yi, rw, rh, color, bmp_x as int, 0),
            decreases width - bmp_x,
        {
            let mut bmp_y: usize = 0;
            while bmp_y < height
                invariant
                    self.wf(),
                    self.same_shape(*old(self)),
                    bmp_x < width,
                    bmp_y <= height,
                    x + width <= self.width,
                    y + height <= self.height,
                    self.grid() == rect_partial(
                        g0,
                        w,
                        xi,
                        yi,
                        rw,
                        rh,
                        color,
                        bmp_x as int,
                        bmp_y as int,
                    ),
                decreases height - bmp_y,
            {
                let ghost gpre = self.grid();
                let ghost ci = bmp_x as int;
                let ghost ri = bmp_y as int;
                match self.set_pixel(x + bmp_x, y + bmp_y, color) {
                    Ok(()) => (),
                    Err(e) => {
                        return Err(e);
                    },
                }
                proof {
                    let target = (xi + ci) + (yi + ri) * w;
                    lemma_grid_index(w, h, xi + ci, yi + ri);
                    assert forall|pos: int| 0 <= pos < g0.len() implies gpre.update(
                        target,
                        color.spec_base(),
                    )[pos] == rect_partial(g0, w, xi, yi, rw, rh, color, ci, ri + 1)[pos] by {
                        lemma_pos_decompose(w, pos);
                    }
                    assert(self.grid() =~= rect_partial(g0, w, xi, yi, rw, rh, color, ci, ri + 1));
                }
                bmp_y = bmp_y + 1;
            }
            proof {
                assert(rect_partial(g0, w, xi, yi, rw, rh, color, bmp_x as int, rh)
                    =~= rect_partial(g0, w, xi, yi, rw, rh, color, bmp_x as int + 1, 0));
            }
            bmp_x = bmp_x + 1;
        }
        proof {
            assert(rect_partial(g0, w, xi, yi, rw, rh, color, rw, 0) =~= rect_spec(
                g0,
                w,
                xi,
                yi,
                rw,
                rh,
                color,
            ));
        }
        Ok(())
    }

    /// Blits a packed source bitmap of size `width x height` (row-major,
    /// most significant bit first, `width` a multiple of 8) at `(x, y)`.
    /// A destination pixel takes the base color of `color` when its
    /// source bit is set (for the plain colors) or clear (for
    /// `InvBlack`/`InvRed`); background pixels keep their old color, so
    /// overlapping blits accumulate. Fails with `InvalidArgument` when
    /// the buffer length is not `width * height / 8` or the destination
    /// rectangle exceeds the canvas bounds, leaving the canvas unchanged.
    pub fn bitmap(
        &mut self,
        x: usize,
        y: usize,
        width: usize,
        height: usize,
        bitmap: &[u8],
        color: Color,
    ) -> (r: Result<(), WmError>)
        requires
            old(self).wf(),
            width as int % 8 == 0,
        ensures
            final(self).wf(),
            final(self).same_shape(*old(self)),
            r is Ok <==> (bitmap@.len() == width as int * height as int / 8 && x + width <= old(
                self,
            ).width && y + height <= old(self).height),
            r is Err ==> r == Err::<(), WmError>(WmError::InvalidArgument) && *final(self) == *old(
                self,
            ),
            r is Ok ==> final(self).grid() == blit_spec(
                old(self).grid(),
                old(self).width as int,
                x as int,
                y as int,
                width as int,
                height as int,
                bitmap@,
                color,
            ),
    {
        if width > self.width || x > self.width - width || height > self.height || y > self.height
            - height {
            return Err(WmError::InvalidArgument);
        }
        proof {
            lemma_mul_le(width as int, height as int, self.width as int, self.height as int);
        }
        let expected: usize = width * height / 8;
        if expected != bitmap.len() {
            return Err(WmError::InvalidArgument);
        }
        proof {
            lemma_bytes_of_rows(width as int, height as int);
        }
        let ghost g0 = self.grid();
        let ghost w = self.width as int;
        let ghost h = self.height as int;
        let ghost xi = x as int;
        let ghost yi = y as int;
        let ghost rw = width as int;
        let ghost rh = height as int;
        let ghost data = bitmap@;
        let stride: usize = width / 8;
        let inverted: bool = color.inverted();
        let mut bmp_x: usize = 0;
        while bmp_x < width
            invariant
                self.wf(),
                self.same_shape(*old(self)),
                bmp_x <= width,
                x + width <= self.width,
                y + height <= self.height,
                bitmap@.len() == (rw / 8) * rh,
                stride == rw / 8,
                inverted == color.spec_inverted(),
                self.grid() == blit_partial(g0, w, xi, yi, rw, rh, data, color, bmp_x as int, 0),
            decreases width - bmp_x,
        {
            let mut bmp_y: usize = 0;
            while bmp_y < height
                invariant
                    self.wf(),
                    self.same_shape(*old(self)),
                    bmp_x < width,
                    bmp_y <= height,
                    x + width <= self.width,
                    y + height <= self.height,
                    bitmap@.len() == (rw / 8) * rh,
                    stride == rw / 8,
                    inverted == color.spec_inverted(),
                    self.grid() == blit_partial(
                        g0,
                        w,
                        xi,
                        yi,
                        rw,
                        rh,
                        data,
                        color,
                        bmp_x as int,
                        bmp_y as int,
                    ),
                decreases height - bmp_y,
            {
                let ghost gpre = self.grid();
                let ghost ci = bmp_x as int;
                let ghost ri = bmp_y as int;
                proof {
                    lemma_src_index(rw, rh, ci, ri);
                }
                let src_pos: usize = bmp_x / 8 + bmp_y * stride;
                let bit: bool = crate::bits::read_bit_msb(bitmap[src_pos], (bmp_x % 8) as u8);
                let fg: bool = if inverted {
                    !bit
                } else {
                    bit
                };
                if fg {
                    match self.set_pixel(x + bmp_x, y + bmp_y, color) {
                        Ok(()) => (),
                        Err(e) => {
                            return Err(e);
                        },
                    }
                    proof {
                        let target = (xi + ci) + (yi + ri) * w;
                        lemma_grid_index(w, h, xi + ci, yi + ri);
                        assert forall|pos: int| 0 <= pos < g0.len() implies gpre.update(
                            target,
                            color.spec_base(),
                        )[pos] == blit_partial(g0, w, xi, yi, rw, rh, data, color, ci, ri + 1)[pos] by {
                            lemma_pos_decompose(w, pos);
                        }
                        assert(self.grid() =~= blit_partial(
                            g0,
                            w,
                            xi,
                            yi,
                            rw,
                            rh,
                            data,
                            color,
                            ci,
                            ri + 1,
                        ));
                    }
                } else {
                    proof {
                        lemma_grid_index(w, h, xi + ci, yi + ri);
                        assert forall|pos: int| 0 <= pos < g0.len() implies blit_partial(
                            g0,
                            w,
                            xi,
                            yi,
                            rw,
                            rh,
                            data,
                            color,
                            ci,
                            ri,
                        )[pos] == blit_partial(g0, w, xi, yi, rw, rh, data, color, ci, ri + 1)[pos] by {
                            lemma_pos_decompose(w, pos);
                        }
                        assert(self.grid() =~= blit_partial(
                            g0,
                            w,
                            xi,
                            yi,
                            rw,
                            rh,
                            data,
                            color,
                            ci,
                            ri + 1,
                        ));
                    }
                }
                bmp_y = bmp_y + 1;
            }
            proof {
                assert(blit_partial(g0, w, xi, yi, rw, rh, data, color, bmp_x as int, rh)
                    =~= blit_partial(g0, w, xi, yi, rw, rh, data, color, bmp_x as int + 1, 0));
            }
            bmp_x = bmp_x + 1;
        }
        proof {
            assert(blit_partial(g0, w, xi, yi, rw, rh, data, color, rw, 0) =~= blit_spec(
                g0,
                w,
                xi,
                yi,
                rw,
                rh,
                data,
                color,
            ));
        }
        Ok(())
    }
}

/// The cursor and canvas state a text draw has reached.
pub struct TextState {
    pub grid: Seq<Color>,
    pub cx: int,
    pub cy: int,
}

/// How a text draw ends: the final state, or the canvas drawn so far
/// together with the error that aborted the run (mutations before the
/// failing character are kept; there is no rollback).
pub enum TextOutcome {
    Done(TextState),
    Failed(Seq<Color>, WmError),
}

/// The layout-and-draw model of [`Screen::text`]: characters are taken
/// one by one; `'\n'` resets the horizontal cursor to `x0` and advances
/// the vertical cursor by `fontsize`; any other character is looked up in
/// the glyph source — a miss aborts with `GlyphNotFound` — and its width
/// is derived from the bitmap length; a glyph that would overflow the
/// right edge wraps to a new line first; the glyph is then blitted at the
/// cursor and the cursor advances by the glyph width. A blit whose
/// buffer length does not match its derived size or that leaves the
/// canvas aborts with `InvalidArgument`, as does a cursor that would
/// leave the machine's address range.
pub open spec fn text_run<G: crate::glyphs::GlyphSource>(
    glyphs: &G,
    g: Seq<Color>,
    w: int,
    h: int,
    x0: int,
    cx: int,
    cy: int,
    fontsize: usize,
    chars: Seq<char>,
    color: Color,
) -> TextOutcome
    decreases chars.len(),
{
    if chars.len() == 0 {
        TextOutcome::Done(TextState { grid: g, cx, cy })
    } else {
        let ch = chars[0];
        if ch == '\n' {
            if cy + fontsize > usize::MAX {
                TextOutcome::Failed(g, WmError::InvalidArgument)
            } else {
                text_run(glyphs, g, w, h, x0, x0, cy + fontsize, fontsize, chars.drop_first(), color)
            }
        } else {
            match glyphs.glyph_spec(fontsize, ch) {
                Option::None => TextOutcome::Failed(g, WmError::GlyphNotFound(ch)),
                Option::Some(data) => {
                    let gw = data.len() as int / fontsize as int * 8;
                    let wrap = cx + gw > w;
                    let nx = if wrap {
                        x0
                    } else {
                        cx
                    };
                    let ny = if wrap {
                        cy + fontsize
                    } else {
                        cy
                    };
                    if ny > usize::MAX {
                        TextOutcome::Failed(g, WmError::InvalidArgument)
                    } else if data.len() != gw * fontsize / 8 || nx + gw > w || ny + fontsize > h {
                        TextOutcome::Failed(g, WmError::InvalidArgument)
                    } else {
                        text_run(
                            glyphs,
                            blit_spec(g, w, nx, ny, gw, fontsize as int, data, color),
                            w,
                            h,
                            x0,
                            nx + gw,
                            ny,
                            fontsize,
                            chars.drop_first(),
                            color,
                        )
                    }
                },
            }
        }
    }
}

impl Screen {
    /// Lays a string out on the canvas: `'\n'` starts a new line at `x`;
    /// every other character is fetched from the glyph source at
    /// `fontsize` and blitted at the cursor, wrapping to a new line first
    /// when it would overflow the right edge. Returns the final
    /// horizontal cursor position, which lets differently styled
    /// fragments continue one visual line. Fails with `InvalidArgument`
    /// for an unsupported (or zero) font size, for a glyph that does not
    /// fit the canvas, or for a malformed glyph buffer, and with
    /// `GlyphNotFound` for a character the source lacks; characters drawn
    /// before the failure stay on the canvas.
    pub fn text<G: crate::glyphs::GlyphSource>(
        &mut self,
        x: usize,
        y: usize,
        fontsize: usize,
        content: &str,
        color: Color,
        glyphs: &G,
    ) -> (r: Result<usize, WmError>)
        requires
            old(self).wf(),
            glyphs.inv(),
        ensures
            final(self).wf(),
            final(self).same_shape(*old(self)),
            !(fontsize > 0 && glyphs.supported_spec(fontsize)) ==> r == Err::<usize, WmError>(
                WmError::InvalidArgument,
            ) && *final(self) == *old(self),
            fontsize > 0 && glyphs.supported_spec(fontsize) ==> match text_run(
                glyphs,
                old(self).grid(),
                old(self).width as int,
                old(self).height as int,
                x as int,
                x as int,
                y as int,
                fontsize,
                content@,
                color,
            ) {
                TextOutcome::Done(st) => r is Ok && r->Ok_0 == st.cx && final(self).grid()
                    == st.grid,
                TextOutcome::Failed(g2, e) => r == Err::<usize, WmError>(e) && final(self).grid()
                    == g2,
            },
    {
        if fontsize == 0 || !glyphs.supported(fontsize) {
            return Err(WmError::InvalidArgument);
        }
        let ghost w = self.width as int;
        let ghost h = self.height as int;
        let ghost full = text_run(
            glyphs,
            self.grid(),
            w,
            h,
            x as int,
            x as int,
            y as int,
            fontsize,
            content@,
            color,
        );
        let n: usize = content.unicode_len();
        proof {
            assert(content@.skip(0) =~= content@);
        }
        let mut cursor_x: usize = x;
        let mut cursor_y: usize = y;
        let mut i: usize = 0;
        while i < n
            invariant
                self.wf(),
                self.same_shape(*old(self)),
                i <= n,
                n == content@.len(),
                0 < fontsize,
                glyphs.inv(),
                glyphs.supported_spec(fontsize),
                full == text_run(
                    glyphs,
                    self.grid(),
                    w,
                    h,
                    x as int,
                    cursor_x as int,
                    cursor_y as int,
                    fontsize,
                    content@.skip(i as int),
                    color,
                ),
            decreases n - i,
        {
            let ghost rest = content@.skip(i as int);
            proof {
                assert(rest.len() > 0);
                assert(rest[0] == content@[i as int]);
                assert(rest.drop_first() =~= content@.skip(i as int + 1));
            }
            let ch = content.get_char(i);
            if ch == '\n' {
                cursor_x = x;
                match cursor_y.checked_add(fontsize) {
                    Some(ny) => {
                        cursor_y = ny;
                    },
                    None => {
                        return Err(WmError::InvalidArgument);
                    },
                }
            } else {
                match glyphs.glyph(fontsize, ch) {
                    None => {
                        return Err(WmError::GlyphNotFound(ch));
                    },
                    Some(font) => {
                        let ghost data = font@;
                        let gw_bytes: usize = font.len() / fontsize;
                        let gw: usize = match gw_bytes.checked_mul(8) {
                            Some(v) => v,
                            None => {
                                // The glyph is wider than the canvas could
                                // ever be, so the cursor bounds check would
                                // reject it after wrapping.
                                return Err(WmError::InvalidArgument);
                            },
                        };
                        let wrap: bool = gw > self.width || cursor_x > self.width - gw;
                        if wrap {
                            cursor_x = x;
                            match cursor_y.checked_add(fontsize) {
                                Some(ny) => {
                                    cursor_y = ny;
                                },
                                None => {
                                    return Err(WmError::InvalidArgument);
                                },
                            }
                        }
                        match self.bitmap(cursor_x, cursor_y, gw, fontsize, font.as_slice(), color) {
                            Ok(()) => {
                                cursor_x = cursor_x + gw;
                            },
                            Err(e) => {
                                return Err(e);
                            },
                        }
                    },
                }
            }
            i = i + 1;
        }
        proof {
            assert(content@.skip(n as int) =~= Seq::<char>::empty());
        }
        Ok(cursor_x)
    }
}

/// Law: storing one of the three plain colors at `(x, y)` and reading the
/// same position back yields exactly that color.
pub proof fn lemma_set_get_round_trip(g: Seq<Color>, w: int, h: int, x: int, y: int, c: Color)
    requires
        g.len() == w * h,
        0 <= x < w,
        0 <= y < h,
        c is White || c is Black || c is Red,
    ensures
        set_pixel_spec(g, w, x, y, c)[x + y * w] == c,
{
    lemma_grid_index(w, h, x, y);
}

/// Law: after a clear with any color, every position of the canvas reads
/// the fill of that color: `Black` for `Black`, `Red` for `Red`, `White`
/// otherwise.
pub proof fn lemma_clear_reads_uniform(n: nat, c: Color, pos: int)
    requires
        0 <= pos < n,
    ensures
        uniform_grid(n, fill_color(c))[pos] == fill_color(c),
        c is Black ==> fill_color(c) is Black,
        c is Red ==> fill_color(c) is Red,
        c is White ==> fill_color(c) is White,
{
}

/// Law: a well-formed canvas never has both plane bits set at one
/// position; the drawing operations all preserve well-formedness, so the
/// planes stay exclusive under any sequence of operations.
pub proof fn lemma_planes_exclusive(s: Screen, pos: int)
    requires
        s.wf(),
        0 <= pos < s.area(),
    ensures
        !(plane_bit(s.black_bitmap@, pos) && plane_bit(s.red_bitmap@, pos)),
{
}

/// Law: blitting an all-ones source of size `rw x rh` at the origin with
/// `Black` paints exactly that rectangle black; where the rectangle holds
/// no red pixel beforehand, the red plane is left as it was (a red pixel
/// under the rectangle would lose its red bit to the exclusive-plane
/// rule).
pub proof fn lemma_all_ones_blit_black(
    g: Seq<Color>,
    w: int,
    h: int,
    rw: int,
    rh: int,
    data: Seq<u8>,
)
    requires
        g.len() == w * h,
        0 < w,
        rw % 8 == 0,
        0 <= rw <= w,
        0 <= rh <= h,
        data.len() == (rw / 8) * rh,
        forall|k: int| 0 <= k < data.len() ==> data[k] == 0xffu8,
        forall|pos: int|
            0 <= pos < g.len() && in_rect(w, 0, 0, rw, rh, pos) ==> g[pos] != Color::Red,
    ensures
        forall|pos: int|
            0 <= pos < g.len() ==> #[trigger] blit_spec(g, w, 0, 0, rw, rh, data, Color::Black)[pos]
                == (if in_rect(w, 0, 0, rw, rh, pos) {
                Color::Black
            } else {
                g[pos]
            }),
        forall|pos: int|
            0 <= pos < g.len() ==> ((#[trigger] blit_spec(g, w, 0, 0, rw, rh, data, Color::Black)[pos]
                is Red) == (g[pos] is Red)),
{
    lemma_bits_of_ones();
    assert forall|pos: int| 0 <= pos < g.len() implies blit_spec(
        g,
        w,
        0,
        0,
        rw,
        rh,
        data,
        Color::Black,
    )[pos] == (if in_rect(w, 0, 0, rw, rh, pos) {
        Color::Black
    } else {
        g[pos]
    }) by {
        if in_rect(w, 0, 0, rw, rh, pos) {
            lemma_src_index(rw, rh, pos % w, pos / w);
        }
    }
}

/// Law: blitting an all-zero source with `InvRed` is the same grid
/// transformation as filling the rectangle with `Red`.
pub proof fn lemma_inverted_blit_fills(
    g: Seq<Color>,
    w: int,
    x: int,
    y: int,
    rw: int,
    rh: int,
    data: Seq<u8>,
)
    requires
        0 < w,
        0 <= x,
        0 <= y,
        rw % 8 == 0,
        0 <= rh,
        data.len() == (rw / 8) * rh,
        forall|k: int| 0 <= k < data.len() ==> data[k] == 0u8,
    ensures
        blit_spec(g, w, x, y, rw, rh, data, Color::InvRed) == rect_spec(g, w, x, y, rw, rh, Color::Red),
{
    lemma_bits_of_zero();
    assert forall|pos: int| 0 <= pos < g.len() implies blit_spec(
        g,
        w,
        x,
        y,
        rw,
        rh,
        data,
        Color::InvRed,
    )[pos] == rect_spec(g, w, x, y, rw, rh, Color::Red)[pos] by {
        if in_rect(w, x, y, rw, rh, pos) {
            lemma_src_index(rw, rh, pos % w - x, pos / w - y);
        }
    }
    assert(blit_spec(g, w, x, y, rw, rh, data, Color::InvRed) =~= rect_spec(
        g,
        w,
        x,
        y,
        rw,
        rh,
        Color::Red,
    ));
}

} // verus!
