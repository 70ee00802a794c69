//! The frame buffer surface: a flat RGBA byte buffer for a fixed 600 x 800
//! canvas, with whole-buffer read/write and pixel/rectangle drawing.

use vstd::prelude::*;
use vstd::arithmetic::div_mod::{
    lemma_fundamental_div_mod,
    lemma_fundamental_div_mod_converse,
    lemma_mod_bound,
};

verus! {

/// Width of the canvas, in pixels.
pub const WIDTH: usize = 600;

/// Height of the canvas, in pixels.
pub const HEIGHT: usize = 800;

/// Bytes per pixel: one each for red, green, blue and alpha.
pub const BYTES_PER_PIXEL: usize = 4;

/// Length in bytes of a full frame buffer: WIDTH * HEIGHT * BYTES_PER_PIXEL.
pub const BUF_BYTES: usize = 600 * 800 * 4;

/// An RGBA color: four 8-bit channels.
#[derive(Clone, Copy, Debug, PartialEq, Eq, Structural)]
pub struct Color {
    r: u8,
    g: u8,
    b: u8,
    a: u8,
}

impl Color {
    /// The red channel.
    pub closed spec fn spec_r(&self) -> u8 {
        self.r
    }

    /// The green channel.
    pub closed spec fn spec_g(&self) -> u8 {
        self.g
    }

    /// The blue channel.
    pub closed spec fn spec_b(&self) -> u8 {
        self.b
    }

    /// The alpha channel.
    pub closed spec fn spec_a(&self) -> u8 {
        self.a
    }

    pub fn new(r: u8, g: u8, b: u8, a: u8) -> (c: Self)
        ensures
            c.spec_r() == r,
            c.spec_g() == g,
            c.spec_b() == b,
            c.spec_a() == a,
    {
        Color { r, g, b, a }
    }
}

/// The channel value of `c` that belongs at byte `k` of the pixel's four
/// bytes: red, green, blue, alpha in order.
pub open spec fn channel(c: Color, k: int) -> u8 {
    if k == 0 {
        c.spec_r()
    } else if k == 1 {
        c.spec_g()
    } else if k == 2 {
        c.spec_b()
    } else {
        c.spec_a()
    }
}

/// What a surface operation can fail with.
#[derive(Clone, Copy, Debug, PartialEq, Eq, Structural)]
pub enum SurfaceError {
    /// Acquiring the host canvas, context or listeners failed at startup.
    SetupFailure,
    /// A whole-buffer write did not have length WIDTH * HEIGHT * BYTES_PER_PIXEL.
    InvalidBufferSize,
    /// The drawing surface has not been initialized.
    SurfaceUnavailable,
}

/// The authoritative frame buffer. Its view is `None` while the surface is
/// uninitialized, and `Some(bytes)` once it exists; an existing surface
/// always holds exactly `BUF_BYTES` bytes.
pub struct Surface {
    available: bool,
    data: Vec<u8>,
}

impl View for Surface {
    type V = Option<Seq<u8>>;

    closed spec fn view(&self) -> Option<Seq<u8>> {
        if self.available {
            Some(self.data@)
        } else {
            None
        }
    }
}

/// An existing surface holds a full frame: exactly `BUF_BYTES` bytes.
pub open spec fn surface_wf(v: Option<Seq<u8>>) -> bool {
    v matches Some(b) ==> b.len() == BUF_BYTES
}

/// A frame of all-zero bytes: every pixel transparent black.
pub open spec fn zero_buffer() -> Seq<u8> {
    Seq::new(BUF_BYTES as nat, |i: int| 0u8)
}

/// What reading the whole buffer returns, as a function of the surface view.
pub open spec fn spec_read_buffer(v: Option<Seq<u8>>) -> Result<Seq<u8>, SurfaceError> {
    match v {
        Some(b) => Ok(b),
        None => Err(SurfaceError::SurfaceUnavailable),
    }
}

/// The surface view and result after a whole-buffer write of `b`: a write of
/// the wrong length is rejected and leaves the surface unchanged; a write to
/// an uninitialized surface fails; otherwise the buffer is replaced by `b`.
pub open spec fn spec_write_buffer(v: Option<Seq<u8>>, b: Seq<u8>) -> (Option<Seq<u8>>, Result<
    (),
    SurfaceError,
>) {
    if b.len() != BUF_BYTES {
        (v, Err(SurfaceError::InvalidBufferSize))
    } else if v is None {
        (v, Err(SurfaceError::SurfaceUnavailable))
    } else {
        (Some(b), Ok(()))
    }
}

impl Surface {
    /// A fresh surface for the fixed canvas size, zero-initialized.
    pub fn new() -> (s: Surface)
        ensures
            s@ == Some(zero_buffer()),
            surface_wf(s@),
    {
        let mut data: Vec<u8> = Vec::new();
        let mut i: usize = 0;
        while i < BUF_BYTES
            invariant
                i <= BUF_BYTES,
                data@.len() == i,
                forall|j: int| 0 <= j < i ==> data@[j] == 0u8,
            decreases BUF_BYTES - i,
        {
            data.push(0);
            i += 1;
        }
        proof {
            assert(data@ =~= zero_buffer());
        }
        Surface { available: true, data }
    }

    /// The state before the host surface exists: every operation that needs
    /// the buffer fails with `SurfaceUnavailable`.
    pub fn uninitialized() -> (s: Surface)
        ensures
            s@ is None,
            surface_wf(s@),
    {
        Surface { available: false, data: Vec::new() }
    }

    /// Whether the surface has been initialized.
    pub fn is_available(&self) -> (r: bool)
        ensures
            r <==> self@ is Some,
    {
        self.available
    }

    /// A snapshot of the current full RGBA buffer. No side effects.
    pub fn read_buffer(&self) -> (r: Result<Vec<u8>, SurfaceError>)
        ensures
            r is Ok <==> spec_read_buffer(self@) is Ok,
            r is Ok ==> r->Ok_0@ == spec_read_buffer(self@)->Ok_0,
            r is Err ==> r->Err_0 == spec_read_buffer(self@)->Err_0,
    {
        if !self.available {
            return Err(SurfaceError::SurfaceUnavailable);
        }
        let mut out: Vec<u8> = Vec::new();
        let mut i: usize = 0;
        let n = self.data.len();
        while i < n
            invariant
                i <= n,
                n == self.data@.len(),
                out@.len() == i,
                forall|j: int| 0 <= j < i ==> out@[j] == self.data@[j],
            decreases n - i,
        {
            out.push(self.data[i]);
            i += 1;
        }
        proof {
            assert(out@ =~= self.data@);
        }
        Ok(out)
    }

    /// Replaces the full RGBA buffer content in one step; rejects input of
    /// the wrong length, leaving the prior buffer unchanged.
    pub fn write_buffer(&mut self, b: Vec<u8>) -> (r: Result<(), SurfaceError>)
        ensures
            final(self)@ == spec_write_buffer(old(self)@, b@).0,
            r == spec_write_buffer(old(self)@, b@).1,
    {
        if b.len() != BUF_BYTES {
            return Err(SurfaceError::InvalidBufferSize);
        }
        if !self.available {
            return Err(SurfaceError::SurfaceUnavailable);
        }
        self.data = b;
        Ok(())
    }
}

/// First byte offset of the pixel at `(x, y)`: row-major, four bytes per
/// pixel, so `(y * WIDTH + x) * BYTES_PER_PIXEL`.
pub open spec fn pixel_offset(x: int, y: int) -> int {
    (y * (WIDTH as int) + x) * (BYTES_PER_PIXEL as int)
}

/// The x coordinate of the pixel that byte `bi` of the buffer belongs to.
pub open spec fn byte_px(bi: int) -> int {
    (bi / (BYTES_PER_PIXEL as int)) % (WIDTH as int)
}

/// The y coordinate of the pixel that byte `bi` of the buffer belongs to.
pub open spec fn byte_py(bi: int) -> int {
    (bi / (BYTES_PER_PIXEL as int)) / (WIDTH as int)
}

/// The buffer after writing color `c` at pixel `(x, y)`: the four bytes at
/// the pixel's offset hold the channels in R, G, B, A order.
pub open spec fn spec_set_pixel(b: Seq<u8>, x: int, y: int, c: Color) -> Seq<u8> {
    b.update(pixel_offset(x, y), c.spec_r()).update(pixel_offset(x, y) + 1, c.spec_g()).update(
        pixel_offset(x, y) + 2,
        c.spec_b(),
    ).update(pixel_offset(x, y) + 3, c.spec_a())
}

/// The buffer after clearing: the same length, every byte zero.
pub open spec fn spec_clear(b: Seq<u8>) -> Seq<u8> {
    Seq::new(b.len(), |i: int| 0u8)
}

/// Writes the four channel bytes of `color` at the offset of pixel `(x, y)`
/// into the caller-supplied buffer. The coordinates must be in bounds and
/// the buffer must be a full frame.
pub fn draw_pixel_by_vec(x: usize, y: usize, color: &Color, data: &mut Vec<u8>)
    requires
        x < WIDTH,
        y < HEIGHT,
        old(data)@.len() == BUF_BYTES,
    ensures
        final(data)@ == spec_set_pixel(old(data)@, x as int, y as int, *color),
{
    let i: usize = (y * WIDTH + x) * BYTES_PER_PIXEL;
    data[i] = color.r;
    data[i + 1] = color.g;
    data[i + 2] = color.b;
    data[i + 3] = color.a;
}

/// Zeroes every channel of every pixel and commits the cleared buffer back
/// to the surface: clear to transparent black.
pub fn clear(surface: &mut Surface)
    requires
        old(surface)@ is Some,
        surface_wf(old(surface)@),
    ensures
        final(surface)@ == Some(spec_clear(old(surface)@->0)),
{
    let mut data = surface.read_buffer().unwrap();
    let n = data.len();
    let mut i: usize = 0;
    while i < n
        invariant
            i <= n,
            n == data@.len(),
            forall|j: int| 0 <= j < i ==> data@[j] == 0u8,
        decreases n - i,
    {
        data[i] = 0;
        i += 1;
    }
    proof {
        assert(data@ =~= spec_clear(old(surface)@->0));
    }
    let _ = surface.write_buffer(data);
}

/// Whether byte `bi` belongs to a pixel inside the rectangle of width `w`
/// and height `h` whose top-left pixel is `(x, y)`.
pub open spec fn byte_in_rect(bi: int, x: int, y: int, w: int, h: int) -> bool {
    &&& x <= byte_px(bi) < x + w
    &&& y <= byte_py(bi) < y + h
}

/// The buffer after a solid fill of the rectangle at `(x, y)` with width `w`
/// and height `h`: every byte of a pixel inside the rectangle holds the
/// matching channel of `c`, every other byte is unchanged.
pub open spec fn spec_fill_rect(b: Seq<u8>, x: int, y: int, w: int, h: int, c: Color) -> Seq<u8> {
    Seq::new(
        b.len(),
        |bi: int|
            if byte_in_rect(bi, x, y, w, h) {
                channel(c, bi % (BYTES_PER_PIXEL as int))
            } else {
                b[bi]
            },
    )
}

/// Whether the fill loop, about to write column `col` of row `row` of the
/// rectangle at `(x, y)`, has already written the pixel of byte `bi`.
spec fn fill_done(bi: int, x: int, y: int, row: int, col: int) -> bool {
    byte_py(bi) < y + row || (byte_py(bi) == y + row && byte_px(bi) < x + col)
}

/// A byte lies within the four bytes of pixel `(px, py)` exactly when its
/// own pixel coordinates are `(px, py)`; within them, the byte's channel
/// index is its distance from the pixel's offset.
proof fn lemma_pixel_byte(px: int, py: int, bi: int)
    requires
        0 <= px < WIDTH,
        0 <= py < HEIGHT,
        0 <= bi < BUF_BYTES,
    ensures
        (pixel_offset(px, py) <= bi < pixel_offset(px, py) + BYTES_PER_PIXEL) <==> (byte_px(bi)
            == px && byte_py(bi) == py),
        pixel_offset(px, py) <= bi < pixel_offset(px, py) + BYTES_PER_PIXEL ==> bi % (
        BYTES_PER_PIXEL as int) == bi - pixel_offset(px, py),
{
    let q = py * (WIDTH as int) + px;
    let off = pixel_offset(px, py);
    assert(off == q * 4);
    if off <= bi < off + 4 {
        lemma_fundamental_div_mod_converse(bi, 4, q, bi - q * 4);
        lemma_fundamental_div_mod_converse(q, WIDTH as int, py, px);
    }
    if byte_px(bi) == px && byte_py(bi) == py {
        let p = bi / 4;
        lemma_fundamental_div_mod(bi, 4);
        lemma_mod_bound(bi, 4);
        lemma_fundamental_div_mod(p, WIDTH as int);
        lemma_mod_bound(p, WIDTH as int);
    }
}

/// Fills the rectangle at `(x, y)` of width `w` and height `h` with `color`:
/// reads the current buffer, writes the color at each pixel of the
/// rectangle, and commits the whole buffer back to the surface.
pub fn rect(surface: &mut Surface, x: usize, y: usize, w: usize, h: usize, color: &Color)
    requires
        old(surface)@ is Some,
        surface_wf(old(surface)@),
        x + w <= WIDTH,
        y + h <= HEIGHT,
    ensures
        final(surface)@ == Some(
            spec_fill_rect(old(surface)@->0, x as int, y as int, w as int, h as int, *color),
        ),
{
    let mut data = surface.read_buffer().unwrap();
    let ghost orig = data@;
    let mut row: usize = 0;
    while row < h
        invariant
            row <= h,
            x + w <= WIDTH,
            y + h <= HEIGHT,
            data@.len() == BUF_BYTES,
            orig.len() == BUF_BYTES,
            forall|bi: int|
                0 <= bi < BUF_BYTES ==> data@[bi] == (if byte_in_rect(
                    bi,
                    x as int,
                    y as int,
                    w as int,
                    h as int,
                ) && fill_done(bi, x as int, y as int, row as int, 0) {
                    channel(*color, bi % (BYTES_PER_PIXEL as int))
                } else {
                    orig[bi]
                }),
        decreases h - row,
    {
        let mut col: usize = 0;
        while col < w
            invariant
                col <= w,
                row < h,
                x + w <= WIDTH,
                y + h <= HEIGHT,
                data@.len() == BUF_BYTES,
                orig.len() == BUF_BYTES,
                forall|bi: int|
                    0 <= bi < BUF_BYTES ==> data@[bi] == (if byte_in_rect(
                        bi,
                        x as int,
                        y as int,
                        w as int,
                        h as int,
                    ) && fill_done(bi, x as int, y as int, row as int, col as int) {
                        channel(*color, bi % (BYTES_PER_PIXEL as int))
                    } else {
                        orig[bi]
                    }),
            decreases w - col,
        {
            draw_pixel_by_vec(x + col, y + row, color, &mut data);
            proof {
                let px = x as int + col as int;
                let py = y as int + row as int;
                assert forall|bi: int| 0 <= bi < BUF_BYTES implies data@[bi] == (if byte_in_rect(
                    bi,
                    x as int,
                    y as int,
                    w as int,
                    h as int,
                ) && fill_done(bi, x as int, y as int, row as int, col as int + 1) {
                    channel(*color, bi % (BYTES_PER_PIXEL as int))
                } else {
                    orig[bi]
                }) by {
                    lemma_pixel_byte(px, py, bi);
                }
            }
            col += 1;
        }
        proof {
            assert forall|bi: int| 0 <= bi < BUF_BYTES implies data@[bi] == (if byte_in_rect(
                bi,
                x as int,
                y as int,
                w as int,
                h as int,
            ) && fill_done(bi, x as int, y as int, row as int + 1, 0) {
                channel(*color, bi % (BYTES_PER_PIXEL as int))
            } else {
                orig[bi]
            }) by {}
        }
        row += 1;
    }
    proof {
        assert(data@ =~= spec_fill_rect(orig, x as int, y as int, w as int, h as int, *color));
    }
    let _ = surface.write_buffer(data);
}

/// Writing a pixel and reading back the four bytes at its offset yields
/// exactly the color's channel values, in R, G, B, A order; no other byte
/// and not the length changes.
pub proof fn lemma_set_pixel_read_back(b: Seq<u8>, x: int, y: int, c: Color)
    requires
        0 <= x < WIDTH,
        0 <= y < HEIGHT,
        b.len() == BUF_BYTES,
    ensures
        spec_set_pixel(b, x, y, c).len() == b.len(),
        spec_set_pixel(b, x, y, c)[pixel_offset(x, y)] == c.spec_r(),
        spec_set_pixel(b, x, y, c)[pixel_offset(x, y) + 1] == c.spec_g(),
        spec_set_pixel(b, x, y, c)[pixel_offset(x, y) + 2] == c.spec_b(),
        spec_set_pixel(b, x, y, c)[pixel_offset(x, y) + 3] == c.spec_a(),
        forall|bi: int|
            0 <= bi < b.len() && !(pixel_offset(x, y) <= bi < pixel_offset(x, y)
                + BYTES_PER_PIXEL) ==> spec_set_pixel(b, x, y, c)[bi] == b[bi],
{
}

/// Reading the whole buffer immediately after a successful whole-buffer
/// write of `b` returns exactly `b`.
pub proof fn lemma_write_read_round_trip(v: Option<Seq<u8>>, b: Seq<u8>)
    requires
        v is Some,
        b.len() == BUF_BYTES,
    ensures
        spec_read_buffer(spec_write_buffer(v, b).0) == Ok::<Seq<u8>, SurfaceError>(b),
{
}

/// A whole-buffer write of the wrong length fails with `InvalidBufferSize`
/// and leaves the prior surface unchanged.
pub proof fn lemma_write_wrong_size_rejected(v: Option<Seq<u8>>, b: Seq<u8>)
    requires
        b.len() != BUF_BYTES,
    ensures
        spec_write_buffer(v, b).0 == v,
        spec_write_buffer(v, b).1 == Err::<(), SurfaceError>(SurfaceError::InvalidBufferSize),
{
}

/// Clearing twice yields the same buffer as clearing once.
pub proof fn lemma_clear_idempotent(b: Seq<u8>)
    ensures
        spec_clear(spec_clear(b)) == spec_clear(b),
{
    assert(spec_clear(spec_clear(b)) =~= spec_clear(b));
}

} // verus!
