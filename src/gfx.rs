//! Drawing kit used by cartridges: packed RGBA colors, logical keys, and
//! primitives that paint into an RGBA framebuffer.
use vstd::prelude::*;

verus! {

/// Default framebuffer width in pixels.
pub const DEFAULT_W: usize = 160;
/// Default framebuffer height in pixels.
pub const DEFAULT_H: usize = 144;

/// Logical buttons; each one owns one bit of the input bitmask.
#[derive(Clone, Copy, Debug, PartialEq, Eq, Structural)]
pub enum Key {
    Up,
    Down,
    Left,
    Right,
    A,
    B,
    Start,
    Select,
}

/// Bit index of a key in the input bitmask.
pub open spec fn key_index(k: Key) -> u32 {
    match k {
        Key::Up => 0,
        Key::Down => 1,
        Key::Left => 2,
        Key::Right => 3,
        Key::A => 4,
        Key::B => 5,
        Key::Start => 6,
        Key::Select => 7,
    }
}

/// The bitmask with only the bit of `k` set.
pub fn key_bit(k: Key) -> (r: u32)
    ensures
        r == 1u32 << key_index(k),
{
    match k {
        Key::Up => 1u32 << 0u32,
        Key::Down => 1u32 << 1u32,
        Key::Left => 1u32 << 2u32,
        Key::Right => 1u32 << 3u32,
        Key::A => 1u32 << 4u32,
        Key::B => 1u32 << 5u32,
        Key::Start => 1u32 << 6u32,
        Key::Select => 1u32 << 7u32,
    }
}

/// A packed color: red in the low byte, then green, blue and alpha, so that
/// its little-endian bytes read R, G, B, A.
pub open spec fn rgba_spec(r: u8, g: u8, b: u8, a: u8) -> int {
    a as int * 0x1000000 + b as int * 0x10000 + g as int * 0x100 + r as int
}

/// Packs four channel bytes into one color.
pub fn rgba(r: u8, g: u8, b: u8, a: u8) -> (c: u32)
    ensures
        c as int == rgba_spec(r, g, b, a),
{
    let c = ((a as u32) << 24u32) | ((b as u32) << 16u32) | ((g as u32) << 8u32) | (r as u32);
    assert(c == (a as u32) * 0x1000000 + (b as u32) * 0x10000 + (g as u32) * 0x100 + (r as u32))
        by (bit_vector)
        requires
            c == ((a as u32) << 24u32) | ((b as u32) << 16u32) | ((g as u32) << 8u32) | (r as u32),
            a < 256u32, b < 256u32, g < 256u32, r < 256u32,
    ;
    c
}

/// Byte `k` (0 to 3) of a color in little-endian order.
pub open spec fn color_byte(c: u32, k: int) -> u8 {
    if k == 0 { (c & 0xFF) as u8 }
    else if k == 1 { ((c >> 8u32) & 0xFF) as u8 }
    else if k == 2 { ((c >> 16u32) & 0xFF) as u8 }
    else { ((c >> 24u32) & 0xFF) as u8 }
}

/// Column of the pixel that holds byte `i` of a framebuffer `w` pixels wide.
pub open spec fn px_of(i: int, w: int) -> int {
    (i / 4) % w
}

/// Row of the pixel that holds byte `i` of a framebuffer `w` pixels wide.
pub open spec fn py_of(i: int, w: int) -> int {
    (i / 4) / w
}

/// An RGBA framebuffer of `w` by `h` pixels, row-major, 4 bytes per pixel.
pub struct Frame {
    pub data: Vec<u8>,
    pub w: usize,
    pub h: usize,
}

proof fn lemma_byte_coords(i: int, px: int, py: int, w: int, h: int)
    requires
        0 <= px < w,
        0 <= py < h,
    ensures
        (py * w + px) * 4 <= i < (py * w + px) * 4 + 4 <==> (0 <= i && px_of(i, w) == px && py_of(i, w) == py),
        (py * w + px) * 4 + 4 <= w * h * 4,
{
    assert((py * w + px) * 4 + 4 <= w * h * 4) by (nonlinear_arith)
        requires 0 <= px < w, 0 <= py < h;
    if (py * w + px) * 4 <= i < (py * w + px) * 4 + 4 {
        vstd::arithmetic::div_mod::lemma_fundamental_div_mod_converse(i, 4, py * w + px, i - (py * w + px) * 4);
        vstd::arithmetic::div_mod::lemma_fundamental_div_mod_converse(py * w + px, w, py, px);
    }
    if 0 <= i && px_of(i, w) == px && py_of(i, w) == py {
        vstd::arithmetic::div_mod::lemma_fundamental_div_mod(i, 4);
        vstd::arithmetic::div_mod::lemma_fundamental_div_mod(i / 4, w);
        vstd::arithmetic::mul::lemma_mul_is_commutative(w, (i / 4) / w);
    }
}

fn color_bytes(c: u32) -> (r: [u8; 4])
    ensures
        forall|k: int| 0 <= k < 4 ==> #[trigger] r@[k] == color_byte(c, k),
{
    let r = [(c & 0xFF) as u8, ((c >> 8u32) & 0xFF) as u8, ((c >> 16u32) & 0xFF) as u8, ((c >> 24u32) & 0xFF) as u8];
    assert(r@ == seq![color_byte(c, 0), color_byte(c, 1), color_byte(c, 2), color_byte(c, 3)]);
    r
}

impl Frame {
    pub open spec fn wf(&self) -> bool {
        self.data@.len() == self.w * self.h * 4
    }

    /// Fills every whole pixel with `color`.
    pub fn clear(&mut self, color: u32)
        ensures
            final(self).w == old(self).w,
            final(self).h == old(self).h,
            final(self).data@.len() == old(self).data@.len(),
            forall|i: int| 0 <= i < old(self).data@.len() ==> #[trigger] final(self).data@[i] == if i < old(self).data@.len() - old(self).data@.len() % 4 {
                color_byte(color, i % 4)
            } else {
                old(self).data@[i]
            },
    {
        let bytes = color_bytes(color);
        let n = self.data.len();
        let end = n - n % 4;
        let mut i: usize = 0;
        while i < end
            invariant
                i <= end,
                end == n - n % 4,
                forall|k: int| 0 <= k < 4 ==> #[trigger] bytes@[k] == color_byte(color, k),
                n == old(self).data@.len(),
                self.w == old(self).w,
                self.h == old(self).h,
                self.data@.len() == n,
                forall|j: int| 0 <= j < n ==> #[trigger] self.data@[j] == if j < i {
                    color_byte(color, j % 4)
                } else {
                    old(self).data@[j]
                },
            decreases end - i,
        {
            let b = bytes[i % 4];
            assert(b == color_byte(color, (i % 4) as int));
            self.data.set(i, b);
            i = i + 1;
        }
    }

    /// Sets pixel (`px`, `py`) to `color`.
    fn put_pixel(&mut self, px: usize, py: usize, color: u32)
        requires
            old(self).wf(),
            px < old(self).w,
            py < old(self).h,
        ensures
            final(self).wf(),
            final(self).w == old(self).w,
            final(self).h == old(self).h,
            forall|i: int| 0 <= i < old(self).data@.len() ==> #[trigger] final(self).data@[i] == if px_of(i, old(self).w as int) == px && py_of(i, old(self).w as int) == py {
                color_byte(color, i % 4)
            } else {
                old(self).data@[i]
            },
    {
        let n = self.data.len();
        proof {
            lemma_byte_coords(0, px as int, py as int, self.w as int, self.h as int);
            assert(py * self.w + px <= self.w * self.h) by (nonlinear_arith)
                requires px < self.w, py < self.h;
        }
        let base = (py * self.w + px) * 4;
        let bytes = color_bytes(color);
        let mut k: usize = 0;
        while k < 4
            invariant
                k <= 4,
                base == (py * old(self).w + px) * 4,
                forall|k: int| 0 <= k < 4 ==> #[trigger] bytes@[k] == color_byte(color, k),
                base + 4 <= old(self).data@.len(),
                self.w == old(self).w,
                self.h == old(self).h,
                self.data@.len() == old(self).data@.len(),
                forall|j: int| 0 <= j < self.data@.len() ==> #[trigger] self.data@[j] == if base <= j < base + k {
                    color_byte(color, j % 4)
                } else {
                    old(self).data@[j]
                },
            decreases 4 - k,
        {
            proof {
                vstd::arithmetic::div_mod::lemma_fundamental_div_mod_converse(
                    (base + k) as int, 4, py * old(self).w + px, k as int);
            }
            let b = bytes[k];
            assert(b == color_byte(color, k as int));
            self.data.set(base + k, b);
            k = k + 1;
        }
        proof {
            assert forall|i: int| 0 <= i < old(self).data@.len() implies #[trigger] self.data@[i] == if px_of(i, old(self).w as int) == px && py_of(i, old(self).w as int) == py {
                color_byte(color, i % 4)
            } else {
                old(self).data@[i]
            } by {
                lemma_byte_coords(i, px as int, py as int, self.w as int, self.h as int);
                if base <= i < base + 4 {
                    vstd::arithmetic::div_mod::lemma_fundamental_div_mod_converse(
                        i, 4, py * old(self).w + px, i - base);
                }
            }
        }
    }
}

/// Pixel (`px`, `py`) lies in the rectangle at (`x`, `y`) of size `w` by `h`.
pub open spec fn in_rect(px: int, py: int, x: i32, y: i32, w: i32, h: i32) -> bool {
    x <= px < x + w && y <= py < y + h
}

proof fn lemma_coords_in_frame(i: int, w: int, h: int)
    requires
        0 <= i < w * h * 4,
        w >= 0,
        h >= 0,
    ensures
        0 <= px_of(i, w) < w,
        0 <= py_of(i, w) < h,
{
    assert(w > 0) by (nonlinear_arith) requires 0 <= i < w * h * 4, w >= 0, h >= 0;
    vstd::arithmetic::div_mod::lemma_div_pos_is_pos(i, 4);
    vstd::arithmetic::div_mod::lemma_mod_pos_bound(i / 4, w);
    vstd::arithmetic::div_mod::lemma_div_pos_is_pos(i / 4, w);
    vstd::arithmetic::div_mod::lemma_fundamental_div_mod(i, 4);
    vstd::arithmetic::div_mod::lemma_fundamental_div_mod(i / 4, w);
    assert((i / 4) / w < h) by (nonlinear_arith)
        requires
            i / 4 == w * ((i / 4) / w) + (i / 4) % w,
            i == 4 * (i / 4) + i % 4,
            0 <= i % 4, 0 <= (i / 4) % w,
            i < w * h * 4,
            w > 0,
    ;
}

/// `v` clamped to `[0, limit]`.
pub open spec fn clamp_to(v: int, limit: int) -> int {
    if v < 0 { 0 } else if v > limit { limit } else { v }
}

/// Clips the span `[a, a + len)` to `[0, limit)`.
fn clip_span(a: i32, len: i32, limit: usize) -> (r: (usize, usize))
    ensures
        r.0 == clamp_to(a as int, limit as int),
        r.1 == clamp_to(a + len, limit as int),
{
    let e: i64 = a as i64 + len as i64;
    let lo: usize = if a < 0 {
        0
    } else if (a as u64) >= (limit as u64) {
        limit
    } else {
        a as usize
    };
    let hi: usize = if e <= 0 {
        0
    } else if (e as u64) >= (limit as u64) {
        limit
    } else {
        e as usize
    };
    (lo, hi)
}

impl Frame {
    /// Fills the part of the rectangle at (`x`, `y`), `w` by `h` pixels, that
    /// lies inside the frame.
    pub fn rect(&mut self, x: i32, y: i32, w: i32, h: i32, color: u32)
        requires
            old(self).wf(),
        ensures
            final(self).wf(),
            final(self).w == old(self).w,
            final(self).h == old(self).h,
            forall|i: int| 0 <= i < old(self).data@.len() ==> #[trigger] final(self).data@[i] == if in_rect(
                px_of(i, old(self).w as int), py_of(i, old(self).w as int), x, y, w, h) {
                color_byte(color, i % 4)
            } else {
                old(self).data@[i]
            },
    {
        let (x0, x1) = clip_span(x, w, self.w);
        let x1 = if x1 < x0 { x0 } else { x1 };
        let (y0, y1) = clip_span(y, h, self.h);
        let fw = self.w;
        let ghost n = self.data@.len();
        let mut yy: usize = y0;
        if y0 < y1 {
            while yy < y1
                invariant
                    y0 <= yy <= y1,
                    x0 <= x1,
                    self.wf(),
                    self.w == old(self).w,
                    self.h == old(self).h,
                    fw == self.w,
                    self.data@.len() == n,
                    n == old(self).data@.len(),
                    x1 <= self.w,
                    y1 <= self.h,
                    forall|i: int| 0 <= i < n ==> #[trigger] self.data@[i] == if x0 <= px_of(i, fw as int) < x1
                        && y0 <= py_of(i, fw as int) < yy {
                        color_byte(color, i % 4)
                    } else {
                        old(self).data@[i]
                    },
                decreases y1 - yy,
            {
                let mut xx: usize = x0;
                while xx < x1
                    invariant
                        x0 <= xx <= x1,
                        y0 <= yy < y1,
                        self.wf(),
                        self.w == old(self).w,
                        self.h == old(self).h,
                        fw == self.w,
                        self.data@.len() == n,
                        x1 <= self.w,
                        y1 <= self.h,
                        forall|i: int| 0 <= i < n ==> #[trigger] self.data@[i] == if (x0 <= px_of(i, fw as int) < x1
                            && y0 <= py_of(i, fw as int) < yy) || (py_of(i, fw as int) == yy
                            && x0 <= px_of(i, fw as int) < xx) {
                            color_byte(color, i % 4)
                        } else {
                            old(self).data@[i]
                        },
                    decreases x1 - xx,
                {
                    self.put_pixel(xx, yy, color);
                    xx = xx + 1;
                }
                yy = yy + 1;
            }
        }
        proof {
            assert forall|i: int| 0 <= i < n implies #[trigger] self.data@[i] == if in_rect(
                px_of(i, fw as int), py_of(i, fw as int), x, y, w, h) {
                color_byte(color, i % 4)
            } else {
                old(self).data@[i]
            } by {
                lemma_coords_in_frame(i, fw as int, self.h as int);
            }
        }
    }
}

/// Four packed colors, indexed 0 to 3.
#[derive(Clone, Copy, Debug)]
pub struct Palette(pub [u32; 4]);

/// The darkest to lightest greens of the default palette.
pub const GB_DARKEST: u32 = 0xFF0F_380F;
pub const GB_DARK: u32 = 0xFF30_6230;
pub const GB_LIGHT: u32 = 0xFF0F_AC8B;
pub const GB_LIGHTEST: u32 = 0xFF0F_BC9B;

impl Palette {
    /// The default four-green palette.
    pub fn gb() -> (r: Palette)
        ensures
            r.0@ == seq![GB_DARKEST, GB_DARK, GB_LIGHT, GB_LIGHTEST],
    {
        let r = Palette([GB_DARKEST, GB_DARK, GB_LIGHT, GB_LIGHTEST]);
        assert(r.0@ == seq![GB_DARKEST, GB_DARK, GB_LIGHT, GB_LIGHTEST]);
        r
    }

    /// Color number `i`.
    pub fn color(&self, i: u8) -> (r: u32)
        requires
            i < 4,
        ensures
            r == self.0@[i as int],
    {
        self.0[i as usize]
    }
}

/// A sheet of equally sized tiles, one palette index (0 to 3) per pixel.
pub struct SpriteAtlas {
    pub w: usize,
    pub h: usize,
    pub tile_w: usize,
    pub tile_h: usize,
    pub pixels: Vec<u8>,
}

/// Whether a pixel of palette index `idx` is drawn.
pub open spec fn visible(idx: u8, transparent_zero: bool) -> bool {
    !(transparent_zero && idx == 0)
}

impl SpriteAtlas {
    pub open spec fn wf(&self) -> bool {
        &&& self.pixels@.len() == self.w * self.h
        &&& self.tile_w > 0
        &&& self.tile_h > 0
        &&& self.w % self.tile_w == 0
        &&& self.h % self.tile_h == 0
    }

    /// Tiles per row of the sheet.
    pub open spec fn tiles_x(&self) -> int {
        self.w as int / self.tile_w as int
    }

    /// Tiles in the sheet, numbered row by row from 0.
    pub open spec fn tile_count(&self) -> int {
        (self.w as int / self.tile_w as int) * (self.h as int / self.tile_h as int)
    }

    /// Palette index of pixel (`tx`, `ty`) of tile `tile_id` as it is drawn,
    /// after the optional mirroring.
    pub open spec fn tile_pixel(&self, tile_id: int, tx: int, ty: int, flip_x: bool, flip_y: bool) -> u8 {
        let sx = (tile_id % self.tiles_x()) * self.tile_w;
        let sy = (tile_id / self.tiles_x()) * self.tile_h;
        let sxp = if flip_x { self.tile_w - 1 - tx } else { tx };
        let syp = if flip_y { self.tile_h - 1 - ty } else { ty };
        self.pixels@[(sy + syp) * self.w + sx + sxp]
    }

    /// An atlas over `pixels`, `w` by `h`, cut into tiles of `tile_w` by `tile_h`.
    pub fn from_indexed(pixels: Vec<u8>, w: usize, h: usize, tile_w: usize, tile_h: usize) -> (r: SpriteAtlas)
        requires
            pixels@.len() == w * h,
            tile_w > 0,
            tile_h > 0,
            w % tile_w == 0,
            h % tile_h == 0,
        ensures
            r.wf(),
            r.pixels@ == pixels@,
            r.w == w && r.h == h && r.tile_w == tile_w && r.tile_h == tile_h,
    {
        SpriteAtlas { w, h, tile_w, tile_h, pixels }
    }
}

proof fn lemma_tile_source(w: int, h: int, tw: int, th: int, tile_id: int, sxp: int, syp: int)
    requires
        tw > 0,
        th > 0,
        w % tw == 0,
        h % th == 0,
        w >= 0,
        h >= 0,
        0 <= tile_id < (w / tw) * (h / th),
        0 <= sxp < tw,
        0 <= syp < th,
    ensures
        w / tw > 0,
        (tile_id % (w / tw)) * tw + sxp < w,
        (tile_id / (w / tw)) * th + syp < h,
        ((tile_id / (w / tw)) * th + syp) * w + (tile_id % (w / tw)) * tw + sxp < w * h,
{
    let nx = w / tw;
    let ny = h / th;
    vstd::arithmetic::div_mod::lemma_fundamental_div_mod(w, tw);
    vstd::arithmetic::div_mod::lemma_fundamental_div_mod(h, th);
    assert(nx > 0 && ny > 0) by (nonlinear_arith)
        requires 0 <= tile_id < nx * ny, w >= 0, h >= 0, nx == w / tw, ny == h / th, tw > 0, th > 0;
    let c = tile_id % nx;
    let r = tile_id / nx;
    vstd::arithmetic::div_mod::lemma_mod_pos_bound(tile_id, nx);
    vstd::arithmetic::div_mod::lemma_div_pos_is_pos(tile_id, nx);
    vstd::arithmetic::div_mod::lemma_fundamental_div_mod(tile_id, nx);
    assert(r < ny) by (nonlinear_arith)
        requires tile_id == nx * r + c, 0 <= c, tile_id < nx * ny, nx > 0;
    assert(c * tw + sxp < w) by (nonlinear_arith)
        requires 0 <= c < nx, 0 <= sxp < tw, w == tw * nx + 0;
    assert(r * th + syp < h) by (nonlinear_arith)
        requires 0 <= r < ny, 0 <= syp < th, h == th * ny + 0;
    assert((r * th + syp) * w + c * tw + sxp < w * h) by (nonlinear_arith)
        requires 0 <= r * th + syp < h, 0 <= c * tw + sxp < w;
}

/// What blitting tile `tile_id` of `atlas` at (`dx`, `dy`) leaves in byte
/// `i` of a framebuffer `fw` pixels wide whose byte was `old`.
pub open spec fn blit_byte(
    atlas: &SpriteAtlas,
    fw: int,
    i: int,
    old: u8,
    dx: i32,
    dy: i32,
    tile_id: int,
    pal: Palette,
    flip_x: bool,
    flip_y: bool,
    transparent_zero: bool,
) -> u8 {
    let tx = px_of(i, fw) - dx;
    let ty = py_of(i, fw) - dy;
    if 0 <= tx < atlas.tile_w && 0 <= ty < atlas.tile_h {
        let idx = atlas.tile_pixel(tile_id, tx, ty, flip_x, flip_y);
        if visible(idx, transparent_zero) { color_byte(pal.0@[(idx & 3) as int], i % 4) } else { old }
    } else {
        old
    }
}

impl SpriteAtlas {
    /// Draws tile `tile_id` with its top left corner at (`dx`, `dy`), in the
    /// colors of `pal`, mirrored as asked; with `transparent_zero`, pixels of
    /// index 0 are left out. Parts outside the frame are clipped.
    pub fn blit(
        &self,
        frame: &mut Frame,
        dx: i32,
        dy: i32,
        tile_id: usize,
        pal: &Palette,
        flip_x: bool,
        flip_y: bool,
        transparent_zero: bool,
    )
        requires
            self.wf(),
            old(frame).wf(),
            tile_id < self.tile_count(),
        ensures
            final(frame).wf(),
            final(frame).w == old(frame).w,
            final(frame).h == old(frame).h,
            forall|i: int| 0 <= i < old(frame).data@.len() ==> #[trigger] final(frame).data@[i] == blit_byte(
                self, old(frame).w as int, i, old(frame).data@[i], dx, dy, tile_id as int, *pal,
                flip_x, flip_y, transparent_zero),
    {
        proof {
            lemma_tile_source(self.w as int, self.h as int, self.tile_w as int, self.tile_h as int,
                tile_id as int, 0, 0);
        }
        let tiles_x = self.w / self.tile_w;
        let sx = (tile_id % tiles_x) * self.tile_w;
        let sy = (tile_id / tiles_x) * self.tile_h;
        let fw = frame.w;
        let fh = frame.h;
        let ghost n = frame.data@.len();
        let mut ty: usize = 0;
        while ty < self.tile_h
            invariant
                self.wf(),
                tile_id < self.tile_count(),
                tiles_x == self.tiles_x(),
                sx == (tile_id as int % self.tiles_x()) * self.tile_w,
                sy == (tile_id as int / self.tiles_x()) * self.tile_h,
                ty <= self.tile_h,
                frame.wf(),
                frame.w == fw,
                frame.h == fh,
                fw == old(frame).w,
                fh == old(frame).h,
                frame.data@.len() == n,
                n == old(frame).data@.len(),
                forall|i: int| 0 <= i < n ==> #[trigger] frame.data@[i] == if py_of(i, fw as int) - dy < ty {
                    blit_byte(self, fw as int, i, old(frame).data@[i], dx, dy, tile_id as int, *pal,
                        flip_x, flip_y, transparent_zero)
                } else {
                    old(frame).data@[i]
                },
            decreases self.tile_h - ty,
        {
            let mut tx: usize = 0;
            while tx < self.tile_w
                invariant
                    self.wf(),
                    tile_id < self.tile_count(),
                    tiles_x == self.tiles_x(),
                    sx == (tile_id as int % self.tiles_x()) * self.tile_w,
                    sy == (tile_id as int / self.tiles_x()) * self.tile_h,
                    ty < self.tile_h,
                    tx <= self.tile_w,
                    frame.wf(),
                    frame.w == fw,
                    frame.h == fh,
                    fw == old(frame).w,
                    fh == old(frame).h,
                    frame.data@.len() == n,
                    n == old(frame).data@.len(),
                    forall|i: int| 0 <= i < n ==> #[trigger] frame.data@[i] == if py_of(i, fw as int) - dy < ty
                        || (py_of(i, fw as int) - dy == ty && px_of(i, fw as int) - dx < tx) {
                        blit_byte(self, fw as int, i, old(frame).data@[i], dx, dy, tile_id as int, *pal,
                            flip_x, flip_y, transparent_zero)
                    } else {
                        old(frame).data@[i]
                    },
                decreases self.tile_w - tx,
            {
                let sxp = if flip_x { (self.tile_w - 1) - tx } else { tx };
                let syp = if flip_y { (self.tile_h - 1) - ty } else { ty };
                proof {
                    lemma_tile_source(self.w as int, self.h as int, self.tile_w as int,
                        self.tile_h as int, tile_id as int, sxp as int, syp as int);
                }
                let src_x = sx + sxp;
                let src_y = sy + syp;
                let plen = self.pixels.len();
                assert(src_y * self.w + src_x < plen);
                let idx = self.pixels[src_y * self.w + src_x];
                let x: i128 = dx as i128 + tx as i128;
                let y: i128 = dy as i128 + ty as i128;
                if visible_exec(idx, transparent_zero) && 0 <= x && x < fw as i128 && 0 <= y && y < fh as i128 {
                    assert(idx & 3 < 4) by (bit_vector);
                    let color = pal.color(idx & 3);
                    let ghost before = frame.data@;
                    frame.put_pixel(x as usize, y as usize, color);
                    proof {
                        assert forall|i: int| 0 <= i < n implies #[trigger] frame.data@[i] == if py_of(i, fw as int) - dy < ty
                            || (py_of(i, fw as int) - dy == ty && px_of(i, fw as int) - dx < tx + 1) {
                            blit_byte(self, fw as int, i, old(frame).data@[i], dx, dy, tile_id as int, *pal,
                                flip_x, flip_y, transparent_zero)
                        } else {
                            old(frame).data@[i]
                        } by {
                            lemma_coords_in_frame(i, fw as int, fh as int);
                            vstd::arithmetic::div_mod::lemma_fundamental_div_mod(idx as int, 4);
                        }
                    }
                } else {
                    proof {
                        assert forall|i: int| 0 <= i < n implies #[trigger] frame.data@[i] == if py_of(i, fw as int) - dy < ty
                            || (py_of(i, fw as int) - dy == ty && px_of(i, fw as int) - dx < tx + 1) {
                            blit_byte(self, fw as int, i, old(frame).data@[i], dx, dy, tile_id as int, *pal,
                                flip_x, flip_y, transparent_zero)
                        } else {
                            old(frame).data@[i]
                        } by {
                            lemma_coords_in_frame(i, fw as int, fh as int);
                        }
                    }
                }
                tx = tx + 1;
            }
            ty = ty + 1;
        }
        proof {
            assert forall|i: int| 0 <= i < n implies #[trigger] frame.data@[i] == blit_byte(
                self, fw as int, i, old(frame).data@[i], dx, dy, tile_id as int, *pal,
                flip_x, flip_y, transparent_zero) by {
                lemma_coords_in_frame(i, fw as int, fh as int);
            }
        }
    }
}

fn visible_exec(idx: u8, transparent_zero: bool) -> (r: bool)
    ensures
        r == visible(idx, transparent_zero),
{
    !(transparent_zero && idx == 0)
}

/// The framebuffer bytes `s` after blitting a tile at (`dx`, `dy`).
pub open spec fn blit_seq(
    atlas: &SpriteAtlas,
    fw: int,
    s: Seq<u8>,
    dx: i32,
    dy: i32,
    tile_id: int,
    pal: Palette,
    transparent_zero: bool,
) -> Seq<u8> {
    Seq::new(s.len(), |i: int| blit_byte(atlas, fw, i, s[i], dx, dy, tile_id, pal, false, false, transparent_zero))
}

/// A scrolling background: a `w` by `h` grid of tile numbers, drawn with
/// tiles of `tile_w` by `tile_h` pixels and wrapping around at its edges.
pub struct TileMap {
    pub w: usize,
    pub h: usize,
    pub tile_w: usize,
    pub tile_h: usize,
    pub tiles: Vec<usize>,
}

impl TileMap {
    pub open spec fn wf(&self) -> bool {
        self.tiles@.len() == self.w * self.h
    }

    /// A map of `w` by `h` tiles of `tile_w` by `tile_h` pixels, row-major.
    pub fn new(w: usize, h: usize, tile_w: usize, tile_h: usize, tiles: Vec<usize>) -> (r: TileMap)
        requires
            tiles@.len() == w * h,
        ensures
            r.wf(),
            r.tiles@ == tiles@,
            r.w == w && r.h == h && r.tile_w == tile_w && r.tile_h == tile_h,
    {
        TileMap { w, h, tile_w, tile_h, tiles }
    }

    /// Tile columns drawn for a frame `fw` pixels wide: enough to cover it
    /// at any sub-tile offset.
    pub open spec fn cols(&self, fw: int) -> int {
        fw / self.tile_w as int + 2
    }

    pub open spec fn rows(&self, fh: int) -> int {
        fh / self.tile_h as int + 2
    }

    /// Screen position of the tile drawn in column `c` and row `r` of the
    /// window, for scroll (`sx`, `sy`).
    pub open spec fn tile_x(&self, sx: i32, c: int) -> int {
        c * self.tile_w - sx as int % self.tile_w as int
    }

    pub open spec fn tile_y(&self, sy: i32, r: int) -> int {
        r * self.tile_h - sy as int % self.tile_h as int
    }

    /// The map cell shown in window column `c` and row `r`.
    pub open spec fn cell(&self, sx: i32, sy: i32, r: int, c: int) -> int {
        let base_c = (sx as int / self.tile_w as int) % self.w as int;
        let base_r = (sy as int / self.tile_h as int) % self.h as int;
        ((base_r + r) % self.h as int) * self.w + (base_c + c) % self.w as int
    }

    /// The framebuffer after the first `k` tiles of the window are drawn,
    /// row by row.
    pub open spec fn draw_seq(
        &self,
        atlas: &SpriteAtlas,
        pal: Palette,
        sx: i32,
        sy: i32,
        transparent_zero: bool,
        fw: int,
        fh: int,
        s: Seq<u8>,
        k: nat,
    ) -> Seq<u8>
        decreases k,
    {
        if k == 0 {
            s
        } else {
            let prev = self.draw_seq(atlas, pal, sx, sy, transparent_zero, fw, fh, s, (k - 1) as nat);
            let r = (k - 1) / self.cols(fw);
            let c = (k - 1) % self.cols(fw);
            blit_seq(atlas, fw, prev, self.tile_x(sx, c) as i32, self.tile_y(sy, r) as i32,
                self.tiles@[self.cell(sx, sy, r, c)] as int, pal, transparent_zero)
        }
    }
}

/// Euclidean quotient and remainder of `a` by `d`.
fn div_rem_euclid(a: i64, d: i64) -> (r: (i64, i64))
    requires
        -0x8000_0000 <= a <= 0x8000_0000,
        0 < d <= 0x7FFF_FFFF,
    ensures
        r.0 == a as int / d as int,
        r.1 == a as int % d as int,
        -0x8000_0000 <= r.0 <= 0x8000_0000,
        0 <= r.1 < d,
{
    assert(0 <= a + d * 0x8000_0000 <= 0x8000_0000 + 0x7FFF_FFFF * 0x8000_0000) by (nonlinear_arith)
        requires 1 <= d <= 0x7FFF_FFFF, -0x8000_0000 <= a <= 0x8000_0000;
    let shifted: i64 = a + d * 0x8000_0000;
    let q: i64 = shifted / d;
    let m: i64 = shifted % d;
    proof {
        let q0 = a as int / d as int;
        let m0 = a as int % d as int;
        vstd::arithmetic::div_mod::lemma_fundamental_div_mod(a as int, d as int);
        vstd::arithmetic::div_mod::lemma_mod_bound(a as int, d as int);
        assert(shifted as int == (q0 + 0x8000_0000) * d + m0) by (nonlinear_arith)
            requires
                shifted as int == a as int + d * 0x8000_0000,
                a as int == d * q0 + m0,
        ;
        vstd::arithmetic::div_mod::lemma_fundamental_div_mod_converse(
            shifted as int, d as int, q0 + 0x8000_0000, m0);
        assert(-0x8000_0000 <= q0 <= 0x8000_0000) by (nonlinear_arith)
            requires
                a as int == d * q0 + m0,
                0 <= m0 < d,
                1 <= d,
                -0x8000_0000 <= a <= 0x8000_0000,
        ;
    }
    (q - 0x8000_0000, m)
}

impl TileMap {
    /// Draws the window of the map that scroll (`scroll_x`, `scroll_y`)
    /// selects, tile by tile and row by row, covering the whole frame.
    pub fn draw(
        &self,
        frame: &mut Frame,
        atlas: &SpriteAtlas,
        pal: &Palette,
        scroll_x: i32,
        scroll_y: i32,
        transparent_zero: bool,
    )
        requires
            self.wf(),
            atlas.wf(),
            old(frame).wf(),
            0 < self.w <= 0x7FFF_FFFF,
            0 < self.h <= 0x7FFF_FFFF,
            0 < self.tile_w,
            0 < self.tile_h,
            old(frame).w + self.tile_w <= 0x7FFF_FFFF,
            old(frame).h + self.tile_h <= 0x7FFF_FFFF,
            forall|k: int| 0 <= k < self.tiles@.len() ==> #[trigger] self.tiles@[k] < atlas.tile_count(),
        ensures
            final(frame).wf(),
            final(frame).w == old(frame).w,
            final(frame).h == old(frame).h,
            final(frame).data@ == self.draw_seq(atlas, *pal, scroll_x, scroll_y, transparent_zero,
                old(frame).w as int, old(frame).h as int, old(frame).data@,
                (self.rows(old(frame).h as int) * self.cols(old(frame).w as int)) as nat),
            atlas.tile_w == self.tile_w && atlas.tile_h == self.tile_h ==> forall|i: int|
                0 <= i < old(frame).data@.len() ==> #[trigger] final(frame).data@[i] == self.drawn_byte(
                atlas, *pal, scroll_x, scroll_y, transparent_zero, old(frame).w as int, i, old(frame).data@[i]),
    {
        let tw = self.tile_w as i64;
        let th = self.tile_h as i64;
        let fw = frame.w;
        let fh = frame.h;
        let (qx, off_x) = div_rem_euclid(scroll_x as i64, tw);
        let (qy, off_y) = div_rem_euclid(scroll_y as i64, th);
        let (_, base_c) = div_rem_euclid(qx, self.w as i64);
        let (_, base_r) = div_rem_euclid(qy, self.h as i64);
        let cols: i64 = fw as i64 / tw + 2;
        let rows: i64 = fh as i64 / th + 2;
        let ghost s0 = frame.data@;
        let ghost n = frame.data@.len();
        let mut r: i64 = 0;
        while r < rows
            invariant
                0 <= r <= rows,
                rows == self.rows(fh as int),
                cols == self.cols(fw as int),
                0 < self.w <= 0x7FFF_FFFF,
                0 < self.h <= 0x7FFF_FFFF,
                0 < self.tile_w,
                0 < self.tile_h,
                fw + self.tile_w <= 0x7FFF_FFFF,
                fh + self.tile_h <= 0x7FFF_FFFF,
                forall|k: int| 0 <= k < self.tiles@.len() ==> #[trigger] self.tiles@[k] < atlas.tile_count(),
                0 <= off_x < tw,
                0 <= off_y < th,
                0 <= base_c < self.w,
                0 <= base_r < self.h,
                tw == self.tile_w,
                th == self.tile_h,
                off_x == scroll_x as int % self.tile_w as int,
                off_y == scroll_y as int % self.tile_h as int,
                base_c == (scroll_x as int / self.tile_w as int) % self.w as int,
                base_r == (scroll_y as int / self.tile_h as int) % self.h as int,
                self.wf(),
                atlas.wf(),
                frame.wf(),
                frame.w == fw,
                frame.h == fh,
                fw == old(frame).w,
                fh == old(frame).h,
                s0 == old(frame).data@,
                frame.data@ == self.draw_seq(atlas, *pal, scroll_x, scroll_y, transparent_zero,
                    fw as int, fh as int, s0, (r * cols) as nat),
            decreases rows - r,
        {
            proof {
                assert(r * th <= fh + 2 * th) by (nonlinear_arith)
                    requires 0 <= r < rows, rows == fh as int / th as int + 2, th > 0;
                assert(r * th >= 0) by (nonlinear_arith) requires r >= 0, th > 0;
            }
            let y: i64 = r * th - off_y;
            let map_r: i64 = (base_r + r) % self.h as i64;
            proof {
                vstd::arithmetic::div_mod::lemma_mod_bound((base_r + r) as int, self.h as int);
            }
            let mut c: i64 = 0;
            while c < cols
                invariant
                    0 <= r < rows,
                    0 <= c <= cols,
                    rows == self.rows(fh as int),
                    cols == self.cols(fw as int),
                    0 < self.w <= 0x7FFF_FFFF,
                    0 < self.h <= 0x7FFF_FFFF,
                    0 < self.tile_w,
                    0 < self.tile_h,
                    fw + self.tile_w <= 0x7FFF_FFFF,
                    fh + self.tile_h <= 0x7FFF_FFFF,
                    forall|k: int| 0 <= k < self.tiles@.len() ==> #[trigger] self.tiles@[k] < atlas.tile_count(),
                    0 <= off_x < tw,
                    0 <= off_y < th,
                    0 <= base_c < self.w,
                    0 <= base_r < self.h,
                    tw == self.tile_w,
                    th == self.tile_h,
                    off_x == scroll_x as int % self.tile_w as int,
                    off_y == scroll_y as int % self.tile_h as int,
                    base_c == (scroll_x as int / self.tile_w as int) % self.w as int,
                    base_r == (scroll_y as int / self.tile_h as int) % self.h as int,
                    y == self.tile_y(scroll_y, r as int),
                    -(th as int) < y <= fh + 2 * th,
                    0 <= map_r < self.h,
                    map_r == (base_r + r) % self.h as int,
                    self.wf(),
                    atlas.wf(),
                    frame.wf(),
                    frame.w == fw,
                    frame.h == fh,
                    fw == old(frame).w,
                    fh == old(frame).h,
                    s0 == old(frame).data@,
                    frame.data@ == self.draw_seq(atlas, *pal, scroll_x, scroll_y, transparent_zero,
                        fw as int, fh as int, s0, (r * cols + c) as nat),
                decreases cols - c,
            {
                proof {
                    assert(c * tw <= fw + 2 * tw) by (nonlinear_arith)
                        requires 0 <= c < cols, cols == fw as int / tw as int + 2, tw > 0;
                    assert(c * tw >= 0) by (nonlinear_arith) requires c >= 0, tw > 0;
                }
                let x: i64 = c * tw - off_x;
                let map_c: i64 = (base_c + c) % self.w as i64;
                proof {
                    vstd::arithmetic::div_mod::lemma_mod_bound((base_c + c) as int, self.w as int);
                }
                proof {
                    assert(0 <= map_r * self.w + map_c < self.w * self.h) by (nonlinear_arith)
                        requires 0 <= map_r < self.h, 0 <= map_c < self.w;
                    assert(-(tw as int) < x <= fw + tw) by (nonlinear_arith)
                        requires
                            x == c * tw - off_x,
                            0 <= off_x < tw,
                            0 <= c < cols,
                            cols == fw as int / tw as int + 2,
                            tw > 0,
                    ;
                }
                let tlen = self.tiles.len();
                let tile_id = self.tiles[(map_r as usize) * self.w + map_c as usize];
                atlas.blit(frame, x as i32, y as i32, tile_id, pal, false, false, transparent_zero);
                proof {
                    let k = r * cols + c;
                    vstd::arithmetic::div_mod::lemma_fundamental_div_mod_converse(k as int, cols as int, r as int, c as int);
                    assert(frame.data@ =~= blit_seq(atlas, fw as int,
                        self.draw_seq(atlas, *pal, scroll_x, scroll_y, transparent_zero, fw as int, fh as int, s0, k as nat),
                        x as i32, y as i32, tile_id as int, *pal, transparent_zero));
                }
                c = c + 1;
            }
            assert(r * cols + cols == (r + 1) * cols) by (nonlinear_arith);
            r = r + 1;
        }
        proof {
            if atlas.tile_w == self.tile_w && atlas.tile_h == self.tile_h {
                lemma_draw_prefix(self, atlas, *pal, scroll_x, scroll_y, transparent_zero, fw as int, fh as int,
                    s0, (rows * cols) as nat);
                assert forall|i: int| 0 <= i < n implies #[trigger] frame.data@[i] == self.drawn_byte(
                    atlas, *pal, scroll_x, scroll_y, transparent_zero, fw as int, i, s0[i]) by {
                    lemma_slot_bounds(self, scroll_x, scroll_y, fw as int, fh as int, i);
                    lemma_slot_byte_is_drawn_byte(self, atlas, *pal, scroll_x, scroll_y, transparent_zero,
                        fw as int, i, s0[i]);
                }
            }
        }
    }
}

impl TileMap {
    /// What drawing the map leaves in byte `i` of a framebuffer `fw` pixels
    /// wide whose byte was `old`, stated per pixel: the pixel shows world
    /// point (`px + sx`, `py + sy`), which lies in map cell (world / tile
    /// size, wrapped around the map) at texel (world mod tile size) of that
    /// cell's tile; a transparent texel leaves the byte as it was.
    pub open spec fn drawn_byte(
        &self,
        atlas: &SpriteAtlas,
        pal: Palette,
        sx: i32,
        sy: i32,
        transparent_zero: bool,
        fw: int,
        i: int,
        old: u8,
    ) -> u8 {
        let tw = self.tile_w as int;
        let th = self.tile_h as int;
        let wx = px_of(i, fw) + sx;
        let wy = py_of(i, fw) + sy;
        let cell = ((wy / th) % self.h as int) * self.w + (wx / tw) % self.w as int;
        let idx = atlas.tile_pixel(self.tiles@[cell] as int, wx % tw, wy % th, false, false);
        if visible(idx, transparent_zero) { color_byte(pal.0@[(idx & 3) as int], i % 4) } else { old }
    }

    /// Column of pixel byte `i` inside the window of tiles that is drawn.
    spec fn win_x(&self, sx: i32, fw: int, i: int) -> int {
        px_of(i, fw) + sx as int % self.tile_w as int
    }

    spec fn win_y(&self, sy: i32, fw: int, i: int) -> int {
        py_of(i, fw) + sy as int % self.tile_h as int
    }

    /// Position, in drawing order, of the window tile that covers byte `i`.
    spec fn slot(&self, sx: i32, sy: i32, fw: int, i: int) -> int {
        (self.win_y(sy, fw, i) / self.tile_h as int) * self.cols(fw)
            + self.win_x(sx, fw, i) / self.tile_w as int
    }

    spec fn slot_byte(
        &self,
        atlas: &SpriteAtlas,
        pal: Palette,
        sx: i32,
        sy: i32,
        transparent_zero: bool,
        fw: int,
        i: int,
        old: u8,
    ) -> u8 {
        let gx = self.win_x(sx, fw, i);
        let gy = self.win_y(sy, fw, i);
        let tw = self.tile_w as int;
        let th = self.tile_h as int;
        let tile = self.tiles@[self.cell(sx, sy, gy / th, gx / tw)] as int;
        let idx = atlas.tile_pixel(tile, gx % tw, gy % th, false, false);
        if visible(idx, transparent_zero) { color_byte(pal.0@[(idx & 3) as int], i % 4) } else { old }
    }
}

proof fn lemma_slot_bounds(map: &TileMap, sx: i32, sy: i32, fw: int, fh: int, i: int)
    requires
        0 < map.tile_w,
        0 < map.tile_h,
        fw >= 0,
        fh >= 0,
        0 <= i < fw * fh * 4,
    ensures
        0 <= map.win_x(sx, fw, i) / (map.tile_w as int) < map.cols(fw),
        0 <= map.win_y(sy, fw, i) / (map.tile_h as int) < map.rows(fh),
        0 <= map.slot(sx, sy, fw, i) < map.rows(fh) * map.cols(fw),
{
    let tw = map.tile_w as int;
    let th = map.tile_h as int;
    lemma_coords_in_frame(i, fw, fh);
    vstd::arithmetic::div_mod::lemma_mod_bound(sx as int, tw);
    vstd::arithmetic::div_mod::lemma_mod_bound(sy as int, th);
    let gx = map.win_x(sx, fw, i);
    let gy = map.win_y(sy, fw, i);
    vstd::arithmetic::div_mod::lemma_fundamental_div_mod(gx, tw);
    vstd::arithmetic::div_mod::lemma_fundamental_div_mod(gy, th);
    vstd::arithmetic::div_mod::lemma_fundamental_div_mod(fw, tw);
    vstd::arithmetic::div_mod::lemma_fundamental_div_mod(fh, th);
    vstd::arithmetic::div_mod::lemma_mod_bound(gx, tw);
    vstd::arithmetic::div_mod::lemma_mod_bound(gy, th);
    vstd::arithmetic::div_mod::lemma_mod_bound(fw, tw);
    vstd::arithmetic::div_mod::lemma_mod_bound(fh, th);
    vstd::arithmetic::div_mod::lemma_div_pos_is_pos(gx, tw);
    vstd::arithmetic::div_mod::lemma_div_pos_is_pos(gy, th);
    assert(gx / tw < fw / tw + 2) by (nonlinear_arith)
        requires
            gx == tw * (gx / tw) + gx % tw,
            fw == tw * (fw / tw) + fw % tw,
            0 <= gx % tw, fw % tw < tw,
            gx < fw + tw,
            tw > 0,
    ;
    assert(gy / th < fh / th + 2) by (nonlinear_arith)
        requires
            gy == th * (gy / th) + gy % th,
            fh == th * (fh / th) + fh % th,
            0 <= gy % th, fh % th < th,
            gy < fh + th,
            th > 0,
    ;
    let cols = map.cols(fw);
    let rows = map.rows(fh);
    assert(0 <= (gy / th) * cols + gx / tw < rows * cols) by (nonlinear_arith)
        requires
            0 <= gx / tw < cols,
            0 <= gy / th < rows,
    ;
}

proof fn lemma_draw_prefix(
    map: &TileMap,
    atlas: &SpriteAtlas,
    pal: Palette,
    sx: i32,
    sy: i32,
    tz: bool,
    fw: int,
    fh: int,
    s: Seq<u8>,
    k: nat,
)
    requires
        0 < map.tile_w,
        0 < map.tile_h,
        atlas.tile_w == map.tile_w,
        atlas.tile_h == map.tile_h,
        fw >= 0,
        fh >= 0,
        fw + map.tile_w <= 0x7FFF_FFFF,
        fh + map.tile_h <= 0x7FFF_FFFF,
        s.len() == fw * fh * 4,
        k <= map.rows(fh) * map.cols(fw),
    ensures
        map.draw_seq(atlas, pal, sx, sy, tz, fw, fh, s, k).len() == s.len(),
        forall|i: int| 0 <= i < s.len() ==> #[trigger] map.draw_seq(atlas, pal, sx, sy, tz, fw, fh, s, k)[i]
            == if map.slot(sx, sy, fw, i) < k {
                map.slot_byte(atlas, pal, sx, sy, tz, fw, i, s[i])
            } else {
                s[i]
            },
    decreases k,
{
    if k > 0 {
        let j = (k - 1) as nat;
        lemma_draw_prefix(map, atlas, pal, sx, sy, tz, fw, fh, s, j);
        let prev = map.draw_seq(atlas, pal, sx, sy, tz, fw, fh, s, j);
        let tw = map.tile_w as int;
        let th = map.tile_h as int;
        let cols = map.cols(fw);
        let rows = map.rows(fh);
        assert(cols > 0);
        let r: int = j as int / cols;
        let c: int = j as int % cols;
        vstd::arithmetic::div_mod::lemma_fundamental_div_mod(j as int, cols);
        vstd::arithmetic::div_mod::lemma_mod_bound(j as int, cols);
        vstd::arithmetic::div_mod::lemma_div_pos_is_pos(j as int, cols);
        assert(r < rows) by (nonlinear_arith)
            requires j == cols * r + c, 0 <= c, j < rows * cols, cols > 0;
        let x = map.tile_x(sx, c);
        let y = map.tile_y(sy, r);
        vstd::arithmetic::div_mod::lemma_mod_bound(sx as int, tw);
        vstd::arithmetic::div_mod::lemma_mod_bound(sy as int, th);
        vstd::arithmetic::div_mod::lemma_fundamental_div_mod(fw, tw);
        vstd::arithmetic::div_mod::lemma_fundamental_div_mod(fh, th);
        vstd::arithmetic::div_mod::lemma_mod_bound(fw, tw);
        vstd::arithmetic::div_mod::lemma_mod_bound(fh, th);
        assert(c * tw <= fw + tw) by (nonlinear_arith)
            requires
                0 <= c < fw / tw + 2,
                fw == tw * (fw / tw) + fw % tw,
                0 <= fw % tw,
                tw > 0,
        ;
        assert(r * th <= fh + th) by (nonlinear_arith)
            requires
                0 <= r < fh / th + 2,
                fh == th * (fh / th) + fh % th,
                0 <= fh % th,
                th > 0,
        ;
        assert(c * tw >= 0 && r * th >= 0) by (nonlinear_arith) requires c >= 0, r >= 0, tw > 0, th > 0;
        assert((x as i32) as int == x);
        assert((y as i32) as int == y);
        let tile = map.tiles@[map.cell(sx, sy, r, c)] as int;
        assert forall|i: int| 0 <= i < s.len() implies #[trigger] map.draw_seq(atlas, pal, sx, sy, tz, fw, fh, s, k)[i]
            == if map.slot(sx, sy, fw, i) < k {
                map.slot_byte(atlas, pal, sx, sy, tz, fw, i, s[i])
            } else {
                s[i]
            } by {
            lemma_slot_bounds(map, sx, sy, fw, fh, i);
            let gx = map.win_x(sx, fw, i);
            let gy = map.win_y(sy, fw, i);
            let cc = gx / tw;
            let rr = gy / th;
            vstd::arithmetic::div_mod::lemma_fundamental_div_mod(gx, tw);
            vstd::arithmetic::div_mod::lemma_fundamental_div_mod(gy, th);
            vstd::arithmetic::div_mod::lemma_mod_bound(gx, tw);
            vstd::arithmetic::div_mod::lemma_mod_bound(gy, th);
            let tx = px_of(i, fw) - x;
            let ty = py_of(i, fw) - y;
            assert(tx == gx - c * tw);
            assert(ty == gy - r * th);
            // The tile drawn at step `j` covers the pixel exactly when it is
            // the pixel's own slot.
            assert((0 <= tx < tw && 0 <= ty < th) <==> (cc == c && rr == r)) by (nonlinear_arith)
                requires
                    gx == tw * cc + gx % tw,
                    gy == th * rr + gy % th,
                    0 <= gx % tw < tw,
                    0 <= gy % th < th,
                    tx == gx - c * tw,
                    ty == gy - r * th,
                    tw > 0,
                    th > 0,
            ;
            assert((cc == c && rr == r) <==> map.slot(sx, sy, fw, i) == j) by (nonlinear_arith)
                requires
                    map.slot(sx, sy, fw, i) == rr * cols + cc,
                    j == cols * r + c,
                    0 <= cc < cols,
                    0 <= c < cols,
                    0 <= rr,
                    0 <= r,
            ;
            if cc == c && rr == r {
                assert(tx == gx % tw) by (nonlinear_arith)
                    requires gx == tw * cc + gx % tw, tx == gx - c * tw, cc == c;
                assert(ty == gy % th) by (nonlinear_arith)
                    requires gy == th * rr + gy % th, ty == gy - r * th, rr == r;
            }
        }
        assert(map.draw_seq(atlas, pal, sx, sy, tz, fw, fh, s, k) == blit_seq(atlas, fw, prev, x as i32, y as i32,
            tile, pal, tz));
    } else {
        assert forall|i: int| 0 <= i < s.len() implies map.slot(sx, sy, fw, i) >= 0 by {
            lemma_slot_bounds(map, sx, sy, fw, fh, i);
        }
    }
}

proof fn lemma_floor_split(a: int, b: int, d: int)
    requires
        d > 0,
    ensures
        (a + b) / d == a / d + (a % d + b) / d,
        (a + b) % d == (a % d + b) % d,
{
    vstd::arithmetic::div_mod::lemma_fundamental_div_mod(a, d);
    vstd::arithmetic::div_mod::lemma_fundamental_div_mod(a % d + b, d);
    vstd::arithmetic::div_mod::lemma_mod_bound(a % d + b, d);
    let q = a / d + (a % d + b) / d;
    let m = (a % d + b) % d;
    assert(a + b == q * d + m) by (nonlinear_arith)
        requires
            a == d * (a / d) + a % d,
            a % d + b == d * ((a % d + b) / d) + (a % d + b) % d,
            q == a / d + (a % d + b) / d,
            m == (a % d + b) % d,
    ;
    vstd::arithmetic::div_mod::lemma_fundamental_div_mod_converse(a + b, d, q, m);
}

proof fn lemma_slot_byte_is_drawn_byte(
    map: &TileMap,
    atlas: &SpriteAtlas,
    pal: Palette,
    sx: i32,
    sy: i32,
    tz: bool,
    fw: int,
    i: int,
    old: u8,
)
    requires
        0 < map.tile_w,
        0 < map.tile_h,
        0 < map.w,
        0 < map.h,
    ensures
        map.slot_byte(atlas, pal, sx, sy, tz, fw, i, old) == map.drawn_byte(atlas, pal, sx, sy, tz, fw, i, old),
{
    let tw = map.tile_w as int;
    let th = map.tile_h as int;
    let w = map.w as int;
    let h = map.h as int;
    lemma_floor_split(sx as int, px_of(i, fw), tw);
    lemma_floor_split(sy as int, py_of(i, fw), th);
    let a = sx as int / tw;
    let b = map.win_x(sx, fw, i) / tw;
    vstd::arithmetic::div_mod::lemma_add_mod_noop(a, b, w);
    vstd::arithmetic::div_mod::lemma_add_mod_noop(a % w, b, w);
    vstd::arithmetic::div_mod::lemma_mod_twice(a, w);
    let a2 = sy as int / th;
    let b2 = map.win_y(sy, fw, i) / th;
    vstd::arithmetic::div_mod::lemma_add_mod_noop(a2, b2, h);
    vstd::arithmetic::div_mod::lemma_add_mod_noop(a2 % h, b2, h);
    vstd::arithmetic::div_mod::lemma_mod_twice(a2, h);
}

} // verus!
