//! The framebuffer and its two operations: full clear and the XOR blit of
//! one eight-pixel sprite row with collision detection.

use vstd::prelude::*;

use crate::chip8::{DISPLAY_HEIGHT, DISPLAY_WIDTH};

verus! {

/// Number of pixels in the framebuffer: 32 rows of 64 columns.
pub const VRAM_SIZE: usize = 2048;

/// What a streaming renderer meets while walking the framebuffer row by
/// row: a lit pixel, a dark pixel, or the end of a row.
pub enum DisplayStates {
    On,
    Off,
    NewLine,
}

/// The monochrome framebuffer, stored row-major. Its view is the flat
/// sequence of its 2048 pixels; the pixel at row `y`, column `x` sits at
/// index `y * 64 + x`.
pub struct Vram {
    grid: Vec<bool>,
}

impl View for Vram {
    type V = Seq<bool>;

    closed spec fn view(&self) -> Seq<bool> {
        self.grid@
    }
}

impl Vram {
    /// The grid holds exactly one flag per pixel of the 32-by-64 display.
    pub open spec fn wf(&self) -> bool {
        self@.len() == VRAM_SIZE
    }

    /// A framebuffer with every pixel off.
    pub fn new() -> (r: Vram)
        ensures
            r.wf(),
            forall|i: int| 0 <= i < VRAM_SIZE ==> !r@[i],
    {
        let mut grid: Vec<bool> = Vec::new();
        let mut i: usize = 0;
        while i < VRAM_SIZE
            invariant
                i <= VRAM_SIZE,
                grid@.len() == i,
                forall|k: int| 0 <= k < i ==> !grid@[k],
            decreases VRAM_SIZE - i,
        {
            grid.push(false);
            i = i + 1;
        }
        Vram { grid }
    }

    /// Reads the pixel at row `y`, column `x`.
    pub fn get(&self, y: usize, x: usize) -> (r: bool)
        requires
            self.wf(),
            y < DISPLAY_HEIGHT,
            x < DISPLAY_WIDTH,
        ensures
            r == self@[y * DISPLAY_WIDTH + x],
    {
        let i = global_xy_to_i(x as u8, y as u8);
        self.grid[i]
    }
}

/// The flat framebuffer index of row `y`, column `x` on the 64-column
/// display.
pub fn global_xy_to_i(x: u8, y: u8) -> (r: usize)
    ensures
        r == y * DISPLAY_WIDTH + x,
{
    xy_to_i(x, y, DISPLAY_WIDTH as u16)
}

/// The flat index of `(x, y)` on a row-major grid `width` columns wide.
pub fn xy_to_i(x: u8, y: u8, width: u16) -> (r: usize)
    ensures
        r == y * width + x,
{
    proof {
        assert((y as int) * (width as int) <= 255 * 65535) by (nonlinear_arith)
            requires
                0 <= y as int <= 255,
                0 <= width as int <= 65535,
        ;
    }
    (y as usize) * (width as usize) + (x as usize)
}

/// The sprite bit at horizontal offset `j` of a sprite row, most
/// significant bit first.
pub open spec fn sprite_px(data: u8, j: int) -> bool {
    (data >> ((7 - j) as u8)) & 1 == 1
}

/// The flat framebuffer index hit by horizontal offset `j` of a sprite row
/// anchored at row `y`, column `x`: the eight target pixels are consecutive
/// in the flat grid, running off the right edge onto the row below, and off
/// the end of the grid back to its start.
pub open spec fn pixel_pos(y: int, x: int, j: int) -> int {
    (y * (DISPLAY_WIDTH as int) + x + j) % (VRAM_SIZE as int)
}

/// The framebuffer after the first `j` bits of one sprite row anchored at
/// `(y, x)` have been XORed in.
pub open spec fn draw_seq(v: Seq<bool>, y: int, x: int, data: u8, j: int) -> Seq<bool>
    decreases j,
{
    if j <= 0 {
        v
    } else {
        let prev = draw_seq(v, y, x, data, j - 1);
        let p = pixel_pos(y, x, j - 1);
        prev.update(p, prev[p] != sprite_px(data, j - 1))
    }
}

/// Whether blitting one sprite row anchored at `(y, x)` onto `v` turns some
/// pixel from on to off: a set sprite bit meets a lit pixel.
pub open spec fn row_collision(v: Seq<bool>, y: int, x: int, data: u8) -> bool {
    exists|j: int| 0 <= j < 8 && v[pixel_pos(y, x, j)] && sprite_px(data, j)
}

/// The concrete value of a target index: within the sprite row the flat
/// position only ever wraps once, at the very end of the grid.
pub proof fn lemma_pixel_pos(y: int, x: int, j: int)
    requires
        0 <= y < DISPLAY_HEIGHT,
        0 <= x < DISPLAY_WIDTH,
        0 <= j < 8,
    ensures
        pixel_pos(y, x, j) == if y * 64 + x + j < 2048 {
            y * 64 + x + j
        } else {
            y * 64 + x + j - 2048
        },
        0 <= pixel_pos(y, x, j) < VRAM_SIZE,
{
    let t = y * 64 + x + j;
    assert(0 <= t < 4096);
    if t < 2048 {
        assert(t % 2048 == t);
    } else {
        assert(t % 2048 == t - 2048);
    }
}

/// Distinct offsets of one sprite row land on distinct pixels.
pub proof fn lemma_pixel_pos_distinct(y: int, x: int, a: int, b: int)
    requires
        0 <= y < DISPLAY_HEIGHT,
        0 <= x < DISPLAY_WIDTH,
        0 <= a < 8,
        0 <= b < 8,
        a != b,
    ensures
        pixel_pos(y, x, a) != pixel_pos(y, x, b),
{
    lemma_pixel_pos(y, x, a);
    lemma_pixel_pos(y, x, b);
}

/// Pointwise description of a partial row blit: each of the first `j`
/// target pixels holds the XOR of its old value and its sprite bit, and
/// every other pixel is untouched.
pub proof fn lemma_draw_seq_pointwise(v: Seq<bool>, y: int, x: int, data: u8, j: int)
    requires
        v.len() == VRAM_SIZE,
        0 <= y < DISPLAY_HEIGHT,
        0 <= x < DISPLAY_WIDTH,
        0 <= j <= 8,
    ensures
        draw_seq(v, y, x, data, j).len() == VRAM_SIZE,
        forall|b: int|
            0 <= b < j ==> draw_seq(v, y, x, data, j)[pixel_pos(y, x, b)] == (v[pixel_pos(
                y,
                x,
                b,
            )] != sprite_px(data, b)),
        forall|k: int|
            0 <= k < VRAM_SIZE && (forall|b: int| 0 <= b < j ==> k != pixel_pos(y, x, b))
                ==> draw_seq(v, y, x, data, j)[k] == v[k],
    decreases j,
{
    if j > 0 {
        lemma_draw_seq_pointwise(v, y, x, data, j - 1);
        lemma_pixel_pos(y, x, j - 1);
        assert forall|a: int| 0 <= a < j - 1 implies #[trigger] pixel_pos(y, x, a) != pixel_pos(
            y,
            x,
            j - 1,
        ) by {
            lemma_pixel_pos_distinct(y, x, a, j - 1);
        }
    }
}

/// Blitting the same sprite row twice at the same anchor restores an
/// all-off framebuffer to all-off, and the second blit collides whenever
/// the sprite row has any bit set.
pub proof fn lemma_draw_twice_restores(v: Seq<bool>, y: int, x: int, data: u8)
    requires
        v.len() == VRAM_SIZE,
        0 <= y < DISPLAY_HEIGHT,
        0 <= x < DISPLAY_WIDTH,
        forall|i: int| 0 <= i < VRAM_SIZE ==> !v[i],
    ensures
        draw_seq(draw_seq(v, y, x, data, 8), y, x, data, 8) == v,
        data != 0 ==> row_collision(draw_seq(v, y, x, data, 8), y, x, data),
{
    let v1 = draw_seq(v, y, x, data, 8);
    lemma_draw_seq_pointwise(v, y, x, data, 8);
    lemma_draw_seq_pointwise(v1, y, x, data, 8);
    let v2 = draw_seq(v1, y, x, data, 8);
    assert forall|k: int| 0 <= k < VRAM_SIZE implies v2[k] == v[k] by {
        if exists|b: int| 0 <= b < 8 && k == pixel_pos(y, x, b) {
            let b = choose|b: int| 0 <= b < 8 && k == pixel_pos(y, x, b);
            assert(v1[k] == (v[k] != sprite_px(data, b)));
            assert(v2[k] == (v1[k] != sprite_px(data, b)));
        }
    }
    assert(v2 =~= v);
    if data != 0 {
        assert((data >> 7u8) & 1 == 1 || (data >> 6u8) & 1 == 1 || (data >> 5u8) & 1 == 1 || (data
            >> 4u8) & 1 == 1 || (data >> 3u8) & 1 == 1 || (data >> 2u8) & 1 == 1 || (data >> 1u8)
            & 1 == 1 || (data >> 0u8) & 1 == 1)
            by (bit_vector)
            requires
                data != 0,
        ;
        if (data >> 7u8) & 1 == 1 {
            assert(sprite_px(data, 0));
        } else if (data >> 6u8) & 1 == 1 {
            assert(sprite_px(data, 1));
        } else if (data >> 5u8) & 1 == 1 {
            assert(sprite_px(data, 2));
        } else if (data >> 4u8) & 1 == 1 {
            assert(sprite_px(data, 3));
        } else if (data >> 3u8) & 1 == 1 {
            assert(sprite_px(data, 4));
        } else if (data >> 2u8) & 1 == 1 {
            assert(sprite_px(data, 5));
        } else if (data >> 1u8) & 1 == 1 {
            assert(sprite_px(data, 6));
        } else {
            assert(sprite_px(data, 7));
        }
        assert(exists|j: int| 0 <= j < 8 && sprite_px(data, j));
        let j = choose|j: int| 0 <= j < 8 && sprite_px(data, j);
        lemma_pixel_pos(y, x, j);
        assert(v1[pixel_pos(y, x, j)] == (v[pixel_pos(y, x, j)] != sprite_px(data, j)));
        assert(v1[pixel_pos(y, x, j)] && sprite_px(data, j));
    }
}

/// Performs the framebuffer operations: full clear and the XOR blit of one
/// sprite row.
pub struct DisplayController;

impl DisplayController {
    /// Turns every pixel off.
    pub fn clear_vram(&self, obj: &mut Vram)
        ensures
            final(obj).wf(),
            forall|i: int| 0 <= i < VRAM_SIZE ==> !final(obj)@[i],
    {
        *obj = Vram::new();
    }

    /// XORs one sprite row, eight pixels wide with the most significant
    /// bit leftmost, onto the framebuffer at row `y`, column `x`. Returns
    /// `1` if some pixel went from on to off, `0` otherwise.
    pub fn draw_onto(&self, obj: &mut Vram, x: usize, y: usize, data: u8) -> (r: u8)
        requires
            old(obj).wf(),
            x < DISPLAY_WIDTH,
            y < DISPLAY_HEIGHT,
        ensures
            final(obj).wf(),
            final(obj)@ == draw_seq(old(obj)@, y as int, x as int, data, 8),
            r == if row_collision(old(obj)@, y as int, x as int, data) {
                1u8
            } else {
                0u8
            },
    {
        let mut changed = false;
        let mut j: usize = 0;
        while j < 8
            invariant
                j <= 8,
                x < DISPLAY_WIDTH,
                y < DISPLAY_HEIGHT,
                obj.grid@.len() == VRAM_SIZE,
                obj.grid@ == draw_seq(old(obj)@, y as int, x as int, data, j as int),
                old(obj)@.len() == VRAM_SIZE,
                forall|b: int|
                    j <= b < 8 ==> obj.grid@[pixel_pos(y as int, x as int, b)] == old(
                        obj,
                    )@[pixel_pos(y as int, x as int, b)],
                changed == exists|b: int|
                    0 <= b < j && old(obj)@[pixel_pos(y as int, x as int, b)] && sprite_px(
                        data,
                        b,
                    ),
            decreases 8 - j,
        {
            let sh: u8 = (7 - j) as u8;
            let d: bool = (data >> sh) & 1 == 1;
            let t: usize = y * DISPLAY_WIDTH + x + j;
            let p: usize = if t >= VRAM_SIZE {
                t - VRAM_SIZE
            } else {
                t
            };
            proof {
                lemma_pixel_pos(y as int, x as int, j as int);
                assert(p == pixel_pos(y as int, x as int, j as int));
                assert(d == sprite_px(data, j as int));
                assert forall|b: int| j < b < 8 implies pixel_pos(y as int, x as int, b) != (
                p as int) by {
                    lemma_pixel_pos_distinct(y as int, x as int, b, j as int);
                }
            }
            let cur: bool = obj.grid[p];
            if cur && d {
                changed = true;
            }
            obj.grid[p] = cur != d;
            proof {
                if cur && d {
                    assert(old(obj)@[pixel_pos(y as int, x as int, j as int)] && sprite_px(
                        data,
                        j as int,
                    ));
                }
            }
            j = j + 1;
        }
        proof {
            assert(changed == row_collision(old(obj)@, y as int, x as int, data));
        }
        if changed {
            1
        } else {
            0
        }
    }
}

/// The built-in hexadecimal font: sixteen glyphs, five bytes each, for the
/// digits `0` through `F`.
pub open spec fn font_seq() -> Seq<u8> {
    seq![
        0xF0u8, 0x90, 0x90, 0x90, 0xF0,
        0x20, 0x60, 0x20, 0x20, 0x70,
        0xF0, 0x10, 0xF0, 0x80, 0xF0,
        0xF0, 0x10, 0xF0, 0x10, 0xF0,
        0x90, 0x90, 0xF0, 0x10, 0x10,
        0xF0, 0x80, 0xF0, 0x10, 0xF0,
        0xF0, 0x80, 0xF0, 0x90, 0xF0,
        0xF0, 0x10, 0x20, 0x40, 0x40,
        0xF0, 0x90, 0xF0, 0x90, 0xF0,
        0xF0, 0x90, 0xF0, 0x10, 0xF0,
        0xF0, 0x90, 0xF0, 0x90, 0x90,
        0xE0, 0x90, 0xE0, 0x90, 0xE0,
        0xF0, 0x80, 0x80, 0x80, 0xF0,
        0xE0, 0x90, 0x90, 0x90, 0xE0,
        0xF0, 0x80, 0xF0, 0x80, 0xF0,
        0xF0, 0x80, 0xF0, 0x80, 0x80,
    ]
}

/// The font table as bytes, glyph by glyph, ready to be loaded into memory.
pub fn font() -> (r: Vec<u8>)
    ensures
        r@ == font_seq(),
{
    let mut r: Vec<u8> = Vec::new();
    r.push(0xF0); r.push(0x90); r.push(0x90); r.push(0x90); r.push(0xF0);
    r.push(0x20); r.push(0x60); r.push(0x20); r.push(0x20); r.push(0x70);
    r.push(0xF0); r.push(0x10); r.push(0xF0); r.push(0x80); r.push(0xF0);
    r.push(0xF0); r.push(0x10); r.push(0xF0); r.push(0x10); r.push(0xF0);
    r.push(0x90); r.push(0x90); r.push(0xF0); r.push(0x10); r.push(0x10);
    r.push(0xF0); r.push(0x80); r.push(0xF0); r.push(0x10); r.push(0xF0);
    r.push(0xF0); r.push(0x80); r.push(0xF0); r.push(0x90); r.push(0xF0);
    r.push(0xF0); r.push(0x10); r.push(0x20); r.push(0x40); r.push(0x40);
    r.push(0xF0); r.push(0x90); r.push(0xF0); r.push(0x90); r.push(0xF0);
    r.push(0xF0); r.push(0x90); r.push(0xF0); r.push(0x10); r.push(0xF0);
    r.push(0xF0); r.push(0x90); r.push(0xF0); r.push(0x90); r.push(0x90);
    r.push(0xE0); r.push(0x90); r.push(0xE0); r.push(0x90); r.push(0xE0);
    r.push(0xF0); r.push(0x80); r.push(0x80); r.push(0x80); r.push(0xF0);
    r.push(0xE0); r.push(0x90); r.push(0x90); r.push(0x90); r.push(0xE0);
    r.push(0xF0); r.push(0x80); r.push(0xF0); r.push(0x80); r.push(0xF0);
    r.push(0xF0); r.push(0x80); r.push(0xF0); r.push(0x80); r.push(0x80);
    proof {
        assert(r@ =~= font_seq());
    }
    r
}

/// A surface sprites can be drawn onto: the framebuffer itself, or any
/// stand-in a renderer keeps.
pub trait Displayable {
    /// Turns every pixel off.
    fn clear(&mut self);

    /// XORs one sprite row onto the surface at `(x, y)` and reports a
    /// collision flag.
    fn draw(&mut self, x: u8, y: u8, data: u8) -> u8;
}

} // verus!
