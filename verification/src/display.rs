//! The monochrome framebuffer: a 64x32 grid of one-bit pixels with an
//! XOR sprite blit that wraps on both axes and reports collisions.

use vstd::prelude::*;
use vstd::arithmetic::div_mod::lemma_fundamental_div_mod;
use vstd::arithmetic::div_mod::lemma_fundamental_div_mod_converse_div;
use vstd::arithmetic::div_mod::lemma_fundamental_div_mod_converse_mod;
use crate::arith::wrap_add;
use crate::arith::wrap_dist;
use crate::arith::lemma_wrap_round;
use crate::arith::lemma_wrap_unround;

verus! {

/// Pixel columns of the framebuffer.
pub const DISPLAY_WIDTH: usize = 64;

/// Pixel rows of the framebuffer.
pub const DISPLAY_HEIGHT: usize = 32;

/// A well-formed framebuffer view: 2048 cells in row-major order, each
/// 0 (unlit) or 1 (lit).
pub open spec fn grid_wf(g: Seq<u8>) -> bool {
    &&& g.len() == 2048
    &&& forall|i: int| 0 <= i < 2048 ==> g[i] <= 1
}

/// The flat row-major index of the cell at `row`, `col`.
pub open spec fn cell_at(row: int, col: int) -> int {
    row * 64 + col
}

/// The cell that sprite row `r`, bit `b` lands on when drawing at
/// `(x, y)`: both axes wrap.
pub open spec fn target_cell(x: nat, y: nat, r: int, b: int) -> int {
    cell_at(wrap_add((y % 32) as int, r, 32), wrap_add((x % 64) as int, b, 64))
}

/// Bit `b` of a sprite byte, most significant first.
pub open spec fn sprite_bit(byte: u8, b: int) -> bool {
    byte & (0x80u8 >> b) != 0
}

/// Whether sprite position `(r, b)` lies before the position `(rows, bits)`
/// in drawing order: every row before `rows`, then bits before `bits` of
/// row `rows` itself.
pub open spec fn before_pos(r: int, b: int, rows: int, bits: int) -> bool {
    r < rows || (r == rows && b < bits)
}

/// The framebuffer after XOR-blitting every sprite bit before position
/// `(rows, bits)` of `sprite` at `(x, y)`.
///
/// Each cell is looked up by the sprite position that covers it, if any:
/// for sprites of at most 32 rows no cell is covered twice.
pub open spec fn blit_partial(
    g: Seq<u8>,
    x: nat,
    y: nat,
    sprite: Seq<u8>,
    rows: int,
    bits: int,
) -> Seq<u8> {
    Seq::new(2048, |idx: int| {
        let r = wrap_dist(idx / 64, (y % 32) as int, 32);
        let b = wrap_dist(idx % 64, (x % 64) as int, 64);
        if r < sprite.len() && b < 8 && before_pos(r, b, rows, bits) && sprite_bit(sprite[r], b) {
            g[idx] ^ 1
        } else {
            g[idx]
        }
    })
}

/// The framebuffer after drawing all of `sprite` at `(x, y)`.
pub open spec fn blit(g: Seq<u8>, x: nat, y: nat, sprite: Seq<u8>) -> Seq<u8> {
    blit_partial(g, x, y, sprite, sprite.len() as int, 0)
}

/// Whether some sprite bit before position `(rows, bits)` is set and lands
/// on a lit cell: that bit flips the cell 1 -> 0, a collision.
pub open spec fn collides_partial(
    g: Seq<u8>,
    x: nat,
    y: nat,
    sprite: Seq<u8>,
    rows: int,
    bits: int,
) -> bool {
    exists|r: int, b: int|
        #![trigger sprite_bit(sprite[r], b)]
        0 <= r < sprite.len() && 0 <= b < 8 && before_pos(r, b, rows, bits)
            && sprite_bit(sprite[r], b) && g[target_cell(x, y, r, b)] == 1
}

/// Whether drawing all of `sprite` at `(x, y)` flips some lit cell off.
pub open spec fn collides(g: Seq<u8>, x: nat, y: nat, sprite: Seq<u8>) -> bool {
    collides_partial(g, x, y, sprite, sprite.len() as int, 0)
}

/// Flipping a one-bit cell stays one-bit; flipping twice restores it.
proof fn lemma_flip(c: u8)
    ensures
        (c ^ 1) ^ 1 == c,
        c <= 1 ==> (c ^ 1) <= 1 && c ^ 1 == 1 - c,
{
    assert((c ^ 1) ^ 1 == c) by (bit_vector);
    assert(c <= 1 ==> (c ^ 1) <= 1 && c ^ 1 == 1 - c) by (bit_vector);
}

/// A partial blit of a well-formed grid is well-formed.
proof fn lemma_blit_partial_wf(g: Seq<u8>, x: nat, y: nat, sprite: Seq<u8>, rows: int, bits: int)
    requires
        grid_wf(g),
    ensures
        grid_wf(blit_partial(g, x, y, sprite, rows, bits)),
{
    assert forall|idx: int| 0 <= idx < 2048 implies blit_partial(g, x, y, sprite, rows, bits)[idx]
        <= 1 by {
        lemma_flip(g[idx]);
    }
}

/// Before any sprite bit is processed the grid is unchanged and no
/// collision has been seen.
proof fn lemma_blit_init(g: Seq<u8>, x: nat, y: nat, sprite: Seq<u8>)
    requires
        grid_wf(g),
    ensures
        blit_partial(g, x, y, sprite, 0, 0) == g,
        !collides_partial(g, x, y, sprite, 0, 0),
{
    assert(blit_partial(g, x, y, sprite, 0, 0) =~= g);
}

/// Finishing the bits of row `j` is the same as standing at the start of
/// row `j + 1`.
proof fn lemma_row_advance(g: Seq<u8>, x: nat, y: nat, sprite: Seq<u8>, j: int)
    requires
        grid_wf(g),
        0 <= j,
    ensures
        blit_partial(g, x, y, sprite, j, 8) == blit_partial(g, x, y, sprite, j + 1, 0),
        collides_partial(g, x, y, sprite, j, 8) == collides_partial(g, x, y, sprite, j + 1, 0),
{
    assert(blit_partial(g, x, y, sprite, j, 8) =~= blit_partial(g, x, y, sprite, j + 1, 0));
    if collides_partial(g, x, y, sprite, j, 8) {
        let (r, b) = choose|r: int, b: int|
            #![trigger sprite_bit(sprite[r], b)]
            0 <= r < sprite.len() && 0 <= b < 8 && before_pos(r, b, j, 8)
                && sprite_bit(sprite[r], b) && g[target_cell(x, y, r, b)] == 1;
        assert(before_pos(r, b, j + 1, 0));
        assert(collides_partial(g, x, y, sprite, j + 1, 0));
    }
    if collides_partial(g, x, y, sprite, j + 1, 0) {
        let (r, b) = choose|r: int, b: int|
            #![trigger sprite_bit(sprite[r], b)]
            0 <= r < sprite.len() && 0 <= b < 8 && before_pos(r, b, j + 1, 0)
                && sprite_bit(sprite[r], b) && g[target_cell(x, y, r, b)] == 1;
        assert(before_pos(r, b, j, 8));
        assert(collides_partial(g, x, y, sprite, j, 8));
    }
}

/// Row `row`, column `col` is the only cell whose wrapped distances from
/// the draw origin are `(r, b)`; conversely the target cell of `(r, b)`
/// decodes back to `(r, b)`.
proof fn lemma_target_cell(x: nat, y: nat, r: int, b: int)
    requires
        0 <= r < 32,
        0 <= b < 8,
    ensures
        0 <= target_cell(x, y, r, b) < 2048,
        target_cell(x, y, r, b) / 64 == wrap_add((y % 32) as int, r, 32),
        target_cell(x, y, r, b) % 64 == wrap_add((x % 64) as int, b, 64),
        wrap_dist(target_cell(x, y, r, b) / 64, (y % 32) as int, 32) == r,
        wrap_dist(target_cell(x, y, r, b) % 64, (x % 64) as int, 64) == b,
{
    let ys = (y % 32) as int;
    let xs = (x % 64) as int;
    let trow = wrap_add(ys, r, 32);
    let tcol = wrap_add(xs, b, 64);
    lemma_wrap_round(ys, r, 32);
    lemma_wrap_round(xs, b, 64);
    let t = cell_at(trow, tcol);
    lemma_fundamental_div_mod_converse_div(t, 64, trow, tcol);
    lemma_fundamental_div_mod_converse_mod(t, 64, trow, tcol);
}

/// One step of the drawing loop: processing sprite bit `(j, i)` flips (or
/// leaves) exactly the target cell, which no earlier bit has touched, and
/// extends the collision account by that one bit.
proof fn lemma_bit_step(g: Seq<u8>, x: nat, y: nat, sprite: Seq<u8>, j: int, i: int)
    requires
        grid_wf(g),
        sprite.len() <= 32,
        0 <= j < sprite.len(),
        0 <= i < 8,
    ensures
        0 <= target_cell(x, y, j, i) < 2048,
        blit_partial(g, x, y, sprite, j, i)[target_cell(x, y, j, i)] == g[target_cell(x, y, j, i)],
        sprite_bit(sprite[j], i) ==> blit_partial(g, x, y, sprite, j, i + 1) == blit_partial(
            g,
            x,
            y,
            sprite,
            j,
            i,
        ).update(target_cell(x, y, j, i), g[target_cell(x, y, j, i)] ^ 1),
        !sprite_bit(sprite[j], i) ==> blit_partial(g, x, y, sprite, j, i + 1) == blit_partial(
            g,
            x,
            y,
            sprite,
            j,
            i,
        ),
        collides_partial(g, x, y, sprite, j, i + 1) == (collides_partial(g, x, y, sprite, j, i)
            || (sprite_bit(sprite[j], i) && g[target_cell(x, y, j, i)] == 1)),
{
    let ys = (y % 32) as int;
    let xs = (x % 64) as int;
    let t = target_cell(x, y, j, i);
    lemma_target_cell(x, y, j, i);
    assert(!before_pos(j, i, j, i));
    assert forall|idx: int|
        #![trigger wrap_dist(idx / 64, ys, 32)]
        0 <= idx < 2048 && idx != t implies wrap_dist(idx / 64, ys, 32) != j
        || wrap_dist(idx % 64, xs, 64) != i by {
        lemma_fundamental_div_mod(idx, 64);
        let row = idx / 64;
        let col = idx % 64;
        if wrap_dist(row, ys, 32) == j && wrap_dist(col, xs, 64) == i {
            lemma_wrap_unround(row, ys, 32);
            lemma_wrap_unround(col, xs, 64);
            assert(row == wrap_add(ys, j, 32));
            assert(col == wrap_add(xs, i, 64));
            assert(idx == t);
        }
    }
    if sprite_bit(sprite[j], i) {
        assert(blit_partial(g, x, y, sprite, j, i + 1) =~= blit_partial(g, x, y, sprite, j, i)
            .update(t, g[t] ^ 1));
    } else {
        assert(blit_partial(g, x, y, sprite, j, i + 1) =~= blit_partial(g, x, y, sprite, j, i));
    }
    if collides_partial(g, x, y, sprite, j, i + 1) {
        let (r, b) = choose|r: int, b: int|
            #![trigger sprite_bit(sprite[r], b)]
            0 <= r < sprite.len() && 0 <= b < 8 && before_pos(r, b, j, i + 1)
                && sprite_bit(sprite[r], b) && g[target_cell(x, y, r, b)] == 1;
        if r == j && b == i {
            assert(sprite_bit(sprite[j], i) && g[t] == 1);
        } else {
            assert(before_pos(r, b, j, i));
            assert(collides_partial(g, x, y, sprite, j, i));
        }
    }
    if collides_partial(g, x, y, sprite, j, i) {
        let (r, b) = choose|r: int, b: int|
            #![trigger sprite_bit(sprite[r], b)]
            0 <= r < sprite.len() && 0 <= b < 8 && before_pos(r, b, j, i)
                && sprite_bit(sprite[r], b) && g[target_cell(x, y, r, b)] == 1;
        assert(before_pos(r, b, j, i + 1));
        assert(collides_partial(g, x, y, sprite, j, i + 1));
    }
    if sprite_bit(sprite[j], i) && g[t] == 1 {
        assert(before_pos(j, i, j, i + 1));
        assert(collides_partial(g, x, y, sprite, j, i + 1));
    }
}

/// The value drawing leaves in the cell that sprite row `r`, bit `b`
/// covers: the original value XORed with that sprite bit. Cells no sprite
/// bit covers keep their value.
pub proof fn lemma_blit_cell(g: Seq<u8>, x: nat, y: nat, sprite: Seq<u8>, r: int, b: int)
    requires
        grid_wf(g),
        sprite.len() <= 32,
        0 <= r < sprite.len(),
        0 <= b < 8,
    ensures
        0 <= target_cell(x, y, r, b) < 2048,
        blit(g, x, y, sprite)[target_cell(x, y, r, b)] == if sprite_bit(sprite[r], b) {
            g[target_cell(x, y, r, b)] ^ 1
        } else {
            g[target_cell(x, y, r, b)]
        },
{
    lemma_target_cell(x, y, r, b);
    assert(before_pos(r, b, sprite.len() as int, 0));
}

/// The framebuffer, a 64x32 grid of one-bit pixels.
///
/// Mutated only by the clear and draw operations; the view is the flat
/// row-major sequence of cells, 1 for lit and 0 for unlit.
pub struct Display {
    grid: Vec<u8>,
}

impl View for Display {
    type V = Seq<u8>;

    closed spec fn view(&self) -> Seq<u8> {
        self.grid@
    }
}

impl Display {
    /// A well-formed framebuffer: 2048 cells, each 0 or 1.
    pub open spec fn wf(&self) -> bool {
        grid_wf(self@)
    }

    /// Creates a framebuffer with every pixel unlit.
    pub fn new() -> (r: Display)
        ensures
            r.wf(),
            forall|i: int| 0 <= i < 2048 ==> r@[i] == 0,
    {
        Display { grid: zero_cells() }
    }

    /// Resets every pixel to unlit.
    pub fn clear(&mut self)
        ensures
            final(self).wf(),
            forall|i: int| 0 <= i < 2048 ==> final(self)@[i] == 0,
    {
        self.grid = zero_cells();
    }

    /// Reads the pixel in row `row`, column `col`: 1 if lit, 0 if unlit.
    pub fn get_pixel(&self, row: usize, col: usize) -> (r: u8)
        requires
            self.wf(),
            row < 32,
            col < 64,
        ensures
            r == self@[cell_at(row as int, col as int)],
    {
        self.grid[row * 64 + col]
    }

    /// XORs an 8-bit-wide, `sprite.len()`-row sprite onto the grid at
    /// origin `(x, y)`, wrapping on both axes, and reports whether any
    /// lit cell was flipped off.
    pub fn draw(&mut self, x: usize, y: usize, sprite: &[u8]) -> (collision: bool)
        requires
            old(self).wf(),
            sprite@.len() <= 32,
        ensures
            final(self).wf(),
            final(self)@ == blit(old(self)@, x as nat, y as nat, sprite@),
            collision == collides(old(self)@, x as nat, y as nat, sprite@),
    {
        let xs = x % 64;
        let ys = y % 32;
        let h = sprite.len();
        let mut collision = false;
        proof {
            lemma_blit_init(old(self)@, x as nat, y as nat, sprite@);
        }
        let mut j: usize = 0;
        while j < h
            invariant
                old(self).wf(),
                sprite@.len() == h,
                h <= 32,
                xs == x as nat % 64,
                ys == y as nat % 32,
                j <= h,
                self@ == blit_partial(old(self)@, x as nat, y as nat, sprite@, j as int, 0),
                collision == collides_partial(
                    old(self)@,
                    x as nat,
                    y as nat,
                    sprite@,
                    j as int,
                    0,
                ),
            decreases h - j,
        {
            let mut i: usize = 0;
            while i < 8
                invariant
                    old(self).wf(),
                    sprite@.len() == h,
                    h <= 32,
                    xs == x as nat % 64,
                    ys == y as nat % 32,
                    j < h,
                    i <= 8,
                    self@ == blit_partial(
                        old(self)@,
                        x as nat,
                        y as nat,
                        sprite@,
                        j as int,
                        i as int,
                    ),
                    collision == collides_partial(
                        old(self)@,
                        x as nat,
                        y as nat,
                        sprite@,
                        j as int,
                        i as int,
                    ),
                decreases 8 - i,
            {
                let ypos = (ys + j) % 32;
                let xpos = (xs + i) % 64;
                let idx = ypos * 64 + xpos;
                proof {
                    lemma_bit_step(old(self)@, x as nat, y as nat, sprite@, j as int, i as int);
                    lemma_blit_partial_wf(old(self)@, x as nat, y as nat, sprite@, j as int, i as int);
                    assert(idx == target_cell(x as nat, y as nat, j as int, i as int));
                }
                if (sprite[j] & (0x80u8 >> i)) != 0 {
                    proof {
                        assert(sprite_bit(sprite@[j as int], i as int));
                    }
                    let cell = self.grid[idx];
                    if cell == 1 {
                        collision = true;
                    }
                    self.grid.set(idx, cell ^ 1);
                } else {
                    proof {
                        assert(!sprite_bit(sprite@[j as int], i as int));
                    }
                }
                i = i + 1;
            }
            proof {
                lemma_row_advance(old(self)@, x as nat, y as nat, sprite@, j as int);
            }
            j = j + 1;
        }
        proof {
            lemma_blit_partial_wf(old(self)@, x as nat, y as nat, sprite@, h as int, 0);
        }
        collision
    }
}

/// A vector of 2048 zero cells: the blank framebuffer contents.
fn zero_cells() -> (r: Vec<u8>)
    ensures
        r@.len() == 2048,
        forall|i: int| 0 <= i < 2048 ==> r@[i] == 0,
{
    let mut cells: Vec<u8> = Vec::new();
    let mut n: usize = 0;
    while n < 2048
        invariant
            cells@.len() == n,
            n <= 2048,
            forall|i: int| 0 <= i < n ==> cells@[i] == 0,
        decreases 2048 - n,
    {
        cells.push(0);
        n = n + 1;
    }
    cells
}

/// Drawing the same sprite at the same spot twice in succession restores
/// every cell to its pre-draw value; the second draw reports a collision
/// exactly where the first draw lit a previously unlit cell.
pub proof fn lemma_draw_twice(g: Seq<u8>, x: nat, y: nat, sprite: Seq<u8>)
    requires
        grid_wf(g),
        sprite.len() <= 32,
    ensures
        blit(blit(g, x, y, sprite), x, y, sprite) == g,
        collides(blit(g, x, y, sprite), x, y, sprite) == exists|r: int, b: int|
            #![trigger sprite_bit(sprite[r], b)]
            0 <= r < sprite.len() && 0 <= b < 8 && sprite_bit(sprite[r], b) && g[target_cell(
                x,
                y,
                r,
                b,
            )] == 0,
{
    let g1 = blit(g, x, y, sprite);
    lemma_blit_partial_wf(g, x, y, sprite, sprite.len() as int, 0);
    assert forall|idx: int| 0 <= idx < 2048 implies blit(g1, x, y, sprite)[idx] == g[idx] by {
        lemma_flip(g[idx]);
    }
    assert(blit(g1, x, y, sprite) =~= g);
    if collides(g1, x, y, sprite) {
        let (r, b) = choose|r: int, b: int|
            #![trigger sprite_bit(sprite[r], b)]
            0 <= r < sprite.len() && 0 <= b < 8 && before_pos(r, b, sprite.len() as int, 0)
                && sprite_bit(sprite[r], b) && g1[target_cell(x, y, r, b)] == 1;
        lemma_blit_cell(g, x, y, sprite, r, b);
        lemma_flip(g[target_cell(x, y, r, b)]);
        assert(g[target_cell(x, y, r, b)] == 0);
    }
    if exists|r: int, b: int|
        #![trigger sprite_bit(sprite[r], b)]
        0 <= r < sprite.len() && 0 <= b < 8 && sprite_bit(sprite[r], b) && g[target_cell(
            x,
            y,
            r,
            b,
        )] == 0 {
        let (r, b) = choose|r: int, b: int|
            #![trigger sprite_bit(sprite[r], b)]
            0 <= r < sprite.len() && 0 <= b < 8 && sprite_bit(sprite[r], b) && g[target_cell(
                x,
                y,
                r,
                b,
            )] == 0;
        lemma_blit_cell(g, x, y, sprite, r, b);
        lemma_flip(g[target_cell(x, y, r, b)]);
        assert(before_pos(r, b, sprite.len() as int, 0));
        assert(g1[target_cell(x, y, r, b)] == 1);
        assert(collides(g1, x, y, sprite));
    }
}

} // verus!
