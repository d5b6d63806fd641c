//! The 64x32 monochrome display buffer: XOR-blit sprite drawing with
//! clipping and collision detection, plus the built-in hex font sprites.

use vstd::prelude::*;

verus! {

/// Width of the display, in pixels.
pub const WIDTH: usize = 64;

/// Height of the display, in pixels.
pub const HEIGHT: usize = 32;

/// Number of cells of the row-major pixel grid.
pub const GRID_CELLS: usize = 2048;

/// Column of a row-major grid index.
pub open spec fn col_of(i: int) -> int {
    i % 64
}

/// Row of a row-major grid index.
pub open spec fn row_of(i: int) -> int {
    i / 64
}

/// Row-major grid index of a coordinate pair.
pub open spec fn cell_of(px: int, py: int) -> int {
    py * 64 + px
}

/// A coordinate pair and its row-major index name the same cell.
pub proof fn lemma_cell_of(px: int, py: int)
    by (nonlinear_arith)
    requires
        0 <= px < 64,
        0 <= py < 32,
    ensures
        0 <= cell_of(px, py) < 2048,
        col_of(cell_of(px, py)) == px,
        row_of(cell_of(px, py)) == py,
{
}

/// A row-major index decomposes into in-range coordinates.
pub proof fn lemma_coords_of(i: int)
    by (nonlinear_arith)
    requires
        0 <= i < 2048,
    ensures
        0 <= col_of(i) < 64,
        0 <= row_of(i) < 32,
        cell_of(col_of(i), row_of(i)) == i,
{
}

/// Whether column `col` (0 = leftmost) of a sprite byte is lit: bit 7 is the
/// leftmost pixel.
pub open spec fn sprite_row_bit(b: u8, col: int) -> bool
    recommends
        0 <= col < 8,
{
    (b >> ((7 - col) as u8)) & 1 == 1
}

/// Whether the cell `(px, py)` lies under a sprite of `rows` rows blitted
/// with its top-left corner at `(x0, y0)`. Cells past the right or bottom
/// edge of the grid do not exist, so clipping needs no extra condition here.
pub open spec fn in_sprite(x0: int, y0: int, rows: int, px: int, py: int) -> bool {
    y0 <= py < y0 + rows && x0 <= px < x0 + 8
}

/// Whether the sprite blitted at `(x0, y0)` toggles the cell at index `i`:
/// the cell lies under the sprite and the corresponding sprite bit is lit.
pub open spec fn sprite_toggles(sprite: Seq<u8>, x0: int, y0: int, i: int) -> bool {
    in_sprite(x0, y0, sprite.len() as int, col_of(i), row_of(i))
        && sprite_row_bit(sprite[row_of(i) - y0], col_of(i) - x0)
}

/// The grid after XOR-blitting `sprite` at `(x mod 64, y mod 32)`: a cell
/// flips exactly when a lit sprite bit falls on it; rows and columns that
/// fall off the edge are clipped, not wrapped.
pub open spec fn draw_grid(grid: Seq<bool>, x: u8, y: u8, sprite: Seq<u8>) -> Seq<bool> {
    let x0 = (x % 64) as int;
    let y0 = (y % 32) as int;
    Seq::new(2048, |i: int| if sprite_toggles(sprite, x0, y0, i) { !grid[i] } else { grid[i] })
}

/// Whether XOR-blitting `sprite` at `(x mod 64, y mod 32)` turns some
/// previously lit pixel off: a lit sprite bit falls on a lit cell.
pub open spec fn draw_collision(grid: Seq<bool>, x: u8, y: u8, sprite: Seq<u8>) -> bool {
    let x0 = (x % 64) as int;
    let y0 = (y % 32) as int;
    exists|i: int| 0 <= i < 2048 && grid[i] && #[trigger] sprite_toggles(sprite, x0, y0, i)
}

/// The 64x32 monochrome display buffer, row-major, top-left origin.
pub struct Display {
    grid: Vec<bool>,
}

impl View for Display {
    type V = Seq<bool>;

    closed spec fn view(&self) -> Seq<bool> {
        self.grid@
    }
}

impl Display {
    /// The grid always holds exactly one cell per pixel.
    pub open spec fn wf(&self) -> bool {
        self@.len() == 2048
    }

    /// A fresh display with every pixel off.
    pub fn new() -> (d: Display)
        ensures
            d.wf(),
            forall|i: int| 0 <= i < 2048 ==> !d@[i],
    {
        let grid = alloc_grid();
        Display { grid }
    }

    /// Turn every pixel off.
    pub fn clear(&mut self)
        ensures
            final(self).wf(),
            forall|i: int| 0 <= i < 2048 ==> !final(self)@[i],
    {
        self.grid = alloc_grid();
    }

    /// The pixel at column `x`, row `y`.
    pub fn pixel(&self, x: usize, y: usize) -> (lit: bool)
        requires
            self.wf(),
            x < 64,
            y < 32,
        ensures
            lit == self@[cell_of(x as int, y as int)],
    {
        proof {
            lemma_cell_of(x as int, y as int);
        }
        self.grid[y * 64 + x]
    }

    /// The raw row-major grid, one `bool` per pixel.
    pub fn get_buffer(&self) -> (buffer: &Vec<bool>)
        ensures
            buffer@ == self@,
    {
        &self.grid
    }

    /// XOR-blit `sprite` with its top-left corner at `(x mod 64, y mod 32)`,
    /// clipping rows and columns that fall off the edge, and report whether
    /// any previously lit pixel was turned off.
    pub fn draw(&mut self, x: u8, y: u8, sprite: &Vec<u8>) -> (collision: bool)
        requires
            old(self).wf(),
            sprite@.len() <= 15,
        ensures
            final(self).wf(),
            final(self)@ == draw_grid(old(self)@, x, y, sprite@),
            collision == draw_collision(old(self)@, x, y, sprite@),
    {
        let ghost grid0 = self@;
        let ghost s = sprite@;
        let x0 = (x % 64) as usize;
        let y0 = (y % 32) as usize;
        let ghost x0i = x0 as int;
        let ghost y0i = y0 as int;
        let mut collision = false;
        let mut r: usize = 0;
        while r < sprite.len()
            invariant
                self.wf(),
                r <= s.len() <= 15,
                s == sprite@,
                x0 == x % 64,
                y0 == y % 32,
                x0i == x0 as int,
                y0i == y0 as int,
                grid0.len() == 2048,
                forall|i: int| #![trigger self@[i]]
                    0 <= i < 2048 ==> self@[i] == (if partial_toggles(s, x0i, y0i, r as int, 0, i) {
                        !grid0[i]
                    } else {
                        grid0[i]
                    }),
                collision == partial_collision(grid0, s, x0i, y0i, r as int, 0),
            decreases s.len() - r,
        {
            let ghost ri = r as int;
            let py = y0 + r;
            if py < 32 {
                let byte = sprite[r];
                let mut c: usize = 0;
                while c < 8
                    invariant
                        self.wf(),
                        r < s.len() <= 15,
                        c <= 8,
                        ri == r as int,
                        x0 == x % 64,
                        y0 == y % 32,
                        x0i == x0 as int,
                        y0i == y0 as int,
                        py == y0 + r,
                        py < 32,
                        byte == s[ri],
                        s == sprite@,
                        grid0.len() == 2048,
                        forall|i: int| #![trigger self@[i]]
                            0 <= i < 2048 ==> self@[i] == (if partial_toggles(
                                s,
                                x0i,
                                y0i,
                                ri,
                                c as int,
                                i,
                            ) {
                                !grid0[i]
                            } else {
                                grid0[i]
                            }),
                        collision == partial_collision(grid0, s, x0i, y0i, ri, c as int),
                    decreases 8 - c,
                {
                    let ghost ci = c as int;
                    let px = x0 + c;
                    if px < 64 {
                        if (byte >> ((7 - c) as u8)) & 1 == 1 {
                            let idx = py * 64 + px;
                            proof {
                                lemma_cell_of(px as int, py as int);
                            }
                            let old_pix = self.grid[idx];
                            if old_pix {
                                collision = true;
                            }
                            self.grid[idx] = !old_pix;
                            proof {
                                lemma_step_toggled(grid0, s, x0i, y0i, ri, ci);
                                assert(old_pix == grid0[idx as int]);
                            }
                        } else {
                            proof {
                                lemma_step_unlit(grid0, s, x0i, y0i, ri, ci);
                            }
                        }
                    } else {
                        proof {
                            lemma_step_unlit(grid0, s, x0i, y0i, ri, ci);
                        }
                    }
                    c += 1;
                }
                proof {
                    lemma_step_row(grid0, s, x0i, y0i, ri);
                }
            } else {
                proof {
                    lemma_step_skip(grid0, s, x0i, y0i, ri);
                }
            }
            r += 1;
        }
        proof {
            assert forall|i: int| 0 <= i < 2048 implies partial_toggles(
                s,
                x0i,
                y0i,
                s.len() as int,
                0,
                i,
            ) == sprite_toggles(s, x0i, y0i, i) by {
                lemma_coords_of(i);
            }
            assert(self@ =~= draw_grid(grid0, x, y, s));
            if collision {
                let i0 = choose|i: int|
                    0 <= i < 2048 && grid0[i] && #[trigger] partial_toggles(
                        s,
                        x0i,
                        y0i,
                        s.len() as int,
                        0,
                        i,
                    );
                assert(sprite_toggles(s, x0i, y0i, i0));
            } else {
                assert forall|i: int|
                    0 <= i < 2048 && grid0[i] implies !sprite_toggles(s, x0i, y0i, i) by {
                    assert(!partial_toggles(s, x0i, y0i, s.len() as int, 0, i));
                }
            }
        }
        collision
    }
}

/// The collision seen so far by the drawing loops: a lit sprite bit of the
/// processed region fell on a lit cell of the original grid.
pub open spec fn partial_collision(
    grid0: Seq<bool>,
    sprite: Seq<u8>,
    x0: int,
    y0: int,
    r: int,
    c: int,
) -> bool {
    exists|i: int|
        0 <= i < 2048 && grid0[i] && #[trigger] partial_toggles(sprite, x0, y0, r, c, i)
}

/// Like `sprite_toggles`, restricted to the part of the sprite already
/// processed by the drawing loops: rows before `r` wholly, and of row `r`
/// only the columns before `c`.
pub open spec fn partial_toggles(sprite: Seq<u8>, x0: int, y0: int, r: int, c: int, i: int) -> bool {
    let px = col_of(i);
    let py = row_of(i);
    &&& x0 <= px < x0 + 8
    &&& (py - y0 < r || (py - y0 == r && px - x0 < c))
    &&& y0 <= py < y0 + sprite.len()
    &&& sprite_row_bit(sprite[py - y0], px - x0)
}

/// Two equal toggled sets see the same collision.
proof fn lemma_collision_congruence(
    grid0: Seq<bool>,
    sprite: Seq<u8>,
    x0: int,
    y0: int,
    r1: int,
    c1: int,
    r2: int,
    c2: int,
)
    requires
        forall|i: int|
            0 <= i < 2048 ==> #[trigger] partial_toggles(sprite, x0, y0, r2, c2, i)
                == partial_toggles(sprite, x0, y0, r1, c1, i),
    ensures
        partial_collision(grid0, sprite, x0, y0, r2, c2) == partial_collision(
            grid0,
            sprite,
            x0,
            y0,
            r1,
            c1,
        ),
{
    if partial_collision(grid0, sprite, x0, y0, r1, c1) {
        let i0 = choose|i: int|
            0 <= i < 2048 && grid0[i] && #[trigger] partial_toggles(sprite, x0, y0, r1, c1, i);
        assert(partial_toggles(sprite, x0, y0, r2, c2, i0));
    }
    if partial_collision(grid0, sprite, x0, y0, r2, c2) {
        let i1 = choose|i: int|
            0 <= i < 2048 && grid0[i] && #[trigger] partial_toggles(sprite, x0, y0, r2, c2, i);
        assert(partial_toggles(sprite, x0, y0, r1, c1, i1));
    }
}

/// Processing a lit, in-range sprite bit extends the toggled set by exactly
/// the one cell under that bit, and extends the collision by that cell's
/// original state.
proof fn lemma_step_toggled(grid0: Seq<bool>, sprite: Seq<u8>, x0: int, y0: int, r: int, c: int)
    requires
        grid0.len() == 2048,
        0 <= x0 < 64,
        0 <= y0 < 32,
        0 <= r < sprite.len(),
        0 <= c < 8,
        y0 + r < 32,
        x0 + c < 64,
        sprite_row_bit(sprite[r], c),
    ensures
        !partial_toggles(sprite, x0, y0, r, c, cell_of(x0 + c, y0 + r)),
        partial_toggles(sprite, x0, y0, r, c + 1, cell_of(x0 + c, y0 + r)),
        forall|i: int|
            0 <= i < 2048 && i != cell_of(x0 + c, y0 + r) ==> #[trigger] partial_toggles(
                sprite,
                x0,
                y0,
                r,
                c + 1,
                i,
            ) == partial_toggles(sprite, x0, y0, r, c, i),
        partial_collision(grid0, sprite, x0, y0, r, c + 1) == (partial_collision(
            grid0,
            sprite,
            x0,
            y0,
            r,
            c,
        ) || grid0[cell_of(x0 + c, y0 + r)]),
{
    let idx = cell_of(x0 + c, y0 + r);
    lemma_cell_of(x0 + c, y0 + r);
    assert forall|i: int|
        0 <= i < 2048 && i != idx implies #[trigger] partial_toggles(sprite, x0, y0, r, c + 1, i)
        == partial_toggles(sprite, x0, y0, r, c, i) by {
        lemma_coords_of(i);
    }
    if grid0[idx] {
        assert(partial_toggles(sprite, x0, y0, r, c + 1, idx));
        assert(partial_collision(grid0, sprite, x0, y0, r, c + 1));
    } else {
        if partial_collision(grid0, sprite, x0, y0, r, c) {
            let i0 = choose|i: int|
                0 <= i < 2048 && grid0[i] && #[trigger] partial_toggles(sprite, x0, y0, r, c, i);
            assert(partial_toggles(sprite, x0, y0, r, c + 1, i0));
        }
        if partial_collision(grid0, sprite, x0, y0, r, c + 1) {
            let i1 = choose|i: int|
                0 <= i < 2048 && grid0[i] && #[trigger] partial_toggles(
                    sprite,
                    x0,
                    y0,
                    r,
                    c + 1,
                    i,
                );
            assert(i1 != idx);
            assert(partial_toggles(sprite, x0, y0, r, c, i1));
        }
    }
}

/// Processing an unlit or right-clipped sprite bit changes nothing.
proof fn lemma_step_unlit(grid0: Seq<bool>, sprite: Seq<u8>, x0: int, y0: int, r: int, c: int)
    requires
        0 <= x0 < 64,
        0 <= r < sprite.len(),
        0 <= c < 8,
        x0 + c >= 64 || !sprite_row_bit(sprite[r], c),
    ensures
        forall|i: int|
            0 <= i < 2048 ==> #[trigger] partial_toggles(sprite, x0, y0, r, c + 1, i)
                == partial_toggles(sprite, x0, y0, r, c, i),
        partial_collision(grid0, sprite, x0, y0, r, c + 1) == partial_collision(
            grid0,
            sprite,
            x0,
            y0,
            r,
            c,
        ),
{
    assert forall|i: int| 0 <= i < 2048 implies #[trigger] partial_toggles(
        sprite,
        x0,
        y0,
        r,
        c + 1,
        i,
    ) == partial_toggles(sprite, x0, y0, r, c, i) by {
        lemma_coords_of(i);
    }
    lemma_collision_congruence(grid0, sprite, x0, y0, r, c, r, c + 1);
}

/// A fully processed row closes into the next row's starting point.
proof fn lemma_step_row(grid0: Seq<bool>, sprite: Seq<u8>, x0: int, y0: int, r: int)
    requires
        0 <= r,
    ensures
        forall|i: int|
            0 <= i < 2048 ==> #[trigger] partial_toggles(sprite, x0, y0, r + 1, 0, i)
                == partial_toggles(sprite, x0, y0, r, 8, i),
        partial_collision(grid0, sprite, x0, y0, r + 1, 0) == partial_collision(
            grid0,
            sprite,
            x0,
            y0,
            r,
            8,
        ),
{
    assert forall|i: int| 0 <= i < 2048 implies #[trigger] partial_toggles(
        sprite,
        x0,
        y0,
        r + 1,
        0,
        i,
    ) == partial_toggles(sprite, x0, y0, r, 8, i) by {
        lemma_coords_of(i);
    }
    lemma_collision_congruence(grid0, sprite, x0, y0, r, 8, r + 1, 0);
}

/// A sprite row that falls below the grid covers no cell.
proof fn lemma_step_skip(grid0: Seq<bool>, sprite: Seq<u8>, x0: int, y0: int, r: int)
    requires
        0 <= y0,
        0 <= r,
        y0 + r >= 32,
    ensures
        forall|i: int|
            0 <= i < 2048 ==> #[trigger] partial_toggles(sprite, x0, y0, r + 1, 0, i)
                == partial_toggles(sprite, x0, y0, r, 0, i),
        partial_collision(grid0, sprite, x0, y0, r + 1, 0) == partial_collision(
            grid0,
            sprite,
            x0,
            y0,
            r,
            0,
        ),
{
    assert forall|i: int| 0 <= i < 2048 implies #[trigger] partial_toggles(
        sprite,
        x0,
        y0,
        r + 1,
        0,
        i,
    ) == partial_toggles(sprite, x0, y0, r, 0, i) by {
        lemma_coords_of(i);
    }
    lemma_collision_congruence(grid0, sprite, x0, y0, r, 0, r + 1, 0);
}

/// The built-in font: sixteen five-byte sprites for the hex digits 0-F,
/// loaded at address 0. Each row is the top four bits of its byte.
pub open spec fn spec_font() -> Seq<u8> {
    seq![
        0xF0u8, 0x90, 0x90, 0x90, 0xF0,  // 0
        0x20, 0x60, 0x20, 0x20, 0x70,  // 1
        0xF0, 0x10, 0xF0, 0x80, 0xF0,  // 2
        0xF0, 0x10, 0xF0, 0x10, 0xF0,  // 3
        0x90, 0x90, 0xF0, 0x10, 0x10,  // 4
        0xF0, 0x80, 0xF0, 0x10, 0xF0,  // 5
        0xF0, 0x80, 0xF0, 0x90, 0xF0,  // 6
        0xF0, 0x10, 0x20, 0x40, 0x40,  // 7
        0xF0, 0x90, 0xF0, 0x90, 0xF0,  // 8
        0xF0, 0x90, 0xF0, 0x10, 0xF0,  // 9
        0xF0, 0x90, 0xF0, 0x90, 0x90,  // A
        0xE0, 0x90, 0xE0, 0x90, 0xE0,  // B
        0xF0, 0x80, 0x80, 0x80, 0xF0,  // C
        0xE0, 0x90, 0x90, 0x90, 0xE0,  // D
        0xF0, 0x80, 0xF0, 0x80, 0xF0,  // E
        0xF0, 0x80, 0xF0, 0x80, 0x80,  // F
    ]
}

/// The font as an executable byte vector, in the order of `spec_font`.
pub fn font_sprites() -> (v: Vec<u8>)
    ensures
        v@ == spec_font(),
{
    let mut v: Vec<u8> = Vec::new();
    v.push(0xF0);
    v.push(0x90);
    v.push(0x90);
    v.push(0x90);
    v.push(0xF0);
    v.push(0x20);
    v.push(0x60);
    v.push(0x20);
    v.push(0x20);
    v.push(0x70);
    v.push(0xF0);
    v.push(0x10);
    v.push(0xF0);
    v.push(0x80);
    v.push(0xF0);
    v.push(0xF0);
    v.push(0x10);
    v.push(0xF0);
    v.push(0x10);
    v.push(0xF0);
    v.push(0x90);
    v.push(0x90);
    v.push(0xF0);
    v.push(0x10);
    v.push(0x10);
    v.push(0xF0);
    v.push(0x80);
    v.push(0xF0);
    v.push(0x10);
    v.push(0xF0);
    v.push(0xF0);
    v.push(0x80);
    v.push(0xF0);
    v.push(0x90);
    v.push(0xF0);
    v.push(0xF0);
    v.push(0x10);
    v.push(0x20);
    v.push(0x40);
    v.push(0x40);
    v.push(0xF0);
    v.push(0x90);
    v.push(0xF0);
    v.push(0x90);
    v.push(0xF0);
    v.push(0xF0);
    v.push(0x90);
    v.push(0xF0);
    v.push(0x10);
    v.push(0xF0);
    v.push(0xF0);
    v.push(0x90);
    v.push(0xF0);
    v.push(0x90);
    v.push(0x90);
    v.push(0xE0);
    v.push(0x90);
    v.push(0xE0);
    v.push(0x90);
    v.push(0xE0);
    v.push(0xF0);
    v.push(0x80);
    v.push(0x80);
    v.push(0x80);
    v.push(0xF0);
    v.push(0xE0);
    v.push(0x90);
    v.push(0x90);
    v.push(0x90);
    v.push(0xE0);
    v.push(0xF0);
    v.push(0x80);
    v.push(0xF0);
    v.push(0x80);
    v.push(0xF0);
    v.push(0xF0);
    v.push(0x80);
    v.push(0xF0);
    v.push(0x80);
    v.push(0x80);
    proof {
        assert(v@ =~= spec_font());
    }
    v
}

/// A fresh all-dark grid.
fn alloc_grid() -> (grid: Vec<bool>)
    ensures
        grid@.len() == 2048,
        forall|i: int| 0 <= i < 2048 ==> !grid@[i],
{
    let mut grid: Vec<bool> = Vec::new();
    let mut i: usize = 0;
    while i < 2048
        invariant
            grid@.len() == i,
            i <= 2048,
            forall|j: int| 0 <= j < i ==> !grid@[j],
        decreases 2048 - i,
    {
        grid.push(false);
        i += 1;
    }
    grid
}

} // verus!
