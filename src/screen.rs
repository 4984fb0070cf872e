use vstd::prelude::*;

verus! {

/// Width of the display, in pixels.
pub const SCREEN_WIDTH: usize = 64;

/// Height of the display, in pixels.
pub const SCREEN_HEIGHT: usize = 32;

/// The monochrome display: a row-major grid of pixels, `true` when lit.
/// Pixel `(x, y)` is stored at `y * SCREEN_WIDTH + x`.
pub struct Screen {
    pub state: [bool; 2048],
    pub show_grid: bool,
}

/// Whether column `col` (0 = leftmost) of a sprite row byte is set.
pub open spec fn sprite_bit(b: u8, col: int) -> bool {
    b & (0x80u8 >> (col as u8)) != 0u8
}

/// The sprite row that lands on pixel `p` when drawing at row `y`, counted with wraparound.
pub open spec fn sprite_row(p: int, y: int) -> int {
    (p / 64 - y) % 32
}

/// The sprite column that lands on pixel `p` when drawing at column `x`, counted with wraparound.
pub open spec fn sprite_col(p: int, x: int) -> int {
    (p % 64 - x) % 64
}

/// Whether a set bit of `sprite`, drawn with its top-left corner at `(x, y)`,
/// falls on pixel `p`. Each pixel wraps around the display on its own.
pub open spec fn sprite_covers(sprite: Seq<u8>, x: int, y: int, p: int) -> bool {
    let row = sprite_row(p, y);
    let col = sprite_col(p, x);
    row < sprite.len() && col < 8 && sprite_bit(sprite[row], col)
}

/// The display after XOR-drawing `sprite` at `(x, y)`.
pub open spec fn drawn(pixels: Seq<bool>, sprite: Seq<u8>, x: int, y: int) -> Seq<bool> {
    Seq::new(2048, |p: int| pixels[p] != sprite_covers(sprite, x, y, p))
}

/// Whether drawing `sprite` at `(x, y)` turns off a lit pixel.
pub open spec fn collides(pixels: Seq<bool>, sprite: Seq<u8>, x: int, y: int) -> bool {
    exists|p: int| 0 <= p < 2048 && #[trigger] sprite_covers(sprite, x, y, p) && pixels[p]
}

/// The part of a sprite drawn so far: rows before `r`, and columns before `c` of row `r`.
spec fn covered_upto(sprite: Seq<u8>, x: int, y: int, p: int, r: int, c: int) -> bool {
    sprite_covers(sprite, x, y, p) && (sprite_row(p, y) < r || (sprite_row(p, y) == r
        && sprite_col(p, x) < c))
}

/// The pixel that row `r`, column `c` of a sprite drawn at `(x, y)` lands on,
/// and no other pixel takes that row and column.
proof fn lemma_target(x: int, y: int, r: int, c: int)
    requires
        0 <= x,
        0 <= y,
        0 <= r < 32,
        0 <= c < 64,
    ensures
        ({
            let t = ((y + r) % 32) * 64 + (x + c) % 64;
            &&& 0 <= t < 2048
            &&& sprite_row(t, y) == r
            &&& sprite_col(t, x) == c
            &&& forall|p: int|
                0 <= p < 2048 && sprite_row(p, y) == r && sprite_col(p, x) == c ==> p == t
        }),
{
    let ty = (y + r) % 32;
    let tx = (x + c) % 64;
    let t = ty * 64 + tx;
    assert(t / 64 == ty && t % 64 == tx) by (nonlinear_arith)
        requires
            t == ty * 64 + tx,
            0 <= tx < 64,
    ;
    assert forall|p: int|
        0 <= p < 2048 && sprite_row(p, y) == r && sprite_col(p, x) == c implies p == t by {
        let py = p / 64;
        let px = p % 64;
        assert(p == py * 64 + px && 0 <= py < 32 && 0 <= px < 64) by (nonlinear_arith)
            requires
                0 <= p < 2048,
                py == p / 64,
                px == p % 64,
        ;
    }
}

impl Default for Screen {
    /// A dark display with the grid overlay off.
    fn default() -> (r: Screen)
        ensures
            forall|p: int| 0 <= p < 2048 ==> !r.state@[p],
            !r.show_grid,
    {
        Screen::new()
    }
}

impl Screen {
    /// A dark display with the grid overlay off.
    pub fn new() -> (r: Screen)
        ensures
            forall|p: int| 0 <= p < 2048 ==> !r.state@[p],
            !r.show_grid,
    {
        Screen { state: [false; 2048], show_grid: false }
    }

    /// Turns every pixel off; the grid overlay is kept.
    pub fn reset(&mut self)
        ensures
            forall|p: int| 0 <= p < 2048 ==> !final(self).state@[p],
            final(self).show_grid == old(self).show_grid,
    {
        self.state = [false; 2048];
    }

    /// Whether pixel `(x, y)` is lit.
    pub fn pixel(&self, x: usize, y: usize) -> (r: bool)
        requires
            x < SCREEN_WIDTH,
            y < SCREEN_HEIGHT,
        ensures
            r == self.state@[y * 64 + x],
    {
        self.state[y * 64 + x]
    }

    /// XOR-draws the `n`-byte sprite `memory[start..start + n]` with its top-left
    /// corner at `(x, y)`, wrapping each pixel around the display. Returns whether
    /// a lit pixel was turned off.
    pub fn draw_sprite(&mut self, memory: &[u8; 4096], start: usize, n: usize, x: u8, y: u8) -> (r:
        bool)
        requires
            start + n <= 4096,
            n <= 16,
        ensures
            final(self).state@ == drawn(
                old(self).state@,
                memory@.subrange(start as int, start + n),
                x as int,
                y as int,
            ),
            r == collides(old(self).state@, memory@.subrange(start as int, start + n), x as int, y as int),
            final(self).show_grid == old(self).show_grid,
    {
        let ghost sprite = memory@.subrange(start as int, start + n);
        let ghost old_px = self.state@;
        let mut flipped = false;
        let mut row: usize = 0;
        while row < n
            invariant
                row <= n,
                start + n <= 4096,
                n <= 16,
                sprite == memory@.subrange(start as int, start + n),
                self.show_grid == old(self).show_grid,
                old_px == old(self).state@,
                forall|p: int|
                    0 <= p < 2048 ==> self.state@[p] == (old_px[p] != covered_upto(
                        sprite,
                        x as int,
                        y as int,
                        p,
                        row as int,
                        0,
                    )),
                flipped ==> exists|p: int|
                    0 <= p < 2048 && #[trigger] covered_upto(sprite, x as int, y as int, p, row as int, 0)
                        && old_px[p],
                !flipped ==> forall|p: int|
                    0 <= p < 2048 && #[trigger] covered_upto(sprite, x as int, y as int, p, row as int, 0)
                        ==> !old_px[p],
            decreases n - row,
        {
            let b = memory[start + row];
            assert(b == sprite[row as int]);
            let mut col: usize = 0;
            while col < 8
                invariant
                    row < n,
                    col <= 8,
                    start + n <= 4096,
                    n <= 16,
                    b == sprite[row as int],
                    sprite == memory@.subrange(start as int, start + n),
                    self.show_grid == old(self).show_grid,
                    old_px == old(self).state@,
                    forall|p: int|
                        0 <= p < 2048 ==> self.state@[p] == (old_px[p] != covered_upto(
                            sprite,
                            x as int,
                            y as int,
                            p,
                            row as int,
                            col as int,
                        )),
                    flipped ==> exists|p: int|
                        0 <= p < 2048 && #[trigger] covered_upto(sprite, x as int, y as int, p, row as int, col as int)
                            && old_px[p],
                    !flipped ==> forall|p: int|
                        0 <= p < 2048 && #[trigger] covered_upto(sprite, x as int, y as int, p, row as int, col as int)
                            ==> !old_px[p],
                decreases 8 - col,
            {
                proof {
                    lemma_target(x as int, y as int, row as int, col as int);
                }
                let tx = (x as usize + col) % SCREEN_WIDTH;
                let ty = (y as usize + row) % SCREEN_HEIGHT;
                let t = ty * SCREEN_WIDTH + tx;
                let ghost before = self.state@;
                let ghost was_flipped = flipped;
                if b & (0x80u8 >> col as u8) != 0 {
                    if self.state[t] {
                        flipped = true;
                    }
                    self.state[t] = !self.state[t];
                }
                assert forall|p: int| 0 <= p < 2048 implies #[trigger] covered_upto(
                    sprite,
                    x as int,
                    y as int,
                    p,
                    row as int,
                    col + 1,
                ) == (covered_upto(sprite, x as int, y as int, p, row as int, col as int) || (p
                    == t && sprite_bit(b, col as int))) by {}
                assert(sprite_bit(b, col as int) == (b & (0x80u8 >> col as u8) != 0));
                proof {
                    if was_flipped {
                        let w = choose|p: int|
                            0 <= p < 2048 && #[trigger] covered_upto(sprite, x as int, y as int, p, row as int, col as int)
                                && old_px[p];
                        assert(covered_upto(sprite, x as int, y as int, w, row as int, col + 1));
                    } else if flipped {
                        assert(!covered_upto(sprite, x as int, y as int, t as int, row as int, col as int));
                        assert(old_px[t as int]);
                        assert(covered_upto(sprite, x as int, y as int, t as int, row as int, col + 1));
                    }
                }
                col += 1;
            }
            assert forall|p: int| 0 <= p < 2048 implies #[trigger] covered_upto(
                sprite,
                x as int,
                y as int,
                p,
                row + 1,
                0,
            ) == covered_upto(sprite, x as int, y as int, p, row as int, 8) by {}
            proof {
                if flipped {
                    let w = choose|p: int|
                        0 <= p < 2048 && #[trigger] covered_upto(sprite, x as int, y as int, p, row as int, 8)
                            && old_px[p];
                    assert(covered_upto(sprite, x as int, y as int, w, row + 1, 0));
                }
            }
            row += 1;
        }
        assert forall|p: int| 0 <= p < 2048 implies #[trigger] covered_upto(
            sprite,
            x as int,
            y as int,
            p,
            n as int,
            0,
        ) == sprite_covers(sprite, x as int, y as int, p) by {}
        assert(self.state@ =~= drawn(old_px, sprite, x as int, y as int));
        flipped
    }
}

} // verus!
