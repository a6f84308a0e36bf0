//! The monochrome pixel plane and its sprite compositor.
//!
//! The plane is modelled as a grid of booleans, `SCREEN_HEIGHT` rows of
//! `SCREEN_WIDTH` cells, where `true` is a lit pixel. Drawing a sprite flips
//! the cells under its set bits; what lies past the right or bottom edge is
//! cut off, be it a part of the sprite or all of it.

use vstd::prelude::*;
use vstd::arithmetic::div_mod::lemma_fundamental_div_mod_converse;
use vstd::string::StringExecFns;
use crate::consts::{SCREEN_HEIGHT, SCREEN_WIDTH};

verus! {

/// The character that stands for a lit pixel in the text rendering.
pub const LIT_GLYPH: char = '\u{2588}';

/// The character that stands for an unlit pixel in the text rendering.
pub const UNLIT_GLYPH: char = '\u{2591}';

/// Whether `(row, col)` names a cell of the plane.
pub open spec fn in_grid(row: int, col: int) -> bool {
    0 <= row < SCREEN_HEIGHT && 0 <= col < SCREEN_WIDTH
}

/// Whether a grid of booleans has the dimensions of the plane.
pub open spec fn grid_wf(grid: Seq<Seq<bool>>) -> bool {
    &&& grid.len() == SCREEN_HEIGHT
    &&& forall|row: int| 0 <= row < SCREEN_HEIGHT ==> (#[trigger] grid[row]).len() == SCREEN_WIDTH
}

/// The plane with every pixel unlit.
pub open spec fn blank() -> Seq<Seq<bool>> {
    Seq::new(SCREEN_HEIGHT as nat, |row: int| Seq::new(SCREEN_WIDTH as nat, |col: int| false))
}

/// Bit `bit` of `byte`, counting from the most significant bit, which is
/// bit 0.
pub open spec fn bit_of(byte: u8, bit: int) -> bool {
    0 <= bit < 8 && (byte >> ((7 - bit) as u8)) & 1 == 1
}

/// Whether a sprite drawn for the register values `(x, y)` has a set bit
/// over the cell `(row, col)`.
///
/// The origin of the sprite is the cell in row `y`, column `x`, which may
/// lie beyond the plane. Row `r` of the sprite lies `r` cells below the
/// origin and its bit `b` lies `b` cells to the right; nothing wraps around,
/// neither the origin nor the body of the sprite.
pub open spec fn sprite_covers(x: u8, y: u8, sprite: Seq<u8>, row: int, col: int) -> bool {
    let r = row - y;
    let b = col - x;
    0 <= r < sprite.len() && bit_of(sprite[r], b)
}

/// The grid after drawing a sprite: each cell under a set bit is flipped,
/// every other cell is kept.
pub open spec fn drawn(grid: Seq<Seq<bool>>, x: u8, y: u8, sprite: Seq<u8>) -> Seq<Seq<bool>> {
    Seq::new(
        SCREEN_HEIGHT as nat,
        |row: int|
            Seq::new(
                SCREEN_WIDTH as nat,
                |col: int| grid[row][col] != sprite_covers(x, y, sprite, row, col),
            ),
    )
}

/// Whether the sprite has a set bit over the lit cell `(row, col)`.
pub open spec fn erases(
    grid: Seq<Seq<bool>>,
    x: u8,
    y: u8,
    sprite: Seq<u8>,
    row: int,
    col: int,
) -> bool {
    in_grid(row, col) && grid[row][col] && sprite_covers(x, y, sprite, row, col)
}

/// Whether drawing a sprite turns at least one lit pixel off.
pub open spec fn collides(grid: Seq<Seq<bool>>, x: u8, y: u8, sprite: Seq<u8>) -> bool {
    exists|row: int, col: int| erases(grid, x, y, sprite, row, col)
}

/// The number of characters in one line of the text rendering, the line
/// break included.
pub open spec fn line_len() -> int {
    SCREEN_WIDTH + 1
}

/// The character at position `k` of the text rendering.
pub open spec fn glyph_at(grid: Seq<Seq<bool>>, k: int) -> char {
    if k % line_len() == SCREEN_WIDTH {
        '\n'
    } else if grid[k / line_len()][k % line_len()] {
        LIT_GLYPH
    } else {
        UNLIT_GLYPH
    }
}

/// The text rendering of a grid: one line per row, one glyph per cell, each
/// line closed by a line break.
pub open spec fn rendered(grid: Seq<Seq<bool>>) -> Seq<char> {
    Seq::new((SCREEN_HEIGHT * line_len()) as nat, |k: int| glyph_at(grid, k))
}

/// The pixel plane.
pub struct CLIDisplay {
    screen: [[u8; 64]; 32],
}

impl View for CLIDisplay {
    type V = Seq<Seq<bool>>;

    closed spec fn view(&self) -> Seq<Seq<bool>> {
        Seq::new(
            SCREEN_HEIGHT as nat,
            |row: int| Seq::new(SCREEN_WIDTH as nat, |col: int| self.screen@[row]@[col] == 1),
        )
    }
}

impl CLIDisplay {
    /// Every cell holds 0 or 1.
    #[verifier::type_invariant]
    spec fn cells_binary(self) -> bool {
        forall|row: int, col: int| in_grid(row, col) ==> #[trigger] self.screen@[row]@[col] <= 1
    }

    /// A plane with every pixel unlit.
    pub fn new() -> (display: CLIDisplay)
        ensures
            display@ == blank(),
    {
        let display = CLIDisplay { screen: [[0u8; 64]; 32] };
        assert(display@ =~~= blank());
        display
    }

    /// Turns every pixel off.
    pub fn clear(&mut self)
        ensures
            final(self)@ == blank(),
    {
        self.screen = [[0u8; 64]; 32];
        assert(self@ =~~= blank());
    }

    /// Draws a sprite for the register values `(reg_x, reg_y)` and reports
    /// whether any lit pixel was turned off.
    ///
    /// The sprite has one byte per row, top row first, most significant bit
    /// leftmost, and its top left corner is put in row `reg_y`, column
    /// `reg_x`. Each set bit flips the pixel under it; what lies past the
    /// right or bottom edge is dropped, so a sprite whose corner is beyond
    /// the plane changes nothing.
    pub fn draw(&mut self, reg_x: u8, reg_y: u8, sprite: &[u8]) -> (collided: bool)
        ensures
            final(self)@ == drawn(old(self)@, reg_x, reg_y, sprite@),
            collided == collides(old(self)@, reg_x, reg_y, sprite@),
    {
        let x: usize = reg_x as usize;
        let y: usize = reg_y as usize;
        let ghost before = self@;
        let mut did_switch: bool = false;

        let mut yo: usize = 0;
        while yo < sprite.len() && y + yo < SCREEN_HEIGHT as usize
            invariant
                x == reg_x,
                y == reg_y,
                yo <= sprite.len(),
                yo <= SCREEN_HEIGHT,
                before == old(self)@,
                forall|row: int, col: int|
                    in_grid(row, col) ==> #[trigger] self@[row][col] == (before[row][col] != (
                    sprite_covers(reg_x, reg_y, sprite@, row, col) && passed(row, col, y + yo, 0))),
                did_switch == erased_before(before, reg_x, reg_y, sprite@, y + yo, 0),
            decreases sprite.len() - yo,
        {
            let row: usize = y + yo;
            let bits: [u8; 8] = byte_to_bits(sprite[yo]);

            let mut xo: usize = 0;
            while xo < 8 && x + xo < SCREEN_WIDTH as usize
                invariant
                    x == reg_x,
                    y == reg_y,
                    row == y + yo,
                    row < SCREEN_HEIGHT,
                    yo < sprite.len(),
                    xo <= 8,
                    forall|b: int| 0 <= b < 8 ==> (bits[b] == 1) == bit_of(sprite[yo as int], b),
                    forall|r: int, col: int|
                        in_grid(r, col) ==> #[trigger] self@[r][col] == (before[r][col] != (
                        sprite_covers(reg_x, reg_y, sprite@, r, col) && passed(
                            r,
                            col,
                            row as int,
                            x + xo,
                        ))),
                    did_switch == erased_before(before, reg_x, reg_y, sprite@, row as int, x + xo),
                decreases 8 - xo,
            {
                let col: usize = x + xo;
                let ghost earlier = self@;
                proof {
                    use_type_invariant(&*self);
                    lemma_erased_before_step(before, reg_x, reg_y, sprite@, row as int, col as int);
                    assert(sprite_covers(reg_x, reg_y, sprite@, row as int, col as int) == bit_of(
                        sprite[yo as int],
                        xo as int,
                    ));
                    assert(earlier[row as int][col as int] == before[row as int][col as int]);
                }
                if bits[xo] == 1 {
                    if self.screen[row][col] == 1 {
                        self.screen[row][col] = 0;
                        did_switch = true;
                    } else {
                        self.screen[row][col] = 1;
                    }
                }
                xo += 1;
                proof {
                    assert forall|r: int, c: int| in_grid(r, c) implies #[trigger] self@[r][c] == (
                    before[r][c] != (sprite_covers(reg_x, reg_y, sprite@, r, c) && passed(
                        r,
                        c,
                        row as int,
                        x + xo,
                    ))) by {
                        assert(earlier[r][c] == (before[r][c] != (sprite_covers(
                            reg_x,
                            reg_y,
                            sprite@,
                            r,
                            c,
                        ) && passed(r, c, row as int, col as int))));
                    }
                }
            }
            proof {
                lemma_erased_before_row_end(
                    before,
                    reg_x,
                    reg_y,
                    sprite@,
                    row as int,
                    x + xo,
                );
            }
            yo += 1;
        }
        proof {
            lemma_erased_before_end(before, reg_x, reg_y, sprite@, y + yo);
            assert(self@ =~~= drawn(before, reg_x, reg_y, sprite@));
        }
        did_switch
    }

    /// Renders the plane as text: one line per row, [`LIT_GLYPH`] for a lit
    /// pixel and [`UNLIT_GLYPH`] for an unlit one.
    pub fn render(&self) -> (text: String)
        ensures
            text@ == rendered(self@),
    {
        let mut text: String = String::new();
        proof {
            reveal_strlit("\u{2588}");
            reveal_strlit("\u{2591}");
            reveal_strlit("\n");
        }
        let mut row: usize = 0;
        while row < SCREEN_HEIGHT as usize
            invariant
                row <= SCREEN_HEIGHT,
                text@.len() == row * line_len(),
                forall|k: int| 0 <= k < text@.len() ==> text@[k] == glyph_at(self@, k),
                "\u{2588}"@ == seq![LIT_GLYPH],
                "\u{2591}"@ == seq![UNLIT_GLYPH],
                "\n"@ == seq!['\n'],
            decreases SCREEN_HEIGHT - row,
        {
            let mut col: usize = 0;
            while col < SCREEN_WIDTH as usize
                invariant
                    row < SCREEN_HEIGHT,
                    col <= SCREEN_WIDTH,
                    text@.len() == row * line_len() + col,
                    forall|k: int| 0 <= k < text@.len() ==> text@[k] == glyph_at(self@, k),
                    "\u{2588}"@ == seq![LIT_GLYPH],
                    "\u{2591}"@ == seq![UNLIT_GLYPH],
                decreases SCREEN_WIDTH - col,
            {
                proof {
                    lemma_position(row as int, col as int);
                }
                if self.screen[row][col] == 0 {
                    text.append("\u{2591}");
                } else {
                    proof {
                        use_type_invariant(self);
                    }
                    text.append("\u{2588}");
                }
                col += 1;
            }
            proof {
                lemma_position(row as int, col as int);
            }
            text.append("\n");
            row += 1;
        }
        assert(text@ =~= rendered(self@));
        text
    }

    /// Whether the pixel in row `row`, column `col` is lit.
    pub fn pixel(&self, row: usize, col: usize) -> (lit: bool)
        requires
            in_grid(row as int, col as int),
        ensures
            lit == self@[row as int][col as int],
    {
        self.screen[row][col] == 1
    }
}

impl Default for CLIDisplay {
    fn default() -> (display: CLIDisplay)
        ensures
            display@ == blank(),
    {
        CLIDisplay::new()
    }
}

/// The bits of a byte as 0 or 1, from the most to the least significant.
pub fn byte_to_bits(b: u8) -> (bits: [u8; 8])
    ensures
        forall|i: int| 0 <= i < 8 ==> bits[i] == (if bit_of(b, i) { 1u8 } else { 0u8 }),
{
    let mut bits: [u8; 8] = [0u8; 8];
    let mut i: u8 = 0;
    while i < 8
        invariant
            i <= 8,
            forall|k: int| 0 <= k < i ==> bits[k] == (if bit_of(b, k) { 1u8 } else { 0u8 }),
        decreases 8 - i,
    {
        let shift: u8 = 7 - i;
        let bit: u8 = (b >> shift) & 1;
        assert(bit == 0 || bit == 1) by (bit_vector)
            requires
                bit == (b >> shift) & 1,
        ;
        bits[i as usize] = bit;
        i += 1;
    }
    bits
}

/// Whether the cell `(row, col)` comes before the cell `(at_row, at_col)`
/// when the plane is walked row by row, each row from left to right.
spec fn passed(row: int, col: int, at_row: int, at_col: int) -> bool {
    row < at_row || (row == at_row && col < at_col)
}

/// Whether the sprite turns off a lit pixel that comes before
/// `(at_row, at_col)`.
spec fn erased_before(
    grid: Seq<Seq<bool>>,
    x: u8,
    y: u8,
    sprite: Seq<u8>,
    at_row: int,
    at_col: int,
) -> bool {
    exists|row: int, col: int|
        #[trigger] erases(grid, x, y, sprite, row, col) && passed(row, col, at_row, at_col)
}

/// Passing one more cell adds exactly that cell to the ones looked at.
proof fn lemma_erased_before_step(
    grid: Seq<Seq<bool>>,
    x: u8,
    y: u8,
    sprite: Seq<u8>,
    at_row: int,
    at_col: int,
)
    ensures
        erased_before(grid, x, y, sprite, at_row, at_col + 1) == (erased_before(
            grid,
            x,
            y,
            sprite,
            at_row,
            at_col,
        ) || erases(grid, x, y, sprite, at_row, at_col)),
{
    if erased_before(grid, x, y, sprite, at_row, at_col + 1) {
        let (row, col) = choose|row: int, col: int|
            #[trigger] erases(grid, x, y, sprite, row, col) && passed(row, col, at_row, at_col + 1);
        if !(row == at_row && col == at_col) {
            assert(erases(grid, x, y, sprite, row, col) && passed(row, col, at_row, at_col));
        }
    }
    if erased_before(grid, x, y, sprite, at_row, at_col) {
        let (row, col) = choose|row: int, col: int|
            #[trigger] erases(grid, x, y, sprite, row, col) && passed(row, col, at_row, at_col);
        assert(erases(grid, x, y, sprite, row, col) && passed(row, col, at_row, at_col + 1));
    }
    if erases(grid, x, y, sprite, at_row, at_col) {
        assert(passed(at_row, at_col, at_row, at_col + 1));
    }
}

/// Once the walk along a row has left the sprite or the plane, the rest of
/// the row holds nothing that the sprite covers.
proof fn lemma_erased_before_row_end(
    grid: Seq<Seq<bool>>,
    x: u8,
    y: u8,
    sprite: Seq<u8>,
    at_row: int,
    at_col: int,
)
    requires
        at_col >= x + 8 || at_col >= SCREEN_WIDTH,
    ensures
        erased_before(grid, x, y, sprite, at_row + 1, 0) == erased_before(
            grid,
            x,
            y,
            sprite,
            at_row,
            at_col,
        ),
        forall|row: int, col: int|
            in_grid(row, col) && sprite_covers(x, y, sprite, row, col) ==> passed(
                row,
                col,
                at_row + 1,
                0,
            ) == passed(row, col, at_row, at_col),
{
    if erased_before(grid, x, y, sprite, at_row + 1, 0) {
        let (row, col) = choose|row: int, col: int|
            #[trigger] erases(grid, x, y, sprite, row, col) && passed(row, col, at_row + 1, 0);
        assert(erases(grid, x, y, sprite, row, col) && passed(row, col, at_row, at_col));
    }
    if erased_before(grid, x, y, sprite, at_row, at_col) {
        let (row, col) = choose|row: int, col: int|
            #[trigger] erases(grid, x, y, sprite, row, col) && passed(row, col, at_row, at_col);
        assert(erases(grid, x, y, sprite, row, col) && passed(row, col, at_row + 1, 0));
    }
}

/// Once the walk down the plane has left the sprite or the plane, every
/// cell that the sprite covers has been passed.
proof fn lemma_erased_before_end(
    grid: Seq<Seq<bool>>,
    x: u8,
    y: u8,
    sprite: Seq<u8>,
    at_row: int,
)
    requires
        at_row >= y + sprite.len() || at_row >= SCREEN_HEIGHT,
    ensures
        erased_before(grid, x, y, sprite, at_row, 0) == collides(grid, x, y, sprite),
        forall|row: int, col: int|
            in_grid(row, col) && sprite_covers(x, y, sprite, row, col) ==> passed(
                row,
                col,
                at_row,
                0,
            ),
{
    if collides(grid, x, y, sprite) {
        let (row, col) = choose|row: int, col: int| erases(grid, x, y, sprite, row, col);
        assert(erases(grid, x, y, sprite, row, col) && passed(row, col, at_row, 0));
    }
}

/// Position `row * line_len() + col` of the text rendering lies in line
/// `row` at offset `col`.
proof fn lemma_position(row: int, col: int)
    requires
        0 <= row,
        0 <= col < line_len(),
    ensures
        (row * line_len() + col) / line_len() == row,
        (row * line_len() + col) % line_len() == col,
{
    lemma_fundamental_div_mod_converse(row * line_len() + col, line_len(), row, col);
}

/// Whether the sprite has a set bit over the unlit cell `(row, col)`.
pub open spec fn lights(
    grid: Seq<Seq<bool>>,
    x: u8,
    y: u8,
    sprite: Seq<u8>,
    row: int,
    col: int,
) -> bool {
    in_grid(row, col) && !grid[row][col] && sprite_covers(x, y, sprite, row, col)
}

/// Whether the sprite has a set bit over some cell of the plane.
pub open spec fn visible(x: u8, y: u8, sprite: Seq<u8>) -> bool {
    exists|row: int, col: int| in_grid(row, col) && sprite_covers(x, y, sprite, row, col)
}

/// Drawing a sprite changes no cell above or left of its origin, none
/// beyond its eight columns and none below its last row, and the result is
/// again a grid of the plane's dimensions: what lies past an edge of the
/// plane is dropped and never shows up at the opposite edge.
pub proof fn lemma_draw_clips(grid: Seq<Seq<bool>>, x: u8, y: u8, sprite: Seq<u8>)
    ensures
        grid_wf(drawn(grid, x, y, sprite)),
        forall|row: int, col: int|
            in_grid(row, col) && #[trigger] drawn(grid, x, y, sprite)[row][col] != grid[row][col]
                ==> y <= row < y + sprite.len() && x <= col < x + 8,
{
}

/// A sprite whose origin lies beyond the right or the bottom edge changes
/// nothing and collides with nothing: it does not come back at the opposite
/// edge.
pub proof fn lemma_draw_beyond_plane(grid: Seq<Seq<bool>>, x: u8, y: u8, sprite: Seq<u8>)
    requires
        grid_wf(grid),
        x >= SCREEN_WIDTH || y >= SCREEN_HEIGHT,
    ensures
        drawn(grid, x, y, sprite) == grid,
        !collides(grid, x, y, sprite),
        !visible(x, y, sprite),
{
    assert(drawn(grid, x, y, sprite) =~~= grid);
}

/// Drawing the same sprite twice at the same place restores the plane, and
/// the second draw reports a collision exactly when the first one lit a
/// pixel.
pub proof fn lemma_draw_twice(grid: Seq<Seq<bool>>, x: u8, y: u8, sprite: Seq<u8>)
    requires
        grid_wf(grid),
    ensures
        drawn(drawn(grid, x, y, sprite), x, y, sprite) == grid,
        collides(drawn(grid, x, y, sprite), x, y, sprite) <==> exists|row: int, col: int|
            lights(grid, x, y, sprite, row, col),
{
    let once = drawn(grid, x, y, sprite);
    assert(drawn(once, x, y, sprite) =~~= grid);
    if collides(once, x, y, sprite) {
        let (row, col) = choose|row: int, col: int| erases(once, x, y, sprite, row, col);
        assert(lights(grid, x, y, sprite, row, col));
    }
    if exists|row: int, col: int| lights(grid, x, y, sprite, row, col) {
        let (row, col) = choose|row: int, col: int| lights(grid, x, y, sprite, row, col);
        assert(erases(once, x, y, sprite, row, col));
    }
}

/// On a blank plane, drawing a sprite reports no collision, and drawing it
/// a second time clears the plane again and reports a collision exactly when
/// the sprite has a set bit inside the plane.
pub proof fn lemma_draw_twice_on_blank(x: u8, y: u8, sprite: Seq<u8>)
    ensures
        !collides(blank(), x, y, sprite),
        drawn(drawn(blank(), x, y, sprite), x, y, sprite) == blank(),
        collides(drawn(blank(), x, y, sprite), x, y, sprite) <==> visible(x, y, sprite),
{
    lemma_draw_twice(blank(), x, y, sprite);
    if visible(x, y, sprite) {
        let (row, col) = choose|row: int, col: int|
            in_grid(row, col) && sprite_covers(x, y, sprite, row, col);
        assert(lights(blank(), x, y, sprite, row, col));
    }
    if exists|row: int, col: int| lights(blank(), x, y, sprite, row, col) {
        let (row, col) = choose|row: int, col: int| lights(blank(), x, y, sprite, row, col);
        assert(in_grid(row, col) && sprite_covers(x, y, sprite, row, col));
    }
}

/// The dimensions of the view of a plane.
pub proof fn lemma_view_wf(display: CLIDisplay)
    ensures
        grid_wf(display@),
{
}

} // verus!
