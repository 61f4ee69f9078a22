//! The mathematical model of the display surface: a monochrome grid on
//! which sprites are composited by exclusive or.

use vstd::prelude::*;
use vstd::arithmetic::div_mod::{
    lemma_fundamental_div_mod, lemma_mod_equivalence, lemma_mod_mod, lemma_small_mod,
};
use crate::types::{ByteVal, add8};

verus! {

/// A monochrome pixel grid. `lit` holds the coordinates `(x, y)` of the
/// pixels that are on; every other pixel is off.
pub struct Screen {
    pub width: nat,
    pub height: nat,
    pub lit: Set<(int, int)>,
}

/// Whether bit `i` of `row` is set, counting from the most significant bit.
pub open spec fn row_bit(row: ByteVal, i: int) -> bool {
    (row >> ((7 - i) as ByteVal)) & 1 == 1
}

impl Screen {
    /// A grid of the given size with every pixel off.
    pub open spec fn blank(width: nat, height: nat) -> Screen {
        Screen { width, height, lit: Set::empty() }
    }

    /// The grid has pixels, and only pixels of the grid are on.
    pub open spec fn wf(self) -> bool {
        &&& self.width > 0
        &&& self.height > 0
        &&& forall|p: (int, int)| #[trigger]
            self.lit.contains(p) ==> 0 <= p.0 < self.width && 0 <= p.1 < self.height
    }

    /// The pixel that the coordinates `(x, y)` name: coordinates wrap around
    /// at the right and at the bottom edge.
    pub open spec fn cell(self, x: int, y: int) -> (int, int) {
        (x % (self.width as int), y % (self.height as int))
    }

    /// Whether the pixel at `(x, y)` is on.
    pub open spec fn is_lit(self, x: int, y: int) -> bool {
        self.lit.contains(self.cell(x, y))
    }

    /// The same grid with every pixel off.
    pub open spec fn cleared(self) -> Screen {
        Screen { lit: Set::empty(), ..self }
    }

    /// The grid after the pixel at `(x, y)` is switched on or off.
    pub open spec fn put(self, x: int, y: int, on: bool) -> Screen {
        Screen {
            lit: if on {
                self.lit.insert(self.cell(x, y))
            } else {
                self.lit.remove(self.cell(x, y))
            },
            ..self
        }
    }

    /// The grid after `bit` is combined by exclusive or into the pixel at
    /// `(x, y)`.
    pub open spec fn toggle(self, x: int, y: int, bit: bool) -> Screen {
        if bit {
            self.put(x, y, !self.is_lit(x, y))
        } else {
            self
        }
    }

    /// Whether combining `bit` into the pixel at `(x, y)` switches it off.
    pub open spec fn erases(self, x: int, y: int, bit: bool) -> bool {
        bit && self.is_lit(x, y)
    }

    /// The grid after the `n` most significant bits of `row` are combined,
    /// in turn, into the pixels `(x, y)`, `(x + 1, y)`, ...
    pub open spec fn xor_bits(self, x: int, y: int, row: ByteVal, n: nat) -> Screen
        decreases n,
    {
        if n == 0 {
            self
        } else {
            self.xor_bits(x, y, row, (n - 1) as nat).toggle(x + n - 1, y, row_bit(row, n - 1))
        }
    }

    /// Whether one of the `n` steps of `xor_bits` switches a pixel off.
    pub open spec fn bits_erase(self, x: int, y: int, row: ByteVal, n: nat) -> bool
        decreases n,
    {
        n > 0 && (self.bits_erase(x, y, row, (n - 1) as nat) || self.xor_bits(
            x,
            y,
            row,
            (n - 1) as nat,
        ).erases(x + n - 1, y, row_bit(row, n - 1)))
    }

    /// The grid after the eight bits of `row` are combined into the eight
    /// pixels that start at `(x, y)` and run to the right.
    pub open spec fn xor_row(self, x: int, y: int, row: ByteVal) -> Screen {
        self.xor_bits(x, y, row, 8)
    }

    /// Whether `xor_row` switches a pixel off.
    pub open spec fn row_erases(self, x: int, y: int, row: ByteVal) -> bool {
        self.bits_erase(x, y, row, 8)
    }

    /// The grid after the first `n` rows of `sprite` are drawn at `(x, y)`:
    /// row `i` goes to the line `y + i`, taken as an eight-bit number.
    pub open spec fn draw_rows(self, x: ByteVal, y: ByteVal, sprite: Seq<ByteVal>, n: nat) -> Screen
        decreases n,
    {
        if n == 0 {
            self
        } else {
            self.draw_rows(x, y, sprite, (n - 1) as nat).xor_row(
                x as int,
                add8(y as int, n - 1) as int,
                sprite[n - 1],
            )
        }
    }

    /// Whether drawing the first `n` rows of `sprite` switches a pixel off.
    pub open spec fn rows_erase(self, x: ByteVal, y: ByteVal, sprite: Seq<ByteVal>, n: nat) -> bool
        decreases n,
    {
        n > 0 && (self.rows_erase(x, y, sprite, (n - 1) as nat) || self.draw_rows(
            x,
            y,
            sprite,
            (n - 1) as nat,
        ).row_erases(x as int, add8(y as int, n - 1) as int, sprite[n - 1]))
    }

    /// The grid after `sprite` is drawn at `(x, y)`.
    pub open spec fn draw(self, x: ByteVal, y: ByteVal, sprite: Seq<ByteVal>) -> Screen {
        self.draw_rows(x, y, sprite, sprite.len())
    }

    /// Whether drawing `sprite` at `(x, y)` switches a pixel off.
    pub open spec fn draw_erases(self, x: ByteVal, y: ByteVal, sprite: Seq<ByteVal>) -> bool {
        self.rows_erase(x, y, sprite, sprite.len())
    }
}

/// Writing a pixel makes it read back as written and leaves every other
/// pixel as it was. Coordinates that name the same pixel read the same.
pub proof fn lemma_put(s: Screen, x: int, y: int, on: bool, x2: int, y2: int)
    ensures
        s.put(x, y, on).is_lit(x2, y2) == if s.cell(x2, y2) == s.cell(x, y) {
            on
        } else {
            s.is_lit(x2, y2)
        },
        s.put(x, y, on).width == s.width,
        s.put(x, y, on).height == s.height,
        s.wf() ==> s.put(x, y, on).wf(),
{
}

/// Combining a bit into a pixel inverts the pixel if the bit is set,
/// leaves every other pixel as it was, and switches the pixel off exactly
/// if the bit is set and the pixel was on.
pub proof fn lemma_toggle(s: Screen, x: int, y: int, bit: bool, x2: int, y2: int)
    ensures
        s.toggle(x, y, bit).is_lit(x2, y2) == if s.cell(x2, y2) == s.cell(x, y) {
            s.is_lit(x, y) != bit
        } else {
            s.is_lit(x2, y2)
        },
        s.erases(x, y, bit) == (s.is_lit(x, y) && !s.toggle(x, y, bit).is_lit(x, y)),
        s.toggle(x, y, bit).width == s.width,
        s.toggle(x, y, bit).height == s.height,
        s.wf() ==> s.toggle(x, y, bit).wf(),
{
}

/// On a cleared grid no pixel is on.
pub proof fn lemma_cleared(s: Screen, x: int, y: int)
    ensures
        !s.cleared().is_lit(x, y),
        s.cleared() == Screen::blank(s.width, s.height),
        s.width > 0 && s.height > 0 ==> s.cleared().wf(),
{
}

/// The pixel of a grid of the given size that bit `j` of a row drawn at
/// `(x, y)` falls on.
pub open spec fn row_cell(width: nat, height: nat, x: int, y: int, j: int) -> (int, int) {
    ((x + j) % (width as int), y % (height as int))
}

/// Whether the first `n` steps of `xor_bits` on a grid of the given size
/// invert the pixel `q` an odd number of times.
pub open spec fn row_flips(
    width: nat,
    height: nat,
    x: int,
    y: int,
    row: ByteVal,
    n: nat,
    q: (int, int),
) -> bool
    decreases n,
{
    if n == 0 {
        false
    } else {
        row_flips(width, height, x, y, row, (n - 1) as nat, q) != (row_bit(row, n - 1) && q
            == row_cell(width, height, x, y, n - 1))
    }
}

/// Whether drawing the first `n` rows of `sprite` on a grid of the given
/// size inverts the pixel `q` an odd number of times.
pub open spec fn sprite_flips(
    width: nat,
    height: nat,
    x: ByteVal,
    y: ByteVal,
    sprite: Seq<ByteVal>,
    n: nat,
    q: (int, int),
) -> bool
    decreases n,
{
    if n == 0 {
        false
    } else {
        sprite_flips(width, height, x, y, sprite, (n - 1) as nat, q) != row_flips(
            width,
            height,
            x as int,
            add8(y as int, n - 1) as int,
            sprite[n - 1],
            8,
            q,
        )
    }
}

/// Combining bits into a row keeps the size of the grid, and a pixel ends
/// up inverted exactly if it was inverted an odd number of times.
pub proof fn lemma_xor_bits(s: Screen, x: int, y: int, row: ByteVal, n: nat)
    ensures
        s.xor_bits(x, y, row, n).width == s.width,
        s.xor_bits(x, y, row, n).height == s.height,
        forall|q: (int, int)|
            s.xor_bits(x, y, row, n).lit.contains(q) == (s.lit.contains(q) != row_flips(
                s.width,
                s.height,
                x,
                y,
                row,
                n,
                q,
            )),
    decreases n,
{
    if n > 0 {
        lemma_xor_bits(s, x, y, row, (n - 1) as nat);
    }
}

/// Drawing rows keeps the size of the grid, and a pixel ends up inverted
/// exactly if it was inverted an odd number of times.
pub proof fn lemma_draw_rows(s: Screen, x: ByteVal, y: ByteVal, sprite: Seq<ByteVal>, n: nat)
    ensures
        s.draw_rows(x, y, sprite, n).width == s.width,
        s.draw_rows(x, y, sprite, n).height == s.height,
        forall|q: (int, int)|
            s.draw_rows(x, y, sprite, n).lit.contains(q) == (s.lit.contains(q) != sprite_flips(
                s.width,
                s.height,
                x,
                y,
                sprite,
                n,
                q,
            )),
    decreases n,
{
    if n > 0 {
        lemma_draw_rows(s, x, y, sprite, (n - 1) as nat);
        lemma_xor_bits(
            s.draw_rows(x, y, sprite, (n - 1) as nat),
            x as int,
            add8(y as int, n - 1) as int,
            sprite[n - 1],
            8,
        );
    }
}

/// Drawing keeps a well-formed grid well-formed.
pub proof fn lemma_draw_wf(s: Screen, x: ByteVal, y: ByteVal, sprite: Seq<ByteVal>)
    requires
        s.wf(),
    ensures
        s.draw(x, y, sprite).wf(),
{
    lemma_draw_rows(s, x, y, sprite, sprite.len());
    let after = s.draw(x, y, sprite);
    assert forall|q: (int, int)| #[trigger] after.lit.contains(q) implies 0 <= q.0 < after.width
        && 0 <= q.1 < after.height by {
        if !s.lit.contains(q) {
            lemma_sprite_flips_on_grid(s.width, s.height, x, y, sprite, sprite.len(), q);
        }
    }
}

/// Only pixels of the grid are ever inverted by a row.
pub proof fn lemma_row_flips_on_grid(
    width: nat,
    height: nat,
    x: int,
    y: int,
    row: ByteVal,
    n: nat,
    q: (int, int),
)
    requires
        width > 0,
        height > 0,
        row_flips(width, height, x, y, row, n, q),
    ensures
        0 <= q.0 < width,
        0 <= q.1 < height,
    decreases n,
{
    if n > 0 {
        if row_flips(width, height, x, y, row, (n - 1) as nat, q) {
            lemma_row_flips_on_grid(width, height, x, y, row, (n - 1) as nat, q);
        }
    }
}

/// Only pixels of the grid are ever inverted by a sprite.
pub proof fn lemma_sprite_flips_on_grid(
    width: nat,
    height: nat,
    x: ByteVal,
    y: ByteVal,
    sprite: Seq<ByteVal>,
    n: nat,
    q: (int, int),
)
    requires
        width > 0,
        height > 0,
        sprite_flips(width, height, x, y, sprite, n, q),
    ensures
        0 <= q.0 < width,
        0 <= q.1 < height,
    decreases n,
{
    if n > 0 {
        if sprite_flips(width, height, x, y, sprite, (n - 1) as nat, q) {
            lemma_sprite_flips_on_grid(width, height, x, y, sprite, (n - 1) as nat, q);
        } else {
            lemma_row_flips_on_grid(
                width,
                height,
                x as int,
                add8(y as int, n - 1) as int,
                sprite[n - 1],
                8,
                q,
            );
        }
    }
}

/// Drawing the same sprite twice at the same place restores the grid.
pub proof fn lemma_draw_twice(s: Screen, x: ByteVal, y: ByteVal, sprite: Seq<ByteVal>)
    ensures
        s.draw(x, y, sprite).draw(x, y, sprite) == s,
{
    let once = s.draw(x, y, sprite);
    let twice = once.draw(x, y, sprite);
    lemma_draw_rows(s, x, y, sprite, sprite.len());
    lemma_draw_rows(once, x, y, sprite, sprite.len());
    assert(twice.lit =~= s.lit);
}

/// On a grid at least eight pixels wide, the eight bits of a row fall on
/// eight different pixels.
pub proof fn lemma_columns_differ(width: nat, x: int, i: int, j: int)
    requires
        width >= 8,
        0 <= i < j < 8,
    ensures
        (x + i) % (width as int) != (x + j) % (width as int),
{
    lemma_mod_equivalence(x + j, x + i, width as int);
    lemma_small_mod((j - i) as nat, width);
}

/// On a grid at least eight pixels wide, the first `n` bits of a row
/// invert a pixel exactly if a set bit among them falls on it.
pub proof fn lemma_row_flips(
    width: nat,
    height: nat,
    x: int,
    y: int,
    row: ByteVal,
    n: nat,
    q: (int, int),
)
    requires
        width >= 8,
        n <= 8,
    ensures
        row_flips(width, height, x, y, row, n, q) <==> exists|j: int|
            0 <= j < n && row_bit(row, j) && q == #[trigger] row_cell(width, height, x, y, j),
    decreases n,
{
    if n > 0 {
        lemma_row_flips(width, height, x, y, row, (n - 1) as nat, q);
        let last = n - 1;
        if q == row_cell(width, height, x, y, last) {
            assert forall|j: int| 0 <= j < last implies q != #[trigger] row_cell(
                width,
                height,
                x,
                y,
                j,
            ) by {
                lemma_columns_differ(width, x, j, last);
            }
        } else {
            if row_flips(width, height, x, y, row, (n - 1) as nat, q) {
                let j = choose|j: int|
                    0 <= j < n - 1 && row_bit(row, j) && q == #[trigger] row_cell(
                        width,
                        height,
                        x,
                        y,
                        j,
                    );
                assert(0 <= j < n && row_bit(row, j) && q == row_cell(width, height, x, y, j));
            }
        }
    }
}

/// On a grid at least eight pixels wide, a row switches a pixel off
/// exactly if one of its set bits falls on a pixel that is on.
pub proof fn lemma_bits_erase(s: Screen, x: int, y: int, row: ByteVal, n: nat)
    requires
        s.width >= 8,
        n <= 8,
    ensures
        s.bits_erase(x, y, row, n) <==> exists|j: int|
            0 <= j < n && row_bit(row, j) && #[trigger] s.is_lit(x + j, y),
    decreases n,
{
    if n > 0 {
        let last = n - 1;
        lemma_bits_erase(s, x, y, row, last as nat);
        lemma_xor_bits(s, x, y, row, last as nat);
        let shown = s.xor_bits(x, y, row, last as nat);
        let target = row_cell(s.width, s.height, x, y, last);
        lemma_row_flips(s.width, s.height, x, y, row, last as nat, target);
        assert(!row_flips(s.width, s.height, x, y, row, last as nat, target)) by {
            assert forall|j: int| 0 <= j < last implies target != #[trigger] row_cell(
                s.width,
                s.height,
                x,
                y,
                j,
            ) by {
                lemma_columns_differ(s.width, x, j, last);
            }
        }
        assert(shown.cell(x + last, y) == target);
        assert(s.cell(x + last, y) == target);
        assert(shown.is_lit(x + last, y) == s.is_lit(x + last, y));
        if s.bits_erase(x, y, row, n) {
            if s.bits_erase(x, y, row, last as nat) {
                let j = choose|j: int|
                    0 <= j < last && row_bit(row, j) && #[trigger] s.is_lit(x + j, y);
                assert(0 <= j < n && row_bit(row, j) && s.is_lit(x + j, y));
            } else {
                assert(0 <= last < n && row_bit(row, last) && s.is_lit(x + last, y));
            }
        }
    }
}

/// On a grid at least eight pixels wide, drawing a row switches a pixel
/// off exactly if one of its set bits falls on a pixel that is on.
pub proof fn lemma_row_erases(s: Screen, x: int, y: int, row: ByteVal)
    requires
        s.width >= 8,
    ensures
        s.row_erases(x, y, row) <==> exists|j: int|
            0 <= j < 8 && row_bit(row, j) && #[trigger] s.is_lit(x + j, y),
{
    lemma_bits_erase(s, x, y, row, 8);
}

/// A row that is drawn, on a grid at least eight pixels wide, leaves each
/// of its eight pixels inverted where its bit is set and as it was where
/// its bit is clear.
pub proof fn lemma_row_inverts(s: Screen, x: int, y: int, row: ByteVal, j: int)
    requires
        s.width >= 8,
        0 <= j < 8,
    ensures
        s.xor_row(x, y, row).is_lit(x + j, y) == (s.is_lit(x + j, y) != row_bit(row, j)),
{
    lemma_xor_bits(s, x, y, row, 8);
    let target = row_cell(s.width, s.height, x, y, j);
    assert(s.cell(x + j, y) == target);
    assert(s.xor_row(x, y, row).cell(x + j, y) == target);
    lemma_row_flips(s.width, s.height, x, y, row, 8, target);
    if row_flips(s.width, s.height, x, y, row, 8, target) {
        let k = choose|k: int|
            0 <= k < 8 && row_bit(row, k) && target == #[trigger] row_cell(
                s.width,
                s.height,
                x,
                y,
                k,
            );
        if k < j {
            lemma_columns_differ(s.width, x, k, j);
        } else if j < k {
            lemma_columns_differ(s.width, x, j, k);
        }
    }
}

/// Drawing one row twice on a blank grid at least eight pixels wide: the
/// first time nothing is switched off; the second time something is,
/// unless the row is empty; and the grid is blank again.
pub proof fn lemma_row_twice_on_blank(width: nat, height: nat, x: int, y: int, row: ByteVal)
    requires
        width >= 8,
    ensures
        ({
            let blank = Screen::blank(width, height);
            let once = blank.xor_row(x, y, row);
            &&& !blank.row_erases(x, y, row)
            &&& once.row_erases(x, y, row) == (row != 0)
            &&& once.xor_row(x, y, row) == blank
        }),
{
    let blank = Screen::blank(width, height);
    let once = blank.xor_row(x, y, row);
    lemma_xor_bits(blank, x, y, row, 8);
    lemma_xor_bits(once, x, y, row, 8);
    lemma_row_erases(blank, x, y, row);
    lemma_row_erases(once, x, y, row);
    assert(once.xor_row(x, y, row).lit =~= blank.lit);
    assert forall|j: int| 0 <= j < 8 implies once.is_lit(x + j, y) == row_bit(row, j) by {
        lemma_row_inverts(blank, x, y, row, j);
    }
    lemma_row_bits(row);
    if row != 0 {
        let j = choose|j: int| 0 <= j < 8 && #[trigger] row_bit(row, j);
        assert(row_bit(row, j) && once.is_lit(x + j, y));
    }
}

/// A byte is zero exactly if none of its eight bits is set.
pub proof fn lemma_row_bits(row: ByteVal)
    ensures
        row != 0 <==> exists|j: int| 0 <= j < 8 && #[trigger] row_bit(row, j),
{
    if row != 0 {
        assert(row != 0 ==> (row >> 7u8) & 1 == 1 || (row >> 6u8) & 1 == 1 || (row >> 5u8) & 1
            == 1 || (row >> 4u8) & 1 == 1 || (row >> 3u8) & 1 == 1 || (row >> 2u8) & 1 == 1 || (row
            >> 1u8) & 1 == 1 || (row >> 0u8) & 1 == 1) by (bit_vector);
        assert(row_bit(row, 0) || row_bit(row, 1) || row_bit(row, 2) || row_bit(row, 3) || row_bit(
            row,
            4,
        ) || row_bit(row, 5) || row_bit(row, 6) || row_bit(row, 7));
    } else {
        assert forall|j: int| 0 <= j < 8 implies !row_bit(row, j) by {
            let shift = (7 - j) as ByteVal;
            assert((0u8 >> shift) & 1 == 0) by (bit_vector);
        }
    }
}

/// The pixel of a grid of the given size that bit `j` of row `r` of a
/// sprite drawn at `(x, y)` falls on.
pub open spec fn sprite_cell(
    width: nat,
    height: nat,
    x: ByteVal,
    y: ByteVal,
    r: int,
    j: int,
) -> (int, int) {
    row_cell(width, height, x as int, add8(y as int, r) as int, j)
}

/// Whether the rows of a sprite of `rows` rows fall on different lines of
/// a grid of the given height, wherever the sprite is drawn: the height
/// divides 256 and the sprite is no higher than the grid.
pub open spec fn lines_differ(height: nat, rows: nat) -> bool {
    height > 0 && 256int % (height as int) == 0 && rows <= height
}

/// Rows of a sprite that is no higher than the grid fall on different
/// lines, where the height of the grid divides 256.
pub proof fn lemma_lines_differ(height: nat, y: ByteVal, r1: int, r2: int)
    requires
        lines_differ(height, (r2 + 1) as nat),
        0 <= r1 < r2,
    ensures
        (add8(y as int, r1) as int) % (height as int) != (add8(y as int, r2) as int) % (
            height as int
        ),
{
    let h = height as int;
    let k = 256int / h;
    assert(256 == h * k) by {
        lemma_fundamental_div_mod(256, h);
    }
    assert(k > 0) by (nonlinear_arith)
        requires
            256 == h * k,
            h > 0,
    ;
    lemma_mod_mod(y + r1, h, k);
    lemma_mod_mod(y + r2, h, k);
    lemma_mod_equivalence(y + r2, y + r1, h);
    lemma_small_mod((r2 - r1) as nat, height);
}

/// On a grid on which no two bits of the sprite fall on one pixel, the
/// first `n` rows of a sprite invert a pixel exactly if a set bit among
/// them falls on it.
pub proof fn lemma_sprite_flips(
    width: nat,
    height: nat,
    x: ByteVal,
    y: ByteVal,
    sprite: Seq<ByteVal>,
    n: nat,
    q: (int, int),
)
    requires
        width >= 8,
        lines_differ(height, n),
    ensures
        sprite_flips(width, height, x, y, sprite, n, q) <==> exists|r: int, j: int|
            0 <= r < n && 0 <= j < 8 && row_bit(sprite[r], j) && q == #[trigger] sprite_cell(
                width,
                height,
                x,
                y,
                r,
                j,
            ),
    decreases n,
{
    if n > 0 {
        let last = n - 1;
        let line = add8(y as int, last) as int;
        lemma_sprite_flips(width, height, x, y, sprite, last as nat, q);
        lemma_row_flips(width, height, x as int, line, sprite[last], 8, q);
        if row_flips(width, height, x as int, line, sprite[last], 8, q) {
            let j = choose|j: int|
                0 <= j < 8 && row_bit(sprite[last], j) && q == #[trigger] row_cell(
                    width,
                    height,
                    x as int,
                    line,
                    j,
                );
            assert(q == sprite_cell(width, height, x, y, last, j));
            assert forall|r: int, k: int| 0 <= r < last && 0 <= k < 8 implies q != #[trigger] sprite_cell(
                width,
                height,
                x,
                y,
                r,
                k,
            ) by {
                lemma_lines_differ(height, y, r, last);
            }
        } else {
            assert forall|k: int| 0 <= k < 8 && row_bit(sprite[last], k) implies q != #[trigger] sprite_cell(
                width,
                height,
                x,
                y,
                last,
                k,
            ) by {
                assert(sprite_cell(width, height, x, y, last, k) == row_cell(
                    width,
                    height,
                    x as int,
                    line,
                    k,
                ));
            }
            if sprite_flips(width, height, x, y, sprite, last as nat, q) {
                let (r, j) = choose|r: int, j: int|
                    0 <= r < last && 0 <= j < 8 && row_bit(sprite[r], j) && q == #[trigger] sprite_cell(
                        width,
                        height,
                        x,
                        y,
                        r,
                        j,
                    );
                assert(0 <= r < n && 0 <= j < 8 && row_bit(sprite[r], j) && q == sprite_cell(
                    width,
                    height,
                    x,
                    y,
                    r,
                    j,
                ));
            }
        }
    }
}

/// On a grid on which no two bits of the sprite fall on one pixel,
/// drawing the first `n` rows of a sprite switches a pixel off exactly if
/// a set bit among them falls on a pixel that is on.
pub proof fn lemma_rows_erase(s: Screen, x: ByteVal, y: ByteVal, sprite: Seq<ByteVal>, n: nat)
    requires
        s.width >= 8,
        lines_differ(s.height, n),
    ensures
        s.rows_erase(x, y, sprite, n) <==> exists|r: int, j: int|
            0 <= r < n && 0 <= j < 8 && row_bit(sprite[r], j) && s.lit.contains(
                #[trigger] sprite_cell(s.width, s.height, x, y, r, j),
            ),
    decreases n,
{
    if n > 0 {
        let last = n - 1;
        let line = add8(y as int, last) as int;
        let shown = s.draw_rows(x, y, sprite, last as nat);
        lemma_rows_erase(s, x, y, sprite, last as nat);
        lemma_draw_rows(s, x, y, sprite, last as nat);
        lemma_row_erases(shown, x as int, line, sprite[last]);
        assert forall|j: int| 0 <= j < 8 implies #[trigger] shown.is_lit(x + j, line)
            == s.lit.contains(sprite_cell(s.width, s.height, x, y, last, j)) by {
            let target = sprite_cell(s.width, s.height, x, y, last, j);
            assert(shown.cell(x + j, line) == target);
            lemma_sprite_flips(s.width, s.height, x, y, sprite, last as nat, target);
            assert forall|r: int, k: int| 0 <= r < last && 0 <= k < 8 implies target != #[trigger] sprite_cell(
                s.width,
                s.height,
                x,
                y,
                r,
                k,
            ) by {
                lemma_lines_differ(s.height, y, r, last);
            }
        }
        if s.rows_erase(x, y, sprite, n) {
            if s.rows_erase(x, y, sprite, last as nat) {
                let (r, j) = choose|r: int, j: int|
                    0 <= r < last && 0 <= j < 8 && row_bit(sprite[r], j) && s.lit.contains(
                        #[trigger] sprite_cell(s.width, s.height, x, y, r, j),
                    );
                assert(0 <= r < n && 0 <= j < 8 && row_bit(sprite[r], j) && s.lit.contains(
                    sprite_cell(s.width, s.height, x, y, r, j),
                ));
            } else {
                let j = choose|j: int|
                    0 <= j < 8 && row_bit(sprite[last], j) && #[trigger] shown.is_lit(x + j, line);
                assert(0 <= last < n && 0 <= j < 8 && row_bit(sprite[last], j) && s.lit.contains(
                    sprite_cell(s.width, s.height, x, y, last, j),
                ));
            }
        } else {
            assert forall|r: int, j: int|
                0 <= r < n && 0 <= j < 8 && row_bit(sprite[r], j) implies !s.lit.contains(
                #[trigger] sprite_cell(s.width, s.height, x, y, r, j),
            ) by {
                if r == last {
                    assert(shown.is_lit(x + j, line) == s.lit.contains(
                        sprite_cell(s.width, s.height, x, y, last, j),
                    ));
                }
            }
        }
    }
}

/// On a grid on which no two bits of the sprite fall on one pixel, such
/// as the display of 64 by 32 pixels with a sprite of up to 32 rows,
/// drawing a sprite reports a collision exactly if one of its set bits
/// falls on a pixel that is on.
pub proof fn lemma_draw_erases(s: Screen, x: ByteVal, y: ByteVal, sprite: Seq<ByteVal>)
    requires
        s.width >= 8,
        lines_differ(s.height, sprite.len()),
    ensures
        s.draw_erases(x, y, sprite) <==> exists|r: int, j: int|
            0 <= r < sprite.len() && 0 <= j < 8 && row_bit(sprite[r], j) && s.lit.contains(
                #[trigger] sprite_cell(s.width, s.height, x, y, r, j),
            ),
{
    lemma_rows_erase(s, x, y, sprite, sprite.len());
}

/// Drawing a sprite twice on a blank grid on which no two bits of the
/// sprite fall on one pixel: the first time nothing is switched off; the
/// second time something is, unless every row of the sprite is empty; and
/// the grid is blank again.
pub proof fn lemma_draw_twice_on_blank(
    width: nat,
    height: nat,
    x: ByteVal,
    y: ByteVal,
    sprite: Seq<ByteVal>,
)
    requires
        width >= 8,
        lines_differ(height, sprite.len()),
    ensures
        ({
            let blank = Screen::blank(width, height);
            let once = blank.draw(x, y, sprite);
            &&& !blank.draw_erases(x, y, sprite)
            &&& once.draw_erases(x, y, sprite) == exists|r: int|
                0 <= r < sprite.len() && #[trigger] sprite[r] != 0
            &&& once.draw(x, y, sprite) == blank
        }),
{
    let blank = Screen::blank(width, height);
    let once = blank.draw(x, y, sprite);
    let n = sprite.len();
    lemma_draw_twice(blank, x, y, sprite);
    lemma_draw_rows(blank, x, y, sprite, n);
    lemma_draw_erases(blank, x, y, sprite);
    lemma_draw_erases(once, x, y, sprite);
    assert(once == blank.draw_rows(x, y, sprite, n));
    assert(blank.lit == Set::<(int, int)>::empty());
    if once.draw_erases(x, y, sprite) {
        let (r, j) = choose|r: int, j: int|
            0 <= r < n && 0 <= j < 8 && row_bit(sprite[r], j) && once.lit.contains(
                #[trigger] sprite_cell(width, height, x, y, r, j),
            );
        lemma_row_bits(sprite[r]);
        assert(0 <= r < n && sprite[r] != 0);
    }
    if exists|r: int| 0 <= r < n && #[trigger] sprite[r] != 0 {
        let r = choose|r: int| 0 <= r < n && #[trigger] sprite[r] != 0;
        lemma_row_bits(sprite[r]);
        let j = choose|j: int| 0 <= j < 8 && #[trigger] row_bit(sprite[r], j);
        let q = sprite_cell(width, height, x, y, r, j);
        lemma_sprite_flips(width, height, x, y, sprite, n, q);
        assert(sprite_flips(width, height, x, y, sprite, n, q));
        assert(!blank.lit.contains(q));
        assert(blank.draw_rows(x, y, sprite, n).lit.contains(q));
        assert(once.lit.contains(q));
    }
}

} // verus!
