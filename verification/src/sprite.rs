//! How sprite cells map onto screen pixels, with wrap-around.
use vstd::prelude::*;
use crate::arith;
use crate::semantics;
use crate::state::Chip8View;

verus! {

/// The pixel on which sprite cell (`r`, `c`) lands when the sprite is drawn
/// at (`x0`, `y0`).
pub open spec fn cell_pixel(x0: int, y0: int, r: int, c: int) -> int {
    64 * ((r + y0) % 32) + (c + x0) % 64
}

/// Whether pixel `p` is covered by a sprite cell that comes before cell
/// (`yl`, `xl`) in row-major drawing order.
pub open spec fn covered_before(
    s: Chip8View,
    x0: int,
    y0: int,
    rows: int,
    p: int,
    yl: int,
    xl: int,
) -> bool {
    &&& semantics::sprite_covers(s, x0, y0, rows, p)
    &&& {
        let r = semantics::sprite_row_at(y0, p);
        let c = semantics::sprite_col_at(x0, p);
        r < yl || (r == yl && c < xl)
    }
}

/// Sprite cell (`r`, `c`) lands on a pixel of the screen whose sprite row
/// and column are `r` and `c` again.
pub proof fn lemma_cell_pixel(x0: int, y0: int, r: int, c: int)
    requires
        0 <= r < 32,
        0 <= c < 64,
    ensures
        0 <= cell_pixel(x0, y0, r, c) < 2048,
        semantics::sprite_row_at(y0, cell_pixel(x0, y0, r, c)) == r,
        semantics::sprite_col_at(x0, cell_pixel(x0, y0, r, c)) == c,
{
    let py: int = (r + y0) % 32;
    let px: int = (c + x0) % 64;
    let p: int = cell_pixel(x0, y0, r, c);
    assert(0 <= py < 32 && 0 <= px < 64) by {
        vstd::arithmetic::div_mod::lemma_mod_bound(r + y0, 32);
        vstd::arithmetic::div_mod::lemma_mod_bound(c + x0, 64);
    }
    arith::lemma_row_major(p, py, px, 64);
    arith::lemma_wrap_offset_roundtrip(r, y0, 32);
    arith::lemma_wrap_offset_roundtrip(c, x0, 64);
}

/// Every pixel is the landing pixel of its own sprite row and column.
pub proof fn lemma_pixel_cell(x0: int, y0: int, p: int)
    requires
        0 <= p < 2048,
    ensures
        0 <= semantics::sprite_row_at(y0, p) < 32,
        0 <= semantics::sprite_col_at(x0, p) < 64,
        p == cell_pixel(
            x0,
            y0,
            semantics::sprite_row_at(y0, p),
            semantics::sprite_col_at(x0, p),
        ),
{
    arith::lemma_row_major_split(p, 64);
    let py: int = p / 64;
    let px: int = p % 64;
    assert(0 <= py < 32) by {
        vstd::arithmetic::div_mod::lemma_div_pos_is_pos(p, 64);
        vstd::arithmetic::div_mod::lemma_div_is_ordered(p, 2047, 64);
    }
    vstd::arithmetic::div_mod::lemma_mod_bound(py - y0, 32);
    vstd::arithmetic::div_mod::lemma_mod_bound(px - x0, 64);
    arith::lemma_wrap_offset_inverse(py, y0, 32);
    arith::lemma_wrap_offset_inverse(px, x0, 64);
}

/// Whether a pixel that was on is covered by a sprite cell that comes
/// before cell (`yl`, `xl`) in drawing order.
pub open spec fn collides_before(
    s: Chip8View,
    x0: int,
    y0: int,
    rows: int,
    yl: int,
    xl: int,
) -> bool {
    exists|p: int|
        0 <= p < 2048 && #[trigger] covered_before(s, x0, y0, rows, p, yl, xl) && s.screen[p]
}

/// Drawing one more cell adds at most that cell's pixel to the covered
/// pixels, and so to the collisions.
pub proof fn lemma_collides_step(
    s: Chip8View,
    x0: int,
    y0: int,
    rows: int,
    yl: int,
    xl: int,
    cell: int,
)
    requires
        forall|p: int|
            0 <= p < 2048 ==> (#[trigger] covered_before(s, x0, y0, rows, p, yl, xl + 1)) == (
            covered_before(s, x0, y0, rows, p, yl, xl) || (p == cell && semantics::sprite_covers(
                s,
                x0,
                y0,
                rows,
                p,
            ))),
        0 <= cell < 2048,
    ensures
        collides_before(s, x0, y0, rows, yl, xl + 1) == (collides_before(s, x0, y0, rows, yl, xl)
            || (semantics::sprite_covers(s, x0, y0, rows, cell) && s.screen[cell])),
{
    if collides_before(s, x0, y0, rows, yl, xl + 1) {
        let p = choose|p: int|
            0 <= p < 2048 && #[trigger] covered_before(s, x0, y0, rows, p, yl, xl + 1)
                && s.screen[p];
        if p != cell {
            assert(covered_before(s, x0, y0, rows, p, yl, xl));
        }
    }
    if collides_before(s, x0, y0, rows, yl, xl) {
        let p = choose|p: int|
            0 <= p < 2048 && #[trigger] covered_before(s, x0, y0, rows, p, yl, xl) && s.screen[p];
        assert(covered_before(s, x0, y0, rows, p, yl, xl + 1));
    }
    if semantics::sprite_covers(s, x0, y0, rows, cell) && s.screen[cell] {
        assert(covered_before(s, x0, y0, rows, cell, yl, xl + 1));
    }
}

/// Finishing a row is the same as starting the next one.
pub proof fn lemma_collides_next_row(s: Chip8View, x0: int, y0: int, rows: int, yl: int)
    ensures
        collides_before(s, x0, y0, rows, yl, 8) == collides_before(s, x0, y0, rows, yl + 1, 0),
        forall|p: int|
            #![trigger covered_before(s, x0, y0, rows, p, yl, 8)]
            0 <= p < 2048 ==> covered_before(s, x0, y0, rows, p, yl, 8) == covered_before(
                s,
                x0,
                y0,
                rows,
                p,
                yl + 1,
                0,
            ),
{
    if collides_before(s, x0, y0, rows, yl, 8) {
        let p = choose|p: int|
            0 <= p < 2048 && #[trigger] covered_before(s, x0, y0, rows, p, yl, 8) && s.screen[p];
        assert(covered_before(s, x0, y0, rows, p, yl + 1, 0));
    }
    if collides_before(s, x0, y0, rows, yl + 1, 0) {
        let p = choose|p: int|
            0 <= p < 2048 && #[trigger] covered_before(s, x0, y0, rows, p, yl + 1, 0)
                && s.screen[p];
        assert(covered_before(s, x0, y0, rows, p, yl, 8));
    }
}

/// Once every row is drawn, the covered pixels are those of the sprite.
pub proof fn lemma_collides_done(s: Chip8View, x0: int, y0: int, rows: int)
    requires
        0 <= rows < 32,
        s.screen.len() == 2048,
    ensures
        collides_before(s, x0, y0, rows, rows, 0) == semantics::draw_collides(s, x0, y0, rows),
        forall|p: int|
            #![trigger covered_before(s, x0, y0, rows, p, rows, 0)]
            0 <= p < 2048 ==> covered_before(s, x0, y0, rows, p, rows, 0)
                == semantics::sprite_covers(s, x0, y0, rows, p),
{
    assert forall|p: int|
        #![trigger covered_before(s, x0, y0, rows, p, rows, 0)]
        0 <= p < 2048 implies covered_before(s, x0, y0, rows, p, rows, 0)
            == semantics::sprite_covers(s, x0, y0, rows, p) by {
        lemma_pixel_cell(x0, y0, p);
    }
    if collides_before(s, x0, y0, rows, rows, 0) {
        let p = choose|p: int|
            0 <= p < 2048 && #[trigger] covered_before(s, x0, y0, rows, p, rows, 0)
                && s.screen[p];
        assert(semantics::sprite_covers(s, x0, y0, rows, p));
    }
    if semantics::draw_collides(s, x0, y0, rows) {
        let p = choose|p: int|
            0 <= p < s.screen.len() && #[trigger] semantics::sprite_covers(s, x0, y0, rows, p)
                && s.screen[p];
        assert(covered_before(s, x0, y0, rows, p, rows, 0));
    }
}

} // verus!
