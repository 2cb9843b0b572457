//! The draw instruction's mathematics: which pixels a sprite covers, the
//! XOR of a sprite into the display, and collision detection.
//!
//! A sprite is a sequence of row bytes; bit 7 of a row is its leftmost
//! pixel. The origin `(ox, oy)` is already wrapped onto the grid; bits
//! that would land beyond the right or bottom edge are dropped, not
//! wrapped.

use vstd::prelude::*;
use crate::state::DISPLAY_CELLS;
use crate::state::DISPLAY_WIDTH;
use crate::state::MEM_SIZE;

verus! {

/// Bit `c` (0 = leftmost) of a sprite row byte.
pub open spec fn sprite_bit(b: u8, c: int) -> bool {
    (b >> ((7 - c) as u8)) & 1 == 1
}

/// The `n` sprite rows starting at memory address `i`, read with 12-bit
/// wraparound.
pub open spec fn sprite_rows(mem: Seq<u8>, i: int, n: int) -> Seq<u8> {
    Seq::new(n as nat, |r: int| mem[(i + r) % (MEM_SIZE as int)])
}

/// Whether the sprite, drawn at origin `(ox, oy)`, sets the display cell
/// with flat index `p`. Cells beyond the right or bottom edge of the grid
/// have no flat index, so clipping is built in.
pub open spec fn covers(sprite: Seq<u8>, ox: int, oy: int, p: int) -> bool {
    let px = p % (DISPLAY_WIDTH as int);
    let py = p / (DISPLAY_WIDTH as int);
    &&& ox <= px < ox + 8
    &&& oy <= py < oy + sprite.len()
    &&& sprite_bit(sprite[py - oy], px - ox)
}

/// The display after XOR-ing the sprite in at `(ox, oy)`.
pub open spec fn draw_display(d: Seq<bool>, sprite: Seq<u8>, ox: int, oy: int) -> Seq<bool> {
    Seq::new(DISPLAY_CELLS as nat, |p: int| d[p] != covers(sprite, ox, oy, p))
}

/// Whether drawing the sprite at `(ox, oy)` clears some set pixel: the
/// collision condition that the draw instruction reports in `v[0xF]`.
pub open spec fn draw_collision(d: Seq<bool>, sprite: Seq<u8>, ox: int, oy: int) -> bool {
    exists|p: int| 0 <= p < DISPLAY_CELLS && covers(sprite, ox, oy, p) && d[p]
}

/// Coverage by a prefix of the drawing pass: the first `r` full rows, and
/// the first `c` bits of row `r`. With `r` the row count and `c == 0` this
/// is exactly `covers`.
pub open spec fn covers_partial(sprite: Seq<u8>, ox: int, oy: int, r: int, c: int, p: int) -> bool {
    let px = p % (DISPLAY_WIDTH as int);
    let py = p / (DISPLAY_WIDTH as int);
    &&& ox <= px < ox + 8
    &&& oy <= py < oy + sprite.len()
    &&& (py - oy < r || (py - oy == r && px - ox < c))
    &&& sprite_bit(sprite[py - oy], px - ox)
}

/// A full prefix is the whole cover.
pub proof fn lemma_covers_partial_full(sprite: Seq<u8>, ox: int, oy: int)
    ensures
        forall|p: int| covers_partial(sprite, ox, oy, sprite.len() as int, 0, p)
            == covers(sprite, ox, oy, p),
{
}

/// Finishing a row is the same as standing at the start of the next one.
pub proof fn lemma_covers_partial_row_step(sprite: Seq<u8>, ox: int, oy: int, r: int)
    ensures
        forall|p: int| covers_partial(sprite, ox, oy, r, 8, p)
            == covers_partial(sprite, ox, oy, r + 1, 0, p),
{
}

/// The display part-way through a drawing pass: the prefix of the sprite
/// given by `(r, c)` has been XOR-ed in.
pub open spec fn display_partial(d: Seq<bool>, sprite: Seq<u8>, ox: int, oy: int, r: int, c: int) -> Seq<bool> {
    Seq::new(DISPLAY_CELLS as nat, |p: int| d[p] != covers_partial(sprite, ox, oy, r, c, p))
}

/// Whether the prefix of the drawing pass given by `(r, c)` has cleared
/// some set pixel.
pub open spec fn collision_partial(d: Seq<bool>, sprite: Seq<u8>, ox: int, oy: int, r: int, c: int) -> bool {
    exists|p: int| 0 <= p < DISPLAY_CELLS && covers_partial(sprite, ox, oy, r, c, p) && d[p]
}

/// Before any bit is drawn, nothing is covered: the display is as it was
/// and no collision has happened.
pub proof fn lemma_draw_zero(d: Seq<bool>, sprite: Seq<u8>, ox: int, oy: int)
    requires
        d.len() == DISPLAY_CELLS,
    ensures
        display_partial(d, sprite, ox, oy, 0, 0) =~= d,
        !collision_partial(d, sprite, ox, oy, 0, 0),
{
}

/// Two prefixes that cover the same cells draw the same display and
/// collide alike.
pub proof fn lemma_cover_ext(d: Seq<bool>, sprite: Seq<u8>, ox: int, oy: int, r1: int, c1: int, r2: int, c2: int)
    requires
        forall|p: int| 0 <= p < DISPLAY_CELLS ==> covers_partial(sprite, ox, oy, r1, c1, p)
            == covers_partial(sprite, ox, oy, r2, c2, p),
    ensures
        display_partial(d, sprite, ox, oy, r1, c1) =~= display_partial(d, sprite, ox, oy, r2, c2),
        collision_partial(d, sprite, ox, oy, r1, c1) == collision_partial(d, sprite, ox, oy, r2, c2),
{
    if collision_partial(d, sprite, ox, oy, r1, c1) {
        let p = choose|p: int| 0 <= p < DISPLAY_CELLS && covers_partial(sprite, ox, oy, r1, c1, p) && d[p];
        assert(covers_partial(sprite, ox, oy, r2, c2, p));
        assert(collision_partial(d, sprite, ox, oy, r2, c2));
    }
    if collision_partial(d, sprite, ox, oy, r2, c2) {
        let p = choose|p: int| 0 <= p < DISPLAY_CELLS && covers_partial(sprite, ox, oy, r2, c2, p) && d[p];
        assert(covers_partial(sprite, ox, oy, r1, c1, p));
        assert(collision_partial(d, sprite, ox, oy, r1, c1));
    }
}

/// Drawing one set, unclipped bit: the covered cell `q` flips, every
/// other cell stays, and a collision is added exactly when `q` held a set
/// pixel.
pub proof fn lemma_single_bit_step(d: Seq<bool>, sprite: Seq<u8>, ox: int, oy: int, r: int, c: int, q: int)
    requires
        d.len() == DISPLAY_CELLS,
        0 <= q < DISPLAY_CELLS,
        covers_partial(sprite, ox, oy, r, c + 1, q),
        !covers_partial(sprite, ox, oy, r, c, q),
        forall|p: int| 0 <= p < DISPLAY_CELLS && p != q ==> covers_partial(sprite, ox, oy, r, c + 1, p)
            == covers_partial(sprite, ox, oy, r, c, p),
    ensures
        display_partial(d, sprite, ox, oy, r, c + 1) =~= display_partial(d, sprite, ox, oy, r, c)
            .update(q, !display_partial(d, sprite, ox, oy, r, c)[q]),
        collision_partial(d, sprite, ox, oy, r, c + 1) == (collision_partial(d, sprite, ox, oy, r, c) || d[q]),
{
    assert(display_partial(d, sprite, ox, oy, r, c)[q] == d[q]);
    if collision_partial(d, sprite, ox, oy, r, c) {
        let p = choose|p: int| 0 <= p < DISPLAY_CELLS && covers_partial(sprite, ox, oy, r, c, p) && d[p];
        assert(covers_partial(sprite, ox, oy, r, c + 1, p));
        assert(collision_partial(d, sprite, ox, oy, r, c + 1));
    }
    if d[q] {
        assert(collision_partial(d, sprite, ox, oy, r, c + 1));
    }
    if collision_partial(d, sprite, ox, oy, r, c + 1) && !d[q] {
        let p = choose|p: int| 0 <= p < DISPLAY_CELLS && covers_partial(sprite, ox, oy, r, c + 1, p) && d[p];
        assert(p != q);
        assert(covers_partial(sprite, ox, oy, r, c, p));
        assert(collision_partial(d, sprite, ox, oy, r, c));
    }
}

/// At the end of the pass the partial notions coincide with the draw
/// itself.
pub proof fn lemma_draw_full(d: Seq<bool>, sprite: Seq<u8>, ox: int, oy: int)
    requires
        d.len() == DISPLAY_CELLS,
    ensures
        display_partial(d, sprite, ox, oy, sprite.len() as int, 0) =~= draw_display(d, sprite, ox, oy),
        collision_partial(d, sprite, ox, oy, sprite.len() as int, 0) == draw_collision(d, sprite, ox, oy),
{
    lemma_covers_partial_full(sprite, ox, oy);
    if collision_partial(d, sprite, ox, oy, sprite.len() as int, 0) {
        let p = choose|p: int| 0 <= p < DISPLAY_CELLS
            && covers_partial(sprite, ox, oy, sprite.len() as int, 0, p) && d[p];
        assert(covers(sprite, ox, oy, p));
        assert(draw_collision(d, sprite, ox, oy));
    }
    if draw_collision(d, sprite, ox, oy) {
        let p = choose|p: int| 0 <= p < DISPLAY_CELLS && covers(sprite, ox, oy, p) && d[p];
        assert(covers_partial(sprite, ox, oy, sprite.len() as int, 0, p));
        assert(collision_partial(d, sprite, ox, oy, sprite.len() as int, 0));
    }
}

} // verus!
