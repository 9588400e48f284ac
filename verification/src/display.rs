//! The 64 by 32 monochrome framebuffer: clearing it and drawing sprites.
//!
//! A framebuffer is a sequence of 2048 pixels, stored column by column:
//! pixel `(x, y)` is element `x * 32 + y`.

use vstd::prelude::*;

verus! {

/// The position of pixel `(x, y)` in the framebuffer.
pub open spec fn pixel_index(x: int, y: int) -> int {
    x * 32 + y
}

/// The framebuffer with every pixel clear.
pub open spec fn blank() -> Seq<bool> {
    Seq::new(2048, |p: int| false)
}

/// At least one pixel is set.
pub open spec fn any_lit(display: Seq<bool>) -> bool {
    exists|p: int| 0 <= p < display.len() && #[trigger] display[p]
}

/// Bit `col` of a sprite row, counted from the most significant bit.
pub open spec fn sprite_bit(row: u8, col: int) -> bool {
    (row >> ((7 - col) as u8)) & 1u8 == 1u8
}

/// The `n` sprite rows that start at address `start` of a memory.
pub open spec fn sprite_rows(memory: Seq<u8>, start: int, n: int) -> Seq<u8> {
    Seq::new(n as nat, |r: int| memory[start + r])
}

/// Whether a sprite with the given rows, drawn with its top left corner at
/// `(vx, vy)`, has a set bit on pixel `(px, py)`. The sprite wraps round
/// both edges of the screen: its bit `(row, col)` lies on pixel
/// `((vx + col) mod 64, (vy + row) mod 32)`.
pub open spec fn sprite_covers(rows: Seq<u8>, vx: int, vy: int, px: int, py: int) -> bool {
    let col = (px - vx) % 64;
    let row = (py - vy) % 32;
    col < 8 && row < rows.len() && sprite_bit(rows[row], col)
}

/// `sprite_covers` for the pixel at position `p` of the framebuffer.
pub open spec fn sprite_covers_at(rows: Seq<u8>, vx: int, vy: int, p: int) -> bool {
    sprite_covers(rows, vx, vy, p / 32, p % 32)
}

/// The framebuffer after a sprite is drawn on it: every pixel under a set
/// bit of the sprite is flipped, every other pixel stays.
pub open spec fn drawn(display: Seq<bool>, rows: Seq<u8>, vx: int, vy: int) -> Seq<bool> {
    Seq::new(2048, |p: int| display[p] ^ sprite_covers_at(rows, vx, vy, p))
}

/// Drawing the sprite changes at least one pixel.
pub open spec fn draw_changes(display: Seq<bool>, rows: Seq<u8>, vx: int, vy: int) -> bool {
    exists|p: int| 0 <= p < 2048 && display[p] != #[trigger] drawn(display, rows, vx, vy)[p]
}

/// Drawing the sprite turns at least one set pixel off.
pub open spec fn draw_collides(display: Seq<bool>, rows: Seq<u8>, vx: int, vy: int) -> bool {
    exists|p: int| 0 <= p < 2048 && display[p] && !#[trigger] drawn(display, rows, vx, vy)[p]
}

/// The part of `sprite_covers_at` that lies before bit `(row, col)` in
/// drawing order: in an earlier row, or earlier in the same row.
spec fn covers_before(rows: Seq<u8>, vx: int, vy: int, row: int, col: int, p: int) -> bool {
    let c = (p / 32 - vx) % 64;
    let r = (p % 32 - vy) % 32;
    sprite_covers_at(rows, vx, vy, p) && (r < row || (r == row && c < col))
}

/// The framebuffer when drawing has come as far as bit `(row, col)`.
spec fn drawn_before(display: Seq<bool>, rows: Seq<u8>, vx: int, vy: int, row: int, col: int)
    -> Seq<bool> {
    Seq::new(2048, |p: int| display[p] ^ covers_before(rows, vx, vy, row, col, p))
}

/// A pixel has changed when drawing has come as far as bit `(row, col)`.
spec fn changes_before(rows: Seq<u8>, vx: int, vy: int, row: int, col: int) -> bool {
    exists|p: int| 0 <= p < 2048 && #[trigger] covers_before(rows, vx, vy, row, col, p)
}

/// A set pixel was turned off when drawing has come as far as bit `(row, col)`.
spec fn collides_before(
    display: Seq<bool>,
    rows: Seq<u8>,
    vx: int,
    vy: int,
    row: int,
    col: int,
) -> bool {
    exists|p: int|
        0 <= p < 2048 && display[p] && #[trigger] covers_before(rows, vx, vy, row, col, p)
}

/// The position in the framebuffer of the pixel under bit `(row, col)` of a
/// sprite drawn at `(vx, vy)`: column `(vx + col) mod 64`, row
/// `(vy + row) mod 32`.
pub open spec fn target(vx: int, vy: int, row: int, col: int) -> int {
    pixel_index((vx + col) % 64, (vy + row) % 32)
}

/// Within one sprite, a pixel is the target of exactly one bit.
proof fn lemma_target(vx: int, vy: int, row: int, col: int, p: int)
    requires
        0 <= row < 32,
        0 <= col < 8,
        0 <= p < 2048,
    ensures
        0 <= target(vx, vy, row, col) < 2048,
        ((p / 32 - vx) % 64 == col && (p % 32 - vy) % 32 == row) <==> p == target(
            vx,
            vy,
            row,
            col,
        ),
{
}

/// What drawing bit `(row, col)` adds to the pixels covered so far.
proof fn lemma_covers_step(rows: Seq<u8>, vx: int, vy: int, row: int, col: int, p: int)
    requires
        0 <= row < rows.len() <= 32,
        0 <= col < 8,
        0 <= p < 2048,
    ensures
        covers_before(rows, vx, vy, row, col + 1, p) == (covers_before(rows, vx, vy, row, col, p)
            || (p == target(vx, vy, row, col) && sprite_bit(rows[row], col))),
        p == target(vx, vy, row, col) ==> !covers_before(rows, vx, vy, row, col, p),
{
    lemma_target(vx, vy, row, col, p);
}

/// The effect of drawing bit `(row, col)` on the framebuffer and on the two flags.
proof fn lemma_draw_step(display: Seq<bool>, rows: Seq<u8>, vx: int, vy: int, row: int, col: int)
    requires
        display.len() == 2048,
        0 <= row < rows.len() <= 32,
        0 <= col < 8,
    ensures
        ({
            let q = target(vx, vy, row, col);
            let bit = sprite_bit(rows[row], col);
            let now = drawn_before(display, rows, vx, vy, row, col);
            &&& 0 <= q < 2048
            &&& now[q] == display[q]
            &&& drawn_before(display, rows, vx, vy, row, col + 1) == now.update(q, now[q] ^ bit)
            &&& changes_before(rows, vx, vy, row, col + 1) == (changes_before(
                rows,
                vx,
                vy,
                row,
                col,
            ) || bit)
            &&& collides_before(display, rows, vx, vy, row, col + 1) == (collides_before(
                display,
                rows,
                vx,
                vy,
                row,
                col,
            ) || (display[q] && bit))
        }),
{
    let q = target(vx, vy, row, col);
    let bit = sprite_bit(rows[row], col);
    let now = drawn_before(display, rows, vx, vy, row, col);
    let next = drawn_before(display, rows, vx, vy, row, col + 1);
    lemma_target(vx, vy, row, col, 0);
    lemma_covers_step(rows, vx, vy, row, col, q);
    assert forall|p: int| 0 <= p < 2048 implies next[p] == now.update(q, now[q] ^ bit)[p] by {
        lemma_covers_step(rows, vx, vy, row, col, p);
    }
    assert(next =~= now.update(q, now[q] ^ bit));
    if changes_before(rows, vx, vy, row, col + 1) {
        let p = choose|p: int|
            0 <= p < 2048 && #[trigger] covers_before(rows, vx, vy, row, col + 1, p);
        lemma_covers_step(rows, vx, vy, row, col, p);
    }
    if changes_before(rows, vx, vy, row, col) {
        let p = choose|p: int| 0 <= p < 2048 && #[trigger] covers_before(rows, vx, vy, row, col, p);
        lemma_covers_step(rows, vx, vy, row, col, p);
        assert(covers_before(rows, vx, vy, row, col + 1, p));
    }
    if bit {
        assert(covers_before(rows, vx, vy, row, col + 1, q));
    }
    if collides_before(display, rows, vx, vy, row, col + 1) {
        let p = choose|p: int|
            0 <= p < 2048 && display[p] && #[trigger] covers_before(
                rows,
                vx,
                vy,
                row,
                col + 1,
                p,
            );
        lemma_covers_step(rows, vx, vy, row, col, p);
    }
    if collides_before(display, rows, vx, vy, row, col) {
        let p = choose|p: int|
            0 <= p < 2048 && display[p] && #[trigger] covers_before(rows, vx, vy, row, col, p);
        lemma_covers_step(rows, vx, vy, row, col, p);
        assert(covers_before(rows, vx, vy, row, col + 1, p));
    }
}

/// The end of one row is the start of the next.
proof fn lemma_draw_row_end(display: Seq<bool>, rows: Seq<u8>, vx: int, vy: int, row: int)
    ensures
        drawn_before(display, rows, vx, vy, row, 8) == drawn_before(
            display,
            rows,
            vx,
            vy,
            row + 1,
            0,
        ),
        changes_before(rows, vx, vy, row, 8) == changes_before(rows, vx, vy, row + 1, 0),
        collides_before(display, rows, vx, vy, row, 8) == collides_before(
            display,
            rows,
            vx,
            vy,
            row + 1,
            0,
        ),
{
    assert forall|p: int|
        covers_before(rows, vx, vy, row, 8, p) == covers_before(rows, vx, vy, row + 1, 0, p) by {}
    assert(drawn_before(display, rows, vx, vy, row, 8) =~= drawn_before(
        display,
        rows,
        vx,
        vy,
        row + 1,
        0,
    ));
    if changes_before(rows, vx, vy, row, 8) {
        let p = choose|p: int| 0 <= p < 2048 && #[trigger] covers_before(rows, vx, vy, row, 8, p);
        assert(covers_before(rows, vx, vy, row + 1, 0, p));
    }
    if changes_before(rows, vx, vy, row + 1, 0) {
        let p = choose|p: int|
            0 <= p < 2048 && #[trigger] covers_before(rows, vx, vy, row + 1, 0, p);
        assert(covers_before(rows, vx, vy, row, 8, p));
    }
    if collides_before(display, rows, vx, vy, row, 8) {
        let p = choose|p: int|
            0 <= p < 2048 && display[p] && #[trigger] covers_before(rows, vx, vy, row, 8, p);
        assert(covers_before(rows, vx, vy, row + 1, 0, p));
    }
    if collides_before(display, rows, vx, vy, row + 1, 0) {
        let p = choose|p: int|
            0 <= p < 2048 && display[p] && #[trigger] covers_before(rows, vx, vy, row + 1, 0, p);
        assert(covers_before(rows, vx, vy, row, 8, p));
    }
}

/// Before the first bit nothing is drawn.
proof fn lemma_draw_start(display: Seq<bool>, rows: Seq<u8>, vx: int, vy: int)
    requires
        display.len() == 2048,
    ensures
        drawn_before(display, rows, vx, vy, 0, 0) == display,
        !changes_before(rows, vx, vy, 0, 0),
        !collides_before(display, rows, vx, vy, 0, 0),
{
    assert(drawn_before(display, rows, vx, vy, 0, 0) =~= display);
}

/// After the last row the whole sprite is drawn.
proof fn lemma_draw_end(display: Seq<bool>, rows: Seq<u8>, vx: int, vy: int)
    requires
        display.len() == 2048,
    ensures
        drawn_before(display, rows, vx, vy, rows.len() as int, 0) == drawn(display, rows, vx, vy),
        changes_before(rows, vx, vy, rows.len() as int, 0) == draw_changes(display, rows, vx, vy),
        collides_before(display, rows, vx, vy, rows.len() as int, 0) == draw_collides(
            display,
            rows,
            vx,
            vy,
        ),
{
    let n = rows.len() as int;
    let after = drawn(display, rows, vx, vy);
    assert forall|p: int| #[trigger]
        covers_before(rows, vx, vy, n, 0, p) == sprite_covers_at(rows, vx, vy, p) by {}
    assert(drawn_before(display, rows, vx, vy, n, 0) =~= after);
    assert forall|p: int| 0 <= p < 2048 implies (display[p] != #[trigger] after[p])
        == covers_before(rows, vx, vy, n, 0, p) by {}
    if changes_before(rows, vx, vy, n, 0) {
        let p = choose|p: int| 0 <= p < 2048 && #[trigger] covers_before(rows, vx, vy, n, 0, p);
        assert(display[p] != after[p]);
    }
    if collides_before(display, rows, vx, vy, n, 0) {
        let p = choose|p: int|
            0 <= p < 2048 && display[p] && #[trigger] covers_before(rows, vx, vy, n, 0, p);
        assert(display[p] && !after[p]);
    }
}

/// The bits of a sprite row from left to right are the binary digits of the
/// byte from the most significant to the least.
pub proof fn lemma_sprite_bit(row: u8)
    ensures
        sprite_bit(row, 0) == ((row / 128) % 2 == 1),
        sprite_bit(row, 1) == ((row / 64) % 2 == 1),
        sprite_bit(row, 2) == ((row / 32) % 2 == 1),
        sprite_bit(row, 3) == ((row / 16) % 2 == 1),
        sprite_bit(row, 4) == ((row / 8) % 2 == 1),
        sprite_bit(row, 5) == ((row / 4) % 2 == 1),
        sprite_bit(row, 6) == ((row / 2) % 2 == 1),
        sprite_bit(row, 7) == (row % 2 == 1),
{
    assert(((row >> 7u8) & 1u8 == 1u8) == ((row / 128) % 2 == 1)) by (bit_vector);
    assert(((row >> 6u8) & 1u8 == 1u8) == ((row / 64) % 2 == 1)) by (bit_vector);
    assert(((row >> 5u8) & 1u8 == 1u8) == ((row / 32) % 2 == 1)) by (bit_vector);
    assert(((row >> 4u8) & 1u8 == 1u8) == ((row / 16) % 2 == 1)) by (bit_vector);
    assert(((row >> 3u8) & 1u8 == 1u8) == ((row / 8) % 2 == 1)) by (bit_vector);
    assert(((row >> 2u8) & 1u8 == 1u8) == ((row / 4) % 2 == 1)) by (bit_vector);
    assert(((row >> 1u8) & 1u8 == 1u8) == ((row / 2) % 2 == 1)) by (bit_vector);
    assert(((row >> 0u8) & 1u8 == 1u8) == (row % 2 == 1)) by (bit_vector);
}

/// Drawing a sprite flips the pixel under each of its bits that is set and
/// leaves the pixel under each bit that is clear: the pixel under bit
/// `(row, col)` is the old pixel exclusive-or the bit.
pub proof fn lemma_drawn_under_sprite(
    display: Seq<bool>,
    rows: Seq<u8>,
    vx: int,
    vy: int,
    row: int,
    col: int,
)
    requires
        display.len() == 2048,
        rows.len() <= 32,
        0 <= row < rows.len(),
        0 <= col < 8,
    ensures
        0 <= target(vx, vy, row, col) < 2048,
        drawn(display, rows, vx, vy)[target(vx, vy, row, col)] == (display[target(
            vx,
            vy,
            row,
            col,
        )] ^ sprite_bit(rows[row], col)),
{
    lemma_target(vx, vy, row, col, target(vx, vy, row, col));
}

/// Drawing a sprite leaves every pixel that lies under none of its bits.
pub proof fn lemma_drawn_beside_sprite(display: Seq<bool>, rows: Seq<u8>, vx: int, vy: int, p: int)
    requires
        display.len() == 2048,
        rows.len() <= 32,
        0 <= p < 2048,
        forall|row: int, col: int|
            0 <= row < rows.len() && 0 <= col < 8 ==> p != #[trigger] target(vx, vy, row, col),
    ensures
        drawn(display, rows, vx, vy)[p] == display[p],
{
    let col = (p / 32 - vx) % 64;
    let row = (p % 32 - vy) % 32;
    if col < 8 && row < rows.len() {
        lemma_target(vx, vy, row, col, p);
        assert(p == target(vx, vy, row, col));
    }
}

/// Drawing changes a pixel exactly if the framebuffer after it differs from
/// the framebuffer before.
pub proof fn lemma_draw_changes(display: Seq<bool>, rows: Seq<u8>, vx: int, vy: int)
    requires
        display.len() == 2048,
    ensures
        draw_changes(display, rows, vx, vy) <==> drawn(display, rows, vx, vy) != display,
{
    let after = drawn(display, rows, vx, vy);
    if !draw_changes(display, rows, vx, vy) {
        assert forall|p: int| 0 <= p < 2048 implies after[p] == display[p] by {
            assert(!(display[p] != after[p]));
        }
        assert(after =~= display);
    }
}

/// A collision needs a change: drawing on a blank framebuffer never
/// collides.
pub proof fn lemma_draw_collides(display: Seq<bool>, rows: Seq<u8>, vx: int, vy: int)
    ensures
        draw_collides(display, rows, vx, vy) ==> draw_changes(display, rows, vx, vy),
        !draw_collides(blank(), rows, vx, vy),
{
    if draw_collides(display, rows, vx, vy) {
        let p = choose|p: int|
            0 <= p < 2048 && display[p] && !#[trigger] drawn(display, rows, vx, vy)[p];
        assert(display[p] != drawn(display, rows, vx, vy)[p]);
    }
}

/// Drawing the same sprite twice at the same place restores the framebuffer.
pub proof fn lemma_draw_twice(display: Seq<bool>, rows: Seq<u8>, vx: int, vy: int)
    requires
        display.len() == 2048,
    ensures
        drawn(drawn(display, rows, vx, vy), rows, vx, vy) == display,
{
    assert(drawn(drawn(display, rows, vx, vy), rows, vx, vy) =~= display);
}

/// Clears the framebuffer and tells whether any pixel was set.
pub fn clear(display: &mut [bool; 2048]) -> (was_lit: bool)
    ensures
        final(display)@ == blank(),
        was_lit == any_lit(old(display)@),
{
    let mut was_lit = false;
    let mut p: usize = 0;
    while p < 2048
        invariant
            p <= 2048,
            forall|q: int| 0 <= q < p ==> !display@[q],
            forall|q: int| p <= q < 2048 ==> display@[q] == old(display)@[q],
            was_lit == exists|q: int| 0 <= q < p && #[trigger] old(display)@[q],
        decreases 2048 - p,
    {
        was_lit = was_lit || display[p];
        display[p] = false;
        p += 1;
    }
    assert(display@ =~= blank());
    was_lit
}

/// Draws the `n`-row sprite that starts at `start` in `memory` with its top
/// left corner at `(vx, vy)`. Returns whether any pixel changed and whether
/// any set pixel was turned off.
pub fn draw_sprite(
    display: &mut [bool; 2048],
    memory: &[u8; 4096],
    start: usize,
    n: u8,
    vx: u8,
    vy: u8,
) -> (r: (bool, bool))
    requires
        n < 16,
        n == 0 || start + n <= 4096,
    ensures
        final(display)@ == drawn(
            old(display)@,
            sprite_rows(memory@, start as int, n as int),
            vx as int,
            vy as int,
        ),
        r.0 == draw_changes(
            old(display)@,
            sprite_rows(memory@, start as int, n as int),
            vx as int,
            vy as int,
        ),
        r.1 == draw_collides(
            old(display)@,
            sprite_rows(memory@, start as int, n as int),
            vx as int,
            vy as int,
        ),
{
    let ghost before = display@;
    let ghost rows = sprite_rows(memory@, start as int, n as int);
    let ghost x0 = vx as int;
    let ghost y0 = vy as int;
    proof {
        lemma_draw_start(before, rows, x0, y0);
    }
    let mut changed = false;
    let mut collision = false;
    let mut row: u8 = 0;
    while row < n
        invariant
            row <= n < 16,
            n == 0 || start + n <= 4096,
            before.len() == 2048,
            rows == sprite_rows(memory@, start as int, n as int),
            x0 == vx,
            y0 == vy,
            display@ == drawn_before(before, rows, x0, y0, row as int, 0),
            changed == changes_before(rows, x0, y0, row as int, 0),
            collision == collides_before(before, rows, x0, y0, row as int, 0),
        decreases n - row,
    {
        let sprite_byte = memory[start + row as usize];
        let mut col: u8 = 0;
        while col < 8
            invariant
                col <= 8,
                row < n < 16,
                before.len() == 2048,
                rows.len() == n,
                sprite_byte == rows[row as int],
                x0 == vx,
                y0 == vy,
                display@ == drawn_before(before, rows, x0, y0, row as int, col as int),
                changed == changes_before(rows, x0, y0, row as int, col as int),
                collision == collides_before(before, rows, x0, y0, row as int, col as int),
            decreases 8 - col,
        {
            let update = ((sprite_byte >> (7 - col)) & 1u8) == 1u8;
            let position: usize = ((vx as usize + col as usize) % 64) * 32 + (vy as usize
                + row as usize) % 32;
            proof {
                lemma_draw_step(before, rows, x0, y0, row as int, col as int);
                assert(position == target(x0, y0, row as int, col as int));
            }
            let existing_pixel = display[position];
            let display_pixel = existing_pixel ^ update;
            display[position] = display_pixel;
            changed = changed || existing_pixel != display_pixel;
            collision = collision || (existing_pixel && !display_pixel);
            col += 1;
        }
        proof {
            lemma_draw_row_end(before, rows, x0, y0, row as int);
        }
        row += 1;
    }
    proof {
        lemma_draw_end(before, rows, x0, y0);
    }
    (changed, collision)
}

} // verus!
