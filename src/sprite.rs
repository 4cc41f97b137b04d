use vstd::prelude::*;

use crate::util::msb_bit;

verus! {

// Sprite geometry: which sprite bit lands on which pixel of the 64 x 32
// buffer when a sprite is drawn with wraparound at both edges.

/// Row offset, within a sprite drawn with its top at `oy`, of screen row `r`.
pub open spec fn sprite_row(oy: u8, r: int) -> int {
    (r - oy) % 32
}

/// Column offset, within a sprite drawn with its left edge at `ox`, of screen column `c`.
pub open spec fn sprite_col(ox: u8, c: int) -> int {
    (c - ox) % 64
}

/// The bit that a sprite of `n` rows read from `mem` at `base`, drawn at
/// (`ox`, `oy`), puts on screen pixel (`r`, `c`); 0 where it does not reach.
/// Rows and columns wrap around the screen edges.
pub open spec fn sprite_bit(mem: [u8; 4096], base: u16, ox: u8, oy: u8, n: u8, r: int, c: int) -> u8 {
    let dr = sprite_row(oy, r);
    let dc = sprite_col(ox, c);
    if dr < n && dc < 8 {
        msb_bit(mem[base + dr], dc)
    } else {
        0
    }
}

/// Some set bit of the sprite lands on a pixel that is already set.
pub open spec fn sprite_collides(
    mem: [u8; 4096],
    screen: [[u8; 64]; 32],
    base: u16,
    ox: u8,
    oy: u8,
    n: u8,
) -> bool {
    exists|r: int, c: int|
        0 <= r < 32 && 0 <= c < 64 && screen[r][c] == 1 && #[trigger] sprite_bit(
            mem,
            base,
            ox,
            oy,
            n,
            r,
            c,
        ) == 1
}

/// The bit that the first `k` sprite pixels drawn, taken row by row and
/// left to right within a row, put on screen pixel (`r`, `c`).
pub open spec fn drawn_bit(mem: [u8; 4096], base: u16, ox: u8, oy: u8, k: int, r: int, c: int) -> u8 {
    let dr = sprite_row(oy, r);
    let dc = sprite_col(ox, c);
    if dc < 8 && dr * 8 + dc < k {
        msb_bit(mem[base + dr], dc)
    } else {
        0
    }
}

/// Some set bit among the first `k` sprite pixels lands on a pixel set in `screen`.
pub open spec fn collides_upto(
    mem: [u8; 4096],
    screen: [[u8; 64]; 32],
    base: u16,
    ox: u8,
    oy: u8,
    k: int,
) -> bool {
    exists|r: int, c: int|
        0 <= r < 32 && 0 <= c < 64 && screen[r][c] == 1 && #[trigger] drawn_bit(
            mem,
            base,
            ox,
            oy,
            k,
            r,
            c,
        ) == 1
}

proof fn lemma_wrap_32(o: int, k: int, r: int)
    requires
        0 <= o,
        0 <= k < 32,
        0 <= r < 32,
    ensures
        ((o + k) % 32 - o) % 32 == k,
        (r - o) % 32 == k ==> r == (o + k) % 32,
{
}

proof fn lemma_wrap_64(o: int, k: int, c: int)
    requires
        0 <= o,
        0 <= k < 64,
        0 <= c < 64,
    ensures
        ((o + k) % 64 - o) % 64 == k,
        (c - o) % 64 == k ==> c == (o + k) % 64,
{
}

/// Drawing one more sprite pixel, at (`row`, `col`) of the sprite, reaches
/// exactly screen pixel (`sy`, `sx`).
pub(crate) proof fn lemma_draw_step(
    mem: [u8; 4096],
    screen: [[u8; 64]; 32],
    base: u16,
    ox: u8,
    oy: u8,
    row: int,
    col: int,
    sy: int,
    sx: int,
)
    requires
        0 <= row < 16,
        0 <= col < 8,
        base + row < 4096,
        sy == (oy + row) % 32,
        sx == (ox + col) % 64,
    ensures
        drawn_bit(mem, base, ox, oy, row * 8 + col, sy, sx) == 0,
        drawn_bit(mem, base, ox, oy, row * 8 + col + 1, sy, sx) == msb_bit(mem[base + row], col),
        forall|r: int, c: int|
            0 <= r < 32 && 0 <= c < 64 && !(r == sy && c == sx) ==> #[trigger] drawn_bit(
                mem,
                base,
                ox,
                oy,
                row * 8 + col + 1,
                r,
                c,
            ) == drawn_bit(mem, base, ox, oy, row * 8 + col, r, c),
        collides_upto(mem, screen, base, ox, oy, row * 8 + col + 1) == (collides_upto(
            mem,
            screen,
            base,
            ox,
            oy,
            row * 8 + col,
        ) || (screen[sy][sx] == 1 && msb_bit(mem[base + row], col) == 1)),
{
    let k = row * 8 + col;
    lemma_wrap_32(oy as int, row, sy);
    lemma_wrap_64(ox as int, col, sx);
    assert forall|r: int, c: int|
        0 <= r < 32 && 0 <= c < 64 && !(r == sy && c == sx) implies #[trigger] drawn_bit(
            mem,
            base,
            ox,
            oy,
            k + 1,
            r,
            c,
        ) == drawn_bit(mem, base, ox, oy, k, r, c) by {
        lemma_wrap_32(oy as int, row, r);
        lemma_wrap_64(ox as int, col, c);
        let dr = sprite_row(oy, r);
        let dc = sprite_col(ox, c);
        if dc < 8 && dr * 8 + dc == k {
            assert(dr == row && dc == col);
        }
    }
    if collides_upto(mem, screen, base, ox, oy, k + 1) {
        let (r, c) = choose|r: int, c: int|
            0 <= r < 32 && 0 <= c < 64 && screen[r][c] == 1 && #[trigger] drawn_bit(
                mem,
                base,
                ox,
                oy,
                k + 1,
                r,
                c,
            ) == 1;
        if !(r == sy && c == sx) {
            assert(drawn_bit(mem, base, ox, oy, k, r, c) == 1);
        }
    }
    if collides_upto(mem, screen, base, ox, oy, k) {
        let (r, c) = choose|r: int, c: int|
            0 <= r < 32 && 0 <= c < 64 && screen[r][c] == 1 && #[trigger] drawn_bit(
                mem,
                base,
                ox,
                oy,
                k,
                r,
                c,
            ) == 1;
        assert(drawn_bit(mem, base, ox, oy, k + 1, r, c) == 1);
    }
    if screen[sy][sx] == 1 && msb_bit(mem[base + row], col) == 1 {
        assert(drawn_bit(mem, base, ox, oy, k + 1, sy, sx) == 1);
    }
}

/// All `n` rows drawn are the whole sprite.
pub(crate) proof fn lemma_drawn_all(mem: [u8; 4096], screen: [[u8; 64]; 32], base: u16, ox: u8, oy: u8, n: u8)
    ensures
        forall|r: int, c: int|
            #[trigger] drawn_bit(mem, base, ox, oy, n * 8, r, c) == sprite_bit(mem, base, ox, oy, n, r, c),
        collides_upto(mem, screen, base, ox, oy, n * 8) == sprite_collides(mem, screen, base, ox, oy, n),
{
    assert forall|r: int, c: int|
        #[trigger] drawn_bit(mem, base, ox, oy, n * 8, r, c) == sprite_bit(mem, base, ox, oy, n, r, c) by {
    }
    if collides_upto(mem, screen, base, ox, oy, n * 8) {
        let (r, c) = choose|r: int, c: int|
            0 <= r < 32 && 0 <= c < 64 && screen[r][c] == 1 && #[trigger] drawn_bit(
                mem,
                base,
                ox,
                oy,
                n * 8,
                r,
                c,
            ) == 1;
        assert(sprite_bit(mem, base, ox, oy, n, r, c) == 1);
    }
    if sprite_collides(mem, screen, base, ox, oy, n) {
        let (r, c) = choose|r: int, c: int|
            0 <= r < 32 && 0 <= c < 64 && screen[r][c] == 1 && #[trigger] sprite_bit(
                mem,
                base,
                ox,
                oy,
                n,
                r,
                c,
            ) == 1;
        assert(drawn_bit(mem, base, ox, oy, n * 8, r, c) == 1);
    }
}

} // verus!
