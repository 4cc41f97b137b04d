use vstd::prelude::*;

use crate::chip8::{advance, Chip8};
use crate::sprite::sprite_bit;
use crate::opcode::{decode, Opcode};

verus! {

/// Decoding is total and deterministic: equal words decode to the same
/// operation, and that operation has valid operands.
pub proof fn lemma_decode_deterministic(a: u16, b: u16)
    requires
        a == b,
    ensures
        decode(a) == decode(b),
        decode(a).operands_valid(),
{
}

/// A call followed by a return resumes at the instruction after the call,
/// with the stack pointer back at its value before the call.
pub proof fn lemma_call_then_return(
    pre: Chip8,
    mid: Chip8,
    post: Chip8,
    addr: u16,
    random1: u8,
    random2: u8,
    r1: Result<(), crate::chip8::Chip8Error>,
    r2: Result<(), crate::chip8::Chip8Error>,
)
    requires
        pre.wf(),
        pre.sp < 15,
        pre.opcode == Opcode::CALL(addr),
        pre.executes(mid, random1, r1),
        (Chip8 { opcode: Opcode::RET, ..mid }).executes(post, random2, r2),
    ensures
        r1 is Ok,
        r2 is Ok,
        mid.pc == addr,
        post.pc == advance(pre.pc),
        post.sp == pre.sp,
{
}

/// Storing registers 0 to 15 to memory and loading them back from the same
/// base address gives every register its value from before the store.
pub proof fn lemma_store_then_load_registers(
    pre: Chip8,
    mid: Chip8,
    post: Chip8,
    random1: u8,
    random2: u8,
    r1: Result<(), crate::chip8::Chip8Error>,
    r2: Result<(), crate::chip8::Chip8Error>,
)
    requires
        pre.opcode == Opcode::LD_I_V(15),
        pre.executes(mid, random1, r1),
        (Chip8 { opcode: Opcode::LD_V_I(15), ..mid }).executes(post, random2, r2),
    ensures
        r1 == r2,
        post.V == pre.V,
{
    if r1 is Ok {
        assert(post.V =~= pre.V);
    }
}

/// Drawing a sprite twice at the same place restores the pixel buffer, and
/// the second draw reports a collision exactly when the sprite has a set bit
/// over a pixel that was clear before the first draw. The coordinates must not
/// come from the flag register, which the first draw overwrites.
pub proof fn lemma_draw_twice(
    pre: Chip8,
    mid: Chip8,
    post: Chip8,
    x: usize,
    y: usize,
    n: u8,
    random1: u8,
    random2: u8,
    r1: Result<(), crate::chip8::Chip8Error>,
    r2: Result<(), crate::chip8::Chip8Error>,
)
    requires
        pre.wf(),
        x < 15,
        y < 15,
        n < 16,
        pre.opcode == Opcode::DRW(x, y, n),
        pre.executes(mid, random1, r1),
        mid.executes(post, random2, r2),
    ensures
        r1 == r2,
        r1 is Ok ==> post.screen == pre.screen,
        r1 is Ok ==> (post.V[15] == 1 <==> exists|r: int, c: int|
            0 <= r < 32 && 0 <= c < 64 && pre.screen[r][c] == 0 && #[trigger] sprite_bit(
                pre.memory,
                pre.I,
                pre.V[x as int],
                pre.V[y as int],
                n,
                r,
                c,
            ) == 1),
{
    if r1 is Ok {
        let (ox, oy) = (pre.V[x as int], pre.V[y as int]);
        assert(mid.V[x as int] == ox && mid.V[y as int] == oy);
        assert forall|r: int, c: int| 0 <= r < 32 && 0 <= c < 64 implies {
            let b = sprite_bit(pre.memory, pre.I, ox, oy, n, r, c);
            &&& #[trigger] post.screen[r][c] == pre.screen[r][c]
            &&& (mid.screen[r][c] == 1 && b == 1) == (pre.screen[r][c] == 0 && b == 1)
        } by {
            let b = sprite_bit(pre.memory, pre.I, ox, oy, n, r, c);
            let p = pre.screen[r][c];
            assert(b <= 1);
            assert(p <= 1);
            assert(p <= 1 && b <= 1 ==> (p ^ b) ^ b == p) by (bit_vector);
            assert(p <= 1 && b <= 1 ==> (((p ^ b) == 1 && b == 1) == (p == 0 && b == 1))) by (bit_vector);
        }
        assert forall|r: int| 0 <= r < 32 implies #[trigger] post.screen[r] == pre.screen[r] by {
            assert(post.screen[r] =~= pre.screen[r]);
        }
        assert(post.screen =~= pre.screen);
        if post.V[15] == 1 {
            let (r, c) = choose|r: int, c: int|
                0 <= r < 32 && 0 <= c < 64 && mid.screen[r][c] == 1 && #[trigger] sprite_bit(
                    mid.memory,
                    mid.I,
                    ox,
                    oy,
                    n,
                    r,
                    c,
                ) == 1;
            assert(pre.screen[r][c] == 0 && sprite_bit(pre.memory, pre.I, ox, oy, n, r, c) == 1);
        }
        if exists|r: int, c: int|
            0 <= r < 32 && 0 <= c < 64 && pre.screen[r][c] == 0 && #[trigger] sprite_bit(
                pre.memory,
                pre.I,
                ox,
                oy,
                n,
                r,
                c,
            ) == 1 {
            let (r, c) = choose|r: int, c: int|
                0 <= r < 32 && 0 <= c < 64 && pre.screen[r][c] == 0 && #[trigger] sprite_bit(
                    pre.memory,
                    pre.I,
                    ox,
                    oy,
                    n,
                    r,
                    c,
                ) == 1;
            assert(mid.screen[r][c] == 1 && sprite_bit(mid.memory, mid.I, ox, oy, n, r, c) == 1);
        }
    }
}

} // verus!
