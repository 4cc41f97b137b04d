use vstd::prelude::*;

use crate::opcode::Opcode;
use crate::sprite::{
    collides_upto, drawn_bit, lemma_draw_step, lemma_drawn_all, sprite_bit, sprite_collides,
};
use crate::util::{byte_to_bits, msb_bit};

verus! {

/// Size of the address space in bytes.
pub const MEMORY_SIZE: usize = 4096;

/// Address at which programs are loaded and execution starts.
pub const PROGRAM_START: u16 = 0x200;

/// Width of the pixel buffer in pixels.
pub const SCREEN_WIDTH: usize = 64;

/// Height of the pixel buffer in pixels.
pub const SCREEN_HEIGHT: usize = 32;

/// Fatal conditions, and the load-time refusal of an oversized image.
#[derive(Debug, Clone, Copy, PartialEq, Eq, Structural)]
pub enum Chip8Error {
    /// A fetch or an indexed memory access past the last address.
    AddressOverflow,
    /// A call with all stack levels in use.
    StackOverflow,
    /// A return with no call to return from.
    StackUnderflow,
    /// A program image that does not fit above `PROGRAM_START`.
    ImageTooLarge,
}

/// What one cycle reports to the driver besides the new machine state.
#[derive(Debug, Clone, Copy, PartialEq, Eq, Structural)]
pub struct Cycle {
    /// The pixel buffer changed: the display should be refreshed.
    pub draw: bool,
    /// The sound timer ran out in this cycle (it was 1 before the decrement).
    pub tone: bool,
    /// The fetched word encodes no known operation; it was skipped.
    pub unrecognized: bool,
    /// The machine waits for a key press and executed no instruction.
    pub waiting: bool,
}

/// The whole machine state.
#[allow(non_snake_case)]
pub struct Chip8 {
    pub memory: [u8; 4096],
    /// Return addresses; level 0 is never used, levels 1 to 15 hold the calls.
    pub stack: [u16; 16],
    /// General registers; register 0xF doubles as the flag output.
    pub V: [u8; 16],
    /// Index register, the base address of memory-indexed operations.
    pub I: u16,
    /// Program counter: the address of the next instruction.
    pub pc: u16,
    /// Stack pointer: the level of the innermost call, 0 when none.
    pub sp: u8,
    /// The operation executed by `execute_opcode`.
    pub opcode: Opcode,
    pub delay_timer: u8,
    pub sound_timer: u8,
    /// Pixel buffer, 32 rows of 64 pixels, each 0 or 1.
    pub screen: [[u8; 64]; 32],
    /// Set by the operations that change the pixel buffer.
    pub draw_flag: bool,
    /// Which of the sixteen keys are held down.
    pub keyboard: [bool; 16],
    /// The register that receives the next key press, while a key wait is on.
    pub key_wait: Option<usize>,
    /// The keys held down when the wait began, minus those released since.
    pub key_snapshot: [bool; 16],
}

/// The program counter one instruction further on (16-bit wraparound).
pub open spec fn advance(pc: u16) -> u16 {
    ((pc as int + 2) % 65536) as u16
}

/// A timer after one tick: one less, but never below zero.
pub open spec fn count_down(t: u8) -> u8 {
    if t > 0 { (t - 1) as u8 } else { 0 }
}

/// The three decimal digits of `v`, hundreds first.
pub open spec fn bcd_digits(v: u8) -> Seq<u8> {
    seq![(v / 100) as u8, ((v / 10) % 10) as u8, (v % 10) as u8]
}

/// The first key that is down now and was not down in `snapshot`, if any.
pub open spec fn is_first_new_press(snapshot: [bool; 16], keys: [bool; 16], k: int) -> bool {
    &&& 0 <= k < 16
    &&& !snapshot[k] && keys[k]
    &&& forall|j: int| 0 <= j < k ==> !(!snapshot[j] && #[trigger] keys[j])
}

/// No key is down now that was not down in `snapshot`.
pub open spec fn no_new_press(snapshot: [bool; 16], keys: [bool; 16]) -> bool {
    forall|j: int| 0 <= j < 16 ==> !(!snapshot[j] && #[trigger] keys[j])
}

impl Chip8 {
    /// The state invariant: the stack pointer names a stack level, every
    /// pixel is 0 or 1, and a key wait targets a register.
    pub open spec fn wf(&self) -> bool {
        &&& self.sp < 16
        &&& forall|r: int, c: int| 0 <= r < 32 && 0 <= c < 64 ==> #[trigger] self.screen[r][c] <= 1
        &&& self.key_wait matches Some(x) ==> x < 16
    }

    /// `post` is `self` with register `x` set to `v` and the program counter at `pc`.
    pub open spec fn sets_register(&self, post: Chip8, x: usize, v: u8, pc: u16) -> bool {
        &&& post == (Chip8 { V: post.V, pc, ..*self })
        &&& post.V@ == self.V@.update(x as int, v)
    }

    /// `post` is `self` with the flag register set to `flag`, then register `x`
    /// set to `v`, and the program counter advanced.
    pub open spec fn sets_with_flag(&self, post: Chip8, x: usize, v: u8, flag: u8) -> bool {
        &&& post == (Chip8 { V: post.V, pc: advance(self.pc), ..*self })
        &&& post.V@ == self.V@.update(15, flag).update(x as int, v)
    }

    /// `post` is `self` with the program counter moved one instruction on, or
    /// two when `skip` holds.
    pub open spec fn skips_if(&self, post: Chip8, skip: bool) -> bool {
        post == (Chip8 {
            pc: if skip { advance(advance(self.pc)) } else { advance(self.pc) },
            ..*self
        })
    }

    /// Key `k` is held down; a key index past 15 names no key and is never down.
    pub open spec fn key_down(&self, k: u8) -> bool {
        k < 16 && self.keyboard[k as int]
    }

    /// The effect of executing `self.opcode` in state `self`, giving `post` and
    /// the result `res`; `random` is the byte that the random operation draws.
    /// A failing operation changes nothing.
    pub open spec fn executes(&self, post: Chip8, random: u8, res: Result<(), Chip8Error>) -> bool {
        let pre = *self;
        let next = advance(pre.pc);
        match pre.opcode {
            Opcode::SYS(_) | Opcode::UNDEFINED => res == Ok::<(), Chip8Error>(()) && post == (Chip8 { pc: next, ..pre }),
            Opcode::CLS => {
                &&& res == Ok::<(), Chip8Error>(())
                &&& post == (Chip8 { screen: post.screen, pc: next, draw_flag: true, ..pre })
                &&& forall|r: int, c: int| 0 <= r < 32 && 0 <= c < 64 ==> #[trigger] post.screen[r][c] == 0
            },
            Opcode::RET => if pre.sp == 0 {
                res == Err::<(), Chip8Error>(Chip8Error::StackUnderflow) && post == pre
            } else {
                res == Ok::<(), Chip8Error>(()) && post == (Chip8 { pc: pre.stack[pre.sp as int], sp: (pre.sp - 1) as u8, ..pre })
            },
            Opcode::JP(nnn) => res == Ok::<(), Chip8Error>(()) && post == (Chip8 { pc: nnn, ..pre }),
            Opcode::CALL(nnn) => if pre.sp >= 15 {
                res == Err::<(), Chip8Error>(Chip8Error::StackOverflow) && post == pre
            } else {
                &&& res == Ok::<(), Chip8Error>(())
                &&& post == (Chip8 { stack: post.stack, sp: (pre.sp + 1) as u8, pc: nnn, ..pre })
                &&& post.stack@ == pre.stack@.update(pre.sp + 1, next)
            },
            Opcode::SE(x, kk) => res == Ok::<(), Chip8Error>(()) && pre.skips_if(post, pre.V[x as int] == kk),
            Opcode::SNE(x, kk) => res == Ok::<(), Chip8Error>(()) && pre.skips_if(post, pre.V[x as int] != kk),
            Opcode::SE_V(x, y) => res == Ok::<(), Chip8Error>(()) && pre.skips_if(post, pre.V[x as int] == pre.V[y as int]),
            Opcode::SNE_V(x, y) => res == Ok::<(), Chip8Error>(()) && pre.skips_if(post, pre.V[x as int] != pre.V[y as int]),
            Opcode::LD(x, kk) => res == Ok::<(), Chip8Error>(()) && pre.sets_register(post, x, kk, next),
            Opcode::ADD(x, kk) => res == Ok::<(), Chip8Error>(())
                && pre.sets_register(post, x, ((pre.V[x as int] + kk) % 256) as u8, next),
            Opcode::LD_V(x, y) => res == Ok::<(), Chip8Error>(()) && pre.sets_register(post, x, pre.V[y as int], next),
            Opcode::OR(x, y) => res == Ok::<(), Chip8Error>(())
                && pre.sets_register(post, x, pre.V[x as int] | pre.V[y as int], next),
            Opcode::AND(x, y) => res == Ok::<(), Chip8Error>(())
                && pre.sets_register(post, x, pre.V[x as int] & pre.V[y as int], next),
            Opcode::XOR(x, y) => res == Ok::<(), Chip8Error>(())
                && pre.sets_register(post, x, pre.V[x as int] ^ pre.V[y as int], next),
            Opcode::ADD_V(x, y) => {
                let sum = pre.V[x as int] + pre.V[y as int];
                res == Ok::<(), Chip8Error>(()) && pre.sets_with_flag(post, x, (sum % 256) as u8, if sum > 255 { 1 } else { 0 })
            },
            Opcode::SUB(x, y) => {
                let (vx, vy) = (pre.V[x as int], pre.V[y as int]);
                res == Ok::<(), Chip8Error>(()) && pre.sets_with_flag(post, x, ((vx - vy) % 256) as u8, if vx > vy { 1 } else { 0 })
            },
            Opcode::SUBN(x, y) => {
                let (vx, vy) = (pre.V[x as int], pre.V[y as int]);
                res == Ok::<(), Chip8Error>(()) && pre.sets_with_flag(post, x, ((vy - vx) % 256) as u8, if vy > vx { 1 } else { 0 })
            },
            Opcode::SHR(x, _) => {
                let vx = pre.V[x as int];
                res == Ok::<(), Chip8Error>(()) && pre.sets_with_flag(post, x, vx / 2, vx % 2)
            },
            Opcode::SHL(x, _) => {
                let vx = pre.V[x as int];
                res == Ok::<(), Chip8Error>(()) && pre.sets_with_flag(post, x, ((vx * 2) % 256) as u8, vx / 128)
            },
            Opcode::LD_I(nnn) => res == Ok::<(), Chip8Error>(()) && post == (Chip8 { I: nnn, pc: next, ..pre }),
            Opcode::JP_V(nnn) => res == Ok::<(), Chip8Error>(())
                && post == (Chip8 { pc: ((nnn + pre.V[0]) % 65536) as u16, ..pre }),
            Opcode::RND(x, kk) => res == Ok::<(), Chip8Error>(()) && pre.sets_register(post, x, random & kk, next),
            Opcode::DRW(x, y, n) => {
                let (ox, oy) = (pre.V[x as int], pre.V[y as int]);
                if pre.I + n > 4096 {
                    res == Err::<(), Chip8Error>(Chip8Error::AddressOverflow) && post == pre
                } else {
                    let flag: u8 = if sprite_collides(pre.memory, pre.screen, pre.I, ox, oy, n) { 1 } else { 0 };
                    &&& res == Ok::<(), Chip8Error>(())
                    &&& post == (Chip8 { V: post.V, screen: post.screen, pc: next, draw_flag: true, ..pre })
                    &&& post.V@ == pre.V@.update(15, flag)
                    &&& forall|r: int, c: int| 0 <= r < 32 && 0 <= c < 64 ==> #[trigger] post.screen[r][c]
                        == pre.screen[r][c] ^ sprite_bit(pre.memory, pre.I, ox, oy, n, r, c)
                }
            },
            Opcode::SKP(x) => res == Ok::<(), Chip8Error>(()) && pre.skips_if(post, pre.key_down(pre.V[x as int])),
            Opcode::SKNP(x) => res == Ok::<(), Chip8Error>(()) && pre.skips_if(post, !pre.key_down(pre.V[x as int])),
            Opcode::LD_V_DT(x) => res == Ok::<(), Chip8Error>(()) && pre.sets_register(post, x, pre.delay_timer, next),
            Opcode::LD_K(x) => res == Ok::<(), Chip8Error>(())
                && post == (Chip8 { key_wait: Some(x), key_snapshot: pre.keyboard, pc: next, ..pre }),
            Opcode::LD_DT_V(x) => res == Ok::<(), Chip8Error>(())
                && post == (Chip8 { delay_timer: pre.V[x as int], pc: next, ..pre }),
            Opcode::LD_ST(x) => res == Ok::<(), Chip8Error>(())
                && post == (Chip8 { sound_timer: pre.V[x as int], pc: next, ..pre }),
            Opcode::ADD_I(x) => res == Ok::<(), Chip8Error>(())
                && post == (Chip8 { I: ((pre.I + pre.V[x as int]) % 65536) as u16, pc: next, ..pre }),
            Opcode::LD_F(x) => res == Ok::<(), Chip8Error>(())
                && post == (Chip8 { I: (pre.V[x as int] * 5) as u16, pc: next, ..pre }),
            Opcode::LD_B(x) => if pre.I + 3 > 4096 {
                res == Err::<(), Chip8Error>(Chip8Error::AddressOverflow) && post == pre
            } else {
                &&& res == Ok::<(), Chip8Error>(())
                &&& post == (Chip8 { memory: post.memory, pc: next, ..pre })
                &&& post.memory@ == pre.memory@.update(pre.I as int, bcd_digits(pre.V[x as int])[0])
                        .update(pre.I + 1, bcd_digits(pre.V[x as int])[1])
                        .update(pre.I + 2, bcd_digits(pre.V[x as int])[2])
            },
            Opcode::LD_I_V(x) => if pre.I + x + 1 > 4096 {
                res == Err::<(), Chip8Error>(Chip8Error::AddressOverflow) && post == pre
            } else {
                &&& res == Ok::<(), Chip8Error>(())
                &&& post == (Chip8 { memory: post.memory, pc: next, ..pre })
                &&& forall|a: int| 0 <= a < 4096 ==> #[trigger] post.memory[a] == if pre.I <= a <= pre.I + x {
                    pre.V[a - pre.I]
                } else {
                    pre.memory[a]
                }
            },
            Opcode::LD_V_I(x) => if pre.I + x + 1 > 4096 {
                res == Err::<(), Chip8Error>(Chip8Error::AddressOverflow) && post == pre
            } else {
                &&& res == Ok::<(), Chip8Error>(())
                &&& post == (Chip8 { V: post.V, pc: next, ..pre })
                &&& forall|i: int| 0 <= i < 16 ==> #[trigger] post.V[i] == if i <= x {
                    pre.memory[pre.I + i]
                } else {
                    pre.V[i]
                }
            },
        }
    }
}

impl Chip8 {
    /// XORs an `n`-row sprite, read from memory at the index register, onto the
    /// pixel buffer at (`ox`, `oy`), wrapping at the edges; tells whether a set
    /// pixel was cleared.
    fn draw_sprite(&mut self, ox: u8, oy: u8, n: u8) -> (collided: bool)
        requires
            old(self).wf(),
            old(self).I + n <= 4096,
            n < 16,
        ensures
            *final(self) == (Chip8 { screen: final(self).screen, ..*old(self) }),
            final(self).wf(),
            collided == sprite_collides(old(self).memory, old(self).screen, old(self).I, ox, oy, n),
            forall|r: int, c: int|
                0 <= r < 32 && 0 <= c < 64 ==> #[trigger] final(self).screen[r][c] == old(self).screen[r][c]
                    ^ sprite_bit(old(self).memory, old(self).I, ox, oy, n, r, c),
    {
        let ghost pre = *self;
        let mut collided = false;
        let mut row: u8 = 0;
        assert forall|r: int, c: int|
            0 <= r < 32 && 0 <= c < 64 implies #[trigger] self.screen[r][c] == pre.screen[r][c]
                ^ drawn_bit(pre.memory, pre.I, ox, oy, 0, r, c) by {
            let p0 = pre.screen[r][c];
            assert(p0 ^ 0u8 == p0) by (bit_vector);
        }
        assert(!collides_upto(pre.memory, pre.screen, pre.I, ox, oy, 0));
        while row < n
            invariant
                row <= n,
                n < 16,
                pre.wf(),
                pre.I + n <= 4096,
                *self == (Chip8 { screen: self.screen, ..pre }),
                self.wf(),
                collided == collides_upto(pre.memory, pre.screen, pre.I, ox, oy, row * 8),
                forall|r: int, c: int|
                    0 <= r < 32 && 0 <= c < 64 ==> #[trigger] self.screen[r][c] == pre.screen[r][c]
                        ^ drawn_bit(pre.memory, pre.I, ox, oy, row * 8, r, c),
            decreases n - row,
        {
            let bits = byte_to_bits(self.memory[self.I as usize + row as usize]);
            let sy: usize = (oy as usize + row as usize) % 32;
            let mut col: usize = 0;
            while col < 8
                invariant
                    row < n,
                    n < 16,
                    col <= 8,
                    pre.wf(),
                    pre.I + n <= 4096,
                    sy == (oy + row) % 32,
                    forall|i: int| 0 <= i < 8 ==> #[trigger] bits[i] == msb_bit(pre.memory[pre.I + row], i),
                    *self == (Chip8 { screen: self.screen, ..pre }),
                    self.wf(),
                    collided == collides_upto(pre.memory, pre.screen, pre.I, ox, oy, row * 8 + col),
                    forall|r: int, c: int|
                        0 <= r < 32 && 0 <= c < 64 ==> #[trigger] self.screen[r][c] == pre.screen[r][c]
                            ^ drawn_bit(pre.memory, pre.I, ox, oy, row * 8 + col, r, c),
                decreases 8 - col,
            {
                let sx: usize = (ox as usize + col) % 64;
                proof {
                    lemma_draw_step(pre.memory, pre.screen, pre.I, ox, oy, row as int, col as int, sy as int, sx as int);
                }
                let mut line = self.screen[sy];
                let pixel = line[sx];
                let bit = bits[col];
                proof {
                    let p0 = pre.screen[sy as int][sx as int];
                    assert(pixel == p0 ^ 0u8);
                    assert(p0 ^ 0u8 == p0) by (bit_vector);
                    assert(p0 <= 1);
                    assert(bit <= 1);
                    assert(p0 <= 1 && bit <= 1 ==> p0 ^ bit <= 1) by (bit_vector);
                    assert(p0 <= 1 && bit <= 1 ==> ((p0 & bit == 1) == (p0 == 1 && bit == 1))) by (bit_vector);
                }
                if pixel & bit == 1 {
                    collided = true;
                }
                line[sx] = pixel ^ bit;
                self.screen[sy] = line;
                col = col + 1;
                proof {
                    assert forall|r: int, c: int|
                        0 <= r < 32 && 0 <= c < 64 implies #[trigger] self.screen[r][c] <= 1 by {
                        let p0 = pre.screen[r][c];
                        let b = drawn_bit(pre.memory, pre.I, ox, oy, row * 8 + col, r, c);
                        assert(b <= 1);
                        assert(p0 <= 1 && b <= 1 ==> p0 ^ b <= 1) by (bit_vector);
                    }
                }
            }
            row = row + 1;
        }
        proof {
            lemma_drawn_all(pre.memory, pre.screen, pre.I, ox, oy, n);
        }
        collided
    }

    /// Copies registers 0 to `x` into memory from the index register on.
    fn store_registers(&mut self, x: usize)
        requires
            x < 16,
            old(self).I + x + 1 <= 4096,
        ensures
            *final(self) == (Chip8 { memory: final(self).memory, ..*old(self) }),
            forall|a: int| 0 <= a < 4096 ==> #[trigger] final(self).memory[a] == if old(self).I <= a <= old(self).I + x {
                old(self).V[a - old(self).I]
            } else {
                old(self).memory[a]
            },
    {
        let ghost pre = *self;
        let base = self.I as usize;
        let mut i: usize = 0;
        while i <= x
            invariant
                x < 16,
                i <= x + 1,
                base == pre.I,
                base + x + 1 <= 4096,
                *self == (Chip8 { memory: self.memory, ..pre }),
                forall|a: int| 0 <= a < 4096 ==> #[trigger] self.memory[a] == if base <= a < base + i {
                    pre.V[a - base]
                } else {
                    pre.memory[a]
                },
            decreases x + 1 - i,
        {
            self.memory[base + i] = self.V[i];
            i = i + 1;
        }
    }

    /// Copies memory from the index register on into registers 0 to `x`.
    fn load_registers(&mut self, x: usize)
        requires
            x < 16,
            old(self).I + x + 1 <= 4096,
        ensures
            *final(self) == (Chip8 { V: final(self).V, ..*old(self) }),
            forall|i: int| 0 <= i < 16 ==> #[trigger] final(self).V[i] == if i <= x {
                old(self).memory[old(self).I + i]
            } else {
                old(self).V[i]
            },
    {
        let ghost pre = *self;
        let base = self.I as usize;
        let mut i: usize = 0;
        while i <= x
            invariant
                x < 16,
                i <= x + 1,
                base == pre.I,
                base + x + 1 <= 4096,
                *self == (Chip8 { V: self.V, ..pre }),
                forall|j: int| 0 <= j < 16 ==> #[trigger] self.V[j] == if j < i {
                    pre.memory[base + j]
                } else {
                    pre.V[j]
                },
            decreases x + 1 - i,
        {
            self.V[i] = self.memory[base + i];
            i = i + 1;
        }
    }
}

/// The font glyphs for the hexadecimal digits 0 to F, five bytes each.
pub open spec fn font() -> Seq<u8> {
    seq![
        0xF0u8, 0x90, 0x90, 0x90, 0xF0, 0x20, 0x60, 0x20, 0x20, 0x70,
        0xF0, 0x10, 0xF0, 0x80, 0xF0, 0xF0, 0x10, 0xF0, 0x10, 0xF0,
        0x90, 0x90, 0xF0, 0x10, 0x10, 0xF0, 0x80, 0xF0, 0x10, 0xF0,
        0xF0, 0x80, 0xF0, 0x90, 0xF0, 0xF0, 0x10, 0x20, 0x40, 0x40,
        0xF0, 0x90, 0xF0, 0x90, 0xF0, 0xF0, 0x90, 0xF0, 0x10, 0xF0,
        0xF0, 0x80, 0x80, 0x80, 0xF0, 0xE0, 0x90, 0xE0, 0x90, 0xE0,
        0xF0, 0x80, 0x80, 0x80, 0xF0, 0xE0, 0x90, 0x90, 0x90, 0xE0,
        0xF0, 0x80, 0xF0, 0x80, 0xF0, 0xF0, 0x80, 0xF0, 0x80, 0x80,
    ]
}

/// Memory at power-on: the font glyphs from address 0, zero elsewhere.
pub open spec fn initial_memory(mem: [u8; 4096]) -> bool {
    forall|a: int| 0 <= a < 4096 ==> #[trigger] mem[a] == if a < 80 { font()[a] } else { 0 }
}

/// The cycle result of a tick that only waited for a key.
pub open spec fn waiting_cycle() -> Cycle {
    Cycle { draw: false, tone: false, unrecognized: false, waiting: true }
}

impl Chip8 {
    /// The machine at power-on: font loaded, everything else zero or off, and
    /// the program counter at `PROGRAM_START`.
    pub open spec fn is_fresh(&self) -> bool {
        &&& initial_memory(self.memory)
        &&& forall|i: int| 0 <= i < 16 ==> #[trigger] self.stack[i] == 0
        &&& forall|i: int| 0 <= i < 16 ==> #[trigger] self.V[i] == 0
        &&& forall|i: int| 0 <= i < 16 ==> !#[trigger] self.keyboard[i]
        &&& forall|i: int| 0 <= i < 16 ==> !#[trigger] self.key_snapshot[i]
        &&& forall|r: int, c: int| 0 <= r < 32 && 0 <= c < 64 ==> #[trigger] self.screen[r][c] == 0
        &&& self.I == 0 && self.pc == PROGRAM_START && self.sp == 0
        &&& self.opcode == Opcode::UNDEFINED
        &&& self.delay_timer == 0 && self.sound_timer == 0
        &&& !self.draw_flag
        &&& self.key_wait is None
    }

    /// The instruction word at the program counter, high byte first.
    pub open spec fn word_at_pc(&self) -> u16 {
        (self.memory[self.pc as int] * 256 + self.memory[self.pc + 1]) as u16
    }

    /// One cycle while a key wait is on: keys released since the wait began
    /// leave the snapshot; the first key down that is not in the snapshot
    /// goes to the waiting register, ends the wait and lets the timers tick.
    /// With no such key nothing else changes.
    pub open spec fn polls_key(&self, x: usize, post: Chip8, res: Result<Cycle, Chip8Error>) -> bool {
        let pre = *self;
        &&& forall|j: int| 0 <= j < 16 ==> #[trigger] post.key_snapshot[j] == (pre.key_snapshot[j] && pre.keyboard[j])
        &&& if no_new_press(pre.key_snapshot, pre.keyboard) {
            &&& res == Ok::<Cycle, Chip8Error>(waiting_cycle())
            &&& post == (Chip8 { key_snapshot: post.key_snapshot, draw_flag: false, ..pre })
        } else {
            &&& res == Ok::<Cycle, Chip8Error>(Cycle { draw: false, tone: pre.sound_timer == 1, unrecognized: false, waiting: false })
            &&& post == (Chip8 {
                V: post.V,
                key_snapshot: post.key_snapshot,
                key_wait: None,
                delay_timer: count_down(pre.delay_timer),
                sound_timer: count_down(pre.sound_timer),
                draw_flag: false,
                ..pre
            })
            &&& exists|k: int| #[trigger] is_first_new_press(pre.key_snapshot, pre.keyboard, k)
                && post.V@ == pre.V@.update(x as int, k as u8)
        }
    }

    /// One cycle outside a key wait: fetch the word at the program counter
    /// (failing past the last address), decode it into `opcode`, execute it,
    /// then, unless it began a key wait, let both timers tick.
    pub open spec fn fetches_and_executes(&self, post: Chip8, random: u8, res: Result<Cycle, Chip8Error>) -> bool {
        let pre = *self;
        if pre.pc + 1 >= 4096 {
            res == Err::<Cycle, Chip8Error>(Chip8Error::AddressOverflow) && post == pre
        } else {
            let op = crate::opcode::decode(pre.word_at_pc());
            let fetched = Chip8 { opcode: op, draw_flag: false, ..pre };
            exists|mid: Chip8, r: Result<(), Chip8Error>| #[trigger] fetched.executes(mid, random, r) && match r {
                Err(e) => res == Err::<Cycle, Chip8Error>(e) && post == fetched,
                Ok(_) => if mid.key_wait is Some {
                    res == Ok::<Cycle, Chip8Error>(waiting_cycle()) && post == mid
                } else {
                    &&& res == Ok::<Cycle, Chip8Error>(Cycle {
                        draw: mid.draw_flag,
                        tone: mid.sound_timer == 1,
                        unrecognized: op == Opcode::UNDEFINED,
                        waiting: false,
                    })
                    &&& post == (Chip8 {
                        delay_timer: count_down(mid.delay_timer),
                        sound_timer: count_down(mid.sound_timer),
                        ..mid
                    })
                },
            }
        }
    }

    /// The effect of one cycle from `self`, giving `post` and `res`; `random`
    /// is the byte that a random operation draws.
    pub open spec fn ticks(&self, post: Chip8, random: u8, res: Result<Cycle, Chip8Error>) -> bool {
        match self.key_wait {
            Some(x) => self.polls_key(x, post, res),
            None => self.fetches_and_executes(post, random, res),
        }
    }
}

/// Relies on rand::random::<u8>: a byte drawn from the thread-local generator.
/// Any value may come back.
#[verifier::external_body]
fn random_byte() -> (r: u8) {
    rand::random::<u8>()
}

impl Chip8 {
    /// Executes `self.opcode`, with `random` as the byte that the random
    /// operation draws. The program counter moves on by one instruction before
    /// the effect, which may move it again. A failing operation changes nothing.
    pub fn execute_opcode_with(&mut self, random: u8) -> (res: Result<(), Chip8Error>)
        requires
            old(self).wf(),
            old(self).opcode.operands_valid(),
        ensures
            final(self).wf(),
            old(self).executes(*final(self), random, res),
    {
        let op = self.opcode;
        match op {
            Opcode::RET => {
                if self.sp == 0 {
                    return Err(Chip8Error::StackUnderflow);
                }
            },
            Opcode::CALL(_) => {
                if self.sp >= 15 {
                    return Err(Chip8Error::StackOverflow);
                }
            },
            Opcode::DRW(_, _, n) => {
                if self.I as usize + n as usize > MEMORY_SIZE {
                    return Err(Chip8Error::AddressOverflow);
                }
            },
            Opcode::LD_B(_) => {
                if self.I as usize + 3 > MEMORY_SIZE {
                    return Err(Chip8Error::AddressOverflow);
                }
            },
            Opcode::LD_I_V(x) | Opcode::LD_V_I(x) => {
                if self.I as usize + x + 1 > MEMORY_SIZE {
                    return Err(Chip8Error::AddressOverflow);
                }
            },
            _ => {},
        }
        self.pc = ((self.pc as u32 + 2) % 65536) as u16;
        match op {
            Opcode::SYS(_nnn) => {
                // Machine-code routines are not emulated: a no-op.
            },
            Opcode::CLS => {
                self.screen = [[0u8; 64]; 32];
                self.draw_flag = true;
            },
            Opcode::RET => {
                self.pc = self.stack[self.sp as usize];
                self.sp = self.sp - 1;
            },
            Opcode::JP(nnn) => {
                self.pc = nnn;
            },
            Opcode::CALL(nnn) => {
                self.sp = self.sp + 1;
                self.stack[self.sp as usize] = self.pc;
                self.pc = nnn;
            },
            Opcode::SE(x, kk) => {
                if self.V[x] == kk {
                    self.pc = ((self.pc as u32 + 2) % 65536) as u16;
                }
            },
            Opcode::SNE(x, kk) => {
                if self.V[x] != kk {
                    self.pc = ((self.pc as u32 + 2) % 65536) as u16;
                }
            },
            Opcode::SE_V(x, y) => {
                if self.V[x] == self.V[y] {
                    self.pc = ((self.pc as u32 + 2) % 65536) as u16;
                }
            },
            Opcode::LD(x, kk) => {
                self.V[x] = kk;
            },
            Opcode::ADD(x, kk) => {
                self.V[x] = ((self.V[x] as u16 + kk as u16) % 256) as u8;
            },
            Opcode::LD_V(x, y) => {
                self.V[x] = self.V[y];
            },
            Opcode::OR(x, y) => {
                self.V[x] = self.V[x] | self.V[y];
            },
            Opcode::AND(x, y) => {
                self.V[x] = self.V[x] & self.V[y];
            },
            Opcode::XOR(x, y) => {
                self.V[x] = self.V[x] ^ self.V[y];
            },
            Opcode::ADD_V(x, y) => {
                let sum = self.V[x] as u16 + self.V[y] as u16;
                self.V[15] = if sum > 255 { 1 } else { 0 };
                self.V[x] = (sum % 256) as u8;
            },
            Opcode::SUB(x, y) => {
                let (vx, vy) = (self.V[x], self.V[y]);
                self.V[15] = if vx > vy { 1 } else { 0 };
                self.V[x] = ((vx as u16 + 256 - vy as u16) % 256) as u8;
            },
            Opcode::SHR(x, _y) => {
                let vx = self.V[x];
                proof {
                    assert(vx & 1 == vx % 2) by (bit_vector);
                    assert(vx >> 1 == vx / 2) by (bit_vector);
                }
                self.V[15] = vx & 0b0001;
                self.V[x] = vx >> 1;
            },
            Opcode::SUBN(x, y) => {
                let (vx, vy) = (self.V[x], self.V[y]);
                self.V[15] = if vy > vx { 1 } else { 0 };
                self.V[x] = ((vy as u16 + 256 - vx as u16) % 256) as u8;
            },
            Opcode::SHL(x, _y) => {
                let vx = self.V[x];
                proof {
                    assert((vx & 0b10000000) >> 7 == vx / 128) by (bit_vector);
                    assert(vx << 1 == (vx * 2) % 256) by (bit_vector);
                }
                self.V[15] = (vx & 0b10000000) >> 7;
                self.V[x] = vx << 1;
            },
            Opcode::SNE_V(x, y) => {
                if self.V[x] != self.V[y] {
                    self.pc = ((self.pc as u32 + 2) % 65536) as u16;
                }
            },
            Opcode::LD_I(nnn) => {
                self.I = nnn;
            },
            Opcode::JP_V(nnn) => {
                self.pc = ((nnn as u32 + self.V[0] as u32) % 65536) as u16;
            },
            Opcode::RND(x, kk) => {
                self.V[x] = random & kk;
            },
            Opcode::DRW(x, y, n) => {
                let (ox, oy) = (self.V[x], self.V[y]);
                let collided = self.draw_sprite(ox, oy, n);
                self.V[15] = if collided { 1 } else { 0 };
                self.draw_flag = true;
            },
            Opcode::SKP(x) => {
                let k = self.V[x];
                if k < 16 && self.keyboard[k as usize] {
                    self.pc = ((self.pc as u32 + 2) % 65536) as u16;
                }
            },
            Opcode::SKNP(x) => {
                let k = self.V[x];
                if !(k < 16 && self.keyboard[k as usize]) {
                    self.pc = ((self.pc as u32 + 2) % 65536) as u16;
                }
            },
            Opcode::LD_V_DT(x) => {
                self.V[x] = self.delay_timer;
            },
            Opcode::LD_K(x) => {
                self.key_wait = Some(x);
                self.key_snapshot = self.keyboard;
            },
            Opcode::LD_DT_V(x) => {
                self.delay_timer = self.V[x];
            },
            Opcode::LD_ST(x) => {
                self.sound_timer = self.V[x];
            },
            Opcode::ADD_I(x) => {
                self.I = ((self.I as u32 + self.V[x] as u32) % 65536) as u16;
            },
            Opcode::LD_F(x) => {
                self.I = self.V[x] as u16 * 5;
            },
            Opcode::LD_B(x) => {
                let num = self.V[x];
                let hundreds = num / 100;
                let tens = (num / 10) % 10;
                let ones = num % 10;
                let base = self.I as usize;
                self.memory[base] = hundreds;
                self.memory[base + 1] = tens;
                self.memory[base + 2] = ones;
            },
            Opcode::LD_I_V(x) => {
                self.store_registers(x);
            },
            Opcode::LD_V_I(x) => {
                self.load_registers(x);
            },
            Opcode::UNDEFINED => {},
        }
        Ok(())
    }

    /// Executes `self.opcode`, drawing a random byte for the random operation.
    /// The outcome is that of `execute_opcode_with` for some byte; any byte
    /// will do for the other operations.
    pub fn execute_opcode(&mut self) -> (res: Result<(), Chip8Error>)
        requires
            old(self).wf(),
            old(self).opcode.operands_valid(),
        ensures
            final(self).wf(),
            exists|random: u8| old(self).executes(*final(self), random, res),
            !(old(self).opcode is RND) ==> old(self).executes(*final(self), 0, res),
    {
        let random = match self.opcode {
            Opcode::RND(_, _) => random_byte(),
            _ => 0,
        };
        self.execute_opcode_with(random)
    }
}

impl Chip8 {
    /// A machine at power-on.
    pub fn new() -> (m: Chip8)
        ensures
            m.wf(),
            m.is_fresh(),
    {
        let m = Chip8 {
            memory: Chip8::init_memory(),
            stack: [0u16; 16],
            V: [0u8; 16],
            I: 0,
            pc: PROGRAM_START,
            sp: 0,
            opcode: Opcode::UNDEFINED,
            delay_timer: 0,
            sound_timer: 0,
            screen: [[0u8; 64]; 32],
            draw_flag: false,
            keyboard: [false; 16],
            key_wait: None,
            key_snapshot: [false; 16],
        };
        m
    }

    /// Power-on memory: the font glyphs from address 0, zero elsewhere.
    fn init_memory() -> (memory: [u8; 4096])
        ensures
            initial_memory(memory),
    {
        let glyphs: [u8; 80] = [
            0xF0, 0x90, 0x90, 0x90, 0xF0, 0x20, 0x60, 0x20, 0x20, 0x70,
            0xF0, 0x10, 0xF0, 0x80, 0xF0, 0xF0, 0x10, 0xF0, 0x10, 0xF0,
            0x90, 0x90, 0xF0, 0x10, 0x10, 0xF0, 0x80, 0xF0, 0x10, 0xF0,
            0xF0, 0x80, 0xF0, 0x90, 0xF0, 0xF0, 0x10, 0x20, 0x40, 0x40,
            0xF0, 0x90, 0xF0, 0x90, 0xF0, 0xF0, 0x90, 0xF0, 0x10, 0xF0,
            0xF0, 0x80, 0x80, 0x80, 0xF0, 0xE0, 0x90, 0xE0, 0x90, 0xE0,
            0xF0, 0x80, 0x80, 0x80, 0xF0, 0xE0, 0x90, 0x90, 0x90, 0xE0,
            0xF0, 0x80, 0xF0, 0x80, 0xF0, 0xF0, 0x80, 0xF0, 0x80, 0x80,
        ];
        assert(glyphs@ =~= font());
        let mut memory: [u8; 4096] = [0u8; 4096];
        let mut i: usize = 0;
        while i < 80
            invariant
                i <= 80,
                glyphs@ == font(),
                forall|a: int| 0 <= a < 4096 ==> #[trigger] memory[a] == if a < i { font()[a] } else { 0 },
            decreases 80 - i,
        {
            memory[i] = glyphs[i];
            i = i + 1;
        }
        memory
    }

    /// Writes a program image into memory from `PROGRAM_START` on and returns
    /// its length; an image longer than the space above `PROGRAM_START` is
    /// refused and changes nothing.
    pub fn load_game(&mut self, bytes: &[u8]) -> (res: Result<usize, Chip8Error>)
        ensures
            bytes@.len() > 4096 - 0x200 ==> res == Err::<usize, Chip8Error>(Chip8Error::ImageTooLarge)
                && *final(self) == *old(self),
            bytes@.len() <= 4096 - 0x200 ==> {
                &&& res == Ok::<usize, Chip8Error>(bytes@.len() as usize)
                &&& *final(self) == (Chip8 { memory: final(self).memory, ..*old(self) })
                &&& final(self).memory@.subrange(0x200, 0x200 + bytes@.len() as int) == bytes@
                &&& forall|a: int| 0 <= a < 4096 && !(0x200 <= a < 0x200 + bytes@.len())
                    ==> #[trigger] final(self).memory[a] == old(self).memory[a]
            },
    {
        if bytes.len() > MEMORY_SIZE - PROGRAM_START as usize {
            return Err(Chip8Error::ImageTooLarge);
        }
        let ghost pre = *self;
        let start = PROGRAM_START as usize;
        let mut index: usize = 0;
        while index < bytes.len()
            invariant
                index <= bytes@.len() <= 4096 - 0x200,
                start == 0x200,
                *self == (Chip8 { memory: self.memory, ..pre }),
                forall|a: int| 0 <= a < 4096 ==> #[trigger] self.memory[a] == if start <= a < start + index {
                    bytes@[a - start]
                } else {
                    pre.memory[a]
                },
            decreases bytes@.len() - index,
        {
            self.memory[start + index] = bytes[index];
            index = index + 1;
        }
        assert(self.memory@.subrange(0x200, 0x200 + bytes@.len() as int) =~= bytes@);
        Ok(index)
    }

    /// Records whether key `index` is held down.
    pub fn set_key(&mut self, index: usize, pressed: bool)
        requires
            index < 16,
        ensures
            *final(self) == (Chip8 { keyboard: final(self).keyboard, ..*old(self) }),
            final(self).keyboard@ == old(self).keyboard@.update(index as int, pressed),
    {
        self.keyboard[index] = pressed;
    }

    /// Drops released keys from the key-wait snapshot and finds the first key
    /// down that the snapshot does not hold.
    fn poll_keys(&mut self) -> (pressed: Option<usize>)
        ensures
            *final(self) == (Chip8 { key_snapshot: final(self).key_snapshot, ..*old(self) }),
            forall|j: int| 0 <= j < 16 ==> #[trigger] final(self).key_snapshot[j] == (old(self).key_snapshot[j]
                && old(self).keyboard[j]),
            match pressed {
                Some(k) => is_first_new_press(old(self).key_snapshot, old(self).keyboard, k as int),
                None => no_new_press(old(self).key_snapshot, old(self).keyboard),
            },
    {
        let ghost pre = *self;
        let mut pressed: Option<usize> = None;
        let mut i: usize = 0;
        while i < 16
            invariant
                i <= 16,
                *self == (Chip8 { key_snapshot: self.key_snapshot, ..pre }),
                forall|j: int| 0 <= j < 16 ==> #[trigger] self.key_snapshot[j] == if j < i {
                    pre.key_snapshot[j] && pre.keyboard[j]
                } else {
                    pre.key_snapshot[j]
                },
                match pressed {
                    Some(k) => k < i && is_first_new_press(pre.key_snapshot, pre.keyboard, k as int),
                    None => forall|j: int| 0 <= j < i ==> !(!pre.key_snapshot[j] && #[trigger] pre.keyboard[j]),
                },
            decreases 16 - i,
        {
            if pressed.is_none() && !self.key_snapshot[i] && self.keyboard[i] {
                pressed = Some(i);
            }
            self.key_snapshot[i] = self.key_snapshot[i] && self.keyboard[i];
            i = i + 1;
        }
        pressed
    }

    /// Lets both timers tick once; tells whether the sound timer ran out.
    fn count_down_timers(&mut self) -> (tone: bool)
        ensures
            *final(self) == (Chip8 {
                delay_timer: count_down(old(self).delay_timer),
                sound_timer: count_down(old(self).sound_timer),
                ..*old(self)
            }),
            tone == (old(self).sound_timer == 1),
    {
        if self.delay_timer > 0 {
            self.delay_timer = self.delay_timer - 1;
        }
        let tone = self.sound_timer == 1;
        if self.sound_timer > 0 {
            self.sound_timer = self.sound_timer - 1;
        }
        tone
    }

    /// Runs one cycle with `random` as the byte that a random operation draws:
    /// while a key wait is on, polls the keys; otherwise fetches, decodes and
    /// executes one instruction and lets the timers tick.
    pub fn tick_with(&mut self, random: u8) -> (res: Result<Cycle, Chip8Error>)
        requires
            old(self).wf(),
        ensures
            final(self).wf(),
            old(self).ticks(*final(self), random, res),
    {
        match self.key_wait {
            Some(x) => {
                let pressed = self.poll_keys();
                self.draw_flag = false;
                match pressed {
                    Some(k) => {
                        self.V[x] = k as u8;
                        self.key_wait = None;
                        let tone = self.count_down_timers();
                        proof {
                            assert(is_first_new_press(old(self).key_snapshot, old(self).keyboard, k as int));
                        }
                        Ok(Cycle { draw: false, tone, unrecognized: false, waiting: false })
                    },
                    None => Ok(Cycle { draw: false, tone: false, unrecognized: false, waiting: true }),
                }
            },
            None => {
                if self.pc as usize + 1 >= MEMORY_SIZE {
                    return Err(Chip8Error::AddressOverflow);
                }
                let upper = self.memory[self.pc as usize] as u16;
                let lower = self.memory[self.pc as usize + 1] as u16;
                let op = Opcode::from_bytes(upper * 256 + lower);
                self.opcode = op;
                self.draw_flag = false;
                let ghost fetched = *self;
                let r = self.execute_opcode_with(random);
                let ghost mid = *self;
                proof {
                    assert(fetched.executes(mid, random, r));
                }
                match r {
                    Err(e) => {
                        return Err(e);
                    },
                    Ok(_) => {},
                }
                if self.key_wait.is_some() {
                    return Ok(Cycle { draw: false, tone: false, unrecognized: false, waiting: true });
                }
                let tone = self.count_down_timers();
                let unrecognized = op == Opcode::UNDEFINED;
                Ok(Cycle { draw: self.draw_flag, tone, unrecognized, waiting: false })
            },
        }
    }

    /// Runs one cycle, drawing a random byte for a random operation. The
    /// outcome is that of `tick_with` for some byte.
    pub fn tick(&mut self) -> (res: Result<Cycle, Chip8Error>)
        requires
            old(self).wf(),
        ensures
            final(self).wf(),
            exists|random: u8| old(self).ticks(*final(self), random, res),
    {
        let random = random_byte();
        self.tick_with(random)
    }
}

} // verus!
