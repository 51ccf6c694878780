//! The laws the machine obeys, proved once and for all from the contracts of
//! the decoder and the execution engine.

use vstd::prelude::*;
use crate::bit_splitter::word_of;
use crate::instruction::{decode, encode, operands_wf, Addr, Const, Instruction, Reg};
use crate::machine::{
    MachineView, MEM_SIZE, STACK_SIZE, machine_wf, step_rel, exec_seq_rel, tick, wrap_add,
    wrap_sub, pixel_at, in_sprite, sprite_bit, row_bit, draw_pixels, draw_collision, write_regs,
    load_regs, bcd_ones, bcd_tens, bcd_hundreds,
};

verus! {

/// A low byte composed of two nibbles splits back into them.
proof fn lemma_byte_nibbles(y: u8, k: u8)
    requires
        y < 16,
        k < 16,
    ensures
        ((y << 4) | k) >> 4 == y,
        ((y << 4) | k) & 0xF == k,
{
    assert(((y << 4) | k) >> 4 == y && ((y << 4) | k) & 0xF == k) by (bit_vector)
        requires
            y < 16,
            k < 16,
    ;
}

/// A high byte composed of a family mask and a register index splits back
/// into them.
proof fn lemma_family_byte(family: u8, x: u8)
    requires
        family % 16 == 0,
        x < 16,
    ensures
        (family | x) >> 4 == family / 16,
        (family | x) & 0xF == x,
{
    assert((family | x) >> 4 == family / 16 && (family | x) & 0xF == x) by (bit_vector)
        requires
            family % 16 == 0,
            x < 16,
    ;
}

/// The nibbles of a byte are its base-16 digits.
proof fn lemma_byte_digits(b: u8)
    ensures
        b >> 4 == b / 16,
        b & 0xF == b % 16,
{
    assert(b >> 4 == b / 16 && b & 0xF == b % 16) by (bit_vector);
}

/// A 12-bit address split over a high byte's low nibble and the low byte
/// comes back out of the 16-bit word.
proof fn lemma_addr_bytes(family: u8, a: u16)
    requires
        family % 16 == 0,
        a <= 0xFFF,
    ensures
        (family | (a >> 8) as u8) >> 4 == family / 16,
        word_of(family | (a >> 8) as u8, a as u8) & 0xFFF == a,
{
    assert((family | (a >> 8) as u8) >> 4 == family / 16 && (((((family | (a >> 8) as u8) as u16)
        << 8) | (a as u8 as u16)) & 0xFFF) == a) by (bit_vector)
        requires
            family % 16 == 0,
            a <= 0xFFF,
    ;
}

/// Decode/encode round trip: decoding the byte pair that encodes an
/// instruction reconstructs that instruction, operand values and all.
pub proof fn lemma_decode_encode_round_trip(instruction: Instruction)
    requires
        operands_wf(instruction),
    ensures
        decode(encode(instruction).0, encode(instruction).1) == Some(instruction),
{
    lemma_byte_digits(encode(instruction).0);
    lemma_byte_digits(encode(instruction).1);
    match instruction {
        Instruction::ClearScreen => {},
        Instruction::Return => {},
        Instruction::Goto(Addr(a)) => {
            lemma_addr_bytes(0x10, a);
        },
        Instruction::Call(Addr(a)) => {
            lemma_addr_bytes(0x20, a);
        },
        Instruction::IfRegEqConst(Reg(x), _) => {
            lemma_family_byte(0x30, x);
        },
        Instruction::IfRegNeqConst(Reg(x), _) => {
            lemma_family_byte(0x40, x);
        },
        Instruction::IfRegEqReg(Reg(x), Reg(y)) => {
            lemma_family_byte(0x50, x);
            lemma_byte_nibbles(y, 0x0);
        },
        Instruction::SetRegToConst(Reg(x), _) => {
            lemma_family_byte(0x60, x);
        },
        Instruction::IncRegByConst(Reg(x), _) => {
            lemma_family_byte(0x70, x);
        },
        Instruction::SetRegToReg(Reg(x), Reg(y)) => {
            lemma_family_byte(0x80, x);
            lemma_byte_nibbles(y, 0x0);
        },
        Instruction::BitwiseOr(Reg(x), Reg(y)) => {
            lemma_family_byte(0x80, x);
            lemma_byte_nibbles(y, 0x1);
        },
        Instruction::BitwiseAnd(Reg(x), Reg(y)) => {
            lemma_family_byte(0x80, x);
            lemma_byte_nibbles(y, 0x2);
        },
        Instruction::BitwiseXor(Reg(x), Reg(y)) => {
            lemma_family_byte(0x80, x);
            lemma_byte_nibbles(y, 0x3);
        },
        Instruction::IncRegByReg(Reg(x), Reg(y)) => {
            lemma_family_byte(0x80, x);
            lemma_byte_nibbles(y, 0x4);
        },
        Instruction::DecRegByReg(Reg(x), Reg(y)) => {
            lemma_family_byte(0x80, x);
            lemma_byte_nibbles(y, 0x5);
        },
        Instruction::BitshiftRight(Reg(x)) => {
            lemma_family_byte(0x80, x);
        },
        Instruction::SetVxVyMinusVx(Reg(x), Reg(y)) => {
            lemma_family_byte(0x80, x);
            lemma_byte_nibbles(y, 0x7);
        },
        Instruction::BitshiftLeft(Reg(x)) => {
            lemma_family_byte(0x80, x);
        },
        Instruction::IfRegNeqReg(Reg(x), Reg(y)) => {
            lemma_family_byte(0x90, x);
            lemma_byte_nibbles(y, 0x0);
        },
        Instruction::SetI(Addr(a)) => {
            lemma_addr_bytes(0xA0, a);
        },
        Instruction::SetPcToV0PlusAddr(Addr(a)) => {
            lemma_addr_bytes(0xB0, a);
        },
        Instruction::SetVxRand(Reg(x), _) => {
            lemma_family_byte(0xC0, x);
        },
        Instruction::Draw(Reg(x), Reg(y), Const(n)) => {
            lemma_family_byte(0xD0, x);
            lemma_byte_nibbles(y, n);
        },
        Instruction::IfKeyEqVx(Reg(x)) => {
            lemma_family_byte(0xE0, x);
        },
        Instruction::IfKeyNeqVx(Reg(x)) => {
            lemma_family_byte(0xE0, x);
        },
        Instruction::SetRegToDelayTimer(Reg(x)) => {
            lemma_family_byte(0xF0, x);
        },
        Instruction::SetRegToGetKey(Reg(x)) => {
            lemma_family_byte(0xF0, x);
        },
        Instruction::SetDelayTimerToReg(Reg(x)) => {
            lemma_family_byte(0xF0, x);
        },
        Instruction::SetSoundTimerToReg(Reg(x)) => {
            lemma_family_byte(0xF0, x);
        },
        Instruction::AddRegToI(Reg(x)) => {
            lemma_family_byte(0xF0, x);
        },
        Instruction::SetIToSpriteAddrVx(Reg(x)) => {
            lemma_family_byte(0xF0, x);
        },
        Instruction::SetIToBcdOfReg(Reg(x)) => {
            lemma_family_byte(0xF0, x);
        },
        Instruction::RegDump(Reg(x)) => {
            lemma_family_byte(0xF0, x);
        },
        Instruction::RegLoad(Reg(x)) => {
            lemma_family_byte(0xF0, x);
        },
    }
}

/// Register-add law: adding `Vy` into `Vx` leaves `(Vx + Vy) mod 256` in the
/// result register, and `VF` is 1 exactly when the true sum exceeds 255. The
/// result clause speaks of `Vx` other than `VF` itself, which the flag write
/// overwrites last.
pub proof fn lemma_add_reg_flag(pre: MachineView, post: MachineView, x: Reg, y: Reg)
    requires
        machine_wf(pre),
        x.0 < 16,
        y.0 < 16,
        step_rel(pre, Instruction::IncRegByReg(x, y), post),
    ensures
        ({
            let a = pre.regs[x.0 as int];
            let b = pre.regs[y.0 as int];
            &&& post.regs[15] == (if a + b > 255 {
                1u8
            } else {
                0u8
            })
            &&& (x.0 != 15 ==> post.regs[x.0 as int] == ((a + b) % 256) as u8)
        }),
{
}

/// Register-subtract law: `Vx -= Vy` leaves `(Vx - Vy) mod 256` in the
/// result register, and `VF` is 1 exactly when no borrow occurred, that is
/// when `Vx >= Vy`.
pub proof fn lemma_sub_reg_borrow(pre: MachineView, post: MachineView, x: Reg, y: Reg)
    requires
        machine_wf(pre),
        x.0 < 16,
        y.0 < 16,
        step_rel(pre, Instruction::DecRegByReg(x, y), post),
    ensures
        ({
            let a = pre.regs[x.0 as int];
            let b = pre.regs[y.0 as int];
            &&& post.regs[15] == (if a >= b {
                1u8
            } else {
                0u8
            })
            &&& (x.0 != 15 ==> post.regs[x.0 as int] == wrap_sub(a, b))
            &&& wrap_sub(a, b) == (a - b) % 256
        }),
{
}

/// Shift-right law: `VF` receives the pre-shift low bit of `Vx` as the
/// final write, and `Vx` is halved; a shift of `VF` itself ends with the
/// flag, which wins over the shifted value.
pub proof fn lemma_shift_right_flag(pre: MachineView, post: MachineView, x: Reg)
    requires
        machine_wf(pre),
        x.0 < 16,
        step_rel(pre, Instruction::BitshiftRight(x), post),
    ensures
        post.regs[15] == pre.regs[x.0 as int] & 1,
        x.0 != 15 ==> post.regs[x.0 as int] == pre.regs[x.0 as int] >> 1,
{
}

/// Shift-left law: `VF` receives the pre-shift high bit of `Vx` as the
/// final write, and `Vx` is doubled modulo 256; a shift of `VF` itself ends
/// with the flag, which wins over the shifted value.
pub proof fn lemma_shift_left_flag(pre: MachineView, post: MachineView, x: Reg)
    requires
        machine_wf(pre),
        x.0 < 16,
        step_rel(pre, Instruction::BitshiftLeft(x), post),
    ensures
        post.regs[15] == pre.regs[x.0 as int] >> 7,
        x.0 != 15 ==> post.regs[x.0 as int] == wrap_add(
            pre.regs[x.0 as int],
            pre.regs[x.0 as int],
        ),
        wrap_add(pre.regs[x.0 as int], pre.regs[x.0 as int]) == (2 * pre.regs[x.0 as int]) % 256,
{
}

/// Font-addressing law: pointing `I` at the glyph for `Vx` sets
/// `I = 5 * Vx`, each glyph being 5 bytes.
pub proof fn lemma_font_addressing(pre: MachineView, post: MachineView, x: Reg)
    requires
        machine_wf(pre),
        x.0 < 16,
        step_rel(pre, Instruction::SetIToSpriteAddrVx(x), post),
    ensures
        post.i == 5 * pre.regs[x.0 as int],
{
}

/// A sprite bit is a single bit.
proof fn lemma_row_bit_is_bit(row: u8, w: nat)
    ensures
        row_bit(row, w) == 0 || row_bit(row, w) == 1,
{
    let k = (7 - w) as u8;
    assert((row >> k) & 1 == 0 || (row >> k) & 1 == 1) by (bit_vector);
}

/// XOR on single bits: 0 is neutral, and a bit cancels itself.
proof fn lemma_xor_bits(b: u8)
    ensures
        0 ^ b == b,
        b ^ b == 0,
{
    assert(0 ^ b == b && b ^ b == 0) by (bit_vector);
}

/// Draw/collision law, first half: on a clear area, drawing a sprite that
/// sets at least one pixel and then drawing it again at the same location
/// reports a collision on the second draw, and the second draw clears every
/// pixel the first set, leaving the whole covered area clear; cells outside
/// the sprite are untouched by both draws.
pub proof fn lemma_draw_twice_restores(
    screen: Map<(nat, nat), u8>,
    sprite: Seq<u8>,
    x0: nat,
    y0: nat,
)
    requires
        forall|c: (nat, nat)| in_sprite(x0, y0, sprite.len(), c) ==> pixel_at(screen, c.0, c.1) == 0,
        exists|c: (nat, nat)|
            in_sprite(x0, y0, sprite.len(), c) && sprite_bit(sprite, x0, y0, c) == 1,
    ensures
        draw_collision(draw_pixels(screen, sprite, x0, y0), sprite, x0, y0),
        forall|c: (nat, nat)|
            in_sprite(x0, y0, sprite.len(), c) ==> pixel_at(
                draw_pixels(draw_pixels(screen, sprite, x0, y0), sprite, x0, y0),
                c.0,
                c.1,
            ) == 0,
        forall|c: (nat, nat)|
            !in_sprite(x0, y0, sprite.len(), c) ==> pixel_at(
                draw_pixels(draw_pixels(screen, sprite, x0, y0), sprite, x0, y0),
                c.0,
                c.1,
            ) == pixel_at(screen, c.0, c.1),
{
    let once = draw_pixels(screen, sprite, x0, y0);
    let twice = draw_pixels(once, sprite, x0, y0);

    assert forall|c: (nat, nat)| in_sprite(x0, y0, sprite.len(), c) implies pixel_at(
        once,
        c.0,
        c.1,
    ) == sprite_bit(sprite, x0, y0, c) by {
        lemma_xor_bits(sprite_bit(sprite, x0, y0, c));
    }

    let cw = choose|c: (nat, nat)|
        in_sprite(x0, y0, sprite.len(), c) && sprite_bit(sprite, x0, y0, c) == 1;
    assert(pixel_at(once, cw.0, cw.1) == 1);
    assert(pixel_at(once, cw.0, cw.1) ^ sprite_bit(sprite, x0, y0, cw) == 0) by {
        lemma_xor_bits(1);
    }
    assert(draw_collision(once, sprite, x0, y0));

    assert forall|c: (nat, nat)| in_sprite(x0, y0, sprite.len(), c) implies pixel_at(
        twice,
        c.0,
        c.1,
    ) == 0 by {
        lemma_row_bit_is_bit(sprite[c.1 - y0], (c.0 - x0) as nat);
        lemma_xor_bits(sprite_bit(sprite, x0, y0, c));
    }
}

/// Draw/collision law, second half: drawing onto an area where no covered
/// cell is set never reports a collision; in particular sprites drawn to
/// disjoint areas of a clear screen never collide.
pub proof fn lemma_draw_clean_area_no_collision(
    screen: Map<(nat, nat), u8>,
    sprite: Seq<u8>,
    x0: nat,
    y0: nat,
)
    requires
        forall|c: (nat, nat)| in_sprite(x0, y0, sprite.len(), c) ==> pixel_at(screen, c.0, c.1) != 1,
    ensures
        !draw_collision(screen, sprite, x0, y0),
{
}

/// The instructions that only advance the program counter past themselves:
/// everything but the jumps, the calls and returns, and the conditional
/// skips.
pub open spec fn straightline(instruction: Instruction) -> bool {
    match instruction {
        Instruction::Return
        | Instruction::Goto(_)
        | Instruction::Call(_)
        | Instruction::SetPcToV0PlusAddr(_)
        | Instruction::IfRegEqConst(_, _)
        | Instruction::IfRegNeqConst(_, _)
        | Instruction::IfRegEqReg(_, _)
        | Instruction::IfRegNeqReg(_, _)
        | Instruction::IfKeyEqVx(_)
        | Instruction::IfKeyNeqVx(_) => false,
        _ => true,
    }
}

/// Whether a sequence of straight-line instructions, calls and returns,
/// entered with `d` calls open, closes every call: the nesting never pops an
/// open call it did not itself push, and it ends with none open.
pub open spec fn closes(s: Seq<Instruction>, d: int) -> bool
    decreases s.len(),
{
    if s.len() == 0 {
        d == 0
    } else if straightline(s[0]) {
        closes(s.subrange(1, s.len() as int), d)
    } else if s[0] is Call {
        closes(s.subrange(1, s.len() as int), d + 1)
    } else if s[0] is Return {
        d >= 1 && closes(s.subrange(1, s.len() as int), d - 1)
    } else {
        false
    }
}

/// Balanced sequences: straight-line instructions, and calls each closed by
/// a matching return.
pub open spec fn balanced(s: Seq<Instruction>) -> bool {
    closes(s, 0)
}

/// How many of the sequence's instructions run at its own call depth, when
/// it is entered with `d` calls open: each straight-line instruction and
/// each call at depth 0 counts one; everything inside a call counts nothing,
/// because its matching return discards the program counter it built up.
pub open spec fn outer_count(s: Seq<Instruction>, d: int) -> int
    decreases s.len(),
{
    if s.len() == 0 {
        0
    } else {
        let here: int = if d == 0 && !(s[0] is Return) {
            1
        } else {
            0
        };
        let d2: int = if s[0] is Call {
            d + 1
        } else if s[0] is Return {
            d - 1
        } else {
            d
        };
        here + outer_count(s.subrange(1, s.len() as int), d2)
    }
}

/// The deepest call nesting the sequence reaches, entered with `d` calls
/// open.
pub open spec fn peak_depth(s: Seq<Instruction>, d: int) -> int
    decreases s.len(),
{
    if s.len() == 0 {
        d
    } else {
        let d2: int = if s[0] is Call {
            d + 1
        } else if s[0] is Return {
            d - 1
        } else {
            d
        };
        let rest = peak_depth(s.subrange(1, s.len() as int), d2);
        if d >= rest {
            d
        } else {
            rest
        }
    }
}

/// The nesting a sequence reaches is at least the nesting it is entered
/// with, and what it runs at its own depth is at most its length.
proof fn lemma_walk_bounds(s: Seq<Instruction>, d: int)
    ensures
        peak_depth(s, d) >= d,
        0 <= outer_count(s, d) <= s.len(),
    decreases s.len(),
{
    if s.len() > 0 {
        let d2: int = if s[0] is Call {
            d + 1
        } else if s[0] is Return {
            d - 1
        } else {
            d
        };
        lemma_walk_bounds(s.subrange(1, s.len() as int), d2);
        if s[0] is Return {
            assert(peak_depth(s.subrange(1, s.len() as int), d2) >= d - 1);
        }
    }
}

/// A straight-line step leaves the program counter advanced past the
/// instruction and the call stack untouched.
proof fn lemma_straightline_step(pre: MachineView, instruction: Instruction, post: MachineView)
    requires
        straightline(instruction),
        step_rel(pre, instruction, post),
    ensures
        post.pc == ((pre.pc + 2) as u16),
        post.sp == pre.sp,
        post.stack == pre.stack,
{
    let t = tick(pre);
    match instruction {
        Instruction::ClearScreen => {
            assert(post == (MachineView { screen: Map::empty(), ..t }));
        },
        Instruction::SetRegToConst(Reg(x), Const(n)) => {
            assert(post == (MachineView { regs: t.regs.update(x as int, n), ..t }));
        },
        Instruction::IncRegByConst(Reg(x), Const(n)) => {
            assert(post == (MachineView {
                regs: t.regs.update(x as int, wrap_add(t.regs[x as int], n)),
                ..t
            }));
        },
        Instruction::SetRegToReg(Reg(x), Reg(y)) => {
            assert(post == (MachineView { regs: t.regs.update(x as int, t.regs[y as int]), ..t }));
        },
        Instruction::BitwiseOr(Reg(x), Reg(y)) => {
            assert(post == (MachineView {
                regs: t.regs.update(x as int, t.regs[x as int] | t.regs[y as int]),
                ..t
            }));
        },
        Instruction::BitwiseAnd(Reg(x), Reg(y)) => {
            assert(post == (MachineView {
                regs: t.regs.update(x as int, t.regs[x as int] & t.regs[y as int]),
                ..t
            }));
        },
        Instruction::BitwiseXor(Reg(x), Reg(y)) => {
            assert(post == (MachineView {
                regs: t.regs.update(x as int, t.regs[x as int] ^ t.regs[y as int]),
                ..t
            }));
        },
        Instruction::IncRegByReg(Reg(x), Reg(y)) => {
            let a = t.regs[x as int];
            let b = t.regs[y as int];
            assert(post == (MachineView {
                regs: t.regs.update(x as int, wrap_add(a, b)).update(
                    15,
                    if a + b > 255 {
                        1u8
                    } else {
                        0u8
                    },
                ),
                ..t
            }));
        },
        Instruction::DecRegByReg(Reg(x), Reg(y)) => {
            let a = t.regs[x as int];
            let b = t.regs[y as int];
            assert(post == (MachineView {
                regs: t.regs.update(x as int, wrap_sub(a, b)).update(
                    15,
                    if a >= b {
                        1u8
                    } else {
                        0u8
                    },
                ),
                ..t
            }));
        },
        Instruction::BitshiftRight(Reg(x)) => {
            let a = t.regs[x as int];
            assert(post == (MachineView {
                regs: t.regs.update(x as int, a >> 1).update(15, a & 1),
                ..t
            }));
        },
        Instruction::SetVxVyMinusVx(Reg(x), Reg(y)) => {
            let a = t.regs[x as int];
            let b = t.regs[y as int];
            assert(post == (MachineView {
                regs: t.regs.update(x as int, wrap_sub(b, a)).update(
                    15,
                    if b >= a {
                        1u8
                    } else {
                        0u8
                    },
                ),
                ..t
            }));
        },
        Instruction::BitshiftLeft(Reg(x)) => {
            let a = t.regs[x as int];
            assert(post == (MachineView {
                regs: t.regs.update(x as int, wrap_add(a, a)).update(15, a >> 7),
                ..t
            }));
        },
        Instruction::SetI(Addr(a)) => {
            assert(post == (MachineView { i: a, ..t }));
        },
        Instruction::SetVxRand(Reg(x), Const(n)) => {
            assert(post == (MachineView {
                regs: t.regs.update(x as int, post.regs[x as int]),
                ..t
            }));
        },
        Instruction::Draw(Reg(x), Reg(y), Const(n)) => {
            let x0 = t.regs[x as int] as nat;
            let y0 = t.regs[y as int] as nat;
            let sprite = t.mem.subrange(t.i as int, t.i + n);
            assert(post == (MachineView {
                regs: t.regs.update(
                    15,
                    if draw_collision(t.screen, sprite, x0, y0) {
                        1u8
                    } else {
                        0u8
                    },
                ),
                screen: draw_pixels(t.screen, sprite, x0, y0),
                ..t
            }));
        },
        Instruction::SetRegToDelayTimer(Reg(x)) => {
            assert(post == (MachineView { regs: t.regs.update(x as int, t.delay), ..t }));
        },
        Instruction::SetRegToGetKey(Reg(x)) => {
            assert(post == (MachineView {
                regs: t.regs.update(x as int, post.regs[x as int]),
                ..t
            }));
        },
        Instruction::SetDelayTimerToReg(Reg(x)) => {
            assert(post == (MachineView { delay: t.regs[x as int], ..t }));
        },
        Instruction::SetSoundTimerToReg(Reg(x)) => {
            assert(post == (MachineView { sound: t.regs[x as int], ..t }));
        },
        Instruction::AddRegToI(Reg(x)) => {
            assert(post == (MachineView { i: (t.i + t.regs[x as int]) as u16, ..t }));
        },
        Instruction::SetIToSpriteAddrVx(Reg(x)) => {
            assert(post == (MachineView { i: (5 * t.regs[x as int]) as u16, ..t }));
        },
        Instruction::SetIToBcdOfReg(Reg(x)) => {
            let v = t.regs[x as int];
            assert(post == (MachineView {
                mem: t.mem.update(t.i + 2, bcd_ones(v)).update(t.i + 1, bcd_tens(v)).update(
                    t.i as int,
                    bcd_hundreds(v),
                ),
                ..t
            }));
        },
        Instruction::RegDump(Reg(x)) => {
            assert(post == (MachineView {
                mem: write_regs(t.mem, t.regs, t.i as int, x as int),
                ..t
            }));
        },
        Instruction::RegLoad(Reg(x)) => {
            assert(post == (MachineView {
                regs: load_regs(t.regs, t.mem, t.i as int, x as int),
                ..t
            }));
        },
        _ => {},
    }
}

/// The state a sequence execution steps through first.
proof fn lemma_exec_seq_rel_head(
    pre: MachineView,
    s: Seq<Instruction>,
    post: MachineView,
) -> (mid: MachineView)
    requires
        s.len() > 0,
        exec_seq_rel(pre, s, post),
    ensures
        step_rel(pre, s[0], mid),
        exec_seq_rel(mid, s.subrange(1, s.len() as int), post),
{
    reveal_with_fuel(exec_seq_rel, 2);
    assert(exists|mid: MachineView|
        #[trigger] step_rel(pre, s[0], mid) && exec_seq_rel(
            mid,
            s.subrange(1, s.len() as int),
            post,
        ));
    choose|mid: MachineView|
        #[trigger] step_rel(pre, s[0], mid) && exec_seq_rel(
            mid,
            s.subrange(1, s.len() as int),
            post,
        )
}

/// The induction behind the call/return law: walking a closing sequence
/// entered with `d` calls open and `w` instructions already run at the
/// outermost depth. While calls are open, the entry of the walk's own
/// frame holds the outermost continuation, and the program counter is free;
/// at depth 0 the program counter is the continuation itself.
proof fn lemma_balanced_walk(
    pc0: int,
    sp0: int,
    stack0: Seq<u16>,
    cur: MachineView,
    s: Seq<Instruction>,
    post: MachineView,
    d: int,
    w: int,
)
    requires
        cur.stack.len() == STACK_SIZE,
        closes(s, d),
        exec_seq_rel(cur, s, post),
        0 <= sp0,
        0 <= d,
        0 <= w,
        0 <= pc0,
        cur.sp == sp0 + d,
        sp0 + peak_depth(s, d) <= STACK_SIZE,
        pc0 + 2 * (w + outer_count(s, d)) <= u16::MAX,
        forall|m: int| 0 <= m < sp0 ==> cur.stack[m] == stack0[m],
        d == 0 ==> cur.pc == pc0 + 2 * w,
        d >= 1 ==> cur.stack[sp0] == pc0 + 2 * w,
    ensures
        post.stack.len() == STACK_SIZE,
        post.sp == sp0,
        post.pc == pc0 + 2 * (w + outer_count(s, d)),
        forall|m: int| 0 <= m < sp0 ==> post.stack[m] == stack0[m],
    decreases s.len(),
{
    lemma_walk_bounds(s, d);
    if s.len() == 0 {
    } else {
        let rest = s.subrange(1, s.len() as int);
        let mid = lemma_exec_seq_rel_head(cur, s, post);
        let t = tick(cur);
        if straightline(s[0]) {
            lemma_straightline_step(cur, s[0], mid);
            lemma_walk_bounds(rest, d);
            if d == 0 {
                lemma_balanced_walk(pc0, sp0, stack0, mid, rest, post, d, w + 1);
            } else {
                lemma_balanced_walk(pc0, sp0, stack0, mid, rest, post, d, w);
            }
        } else if s[0] is Call {
            assert(peak_depth(s, d) >= peak_depth(rest, d + 1));
            lemma_walk_bounds(rest, d + 1);
            assert(mid.sp == cur.sp + 1);
            assert(mid.stack == cur.stack.update(cur.sp as int, t.pc));
            if d == 0 {
                assert(mid.stack[sp0] == t.pc);
                assert(t.pc == pc0 + 2 * (w + 1));
                lemma_balanced_walk(pc0, sp0, stack0, mid, rest, post, d + 1, w + 1);
            } else {
                assert(mid.stack[sp0] == cur.stack[sp0]);
                lemma_balanced_walk(pc0, sp0, stack0, mid, rest, post, d + 1, w);
            }
        } else {
            assert(s[0] is Return);
            assert(d >= 1);
            lemma_walk_bounds(rest, d - 1);
            assert(mid.sp == cur.sp - 1);
            assert(mid.stack == cur.stack);
            assert(mid.pc == cur.stack[cur.sp - 1]);
            if d == 1 {
                assert(mid.pc == cur.stack[sp0]);
                assert(mid.pc == pc0 + 2 * w);
                lemma_balanced_walk(pc0, sp0, stack0, mid, rest, post, 0, w);
            } else {
                assert(mid.stack[sp0] == cur.stack[sp0]);
                lemma_balanced_walk(pc0, sp0, stack0, mid, rest, post, d - 1, w);
            }
        }
    }
}

/// Call/Return law: a balanced sequence of calls, matching returns and
/// straight-line instructions, run within the stack's capacity, leaves the
/// stack pointer where it was and every live stack entry untouched, and
/// advances the program counter by two bytes per instruction run at the
/// outermost call depth, a call/return pair counting as the call alone:
/// whatever the body of a call does to the program counter, its matching
/// return discards.
pub proof fn lemma_balanced_calls(pre: MachineView, s: Seq<Instruction>, post: MachineView)
    requires
        machine_wf(pre),
        balanced(s),
        exec_seq_rel(pre, s, post),
        pre.sp + peak_depth(s, 0) <= STACK_SIZE,
        pre.pc + 2 * outer_count(s, 0) <= u16::MAX,
    ensures
        post.sp == pre.sp,
        post.pc == pre.pc + 2 * outer_count(s, 0),
        forall|m: int| 0 <= m < pre.sp ==> post.stack[m] == pre.stack[m],
{
    lemma_balanced_walk(pre.pc as int, pre.sp as int, pre.stack, pre, s, post, 0, 0);
}

/// Register dump/load round trip: dumping `V0..Vx` and loading them back
/// into a zeroed register file restores `V0..Vx` exactly; the dump writes no
/// register, and the load touches none above `Vx`.
pub proof fn lemma_reg_dump_load_round_trip(
    pre: MachineView,
    dumped: MachineView,
    cleared: MachineView,
    post: MachineView,
    x: Reg,
)
    requires
        machine_wf(pre),
        x.0 < 16,
        pre.i + x.0 + 1 <= MEM_SIZE,
        step_rel(pre, Instruction::RegDump(x), dumped),
        cleared == (MachineView { regs: Seq::new(16, |j: int| 0u8), ..dumped }),
        step_rel(cleared, Instruction::RegLoad(x), post),
    ensures
        dumped.regs == pre.regs,
        forall|j: int| 0 <= j <= x.0 ==> post.regs[j] == pre.regs[j],
        forall|j: int| x.0 < j < 16 ==> post.regs[j] == 0,
{
    assert(dumped.mem == write_regs(pre.mem, pre.regs, pre.i as int, x.0 as int));
    assert(post.regs == load_regs(cleared.regs, cleared.mem, cleared.i as int, x.0 as int));
    assert forall|j: int| 0 <= j <= x.0 implies post.regs[j] == pre.regs[j] by {
        assert(dumped.mem[pre.i + j] == pre.regs[j]);
    }
}

} // verus!
