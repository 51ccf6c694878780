//! The mathematical model of the virtual machine: the ghost state, the
//! per-instruction step relation, and the side conditions under which a step
//! stays inside the machine's bounds.

use vstd::prelude::*;
use crate::instruction::{Addr, Const, Instruction, Reg};

verus! {

/// Size of the address space in bytes.
pub const MEM_SIZE: usize = 4096;

/// Number of general-purpose registers.
pub const NUM_REGISTERS: usize = 16;

/// Number of return addresses the call stack can hold.
pub const STACK_SIZE: usize = 256;

/// Address at which programs are loaded and execution starts.
pub const PC_START: u16 = 0x200;

/// The machine state as the contracts speak of it. The screen belongs to the
/// output capability, but it is part of the model so that the effect of the
/// drawing instructions can be stated.
#[verifier::ext_equal]
pub struct MachineView {
    /// The 4096 bytes of memory.
    pub mem: Seq<u8>,
    /// The 16 general-purpose registers `V0..VF`.
    pub regs: Seq<u8>,
    /// The delay timer.
    pub delay: u8,
    /// The sound timer.
    pub sound: u8,
    /// The 16-bit address register `I`.
    pub i: u16,
    /// The program counter.
    pub pc: u16,
    /// The stack pointer: the number of return addresses on the stack.
    pub sp: nat,
    /// The call stack; entries at `sp` and above are dead storage.
    pub stack: Seq<u16>,
    /// The pixel grid held by the output capability: a cell that was never
    /// written is absent and reads as unset.
    pub screen: Map<(nat, nat), u8>,
}

/// The sizes every reachable machine state has.
pub open spec fn machine_wf(v: MachineView) -> bool {
    &&& v.mem.len() == MEM_SIZE
    &&& v.regs.len() == NUM_REGISTERS
    &&& v.stack.len() == STACK_SIZE
    &&& v.sp <= STACK_SIZE
}

/// A timer decremented by one step: down by at most 1, floored at 0.
pub open spec fn dec_timer(t: u8) -> u8 {
    if t > 0 {
        (t - 1) as u8
    } else {
        0
    }
}

/// The state every step reaches before the instruction's own effect: both
/// timers decremented and the program counter advanced past the instruction.
pub open spec fn tick(v: MachineView) -> MachineView {
    MachineView { delay: dec_timer(v.delay), sound: dec_timer(v.sound), pc: (v.pc + 2) as u16, ..v }
}

/// The state with the next instruction skipped.
pub open spec fn skip_next(v: MachineView) -> MachineView {
    MachineView { pc: (v.pc + 2) as u16, ..v }
}

/// 8-bit wrapping sum.
pub open spec fn wrap_add(a: u8, b: u8) -> u8 {
    ((a + b) % 256) as u8
}

/// 8-bit wrapping difference.
pub open spec fn wrap_sub(a: u8, b: u8) -> u8 {
    if a >= b {
        (a - b) as u8
    } else {
        (a - b + 256) as u8
    }
}

/// The ones digit of a register value.
pub open spec fn bcd_ones(v: u8) -> u8 {
    (v % 10) as u8
}

/// The tens digit of a register value.
pub open spec fn bcd_tens(v: u8) -> u8 {
    ((v / 10) % 10) as u8
}

/// The hundreds digit of a register value.
pub open spec fn bcd_hundreds(v: u8) -> u8 {
    (((v / 10) / 10) % 10) as u8
}

/// Whether a polled key is a possible report of the input capability:
/// absent, or a 4-bit key code.
pub open spec fn key_ok(k: Option<u8>) -> bool {
    match k {
        Some(key) => key <= 0xF,
        None => true,
    }
}

/// The pixel held at a cell: 0 where the cell was never written.
pub open spec fn pixel_at(screen: Map<(nat, nat), u8>, x: nat, y: nat) -> u8 {
    if screen.dom().contains((x, y)) {
        screen[(x, y)]
    } else {
        0
    }
}

/// Whether a cell lies inside the 8-pixel-wide, `rows`-pixel-tall rectangle
/// a sprite drawn at `(x0, y0)` covers.
pub open spec fn in_sprite(x0: nat, y0: nat, rows: nat, c: (nat, nat)) -> bool {
    x0 <= c.0 < x0 + 8 && y0 <= c.1 < y0 + rows
}

/// Bit `w` of a sprite row, most significant first.
pub open spec fn row_bit(row: u8, w: nat) -> u8 {
    (row >> ((7 - w) as u8)) & 1
}

/// The sprite bit that lands on cell `c` when the sprite is drawn at
/// `(x0, y0)`.
pub open spec fn sprite_bit(sprite: Seq<u8>, x0: nat, y0: nat, c: (nat, nat)) -> u8
    recommends
        in_sprite(x0, y0, sprite.len(), c),
{
    row_bit(sprite[c.1 - y0], (c.0 - x0) as nat)
}

/// The screen after XOR-blitting a sprite at `(x0, y0)`: every covered cell
/// is written with the XOR of its prior value and the sprite bit (so it is in
/// the domain afterwards even when the write keeps its value), and every
/// other cell is untouched.
pub open spec fn draw_pixels(screen: Map<(nat, nat), u8>, sprite: Seq<u8>, x0: nat, y0: nat) -> Map<
    (nat, nat),
    u8,
> {
    Map::new(
        |c: (nat, nat)| screen.dom().contains(c) || in_sprite(x0, y0, sprite.len(), c),
        |c: (nat, nat)|
            if in_sprite(x0, y0, sprite.len(), c) {
                pixel_at(screen, c.0, c.1) ^ sprite_bit(sprite, x0, y0, c)
            } else {
                screen[c]
            },
    )
}

/// Whether XOR-blitting the sprite turns some previously-set cell off: the
/// collision condition of the draw instruction, judged cell by cell.
pub open spec fn draw_collision(screen: Map<(nat, nat), u8>, sprite: Seq<u8>, x0: nat, y0: nat) -> bool {
    exists|c: (nat, nat)|
        in_sprite(x0, y0, sprite.len(), c) && pixel_at(screen, c.0, c.1) == 1 && pixel_at(
            screen,
            c.0,
            c.1,
        ) ^ sprite_bit(sprite, x0, y0, c) == 0
}

/// Memory after the registers `V0..Vx` are written at `base`.
pub open spec fn write_regs(mem: Seq<u8>, regs: Seq<u8>, base: int, x: int) -> Seq<u8> {
    Seq::new(mem.len(), |j: int| if base <= j <= base + x { regs[j - base] } else { mem[j] })
}

/// Registers after `V0..Vx` are read back from memory at `base`; registers
/// above `Vx` are untouched.
pub open spec fn load_regs(regs: Seq<u8>, mem: Seq<u8>, base: int, x: int) -> Seq<u8> {
    Seq::new(regs.len(), |j: int| if j <= x { mem[base + j] } else { regs[j] })
}

/// The conditions under which one instruction executes without leaving the
/// machine's bounds: register indices are 4-bit, the program counter does not
/// run off the address space, the stack neither overflows nor underflows, and
/// memory reads and writes computed from `I` stay below `MEM_SIZE`. The
/// machine has no memory protection, so executing an instruction outside
/// these bounds is a fault; the engine requires them instead of faulting.
pub open spec fn instr_ok(v: MachineView, instruction: Instruction) -> bool {
    v.pc + 2 <= u16::MAX && match instruction {
        Instruction::ClearScreen => true,
        Instruction::Return => v.sp >= 1,
        Instruction::Goto(_) => true,
        Instruction::Call(_) => v.sp < STACK_SIZE,
        Instruction::IfRegEqConst(Reg(x), Const(n)) => x < 16 && (v.regs[x as int] == n ==> v.pc
            + 4 <= u16::MAX),
        Instruction::IfRegNeqConst(Reg(x), Const(n)) => x < 16 && (v.regs[x as int] != n ==> v.pc
            + 4 <= u16::MAX),
        Instruction::IfRegEqReg(Reg(x), Reg(y)) => x < 16 && y < 16 && (v.regs[x as int]
            == v.regs[y as int] ==> v.pc + 4 <= u16::MAX),
        Instruction::SetRegToConst(Reg(x), _) => x < 16,
        Instruction::IncRegByConst(Reg(x), _) => x < 16,
        Instruction::SetRegToReg(Reg(x), Reg(y)) => x < 16 && y < 16,
        Instruction::BitwiseOr(Reg(x), Reg(y)) => x < 16 && y < 16,
        Instruction::BitwiseAnd(Reg(x), Reg(y)) => x < 16 && y < 16,
        Instruction::BitwiseXor(Reg(x), Reg(y)) => x < 16 && y < 16,
        Instruction::IncRegByReg(Reg(x), Reg(y)) => x < 16 && y < 16,
        Instruction::DecRegByReg(Reg(x), Reg(y)) => x < 16 && y < 16,
        Instruction::BitshiftRight(Reg(x)) => x < 16,
        Instruction::SetVxVyMinusVx(Reg(x), Reg(y)) => x < 16 && y < 16,
        Instruction::BitshiftLeft(Reg(x)) => x < 16,
        Instruction::IfRegNeqReg(Reg(x), Reg(y)) => x < 16 && y < 16 && (v.regs[x as int]
            != v.regs[y as int] ==> v.pc + 4 <= u16::MAX),
        Instruction::SetI(_) => true,
        Instruction::SetPcToV0PlusAddr(Addr(a)) => v.regs[0] + a <= u16::MAX,
        Instruction::SetVxRand(Reg(x), _) => x < 16,
        Instruction::Draw(Reg(x), Reg(y), Const(n)) => x < 16 && y < 16 && v.i + n <= MEM_SIZE,
        Instruction::IfKeyEqVx(Reg(x)) => x < 16 && v.pc + 4 <= u16::MAX,
        Instruction::IfKeyNeqVx(Reg(x)) => x < 16 && v.pc + 4 <= u16::MAX,
        Instruction::SetRegToDelayTimer(Reg(x)) => x < 16,
        Instruction::SetRegToGetKey(Reg(x)) => x < 16,
        Instruction::SetDelayTimerToReg(Reg(x)) => x < 16,
        Instruction::SetSoundTimerToReg(Reg(x)) => x < 16,
        Instruction::AddRegToI(Reg(x)) => x < 16 && v.i + v.regs[x as int] <= u16::MAX,
        Instruction::SetIToSpriteAddrVx(Reg(x)) => x < 16,
        Instruction::SetIToBcdOfReg(Reg(x)) => x < 16 && v.i + 3 <= MEM_SIZE,
        Instruction::RegDump(Reg(x)) => x < 16 && v.i + x + 1 <= MEM_SIZE,
        Instruction::RegLoad(Reg(x)) => x < 16 && v.i + x + 1 <= MEM_SIZE,
    }
}

/// What one step does: both timers are decremented (floored at 0) and the
/// program counter is advanced past the instruction, and then the
/// instruction's own effect is applied to that state. Instructions whose
/// result depends on the key or byte the capability hands back are related to
/// every such outcome.
pub open spec fn step_rel(pre: MachineView, instruction: Instruction, post: MachineView) -> bool {
    let t = tick(pre);
    match instruction {
        Instruction::ClearScreen => post == MachineView { screen: Map::empty(), ..t },
        Instruction::Return => post == MachineView {
            sp: (t.sp - 1) as nat,
            pc: t.stack[t.sp - 1],
            ..t
        },
        Instruction::Goto(Addr(a)) => post == MachineView { pc: a, ..t },
        Instruction::Call(Addr(a)) => post == MachineView {
            stack: t.stack.update(t.sp as int, t.pc),
            sp: (t.sp + 1) as nat,
            pc: a,
            ..t
        },
        Instruction::IfRegEqConst(Reg(x), Const(n)) => post == (if t.regs[x as int] == n {
            skip_next(t)
        } else {
            t
        }),
        Instruction::IfRegNeqConst(Reg(x), Const(n)) => post == (if t.regs[x as int] != n {
            skip_next(t)
        } else {
            t
        }),
        Instruction::IfRegEqReg(Reg(x), Reg(y)) => post == (if t.regs[x as int] == t.regs[y as int] {
            skip_next(t)
        } else {
            t
        }),
        Instruction::SetRegToConst(Reg(x), Const(n)) => post == MachineView {
            regs: t.regs.update(x as int, n),
            ..t
        },
        Instruction::IncRegByConst(Reg(x), Const(n)) => post == MachineView {
            regs: t.regs.update(x as int, wrap_add(t.regs[x as int], n)),
            ..t
        },
        Instruction::SetRegToReg(Reg(x), Reg(y)) => post == MachineView {
            regs: t.regs.update(x as int, t.regs[y as int]),
            ..t
        },
        Instruction::BitwiseOr(Reg(x), Reg(y)) => post == MachineView {
            regs: t.regs.update(x as int, t.regs[x as int] | t.regs[y as int]),
            ..t
        },
        Instruction::BitwiseAnd(Reg(x), Reg(y)) => post == MachineView {
            regs: t.regs.update(x as int, t.regs[x as int] & t.regs[y as int]),
            ..t
        },
        Instruction::BitwiseXor(Reg(x), Reg(y)) => post == MachineView {
            regs: t.regs.update(x as int, t.regs[x as int] ^ t.regs[y as int]),
            ..t
        },
        Instruction::IncRegByReg(Reg(x), Reg(y)) => {
            let a = t.regs[x as int];
            let b = t.regs[y as int];
            post == MachineView {
                regs: t.regs.update(x as int, wrap_add(a, b)).update(
                    15,
                    if a + b > 255 {
                        1u8
                    } else {
                        0u8
                    },
                ),
                ..t
            }
        },
        Instruction::DecRegByReg(Reg(x), Reg(y)) => {
            let a = t.regs[x as int];
            let b = t.regs[y as int];
            post == MachineView {
                regs: t.regs.update(x as int, wrap_sub(a, b)).update(
                    15,
                    if a >= b {
                        1u8
                    } else {
                        0u8
                    },
                ),
                ..t
            }
        },
        Instruction::BitshiftRight(Reg(x)) => {
            // The flag is the final write, so a shift of `VF` itself ends
            // with the flag, not the shifted value.
            let a = t.regs[x as int];
            post == MachineView { regs: t.regs.update(x as int, a >> 1).update(15, a & 1), ..t }
        },
        Instruction::SetVxVyMinusVx(Reg(x), Reg(y)) => {
            let a = t.regs[x as int];
            let b = t.regs[y as int];
            post == MachineView {
                regs: t.regs.update(x as int, wrap_sub(b, a)).update(
                    15,
                    if b >= a {
                        1u8
                    } else {
                        0u8
                    },
                ),
                ..t
            }
        },
        Instruction::BitshiftLeft(Reg(x)) => {
            // As for the right shift, the flag is the final write.
            let a = t.regs[x as int];
            post == MachineView {
                regs: t.regs.update(x as int, wrap_add(a, a)).update(15, a >> 7),
                ..t
            }
        },
        Instruction::IfRegNeqReg(Reg(x), Reg(y)) => post == (if t.regs[x as int] != t.regs[y as int] {
            skip_next(t)
        } else {
            t
        }),
        Instruction::SetI(Addr(a)) => post == MachineView { i: a, ..t },
        Instruction::SetPcToV0PlusAddr(Addr(a)) => post == MachineView {
            pc: (t.regs[0] + a) as u16,
            ..t
        },
        Instruction::SetVxRand(Reg(x), Const(n)) => {
            // The drawn byte is random, so the relation holds of every
            // outcome; only the mask pins bits down.
            &&& post == MachineView { regs: t.regs.update(x as int, post.regs[x as int]), ..t }
            &&& post.regs[x as int] & n == post.regs[x as int]
        },
        Instruction::Draw(Reg(x), Reg(y), Const(n)) => {
            let x0 = t.regs[x as int] as nat;
            let y0 = t.regs[y as int] as nat;
            let sprite = t.mem.subrange(t.i as int, t.i + n);
            post == MachineView {
                regs: t.regs.update(
                    15,
                    if draw_collision(t.screen, sprite, x0, y0) {
                        1u8
                    } else {
                        0u8
                    },
                ),
                screen: draw_pixels(t.screen, sprite, x0, y0),
                ..t
            }
        },
        Instruction::IfKeyEqVx(Reg(x)) => exists|k: Option<u8>|
            #[trigger] key_ok(k) && post == (if k == Some(t.regs[x as int]) {
                skip_next(t)
            } else {
                t
            }),
        Instruction::IfKeyNeqVx(Reg(x)) => exists|k: Option<u8>|
            #[trigger] key_ok(k) && post == (if k != Some(t.regs[x as int]) {
                skip_next(t)
            } else {
                t
            }),
        Instruction::SetRegToDelayTimer(Reg(x)) => post == MachineView {
            regs: t.regs.update(x as int, t.delay),
            ..t
        },
        Instruction::SetRegToGetKey(Reg(x)) => {
            // Which key arrives is the input capability's affair; every
            // outcome is a 4-bit key code.
            &&& post == MachineView { regs: t.regs.update(x as int, post.regs[x as int]), ..t }
            &&& post.regs[x as int] <= 0xF
        },
        Instruction::SetDelayTimerToReg(Reg(x)) => post == MachineView {
            delay: t.regs[x as int],
            ..t
        },
        Instruction::SetSoundTimerToReg(Reg(x)) => post == MachineView {
            sound: t.regs[x as int],
            ..t
        },
        Instruction::AddRegToI(Reg(x)) => post == MachineView {
            i: (t.i + t.regs[x as int]) as u16,
            ..t
        },
        Instruction::SetIToSpriteAddrVx(Reg(x)) => post == MachineView {
            i: (5 * t.regs[x as int]) as u16,
            ..t
        },
        Instruction::SetIToBcdOfReg(Reg(x)) => {
            let v = t.regs[x as int];
            post == MachineView {
                mem: t.mem.update(t.i + 2, bcd_ones(v)).update(t.i + 1, bcd_tens(v)).update(
                    t.i as int,
                    bcd_hundreds(v),
                ),
                ..t
            }
        },
        Instruction::RegDump(Reg(x)) => post == MachineView {
            mem: write_regs(t.mem, t.regs, t.i as int, x as int),
            ..t
        },
        Instruction::RegLoad(Reg(x)) => post == MachineView {
            regs: load_regs(t.regs, t.mem, t.i as int, x as int),
            ..t
        },
    }
}

/// The instruction fetched at the program counter, where it decodes.
pub open spec fn fetch(v: MachineView) -> Option<Instruction> {
    crate::instruction::decode(v.mem[v.pc as int], v.mem[v.pc + 1])
}

/// Whether a fetch-decode-execute step is possible: the program counter and
/// its successor lie in memory, the bytes there decode, and the decoded
/// instruction meets its own side conditions.
pub open spec fn step_ok(v: MachineView) -> bool {
    &&& v.pc + 1 < MEM_SIZE
    &&& fetch(v) matches Some(instruction) && instr_ok(v, instruction)
}

/// Execution of a whole instruction sequence: the chain of states related by
/// `step_rel`, one instruction at a time.
pub open spec fn exec_seq_rel(pre: MachineView, s: Seq<Instruction>, post: MachineView) -> bool
    decreases s.len(),
{
    if s.len() == 0 {
        post == pre
    } else {
        exists|mid: MachineView|
            step_rel(pre, s[0], mid) && exec_seq_rel(mid, s.subrange(1, s.len() as int), post)
    }
}

/// Whether a whole instruction sequence executes within bounds: the side
/// conditions of each instruction hold in every state its predecessors can
/// reach.
pub open spec fn seq_ok(v: MachineView, s: Seq<Instruction>) -> bool
    decreases s.len(),
{
    s.len() == 0 || {
        &&& instr_ok(v, s[0])
        &&& forall|mid: MachineView|
            step_rel(v, s[0], mid) ==> seq_ok(mid, s.subrange(1, s.len() as int))
    }
}

/// How many program bytes a load copies: all of them, unless the program
/// runs past the end of memory, in which case the excess is discarded.
pub open spec fn load_len(mem_len: int, program_len: int, base: int) -> int {
    if program_len <= mem_len - base {
        program_len
    } else {
        mem_len - base
    }
}

/// Memory after a program is copied in at `base`, truncated at the end of
/// memory.
pub open spec fn load_mem(mem: Seq<u8>, program: Seq<u8>, base: int) -> Seq<u8> {
    Seq::new(
        mem.len(),
        |j: int|
            if base <= j < base + load_len(mem.len() as int, program.len() as int, base) {
                program[j - base]
            } else {
                mem[j]
            },
    )
}

/// Chaining: a sequence execution followed by one more step executes the
/// sequence extended by that step's instruction.
pub proof fn lemma_exec_seq_rel_snoc(
    pre: MachineView,
    s: Seq<Instruction>,
    mid: MachineView,
    instruction: Instruction,
    post: MachineView,
)
    requires
        exec_seq_rel(pre, s, mid),
        step_rel(mid, instruction, post),
    ensures
        exec_seq_rel(pre, s.push(instruction), post),
    decreases s.len(),
{
    if s.len() == 0 {
        assert(s.push(instruction)[0] == instruction);
        assert(s.push(instruction).subrange(1, 1) =~= Seq::<Instruction>::empty());
        assert(exec_seq_rel(post, s.push(instruction).subrange(1, 1), post));
    } else {
        let m = choose|m: MachineView|
            step_rel(pre, s[0], m) && exec_seq_rel(m, s.subrange(1, s.len() as int), mid);
        lemma_exec_seq_rel_snoc(m, s.subrange(1, s.len() as int), mid, instruction, post);
        assert(s.push(instruction).subrange(1, s.len() as int + 1) =~= s.subrange(
            1,
            s.len() as int,
        ).push(instruction));
        assert(s.push(instruction)[0] == s[0]);
        assert(step_rel(pre, s.push(instruction)[0], m) && exec_seq_rel(
            m,
            s.push(instruction).subrange(1, s.len() as int + 1),
            post,
        ));
    }
}

/// The built-in font: 16 glyphs of 5 bytes each, one per hexadecimal digit.
pub open spec fn font_seq() -> Seq<u8> {
    seq![
        0xF0u8, 0x90, 0x90, 0x90, 0xF0, // 0
        0x20, 0x60, 0x20, 0x20, 0x70, // 1
        0xF0, 0x10, 0xF0, 0x80, 0xF0, // 2
        0xF0, 0x10, 0xF0, 0x10, 0xF0, // 3
        0x90, 0x90, 0xF0, 0x10, 0x10, // 4
        0xF0, 0x80, 0xF0, 0x10, 0xF0, // 5
        0xF0, 0x80, 0xF0, 0x90, 0xF0, // 6
        0xF0, 0x10, 0x20, 0x40, 0x40, // 7
        0xF0, 0x90, 0xF0, 0x90, 0xF0, // 8
        0xF0, 0x90, 0xF0, 0x10, 0xF0, // 9
        0xF0, 0x90, 0xF0, 0x90, 0x90, // A
        0xE0, 0x90, 0xE0, 0x90, 0xE0, // B
        0xF0, 0x80, 0x80, 0x80, 0xF0, // C
        0xE0, 0x90, 0x90, 0x90, 0xE0, // D
        0xF0, 0x80, 0xF0, 0x80, 0xF0, // E
        0xF0, 0x80, 0xF0, 0x80, 0x80, // F
    ]
}

/// The state of a freshly built machine: the font in low memory, everything
/// else zeroed, the program counter at `PC_START`, and whatever screen the
/// output capability came with.
pub open spec fn boot(screen: Map<(nat, nat), u8>) -> MachineView {
    MachineView {
        mem: Seq::new(MEM_SIZE as nat, |j: int| if j < 80 { font_seq()[j] } else { 0u8 }),
        regs: Seq::new(NUM_REGISTERS as nat, |j: int| 0u8),
        delay: 0,
        sound: 0,
        i: 0,
        pc: PC_START,
        sp: 0,
        stack: Seq::new(STACK_SIZE as nat, |j: int| 0u16),
        screen: screen,
    }
}

} // verus!
