//! The virtual CPU: machine state, program loading, and the engine that
//! fetches, decodes and executes one instruction per step.

use vstd::prelude::*;
use crate::instruction::{Addr, Const, Instruction, Reg};
use crate::input::{DummyInput, EmulatorInput};
use crate::output::{DummyOutput, EmulatorOutput};
use crate::machine::{
    MachineView, MEM_SIZE, NUM_REGISTERS, STACK_SIZE, PC_START, machine_wf, tick, boot, font_seq,
    load_mem, load_len, instr_ok, step_rel, step_ok, fetch, exec_seq_rel, seq_ok,
    lemma_exec_seq_rel_snoc, write_regs, load_regs, pixel_at, in_sprite, sprite_bit, draw_pixels,
    draw_collision, key_ok, skip_next,
};

verus! {

/// Relies on rand::random: a byte drawn from the thread-local generator.
/// Nothing is assumed of the value.
#[verifier::external_body]
fn random_byte() -> u8 {
    rand::random::<u8>()
}

/// The CHIP-8 virtual machine, generic over the keyboard-input and
/// pixel-output capabilities it is embedded with.
pub struct Emulator<I: EmulatorInput, O: EmulatorOutput> {
    // Standard fields
    memory: Vec<u8>,
    registers: Vec<u8>,
    delay_timer: u8,
    sound_timer: u8,
    i: u16,
    program_counter: u16,
    stack_pointer: usize,
    stack: Vec<u16>,

    input: I,
    output: O,
}

impl<I: EmulatorInput, O: EmulatorOutput> View for Emulator<I, O> {
    type V = MachineView;

    closed spec fn view(&self) -> MachineView {
        MachineView {
            mem: self.memory@,
            regs: self.registers@,
            delay: self.delay_timer,
            sound: self.sound_timer,
            i: self.i,
            pc: self.program_counter,
            sp: self.stack_pointer as nat,
            stack: self.stack@,
            screen: self.output.pixels(),
        }
    }
}

/// The 80 bytes of the built-in font.
fn font() -> (r: Vec<u8>)
    ensures
        r@ == font_seq(),
{
    let mut f: Vec<u8> = Vec::new();
    f.push(0xF0); f.push(0x90); f.push(0x90); f.push(0x90); f.push(0xF0); // 0
    f.push(0x20); f.push(0x60); f.push(0x20); f.push(0x20); f.push(0x70); // 1
    f.push(0xF0); f.push(0x10); f.push(0xF0); f.push(0x80); f.push(0xF0); // 2
    f.push(0xF0); f.push(0x10); f.push(0xF0); f.push(0x10); f.push(0xF0); // 3
    f.push(0x90); f.push(0x90); f.push(0xF0); f.push(0x10); f.push(0x10); // 4
    f.push(0xF0); f.push(0x80); f.push(0xF0); f.push(0x10); f.push(0xF0); // 5
    f.push(0xF0); f.push(0x80); f.push(0xF0); f.push(0x90); f.push(0xF0); // 6
    f.push(0xF0); f.push(0x10); f.push(0x20); f.push(0x40); f.push(0x40); // 7
    f.push(0xF0); f.push(0x90); f.push(0xF0); f.push(0x90); f.push(0xF0); // 8
    f.push(0xF0); f.push(0x90); f.push(0xF0); f.push(0x10); f.push(0xF0); // 9
    f.push(0xF0); f.push(0x90); f.push(0xF0); f.push(0x90); f.push(0x90); // A
    f.push(0xE0); f.push(0x90); f.push(0xE0); f.push(0x90); f.push(0xE0); // B
    f.push(0xF0); f.push(0x80); f.push(0x80); f.push(0x80); f.push(0xF0); // C
    f.push(0xE0); f.push(0x90); f.push(0x90); f.push(0x90); f.push(0xE0); // D
    f.push(0xF0); f.push(0x80); f.push(0xF0); f.push(0x80); f.push(0xF0); // E
    f.push(0xF0); f.push(0x80); f.push(0xF0); f.push(0x80); f.push(0x80); // F
    proof {
        assert(f@ =~= font_seq());
    }
    f
}

impl Emulator<DummyInput, DummyOutput> {
    /// Create a new emulator with dummy input and output.
    pub fn dummy() -> (r: Emulator<DummyInput, DummyOutput>)
        ensures
            r.wf(),
            r@ == boot(Map::<(nat, nat), u8>::empty()),
    {
        Emulator::new(DummyInput, DummyOutput::new())
    }
}

impl<I: EmulatorInput, O: EmulatorOutput> Emulator<I, O> {
    /// The sizes every reachable machine has; established by the
    /// constructors and preserved by every operation.
    pub open spec fn wf(&self) -> bool {
        machine_wf(self@)
    }

    /// Create a new emulator with input and output: the font in low memory,
    /// everything else zeroed, and the program counter at `PC_START`.
    pub fn new(input: I, output: O) -> (r: Self)
        ensures
            r.wf(),
            r@ == boot(output.pixels()),
    {
        let mut memory = font();

        while memory.len() < MEM_SIZE
            invariant
                80 <= memory@.len() <= MEM_SIZE,
                forall|j: int| 0 <= j < 80 ==> memory@[j] == font_seq()[j],
                forall|j: int| 80 <= j < memory@.len() ==> memory@[j] == 0u8,
            decreases MEM_SIZE - memory.len(),
        {
            memory.push(0);
        }

        let mut registers: Vec<u8> = Vec::new();
        while registers.len() < NUM_REGISTERS
            invariant
                registers@.len() <= NUM_REGISTERS,
                forall|j: int| 0 <= j < registers@.len() ==> registers@[j] == 0u8,
            decreases NUM_REGISTERS - registers.len(),
        {
            registers.push(0);
        }

        let mut stack: Vec<u16> = Vec::new();
        while stack.len() < STACK_SIZE
            invariant
                stack@.len() <= STACK_SIZE,
                forall|j: int| 0 <= j < stack@.len() ==> stack@[j] == 0u16,
            decreases STACK_SIZE - stack.len(),
        {
            stack.push(0);
        }

        let r = Emulator {
            memory,
            registers,
            delay_timer: 0,
            sound_timer: 0,
            i: 0,
            program_counter: PC_START,
            stack_pointer: 0,
            stack,

            input,
            output,
        };
        proof {
            assert(r@.mem =~= boot(output.pixels()).mem);
            assert(r@.regs =~= boot(output.pixels()).regs);
            assert(r@.stack =~= boot(output.pixels()).stack);
            assert(r@ =~= boot(output.pixels()));
        }
        r
    }

    /// Copy a program into memory at the program counter (`PC_START` on a
    /// fresh machine); bytes past the end of memory are silently discarded.
    pub fn load(&mut self, program: &[u8])
        requires
            old(self).wf(),
            old(self)@.pc <= MEM_SIZE,
        ensures
            final(self).wf(),
            final(self)@ == (MachineView {
                mem: load_mem(old(self)@.mem, program@, old(self)@.pc as int),
                ..old(self)@
            }),
    {
        let pc = self.program_counter as usize;
        let len = if program.len() < MEM_SIZE - pc {
            program.len()
        } else {
            MEM_SIZE - pc
        };
        assert(len == load_len(old(self)@.mem.len() as int, program@.len() as int, pc as int));
        let mut k: usize = 0;
        while k < len
            invariant
                old(self).wf(),
                pc == old(self)@.pc as int,
                pc + len <= MEM_SIZE,
                len == load_len(old(self)@.mem.len() as int, program@.len() as int, pc as int),
                len <= program@.len(),
                k <= len,
                self@ == (MachineView { mem: self@.mem, ..old(self)@ }),
                self@.mem.len() == MEM_SIZE,
                forall|j: int| pc <= j < pc + k ==> self@.mem[j] == program@[j - pc],
                forall|j: int|
                    0 <= j < MEM_SIZE && !(pc <= j < pc + k) ==> self@.mem[j] == old(self)@.mem[j],
            decreases len - k,
        {
            self.memory[pc + k] = program[k];
            k += 1;
        }
        proof {
            assert(self@.mem =~= load_mem(old(self)@.mem, program@, old(self)@.pc as int));
        }
    }

    /// The program counter.
    pub fn program_counter(&self) -> (r: u16)
        ensures
            r == self@.pc,
    {
        self.program_counter
    }

    /// The address register `I`.
    pub fn i_register(&self) -> (r: u16)
        ensures
            r == self@.i,
    {
        self.i
    }

    /// The delay timer.
    pub fn delay_timer(&self) -> (r: u8)
        ensures
            r == self@.delay,
    {
        self.delay_timer
    }

    /// The sound timer.
    pub fn sound_timer(&self) -> (r: u8)
        ensures
            r == self@.sound,
    {
        self.sound_timer
    }

    /// The stack pointer: how many calls are outstanding.
    pub fn stack_pointer(&self) -> (r: usize)
        ensures
            r == self@.sp,
    {
        self.stack_pointer
    }

    /// Write register `Vx` directly, as a debugger would.
    pub fn set_register(&mut self, x: u8, value: u8)
        requires
            old(self).wf(),
            x < 16,
        ensures
            final(self).wf(),
            final(self)@ == (MachineView {
                regs: old(self)@.regs.update(x as int, value),
                ..old(self)@
            }),
    {
        self.registers[x as usize] = value;
    }

    /// The value of register `Vx`.
    pub fn register(&self, x: u8) -> (r: u8)
        requires
            self.wf(),
            x < 16,
        ensures
            r == self@.regs[x as int],
    {
        self.registers[x as usize]
    }

    /// The byte of memory at `addr`.
    pub fn memory_byte(&self, addr: usize) -> (r: u8)
        requires
            self.wf(),
            addr < MEM_SIZE,
        ensures
            r == self@.mem[addr as int],
    {
        self.memory[addr]
    }

    /// The output capability.
    pub fn output(&self) -> (r: &O)
        ensures
            r.pixels() == self@.screen,
    {
        &self.output
    }

    /// The output capability, for direct writes from the embedding; the
    /// machine's screen follows whatever is done with it.
    pub fn output_mut(&mut self) -> (r: &mut O)
        ensures
            r.pixels() == old(self)@.screen,
            final(self)@ == (MachineView { screen: final(r).pixels(), ..old(self)@ }),
            final(self).wf() == old(self).wf(),
    {
        &mut self.output
    }
}

/// The sprite a draw instruction of height `n` reads from memory at `I`.
spec fn sprite_of(v: MachineView, n: u8) -> Seq<u8> {
    v.mem.subrange(v.i as int, v.i + n)
}

/// The sprite rectangle up to row `h`, and within row `h` up to column `w`:
/// the cells a partly performed draw has already written.
spec fn in_sprite_upto(x0: nat, y0: nat, rows: nat, h: int, w: int, c: (nat, nat)) -> bool {
    in_sprite(x0, y0, rows, c) && (c.1 < y0 + h || (c.1 == y0 + h && c.0 < x0 + w))
}

/// The screen of a partly performed draw: rows below `h` written, and within
/// row `h` the columns below `w`.
spec fn draw_pixels_upto(
    screen: Map<(nat, nat), u8>,
    sprite: Seq<u8>,
    x0: nat,
    y0: nat,
    h: int,
    w: int,
) -> Map<(nat, nat), u8> {
    Map::new(
        |c: (nat, nat)| screen.dom().contains(c) || in_sprite_upto(x0, y0, sprite.len(), h, w, c),
        |c: (nat, nat)|
            if in_sprite_upto(x0, y0, sprite.len(), h, w, c) {
                pixel_at(screen, c.0, c.1) ^ sprite_bit(sprite, x0, y0, c)
            } else {
                screen[c]
            },
    )
}

/// Whether a partly performed draw has already turned a set cell off.
spec fn collision_upto(
    screen: Map<(nat, nat), u8>,
    sprite: Seq<u8>,
    x0: nat,
    y0: nat,
    h: int,
    w: int,
) -> bool {
    exists|c: (nat, nat)|
        in_sprite_upto(x0, y0, sprite.len(), h, w, c) && pixel_at(screen, c.0, c.1) == 1
            && pixel_at(screen, c.0, c.1) ^ sprite_bit(sprite, x0, y0, c) == 0
}

/// A draw that has written nothing yet has changed nothing and collided with
/// nothing.
proof fn lemma_draw_start(screen: Map<(nat, nat), u8>, sprite: Seq<u8>, x0: nat, y0: nat)
    ensures
        draw_pixels_upto(screen, sprite, x0, y0, 0, 0) == screen,
        !collision_upto(screen, sprite, x0, y0, 0, 0),
{
    assert forall|c: (nat, nat)| !in_sprite_upto(x0, y0, sprite.len(), 0, 0, c) by {}
    assert(draw_pixels_upto(screen, sprite, x0, y0, 0, 0) =~= screen);
}

/// Writing the cell at row `h`, column `w` extends a partly performed draw by
/// exactly that cell, and collides exactly where either the cells so far did
/// or this cell turns a set pixel off.
proof fn lemma_draw_cell(screen: Map<(nat, nat), u8>, sprite: Seq<u8>, x0: nat, y0: nat, h: int, w: int)
    requires
        0 <= h < sprite.len(),
        0 <= w < 8,
    ensures
        ({
            let c = ((x0 + w) as nat, (y0 + h) as nat);
            let written = pixel_at(screen, c.0, c.1) ^ sprite_bit(sprite, x0, y0, c);
            let hit = pixel_at(screen, c.0, c.1) == 1 && written == 0;
            &&& draw_pixels_upto(screen, sprite, x0, y0, h, w).insert(c, written)
                == draw_pixels_upto(screen, sprite, x0, y0, h, w + 1)
            &&& (collision_upto(screen, sprite, x0, y0, h, w + 1) <==> (collision_upto(
                screen,
                sprite,
                x0,
                y0,
                h,
                w,
            ) || hit))
        }),
{
    let c = ((x0 + w) as nat, (y0 + h) as nat);
    let written = pixel_at(screen, c.0, c.1) ^ sprite_bit(sprite, x0, y0, c);
    let hit = pixel_at(screen, c.0, c.1) == 1 && written == 0;
    assert(in_sprite_upto(x0, y0, sprite.len(), h, w + 1, c));
    assert(draw_pixels_upto(screen, sprite, x0, y0, h, w).insert(c, written) =~= draw_pixels_upto(
        screen,
        sprite,
        x0,
        y0,
        h,
        w + 1,
    ));
    if collision_upto(screen, sprite, x0, y0, h, w) {
        let cw = choose|cw: (nat, nat)|
            in_sprite_upto(x0, y0, sprite.len(), h, w, cw) && pixel_at(screen, cw.0, cw.1) == 1
                && pixel_at(screen, cw.0, cw.1) ^ sprite_bit(sprite, x0, y0, cw) == 0;
        assert(in_sprite_upto(x0, y0, sprite.len(), h, w + 1, cw));
        assert(collision_upto(screen, sprite, x0, y0, h, w + 1));
    }
    if hit {
        assert(collision_upto(screen, sprite, x0, y0, h, w + 1));
    }
    if collision_upto(screen, sprite, x0, y0, h, w + 1) && !hit {
        let cw = choose|cw: (nat, nat)|
            in_sprite_upto(x0, y0, sprite.len(), h, w + 1, cw) && pixel_at(screen, cw.0, cw.1) == 1
                && pixel_at(screen, cw.0, cw.1) ^ sprite_bit(sprite, x0, y0, cw) == 0;
        assert(cw != c);
        assert(in_sprite_upto(x0, y0, sprite.len(), h, w, cw));
        assert(collision_upto(screen, sprite, x0, y0, h, w));
    }
}

/// A row written to its end is the same progress as the next row written to
/// its start.
proof fn lemma_draw_row(screen: Map<(nat, nat), u8>, sprite: Seq<u8>, x0: nat, y0: nat, h: int)
    requires
        0 <= h,
    ensures
        draw_pixels_upto(screen, sprite, x0, y0, h, 8) == draw_pixels_upto(
            screen,
            sprite,
            x0,
            y0,
            h + 1,
            0,
        ),
        collision_upto(screen, sprite, x0, y0, h, 8) <==> collision_upto(
            screen,
            sprite,
            x0,
            y0,
            h + 1,
            0,
        ),
{
    assert forall|c: (nat, nat)|
        in_sprite_upto(x0, y0, sprite.len(), h, 8, c) <==> in_sprite_upto(
            x0,
            y0,
            sprite.len(),
            h + 1,
            0,
            c,
        ) by {}
    assert(draw_pixels_upto(screen, sprite, x0, y0, h, 8) =~= draw_pixels_upto(
        screen,
        sprite,
        x0,
        y0,
        h + 1,
        0,
    ));
    if collision_upto(screen, sprite, x0, y0, h, 8) {
        let cw = choose|cw: (nat, nat)|
            in_sprite_upto(x0, y0, sprite.len(), h, 8, cw) && pixel_at(screen, cw.0, cw.1) == 1
                && pixel_at(screen, cw.0, cw.1) ^ sprite_bit(sprite, x0, y0, cw) == 0;
        assert(in_sprite_upto(x0, y0, sprite.len(), h + 1, 0, cw));
        assert(collision_upto(screen, sprite, x0, y0, h + 1, 0));
    }
    if collision_upto(screen, sprite, x0, y0, h + 1, 0) {
        let cw = choose|cw: (nat, nat)|
            in_sprite_upto(x0, y0, sprite.len(), h + 1, 0, cw) && pixel_at(screen, cw.0, cw.1) == 1
                && pixel_at(screen, cw.0, cw.1) ^ sprite_bit(sprite, x0, y0, cw) == 0;
        assert(in_sprite_upto(x0, y0, sprite.len(), h, 8, cw));
        assert(collision_upto(screen, sprite, x0, y0, h, 8));
    }
}

/// A draw whose every row is written is the whole draw.
proof fn lemma_draw_finish(screen: Map<(nat, nat), u8>, sprite: Seq<u8>, x0: nat, y0: nat)
    ensures
        draw_pixels_upto(screen, sprite, x0, y0, sprite.len() as int, 0) == draw_pixels(
            screen,
            sprite,
            x0,
            y0,
        ),
        collision_upto(screen, sprite, x0, y0, sprite.len() as int, 0) <==> draw_collision(
            screen,
            sprite,
            x0,
            y0,
        ),
{
    assert forall|c: (nat, nat)|
        in_sprite_upto(x0, y0, sprite.len(), sprite.len() as int, 0, c) <==> in_sprite(
            x0,
            y0,
            sprite.len(),
            c,
        ) by {}
    assert(draw_pixels_upto(screen, sprite, x0, y0, sprite.len() as int, 0) =~= draw_pixels(
        screen,
        sprite,
        x0,
        y0,
    ));
}

impl<I: EmulatorInput, O: EmulatorOutput> Emulator<I, O> {
    /// XOR-blit the `height`-row sprite at `memory[I..]` onto the output at
    /// `(Vx, Vy)`, then set `VF` to 1 exactly when a set pixel was turned
    /// off.
    fn op_draw(&mut self, x: u8, y: u8, height: u8)
        requires
            old(self).wf(),
            x < 16,
            y < 16,
            old(self)@.i + height <= MEM_SIZE,
        ensures
            final(self).wf(),
            ({
                let v = old(self)@;
                let x0 = v.regs[x as int] as nat;
                let y0 = v.regs[y as int] as nat;
                let sprite = sprite_of(v, height);
                final(self)@ == (MachineView {
                    regs: v.regs.update(
                        15,
                        if draw_collision(v.screen, sprite, x0, y0) {
                            1u8
                        } else {
                            0u8
                        },
                    ),
                    screen: draw_pixels(v.screen, sprite, x0, y0),
                    ..v
                })
            }),
    {
        let ghost v = old(self)@;
        let ghost sprite = sprite_of(v, height);
        let ghost x0 = v.regs[x as int] as nat;
        let ghost y0 = v.regs[y as int] as nat;

        // Get coordinates
        let x_coord = self.registers[x as usize] as usize;
        let y_coord = self.registers[y as usize] as usize;

        // The sprite rows sit at memory[I..I + height]
        let sprite_addr = self.i as usize;

        proof {
            lemma_draw_start(v.screen, sprite, x0, y0);
        }

        // Write to screen, row by row, bit by bit, MSB first
        let mut any_collisions: u8 = 0;
        let mut h: usize = 0;
        while h < height as usize
            invariant
                old(self).wf(),
                x < 16,
                y < 16,
                v == old(self)@,
                sprite == sprite_of(v, height),
                x0 == v.regs[x as int] as nat,
                y0 == v.regs[y as int] as nat,
                v.i + height <= MEM_SIZE,
                x_coord == v.regs[x as int],
                y_coord == v.regs[y as int],
                sprite_addr == v.i,
                h <= height as usize,
                self@ == (MachineView { screen: self@.screen, ..v }),
                self@.screen == draw_pixels_upto(v.screen, sprite, x0, y0, h as int, 0),
                any_collisions == (if collision_upto(v.screen, sprite, x0, y0, h as int, 0) {
                    1u8
                } else {
                    0u8
                }),
            decreases height as usize - h,
        {
            let row = self.memory[sprite_addr + h];
            proof {
                assert(row == sprite[h as int]);
            }
            let mut w: usize = 0;
            while w < 8
                invariant
                    old(self).wf(),
                    x < 16,
                    y < 16,
                    v == old(self)@,
                    sprite == sprite_of(v, height),
                    x0 == v.regs[x as int] as nat,
                    y0 == v.regs[y as int] as nat,
                    v.i + height <= MEM_SIZE,
                    x_coord == v.regs[x as int],
                    y_coord == v.regs[y as int],
                    sprite_addr == v.i,
                    h < height as usize,
                    w <= 8,
                    row == sprite[h as int],
                    self@ == (MachineView { screen: self@.screen, ..v }),
                    self@.screen == draw_pixels_upto(v.screen, sprite, x0, y0, h as int, w as int),
                    any_collisions == (if collision_upto(
                        v.screen,
                        sprite,
                        x0,
                        y0,
                        h as int,
                        w as int,
                    ) {
                        1u8
                    } else {
                        0u8
                    }),
                decreases 8 - w,
            {
                let ghost c = ((x0 + w) as nat, (y0 + h) as nat);
                let new_pixel = (row >> ((7 - w) as u8)) & 1;  // Get the bit for this column
                let old_pixel = self.output.get(x_coord + w, y_coord + h);
                proof {
                    assert(!in_sprite_upto(x0, y0, sprite.len(), h as int, w as int, c));
                    assert(old_pixel == pixel_at(v.screen, c.0, c.1));
                    assert(new_pixel == sprite_bit(sprite, x0, y0, c));
                }
                let xored_pixel = old_pixel ^ new_pixel;  // XOR old pixel with new pixel
                self.output.set(x_coord + w, y_coord + h, xored_pixel);  // Save xor'ed pixel

                // A set pixel was unset, so we set the collision flag
                if old_pixel == 1 && xored_pixel == 0 {
                    any_collisions = 1;
                }
                proof {
                    lemma_draw_cell(v.screen, sprite, x0, y0, h as int, w as int);
                }
                w = w + 1;
            }
            proof {
                lemma_draw_row(v.screen, sprite, x0, y0, h as int);
            }
            h = h + 1;
        }

        proof {
            lemma_draw_finish(v.screen, sprite, x0, y0);
        }

        // Set VF collision flag
        self.registers[0xF] = any_collisions;
    }

    /// Write registers `V0..Vx` to memory at `I`.
    fn op_reg_dump(&mut self, x: u8)
        requires
            old(self).wf(),
            x < 16,
            old(self)@.i + x + 1 <= MEM_SIZE,
        ensures
            final(self).wf(),
            final(self)@ == (MachineView {
                mem: write_regs(old(self)@.mem, old(self)@.regs, old(self)@.i as int, x as int),
                ..old(self)@
            }),
    {
        let i = self.i as usize;
        let mut reg_no: usize = 0;
        while reg_no <= x as usize
            invariant
                old(self).wf(),
                x < 16,
                old(self)@.i + x + 1 <= MEM_SIZE,
                i == old(self)@.i,
                reg_no <= x as usize + 1,
                self@ == (MachineView { mem: self@.mem, ..old(self)@ }),
                self@.mem.len() == MEM_SIZE,
                forall|j: int| i <= j < i + reg_no ==> self@.mem[j] == old(self)@.regs[j - i],
                forall|j: int|
                    0 <= j < MEM_SIZE && !(i <= j < i + reg_no) ==> self@.mem[j] == old(
                        self,
                    )@.mem[j],
            decreases x as usize + 1 - reg_no,
        {
            self.memory[i + reg_no] = self.registers[reg_no];
            reg_no = reg_no + 1;
        }
        proof {
            assert(self@.mem =~= write_regs(
                old(self)@.mem,
                old(self)@.regs,
                old(self)@.i as int,
                x as int,
            ));
        }
    }

    /// Read registers `V0..Vx` back from memory at `I`.
    fn op_reg_load(&mut self, x: u8)
        requires
            old(self).wf(),
            x < 16,
            old(self)@.i + x + 1 <= MEM_SIZE,
        ensures
            final(self).wf(),
            final(self)@ == (MachineView {
                regs: load_regs(old(self)@.regs, old(self)@.mem, old(self)@.i as int, x as int),
                ..old(self)@
            }),
    {
        let i = self.i as usize;
        let mut reg_no: usize = 0;
        while reg_no <= x as usize
            invariant
                old(self).wf(),
                x < 16,
                old(self)@.i + x + 1 <= MEM_SIZE,
                i == old(self)@.i,
                reg_no <= x as usize + 1,
                self@ == (MachineView { regs: self@.regs, ..old(self)@ }),
                self@.regs.len() == NUM_REGISTERS,
                forall|j: int| 0 <= j < reg_no ==> self@.regs[j] == old(self)@.mem[i + j],
                forall|j: int| reg_no <= j < NUM_REGISTERS ==> self@.regs[j] == old(self)@.regs[j],
            decreases x as usize + 1 - reg_no,
        {
            self.registers[reg_no] = self.memory[i + reg_no];
            reg_no = reg_no + 1;
        }
        proof {
            assert(self@.regs =~= load_regs(
                old(self)@.regs,
                old(self)@.mem,
                old(self)@.i as int,
                x as int,
            ));
        }
    }

    /// Execute a single instruction: decrement both timers, advance the
    /// program counter past the instruction, then apply the instruction's
    /// effect as `step_rel` states it.
    pub fn execute_single(&mut self, instruction: Instruction)
        requires
            old(self).wf(),
            instr_ok(old(self)@, instruction),
        ensures
            final(self).wf(),
            step_rel(old(self)@, instruction, final(self)@),
    {
        // Update timers
        if self.delay_timer > 0 {
            self.delay_timer = self.delay_timer - 1;
        }
        if self.sound_timer > 0 {
            self.sound_timer = self.sound_timer - 1;
        }

        self.program_counter = self.program_counter + 2;
        proof {
            assert(self@ == tick(old(self)@));
        }

        match instruction {
            // Clear the screen
            Instruction::ClearScreen => {
                self.output.clear();
            },
            // Return to the previous call site via the stack.
            Instruction::Return => {
                self.stack_pointer = self.stack_pointer - 1;
                self.program_counter = self.stack[self.stack_pointer];  // Jump back via stack
            },
            // Go to a specific memory address
            Instruction::Goto(Addr(addr)) => {
                self.program_counter = addr;
            },
            // Store the current address on the stack, then jump to the specified address
            Instruction::Call(Addr(addr)) => {
                self.stack[self.stack_pointer] = self.program_counter;  // Store current address
                self.stack_pointer = self.stack_pointer + 1;
                self.program_counter = addr;  // Jump to addr
            },
            // If the register equals the constant, skip the next instruction
            Instruction::IfRegEqConst(Reg(x), Const(n)) => {
                if self.registers[x as usize] == n {
                    self.program_counter = self.program_counter + 2;
                }
            },
            Instruction::IfRegNeqConst(Reg(x), Const(n)) => {
                if self.registers[x as usize] != n {
                    self.program_counter = self.program_counter + 2;
                }
            },
            Instruction::IfRegEqReg(Reg(x), Reg(y)) => {
                if self.registers[x as usize] == self.registers[y as usize] {
                    self.program_counter = self.program_counter + 2;
                }
            },
            Instruction::SetRegToConst(Reg(x), Const(n)) => {
                self.registers[x as usize] = n;
            },
            Instruction::IncRegByConst(Reg(x), Const(n)) => {
                let x_value = self.registers[x as usize];
                self.registers[x as usize] = ((x_value as u16 + n as u16) % 256) as u8;
            },
            Instruction::SetRegToReg(Reg(x), Reg(y)) => {
                self.registers[x as usize] = self.registers[y as usize];
            },
            Instruction::BitwiseOr(Reg(x), Reg(y)) => {
                self.registers[x as usize] = self.registers[x as usize] | self.registers[y as usize];
            },
            Instruction::BitwiseAnd(Reg(x), Reg(y)) => {
                self.registers[x as usize] = self.registers[x as usize] & self.registers[y as usize];
            },
            Instruction::BitwiseXor(Reg(x), Reg(y)) => {
                self.registers[x as usize] = self.registers[x as usize] ^ self.registers[y as usize];
            },
            // Increment the value of a register by the value of another.
            // Set VF to 1 if there is a carry, 0 otherwise.
            Instruction::IncRegByReg(Reg(x), Reg(y)) => {
                let x_value = self.registers[x as usize];
                let y_value = self.registers[y as usize];
                let sum = x_value as u16 + y_value as u16;
                self.registers[x as usize] = (sum % 256) as u8;
                self.registers[0xF] = if sum > 255 {
                    1
                } else {
                    0
                };
            },
            // Decrement the value of a register by the value of another.
            // Set VF to 0 if there is a borrow, 1 otherwise.
            Instruction::DecRegByReg(Reg(x), Reg(y)) => {
                let x_value = self.registers[x as usize];
                let y_value = self.registers[y as usize];
                self.registers[x as usize] = if x_value >= y_value {
                    x_value - y_value
                } else {
                    ((256 + x_value as u16 - y_value as u16)) as u8
                };
                self.registers[0xF] = if x_value >= y_value {
                    1
                } else {
                    0
                };
            },
            // Shift right, then store the pre-shift least significant bit
            // in VF: the flag is the final write
            Instruction::BitshiftRight(Reg(x)) => {
                let value = self.registers[x as usize];
                self.registers[x as usize] = value >> 1;
                self.registers[0xF] = value & 1;
            },
            // Set VF to 0 when there's a borrow, and 1 when there isn't.
            Instruction::SetVxVyMinusVx(Reg(x), Reg(y)) => {
                let x_value = self.registers[x as usize];
                let y_value = self.registers[y as usize];
                self.registers[x as usize] = if y_value >= x_value {
                    y_value - x_value
                } else {
                    ((256 + y_value as u16 - x_value as u16)) as u8
                };
                self.registers[0xF] = if y_value >= x_value {
                    1
                } else {
                    0
                };
            },
            // Shift left, then store the pre-shift most significant bit
            // in VF: the flag is the final write
            Instruction::BitshiftLeft(Reg(x)) => {
                let value = self.registers[x as usize];
                self.registers[x as usize] = ((value as u16 * 2) % 256) as u8;
                self.registers[0xF] = value >> 7;
            },
            Instruction::IfRegNeqReg(Reg(x), Reg(y)) => {
                if self.registers[x as usize] != self.registers[y as usize] {
                    self.program_counter = self.program_counter + 2;
                }
            },
            Instruction::SetI(Addr(addr)) => {
                self.i = addr;
            },
            Instruction::SetPcToV0PlusAddr(Addr(addr)) => {
                self.program_counter = self.registers[0] as u16 + addr;
            },
            Instruction::SetVxRand(Reg(x), Const(n)) => {
                let b = random_byte();
                self.registers[x as usize] = b & n;
                proof {
                    let t = tick(old(self)@);
                    assert((b & n) & n == b & n) by (bit_vector);
                    assert(self@ == (MachineView {
                        regs: t.regs.update(x as int, self@.regs[x as int]),
                        ..t
                    }));
                }
            },
            // XOR-blit a sprite, collision flag in VF
            Instruction::Draw(Reg(x), Reg(y), Const(sprite_height)) => {
                self.op_draw(x, y, sprite_height);
            },
            // Skip if the key in Vx is pressed
            Instruction::IfKeyEqVx(Reg(x)) => {
                let x_value = self.registers[x as usize];
                let key = self.input.get_key();
                let pressed = match key {
                    Some(code) => code == x_value,
                    None => false,
                };
                if pressed {
                    self.program_counter = self.program_counter + 2;
                }
                proof {
                    let t = tick(old(self)@);
                    assert(key_ok(key) && self@ == (if key == Some(t.regs[x as int]) {
                        skip_next(t)
                    } else {
                        t
                    }));
                }
            },
            // Skip if the key in Vx isn't pressed
            Instruction::IfKeyNeqVx(Reg(x)) => {
                let x_value = self.registers[x as usize];
                let key = self.input.get_key();
                let pressed = match key {
                    Some(code) => code == x_value,
                    None => false,
                };
                if !pressed {
                    self.program_counter = self.program_counter + 2;
                }
                proof {
                    let t = tick(old(self)@);
                    assert(key_ok(key) && self@ == (if key != Some(t.regs[x as int]) {
                        skip_next(t)
                    } else {
                        t
                    }));
                }
            },
            Instruction::SetRegToDelayTimer(Reg(x)) => {
                self.registers[x as usize] = self.delay_timer;
            },
            // Get a key press (blocking)
            Instruction::SetRegToGetKey(Reg(x)) => {
                let key = self.input.get_key_blocking();
                self.registers[x as usize] = key;
                proof {
                    let t = tick(old(self)@);
                    assert(self@ == (MachineView {
                        regs: t.regs.update(x as int, self@.regs[x as int]),
                        ..t
                    }));
                }
            },
            Instruction::SetDelayTimerToReg(Reg(x)) => {
                self.delay_timer = self.registers[x as usize];
            },
            Instruction::SetSoundTimerToReg(Reg(x)) => {
                self.sound_timer = self.registers[x as usize];
            },
            Instruction::AddRegToI(Reg(x)) => {
                self.i = self.i + self.registers[x as usize] as u16;
            },
            // Set I to a glyph's address. Each font glyph is 5 bytes wide.
            Instruction::SetIToSpriteAddrVx(Reg(x)) => {
                self.i = 5 * self.registers[x as usize] as u16;
            },
            // Write the decimal digits of Vx at memory[I..I + 3]
            Instruction::SetIToBcdOfReg(Reg(x)) => {
                let i = self.i as usize;

                // Get ones place
                let ones = self.registers[x as usize];
                self.memory[i + 2] = ones % 10;

                // Get tens place
                let tens = ones / 10;
                self.memory[i + 1] = tens % 10;

                // Get hundreds place
                let hundreds = tens / 10;
                self.memory[i] = hundreds % 10;
            },
            // Dump register values up to Vx
            Instruction::RegDump(Reg(x)) => {
                self.op_reg_dump(x);
            },
            // Load register values up to Vx
            Instruction::RegLoad(Reg(x)) => {
                self.op_reg_load(x);
            },
        }
    }

    /// Execute many instructions in succession.
    pub fn execute_many(&mut self, instructions: &[Instruction])
        requires
            old(self).wf(),
            seq_ok(old(self)@, instructions@),
        ensures
            final(self).wf(),
            exec_seq_rel(old(self)@, instructions@, final(self)@),
    {
        let mut k: usize = 0;
        proof {
            assert(instructions@.subrange(0, instructions@.len() as int) =~= instructions@);
            assert(instructions@.subrange(0, 0) =~= Seq::<Instruction>::empty());
        }
        while k < instructions.len()
            invariant
                self.wf(),
                k <= instructions@.len(),
                seq_ok(self@, instructions@.subrange(k as int, instructions@.len() as int)),
                exec_seq_rel(old(self)@, instructions@.subrange(0, k as int), self@),
            decreases instructions@.len() - k,
        {
            let ghost rest = instructions@.subrange(k as int, instructions@.len() as int);
            let ghost pre = self@;
            let instruction = instructions[k];
            proof {
                assert(rest[0] == instructions@[k as int]);
            }
            self.execute_single(instruction);
            proof {
                assert(rest.subrange(1, rest.len() as int) =~= instructions@.subrange(
                    k as int + 1,
                    instructions@.len() as int,
                ));
                assert(seq_ok(
                    self@,
                    instructions@.subrange(k as int + 1, instructions@.len() as int),
                ));
                lemma_exec_seq_rel_snoc(
                    old(self)@,
                    instructions@.subrange(0, k as int),
                    pre,
                    instruction,
                    self@,
                );
                assert(instructions@.subrange(0, k as int).push(instruction)
                    =~= instructions@.subrange(0, k as int + 1));
            }
            k = k + 1;
        }
        proof {
            assert(instructions@.subrange(0, instructions@.len() as int) =~= instructions@);
        }
    }

    /// Whether the instruction can execute from the current state without
    /// leaving the machine's bounds.
    pub fn instruction_ok(&self, instruction: &Instruction) -> (r: bool)
        requires
            self.wf(),
        ensures
            r == instr_ok(self@, *instruction),
    {
        if self.program_counter > u16::MAX - 2 {
            return false;
        }
        match *instruction {
            Instruction::ClearScreen => true,
            Instruction::Return => self.stack_pointer >= 1,
            Instruction::Goto(_) => true,
            Instruction::Call(_) => self.stack_pointer < STACK_SIZE,
            Instruction::IfRegEqConst(Reg(x), Const(n)) => x < 16 && (self.registers[x as usize]
                != n || self.program_counter <= u16::MAX - 4),
            Instruction::IfRegNeqConst(Reg(x), Const(n)) => x < 16 && (self.registers[x as usize]
                == n || self.program_counter <= u16::MAX - 4),
            Instruction::IfRegEqReg(Reg(x), Reg(y)) => x < 16 && y < 16
                && (self.registers[x as usize] != self.registers[y as usize]
                || self.program_counter <= u16::MAX - 4),
            Instruction::SetRegToConst(Reg(x), _) => x < 16,
            Instruction::IncRegByConst(Reg(x), _) => x < 16,
            Instruction::SetRegToReg(Reg(x), Reg(y)) => x < 16 && y < 16,
            Instruction::BitwiseOr(Reg(x), Reg(y)) => x < 16 && y < 16,
            Instruction::BitwiseAnd(Reg(x), Reg(y)) => x < 16 && y < 16,
            Instruction::BitwiseXor(Reg(x), Reg(y)) => x < 16 && y < 16,
            Instruction::IncRegByReg(Reg(x), Reg(y)) => x < 16 && y < 16,
            Instruction::DecRegByReg(Reg(x), Reg(y)) => x < 16 && y < 16,
            Instruction::BitshiftRight(Reg(x)) => x < 16,
            Instruction::SetVxVyMinusVx(Reg(x), Reg(y)) => x < 16 && y < 16,
            Instruction::BitshiftLeft(Reg(x)) => x < 16,
            Instruction::IfRegNeqReg(Reg(x), Reg(y)) => x < 16 && y < 16
                && (self.registers[x as usize] == self.registers[y as usize]
                || self.program_counter <= u16::MAX - 4),
            Instruction::SetI(_) => true,
            Instruction::SetPcToV0PlusAddr(Addr(addr)) => self.registers[0] as u16 <= u16::MAX
                - addr,
            Instruction::SetVxRand(Reg(x), _) => x < 16,
            Instruction::Draw(Reg(x), Reg(y), Const(n)) => x < 16 && y < 16 && self.i as usize
                + n as usize <= MEM_SIZE,
            Instruction::IfKeyEqVx(Reg(x)) => x < 16 && self.program_counter <= u16::MAX - 4,
            Instruction::IfKeyNeqVx(Reg(x)) => x < 16 && self.program_counter <= u16::MAX - 4,
            Instruction::SetRegToDelayTimer(Reg(x)) => x < 16,
            Instruction::SetRegToGetKey(Reg(x)) => x < 16,
            Instruction::SetDelayTimerToReg(Reg(x)) => x < 16,
            Instruction::SetSoundTimerToReg(Reg(x)) => x < 16,
            Instruction::AddRegToI(Reg(x)) => x < 16 && self.i <= u16::MAX
                - self.registers[x as usize] as u16,
            Instruction::SetIToSpriteAddrVx(Reg(x)) => x < 16,
            Instruction::SetIToBcdOfReg(Reg(x)) => x < 16 && self.i as usize + 3 <= MEM_SIZE,
            Instruction::RegDump(Reg(x)) => x < 16 && self.i as usize + x as usize + 1 <= MEM_SIZE,
            Instruction::RegLoad(Reg(x)) => x < 16 && self.i as usize + x as usize + 1 <= MEM_SIZE,
        }
    }

    /// Whether a fetch-decode-execute step is possible from the current
    /// state: the two bytes at the program counter lie in memory, decode to
    /// an instruction, and that instruction is within bounds.
    pub fn can_step(&self) -> (r: bool)
        requires
            self.wf(),
        ensures
            r == step_ok(self@),
    {
        if self.program_counter as usize + 1 >= MEM_SIZE {
            return false;
        }
        let left = self.memory[self.program_counter as usize];
        let right = self.memory[self.program_counter as usize + 1];
        match Instruction::try_from_two_u8(left, right) {
            Some(instruction) => self.instruction_ok(&instruction),
            None => false,
        }
    }

    /// Perform a single step: load the instruction at the program counter
    /// and execute it.
    pub fn step(&mut self)
        requires
            old(self).wf(),
            step_ok(old(self)@),
        ensures
            final(self).wf(),
            fetch(old(self)@) matches Some(instruction) && step_rel(
                old(self)@,
                instruction,
                final(self)@,
            ),
    {
        // Each opcode is two bytes
        let left = self.memory[self.program_counter as usize];
        let right = self.memory[self.program_counter as usize + 1];
        let instruction = Instruction::from_two_u8(left, right);

        self.execute_single(instruction);
    }
}

} // verus!
