//! The instruction set, stated on a mathematical model of the machine.
//!
//! An instruction word is four hexadecimal digits. The first selects the
//! family; the others are read as a register index `x`, a register index
//! `y`, a nibble `n`, a byte `nn` or an address `nnn`, as the family asks.

use crate::display::binary;
use crate::display::blank_screen;
use crate::display::draw_erases;
use crate::display::lemma_draw_commutes;
use crate::display::lemma_draw_erases_at;
use crate::display::lemma_draw_keeps_binary;
use crate::display::lemma_draw_twice;
use crate::display::lemma_draw_len;
use crate::display::draw_screen;
use crate::ram::cell;
use crate::timer::Timer;
use std::time::Instant;
use vstd::prelude::*;

verus! {

/// Why an instruction could not be executed. The machine is left as it was.
#[derive(Clone, Copy, Debug, PartialEq, Eq, Structural)]
pub enum Fault {
    /// The word at `pc` is no instruction.
    UnknownInstruction { inst: u16, pc: u16 },
    /// A return at `pc` found the call stack empty.
    StackUnderflow { pc: u16 },
}

/// The state of the machine, as contracts see it.
pub struct Machine {
    /// Memory, 4096 bytes.
    pub mem: Seq<u8>,
    /// The framebuffer, 2048 pixels, row by row.
    pub screen: Seq<u8>,
    /// The key that is pressed, if any.
    pub key: Option<u8>,
    /// The registers V0 to VF.
    pub v: Seq<u8>,
    /// The program counter.
    pub pc: u16,
    /// The index register.
    pub i: u16,
    /// The return addresses, the most recent last.
    pub stack: Seq<u16>,
    /// The delay timer: the value it was last set to, and the instant.
    pub delay: Timer,
    /// The sound timer: the value it was last set to, and the instant.
    pub sound: Timer,
}

/// The first digit of an instruction word: its family.
pub open spec fn family(inst: u16) -> int {
    inst as int / 0x1000
}

/// The second digit: the register index `x`.
pub open spec fn op_x(inst: u16) -> int {
    (inst as int / 0x100) % 0x10
}

/// The third digit: the register index `y`.
pub open spec fn op_y(inst: u16) -> int {
    (inst as int / 0x10) % 0x10
}

/// The last digit: the nibble `n`.
pub open spec fn op_n(inst: u16) -> int {
    inst as int % 0x10
}

/// The last two digits: the byte `nn`.
pub open spec fn op_nn(inst: u16) -> u8 {
    (inst as int % 0x100) as u8
}

/// The last three digits: the address `nnn`.
pub open spec fn op_nnn(inst: u16) -> u16 {
    (inst as int % 0x1000) as u16
}

/// The instruction word at `pc`: two bytes, the high one first.
pub open spec fn fetch(mem: Seq<u8>, pc: u16) -> u16 {
    (mem[cell(pc as int)] * 256 + mem[cell(pc + 1)]) as u16
}

/// The program counter `by` bytes further on, within the address space.
pub open spec fn next_pc(pc: u16, by: int) -> u16 {
    ((pc + by) % 4096) as u16
}

/// The index register `by` further on, as a 16-bit register counts.
pub open spec fn bump(i: u16, by: int) -> u16 {
    ((i + by) % 0x10000) as u16
}

/// The low eight bits of a sum or difference.
pub open spec fn low_byte(value: int) -> u8 {
    (value % 256) as u8
}

/// A flag as VF holds it: 1 where it is set, else 0.
pub open spec fn flag(set: bool) -> u8 {
    if set {
        1u8
    } else {
        0u8
    }
}

/// The registers after the arithmetic instruction `n` on Vx and Vy. Where
/// the instruction has a flag, VF receives it: 1 on a carry out of an
/// addition, 1 where a subtraction needed no borrow, and the bit that a
/// shift pushed out.
pub open spec fn alu(v: Seq<u8>, n: int, x: int, y: int) -> Seq<u8> {
    let vx = v[x];
    let vy = v[y];
    if n == 0x0 {
        v.update(x, vy)
    } else if n == 0x1 {
        v.update(x, vx | vy)
    } else if n == 0x2 {
        v.update(x, vx & vy)
    } else if n == 0x3 {
        v.update(x, vx ^ vy)
    } else if n == 0x4 {
        v.update(x, low_byte(vx + vy)).update(0xF, flag(vx + vy > 0xFF))
    } else if n == 0x5 {
        v.update(x, low_byte(vx - vy)).update(0xF, flag(vx - vy >= 0))
    } else if n == 0x6 {
        v.update(0xF, (vx % 2) as u8).update(x, (vx / 2) as u8)
    } else if n == 0x7 {
        v.update(x, low_byte(vy - vx)).update(0xF, flag(vy - vx >= 0))
    } else {
        v.update(x, low_byte(vx * 2)).update(0xF, (vx / 128) as u8)
    }
}

/// Whether `n` selects an arithmetic instruction.
pub open spec fn alu_known(n: int) -> bool {
    0x0 <= n <= 0x7 || n == 0xE
}

/// The screen row on which row `r` of a sprite drawn at `y` lands, before
/// the screen's own wraparound.
pub open spec fn sprite_y(y: u8, r: int) -> u8 {
    low_byte(y + r)
}

/// The screen after the first `rows` rows of the sprite at address `i`
/// were drawn at `(x, y)`, one below the other.
pub open spec fn draw_sprite(screen: Seq<u8>, mem: Seq<u8>, i: u16, x: u8, y: u8, rows: int) -> Seq<
    u8,
>
    decreases rows,
{
    if rows <= 0 {
        screen
    } else {
        draw_screen(
            draw_sprite(screen, mem, i, x, y, rows - 1),
            x,
            sprite_y(y, rows - 1),
            mem[cell(i + rows - 1)],
        )
    }
}

/// Whether drawing the first `rows` rows of the sprite erased a pixel.
pub open spec fn sprite_collides(
    screen: Seq<u8>,
    mem: Seq<u8>,
    i: u16,
    x: u8,
    y: u8,
    rows: int,
) -> bool
    decreases rows,
{
    if rows <= 0 {
        false
    } else {
        sprite_collides(screen, mem, i, x, y, rows - 1) || draw_erases(
            draw_sprite(screen, mem, i, x, y, rows - 1),
            x,
            sprite_y(y, rows - 1),
            mem[cell(i + rows - 1)],
        )
    }
}

/// How far the cell `addr` lies above the cell that `i` selects, going up
/// and wrapping at the end of memory.
pub open spec fn cell_offset(i: u16, addr: int) -> int {
    (addr + 4096 - (i as int) % 4096) % 4096
}

/// Memory after the first `count` registers were stored from address `i`
/// upwards.
pub open spec fn store_registers(mem: Seq<u8>, v: Seq<u8>, i: u16, count: int) -> Seq<u8> {
    Seq::new(
        mem.len(),
        |addr: int|
            if cell_offset(i, addr) < count {
                v[cell_offset(i, addr)]
            } else {
                mem[addr]
            },
    )
}

/// The registers after the first `count` of them were loaded from address
/// `i` upwards.
pub open spec fn load_registers(v: Seq<u8>, mem: Seq<u8>, i: u16, count: int) -> Seq<u8> {
    Seq::new(
        v.len(),
        |k: int|
            if k < count {
                mem[cell(i + k)]
            } else {
                v[k]
            },
    )
}

/// Memory after the decimal digits of `value` were stored at `i`, `i + 1`
/// and `i + 2`: hundreds, tens, ones.
pub open spec fn store_bcd(mem: Seq<u8>, i: u16, value: u8) -> Seq<u8> {
    mem.update(cell(i as int), (value / 100) as u8).update(
        cell(i + 1),
        ((value % 100) / 10) as u8,
    ).update(cell(i + 2), (value % 10) as u8)
}

/// Memory after `data` was copied to address 0x200 and upwards.
pub open spec fn load_program(mem: Seq<u8>, data: Seq<u8>) -> Seq<u8> {
    Seq::new(
        mem.len(),
        |addr: int|
            if 0x200 <= addr < 0x200 + data.len() {
                data[addr - 0x200]
            } else {
                mem[addr]
            },
    )
}

impl Machine {
    /// The machine before a program is loaded, its timers set to 0 at the
    /// instants `delay_at` and `sound_at`.
    pub open spec fn initial(delay_at: Instant, sound_at: Instant) -> Machine {
        Machine {
            mem: crate::ram::initial_memory(),
            screen: blank_screen(),
            key: None,
            v: Seq::new(16, |k: int| 0u8),
            pc: 0x200,
            i: 0,
            stack: Seq::empty(),
            delay: Timer { value: 0, since: delay_at },
            sound: Timer { value: 0, since: sound_at },
        }
    }

    /// The program counter moved on by `by` bytes.
    pub open spec fn forward(self, by: int) -> Machine {
        Machine { pc: next_pc(self.pc, by), ..self }
    }

    /// Past the next instruction where `cond` holds, else to it.
    pub open spec fn skip_if(self, cond: bool) -> Machine {
        self.forward(
            if cond {
                4
            } else {
                2
            },
        )
    }

    /// The program counter set to `pc`.
    pub open spec fn jump(self, pc: u16) -> Machine {
        Machine { pc, ..self }
    }

    /// The register `x` set to `value`.
    pub open spec fn with_reg(self, x: int, value: u8) -> Machine {
        Machine { v: self.v.update(x, value), ..self }
    }

    /// All registers replaced by `v`.
    pub open spec fn with_regs(self, v: Seq<u8>) -> Machine {
        Machine { v, ..self }
    }

    /// The index register set to `i`.
    pub open spec fn with_index(self, i: u16) -> Machine {
        Machine { i, ..self }
    }

    /// Memory replaced by `mem`.
    pub open spec fn with_mem(self, mem: Seq<u8>) -> Machine {
        Machine { mem, ..self }
    }

    /// The screen replaced by `screen`.
    pub open spec fn with_screen(self, screen: Seq<u8>) -> Machine {
        Machine { screen, ..self }
    }

    /// The delay timer replaced by `delay`.
    pub open spec fn with_delay(self, delay: Timer) -> Machine {
        Machine { delay, ..self }
    }

    /// The sound timer replaced by `sound`.
    pub open spec fn with_sound(self, sound: Timer) -> Machine {
        Machine { sound, ..self }
    }

    /// Draws the sprite of `rows` rows at the index register onto the
    /// screen at `(x, y)` and records in VF whether a pixel was erased.
    pub open spec fn draw(self, x: u8, y: u8, rows: int) -> Machine {
        self.with_screen(draw_sprite(self.screen, self.mem, self.i, x, y, rows)).with_reg(
            0xF,
            flag(sprite_collides(self.screen, self.mem, self.i, x, y, rows)),
        )
    }

    /// Pushes the address of the next instruction and jumps to `nnn`.
    pub open spec fn call(self, nnn: u16) -> Machine {
        Machine { stack: self.stack.push(next_pc(self.pc, 2)), pc: nnn, ..self }
    }

    /// Pops the most recent return address into the program counter.
    pub open spec fn ret(self) -> Machine {
        Machine { pc: self.stack.last(), stack: self.stack.drop_last(), ..self }
    }

    /// Memory, screen and registers have their sizes, the program counter
    /// lies in the address space, and so does every return address.
    pub open spec fn wf(self) -> bool {
        &&& self.mem.len() == 4096
        &&& self.screen.len() == 2048
        &&& self.v.len() == 16
        &&& self.pc < 4096
        &&& forall|k: int| 0 <= k < self.stack.len() ==> #[trigger] self.stack[k] < 4096
    }
}

/// What family 0 does: `E0` clears the screen, `EE` returns.
pub open spec fn step_system(s: Machine, inst: u16) -> Result<Machine, Fault> {
    if op_nn(inst) == 0xE0 {
        Ok(s.with_screen(blank_screen()).forward(2))
    } else if op_nn(inst) == 0xEE {
        if s.stack.len() == 0 {
            Err(Fault::StackUnderflow { pc: s.pc })
        } else {
            Ok(s.ret())
        }
    } else {
        Err(Fault::UnknownInstruction { inst, pc: s.pc })
    }
}

/// What family E does: `9E` skips where the key Vx is the pressed one,
/// `A1` where it is not.
pub open spec fn step_key(s: Machine, inst: u16) -> Result<Machine, Fault> {
    if op_nn(inst) == 0x9E {
        Ok(s.skip_if(s.key == Some(s.v[op_x(inst)])))
    } else if op_nn(inst) == 0xA1 {
        Ok(s.skip_if(s.key != Some(s.v[op_x(inst)])))
    } else {
        Err(Fault::UnknownInstruction { inst, pc: s.pc })
    }
}

/// What family F does. `delay_now` is the current value of the delay timer
/// and `at` the instant that the clock shows.
pub open spec fn step_misc(s: Machine, inst: u16, delay_now: u8, at: Instant) -> Result<
    Machine,
    Fault,
> {
    let x = op_x(inst);
    let nn = op_nn(inst);
    let vx = s.v[x];
    if nn == 0x07 {
        Ok(s.with_reg(x, delay_now).forward(2))
    } else if nn == 0x0A {
        match s.key {
            Some(key) => Ok(s.with_reg(x, key).forward(2)),
            None => Ok(s),
        }
    } else if nn == 0x15 {
        Ok(s.with_delay(Timer { value: vx, since: at }).forward(2))
    } else if nn == 0x18 {
        Ok(s.with_sound(Timer { value: vx, since: at }).forward(2))
    } else if nn == 0x1E {
        Ok(s.with_index(bump(s.i, vx as int)).forward(2))
    } else if nn == 0x29 {
        Ok(s.with_index((vx * 5) as u16).forward(2))
    } else if nn == 0x33 {
        Ok(s.with_mem(store_bcd(s.mem, s.i, vx)).forward(2))
    } else if nn == 0x55 {
        Ok(s.with_mem(store_registers(s.mem, s.v, s.i, x + 1)).with_index(bump(s.i, x + 1)).forward(2))
    } else if nn == 0x65 {
        Ok(s.with_regs(load_registers(s.v, s.mem, s.i, x + 1)).with_index(bump(s.i, x + 1)).forward(2))
    } else {
        Err(Fault::UnknownInstruction { inst, pc: s.pc })
    }
}

/// The machine after it executed `inst`, or the fault that stopped it.
/// `rnd` is the byte that the random source gives, `delay_now` the current
/// value of the delay timer and `at` the instant that the clock shows.
/// Only `Cxnn` looks at the first, only `Fx07` at the second, and only
/// `Fx15` and `Fx18`, which restart a timer at that instant, at the third.
pub open spec fn step(s: Machine, inst: u16, rnd: u8, delay_now: u8, at: Instant) -> Result<
    Machine,
    Fault,
> {
    let f = family(inst);
    let x = op_x(inst);
    let y = op_y(inst);
    let nn = op_nn(inst);
    let nnn = op_nnn(inst);
    if f == 0x0 {
        step_system(s, inst)
    } else if f == 0x1 {
        Ok(s.jump(nnn))
    } else if f == 0x2 {
        Ok(s.call(nnn))
    } else if f == 0x3 {
        Ok(s.skip_if(s.v[x] == nn))
    } else if f == 0x4 {
        Ok(s.skip_if(s.v[x] != nn))
    } else if f == 0x5 {
        Ok(s.skip_if(s.v[x] == s.v[y]))
    } else if f == 0x6 {
        Ok(s.with_reg(x, nn).forward(2))
    } else if f == 0x7 {
        Ok(s.with_reg(x, low_byte(s.v[x] + nn)).forward(2))
    } else if f == 0x8 {
        if alu_known(op_n(inst)) {
            Ok(s.with_regs(alu(s.v, op_n(inst), x, y)).forward(2))
        } else {
            Err(Fault::UnknownInstruction { inst, pc: s.pc })
        }
    } else if f == 0x9 {
        Ok(s.skip_if(s.v[x] != s.v[y]))
    } else if f == 0xA {
        Ok(s.with_index(nnn).forward(2))
    } else if f == 0xB {
        Ok(s.jump(next_pc(nnn, s.v[0] as int)))
    } else if f == 0xC {
        Ok(s.with_reg(x, rnd & nn).forward(2))
    } else if f == 0xD {
        Ok(s.draw(s.v[x], s.v[y], op_n(inst)).forward(2))
    } else if f == 0xE {
        step_key(s, inst)
    } else {
        step_misc(s, inst, delay_now, at)
    }
}

/// Whether `after` and `r` are what executing `inst` on `before` gives: the
/// next state and `Ok`, or the fault and the state unchanged.
pub open spec fn follows(
    before: Machine,
    inst: u16,
    rnd: u8,
    delay_now: u8,
    at: Instant,
    after: Machine,
    r: Result<(), Fault>,
) -> bool {
    match step(before, inst, rnd, delay_now, at) {
        Ok(s) => r.is_ok() && after == s,
        Err(e) => r == Err::<(), Fault>(e) && after == before,
    }
}

/// The machine starts out well formed, with a blank screen.
pub proof fn lemma_initial_wf(delay_at: Instant, sound_at: Instant)
    ensures
        Machine::initial(delay_at, sound_at).wf(),
        binary(Machine::initial(delay_at, sound_at).screen),
{
}

/// Loading an immediate: after `6xnn`, whatever `nn` is, Vx holds `nn`.
pub proof fn lemma_load_immediate(s: Machine, inst: u16, rnd: u8, delay_now: u8, at: Instant)
    requires
        s.wf(),
        family(inst) == 0x6,
    ensures
        step(s, inst, rnd, delay_now, at).is_ok(),
        step(s, inst, rnd, delay_now, at) == Ok::<Machine, Fault>(
            s.with_reg(op_x(inst), op_nn(inst)).forward(2),
        ),
        step(s, inst, rnd, delay_now, at).unwrap().v[op_x(inst)] == op_nn(inst),
        step(s, inst, rnd, delay_now, at).unwrap().pc == next_pc(s.pc, 2),
{
}

/// Waiting for a key: while no key is pressed, `Fx0A` leaves the whole
/// machine, and so the program counter, as it was, however often it is
/// executed; once a key is pressed, it stores the key in Vx and moves on
/// to the next instruction.
pub proof fn lemma_key_wait(s: Machine, inst: u16, rnd: u8, delay_now: u8, at: Instant)
    requires
        s.wf(),
        family(inst) == 0xF,
        op_nn(inst) == 0x0A,
    ensures
        s.key.is_none() ==> step(s, inst, rnd, delay_now, at) == Ok::<Machine, Fault>(s),
        s.key.is_some() ==> step(s, inst, rnd, delay_now, at) == Ok::<Machine, Fault>(
            s.with_reg(op_x(inst), s.key.unwrap()).forward(2),
        ),
        s.key.is_some() ==> step(s, inst, rnd, delay_now, at).unwrap().v[op_x(inst)]
            == s.key.unwrap(),
{
}

/// Call and return: a call followed by a return leaves the machine at the
/// instruction after the call, with the stack and all else as before.
pub proof fn lemma_call_return(s: Machine, call: u16, ret: u16, rnd: u8, delay_now: u8, at: Instant)
    requires
        family(call) == 0x2,
        family(ret) == 0x0,
        op_nn(ret) == 0xEE,
    ensures
        step(s, call, rnd, delay_now, at).is_ok(),
        step(s, call, rnd, delay_now, at).unwrap().pc == op_nnn(call),
        step(step(s, call, rnd, delay_now, at).unwrap(), ret, rnd, delay_now, at) == Ok::<Machine, Fault>(
            s.forward(2),
        ),
{
    let called = step(s, call, rnd, delay_now, at).unwrap();
    assert(called.stack.drop_last() =~= s.stack);
}

/// Only `Cxnn` looks at the random byte, only `Fx07` at the delay timer
/// and only `Fx15` and `Fx18` at the clock: every other instruction has
/// one outcome.
pub proof fn lemma_step_ignores_inputs(
    s: Machine,
    inst: u16,
    rnd: u8,
    delay_now: u8,
    at: Instant,
    other_rnd: u8,
    other_delay: u8,
    other_at: Instant,
)
    requires
        family(inst) != 0xC,
        !(family(inst) == 0xF && (op_nn(inst) == 0x07 || op_nn(inst) == 0x15 || op_nn(inst)
            == 0x18)),
    ensures
        step(s, inst, rnd, delay_now, at) == step(s, inst, other_rnd, other_delay, other_at),
{
}

/// Only `Fx15` touches the delay timer and only `Fx18` the sound timer,
/// and each replaces both the value and the instant of its timer: every
/// other instruction leaves both timers, values and instants, as they
/// were.
pub proof fn lemma_step_timers(s: Machine, inst: u16, rnd: u8, delay_now: u8, at: Instant)
    requires
        step(s, inst, rnd, delay_now, at).is_ok(),
    ensures
        step(s, inst, rnd, delay_now, at).unwrap().delay == (if family(inst) == 0xF && op_nn(inst)
            == 0x15 {
            Timer { value: s.v[op_x(inst)], since: at }
        } else {
            s.delay
        }),
        step(s, inst, rnd, delay_now, at).unwrap().sound == (if family(inst) == 0xF && op_nn(inst)
            == 0x18 {
            Timer { value: s.v[op_x(inst)], since: at }
        } else {
            s.sound
        }),
{
}

/// A sprite drawn onto a screen of zeros and ones leaves one.
pub proof fn lemma_sprite_keeps_binary(screen: Seq<u8>, mem: Seq<u8>, i: u16, x: u8, y: u8, rows: int)
    requires
        binary(screen),
    ensures
        binary(draw_sprite(screen, mem, i, x, y, rows)),
        draw_sprite(screen, mem, i, x, y, rows).len() == screen.len(),
    decreases rows,
{
    if rows > 0 {
        lemma_sprite_keeps_binary(screen, mem, i, x, y, rows - 1);
        lemma_draw_len(
            draw_sprite(screen, mem, i, x, y, rows - 1),
            x,
            sprite_y(y, rows - 1),
            mem[cell(i + rows - 1)],
        );
        lemma_draw_keeps_binary(
            draw_sprite(screen, mem, i, x, y, rows - 1),
            x,
            sprite_y(y, rows - 1),
            mem[cell(i + rows - 1)],
        );
    }
}

/// What every step keeps: the program counter and the return addresses
/// stay within the address space, the pixels stay 0 or 1, and the stack
/// grows by one entry on a call and by none otherwise.
pub proof fn lemma_step_keeps_invariants(s: Machine, inst: u16, rnd: u8, delay_now: u8, at: Instant)
    requires
        s.wf(),
        step(s, inst, rnd, delay_now, at).is_ok(),
    ensures
        step(s, inst, rnd, delay_now, at).unwrap().wf(),
        binary(s.screen) ==> binary(step(s, inst, rnd, delay_now, at).unwrap().screen),
        step(s, inst, rnd, delay_now, at).unwrap().stack.len() <= s.stack.len() + (if family(inst)
            == 0x2 {
            1int
        } else {
            0int
        }),
{
    let t = step(s, inst, rnd, delay_now, at).unwrap();
    if family(inst) == 0xD && binary(s.screen) {
        lemma_sprite_keeps_binary(s.screen, s.mem, s.i, s.v[op_x(inst)], s.v[op_y(inst)], op_n(inst));
    }
    if family(inst) == 0xD {
        lemma_sprite_len(s.screen, s.mem, s.i, s.v[op_x(inst)], s.v[op_y(inst)], op_n(inst));
    }
}

/// Drawing a sprite keeps the size of the screen.
proof fn lemma_sprite_len(screen: Seq<u8>, mem: Seq<u8>, i: u16, x: u8, y: u8, rows: int)
    ensures
        draw_sprite(screen, mem, i, x, y, rows).len() == screen.len(),
    decreases rows,
{
    if rows > 0 {
        lemma_sprite_len(screen, mem, i, x, y, rows - 1);
        lemma_draw_len(
            draw_sprite(screen, mem, i, x, y, rows - 1),
            x,
            sprite_y(y, rows - 1),
            mem[cell(i + rows - 1)],
        );
    }
}

/// Whether the pixel at `index` goes from 0 to 1 when the first `rows`
/// rows of the sprite are drawn.
pub open spec fn sprite_lights_at(
    screen: Seq<u8>,
    mem: Seq<u8>,
    i: u16,
    x: u8,
    y: u8,
    rows: int,
    index: int,
) -> bool {
    0 <= index < screen.len() && screen[index] == 0 && draw_sprite(screen, mem, i, x, y, rows)[index]
        == 1
}

/// Whether drawing the first `rows` rows of the sprite leaves at least one
/// pixel on that was off before.
pub open spec fn sprite_lights(screen: Seq<u8>, mem: Seq<u8>, i: u16, x: u8, y: u8, rows: int) -> bool {
    exists|index: int| #[trigger] sprite_lights_at(screen, mem, i, x, y, rows, index)
}

/// A sprite row drawn before a sprite gives the same screen as the same
/// row drawn after it.
proof fn lemma_sprite_commutes(
    screen: Seq<u8>,
    mem: Seq<u8>,
    i: u16,
    x: u8,
    y: u8,
    rows: int,
    other_y: u8,
    other: u8,
)
    ensures
        draw_sprite(draw_screen(screen, x, other_y, other), mem, i, x, y, rows) == draw_screen(
            draw_sprite(screen, mem, i, x, y, rows),
            x,
            other_y,
            other,
        ),
    decreases rows,
{
    if rows > 0 {
        lemma_sprite_commutes(screen, mem, i, x, y, rows - 1, other_y, other);
        lemma_draw_commutes(
            draw_sprite(screen, mem, i, x, y, rows - 1),
            x,
            other_y,
            other,
            sprite_y(y, rows - 1),
            mem[cell(i + rows - 1)],
        );
    }
}

/// A sprite drawn twice at the same place restores every pixel.
pub proof fn lemma_sprite_twice_restores(
    screen: Seq<u8>,
    mem: Seq<u8>,
    i: u16,
    x: u8,
    y: u8,
    rows: int,
)
    ensures
        draw_sprite(draw_sprite(screen, mem, i, x, y, rows), mem, i, x, y, rows) == screen,
    decreases rows,
{
    if rows > 0 {
        let below = draw_sprite(screen, mem, i, x, y, rows - 1);
        let row_y = sprite_y(y, rows - 1);
        let row = mem[cell(i + rows - 1)];
        lemma_sprite_commutes(below, mem, i, x, y, rows - 1, row_y, row);
        lemma_sprite_twice_restores(screen, mem, i, x, y, rows - 1);
        lemma_draw_twice(screen, x, row_y, row);
    }
}

/// A pixel that is 1 before a sprite is drawn and 0 after it makes the
/// sprite collide, on a screen of zeros and ones.
proof fn lemma_sprite_collides_at(
    screen: Seq<u8>,
    mem: Seq<u8>,
    i: u16,
    x: u8,
    y: u8,
    rows: int,
    index: int,
)
    requires
        binary(screen),
        0 <= index < screen.len(),
        screen[index] == 1,
        draw_sprite(screen, mem, i, x, y, rows)[index] == 0,
    ensures
        sprite_collides(screen, mem, i, x, y, rows),
    decreases rows,
{
    if rows > 0 {
        let below = draw_sprite(screen, mem, i, x, y, rows - 1);
        lemma_sprite_keeps_binary(screen, mem, i, x, y, rows - 1);
        if below[index] == 0 {
            lemma_sprite_collides_at(screen, mem, i, x, y, rows - 1, index);
        } else {
            assert(below[index] == 1);
            lemma_draw_erases_at(below, x, sprite_y(y, rows - 1), mem[cell(i + rows - 1)], index);
        }
    }
}

/// Drawing the same sprite twice at the same place, with the index
/// register and memory unchanged in between, restores the screen; and on
/// a screen of zeros and ones the second draw sets VF to 1 when the first
/// one left a pixel on that was off before.
pub proof fn lemma_draw_sprite_twice(s: Machine, x: u8, y: u8, rows: int)
    requires
        s.wf(),
    ensures
        s.draw(x, y, rows).draw(x, y, rows).screen == s.screen,
        binary(s.screen) && sprite_lights(s.screen, s.mem, s.i, x, y, rows) ==> s.draw(
            x,
            y,
            rows,
        ).draw(x, y, rows).v[0xF] == 1,
{
    let once = draw_sprite(s.screen, s.mem, s.i, x, y, rows);
    lemma_sprite_twice_restores(s.screen, s.mem, s.i, x, y, rows);
    if binary(s.screen) && sprite_lights(s.screen, s.mem, s.i, x, y, rows) {
        let index = choose|index: int| #[trigger]
            sprite_lights_at(s.screen, s.mem, s.i, x, y, rows, index);
        lemma_sprite_keeps_binary(s.screen, s.mem, s.i, x, y, rows);
        lemma_sprite_collides_at(once, s.mem, s.i, x, y, rows, index);
    }
}

/// What `Fx65` leaves in each register: the first `count` come from memory
/// at the index register and upwards, the others stay.
pub proof fn lemma_load_registers(v: Seq<u8>, mem: Seq<u8>, i: u16, count: int, k: int)
    requires
        0 <= k < v.len(),
    ensures
        load_registers(v, mem, i, count).len() == v.len(),
        load_registers(v, mem, i, count)[k] == (if k < count {
            mem[cell(i + k)]
        } else {
            v[k]
        }),
{
}

/// What `Fx55` leaves in memory: for each of the first `count` registers
/// the cell `k` above the index register holds the register `k`, and the
/// cells further up stay.
pub proof fn lemma_store_registers(v: Seq<u8>, mem: Seq<u8>, i: u16, count: int, k: int)
    requires
        mem.len() == 4096,
        0 <= k < 4096,
    ensures
        store_registers(mem, v, i, count).len() == 4096,
        store_registers(mem, v, i, count)[cell(i + k)] == (if k < count {
            v[k]
        } else {
            mem[cell(i + k)]
        }),
{
    assert(cell_offset(i, cell(i + k)) == k);
}

} // verus!
