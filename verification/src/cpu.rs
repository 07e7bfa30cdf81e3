//! The interpreter: registers, program counter, index register, call stack
//! and timers, around the memory, the display and the keyboard.

use crate::display::Display;
use crate::keyboard::Keyboard;
use crate::machine::alu;
use crate::machine::alu_known;
use crate::machine::cell_offset;
use crate::machine::draw_sprite;
use crate::machine::family;
use crate::machine::fetch;
use crate::machine::follows;
use crate::machine::load_program;
use crate::machine::load_registers;
use crate::machine::op_n;
use crate::machine::op_nn;
use crate::machine::op_nnn;
use crate::machine::op_x;
use crate::machine::op_y;
use crate::machine::sprite_collides;
use crate::machine::sprite_y;
use crate::machine::store_bcd;
use crate::machine::store_registers;
use crate::machine::Fault;
use crate::machine::Machine;
use crate::ram::cell;
use crate::ram::Ram;
use crate::timer::now;
use crate::timer::remaining;
use crate::timer::Timer;
use rand::rngs::ThreadRng;
use std::time::Instant;
use rand::Rng;
use vstd::prelude::*;

verus! {

/// `rand::rngs::ThreadRng`, the handle to a thread's random generator.
/// Nothing is known of what it holds.
#[verifier::external_type_specification]
#[verifier::external_body]
pub struct ExThreadRng(rand::rngs::ThreadRng);

/// `rand::thread_rng`: a handle to the random generator of this thread.
#[verifier::external_body]
fn local_rng() -> (rng: ThreadRng) {
    rand::thread_rng()
}

/// `Rng::gen_range` on the inclusive range from `low` to `high`: a value
/// drawn from that range. The range must not be empty.
#[verifier::external_body]
fn random_in(rng: &mut ThreadRng, low: u8, high: u8) -> (value: u8)
    requires
        low <= high,
    ensures
        low <= value <= high,
{
    rng.gen_range(low..=high)
}

pub struct Cpu {
    pub ram: Ram,
    pub display: Display,
    pub keyboard: Keyboard,
    /// The registers V0 to VF.
    pub vx: [u8; 16],
    /// The program counter.
    pub pc: u16,
    /// The index register.
    pub i: u16,
    /// The return addresses, the most recent last.
    pub stack: Vec<u16>,
    /// The source of the random bytes.
    pub rng: ThreadRng,
    /// The delay timer.
    pub delay: Timer,
    /// The sound timer.
    pub sound: Timer,
}

/// A cell lies `k` above the one that `i` selects exactly when it is the
/// cell of `i + k`.
proof fn lemma_cell_offset_unique(i: u16, k: int, addr: int)
    requires
        0 <= k < 4096,
        0 <= addr < 4096,
    ensures
        cell_offset(i, addr) == k <==> addr == cell(i + k),
{
}

impl Cpu {
    /// The machine that this interpreter stands for.
    pub open spec fn view(&self) -> Machine {
        Machine {
            mem: self.ram.mem@,
            screen: self.display.screen@,
            key: self.keyboard.pressed_key,
            v: self.vx@,
            pc: self.pc,
            i: self.i,
            stack: self.stack@,
            delay: self.delay,
            sound: self.sound,
        }
    }

    /// A machine with the font in memory, a blank screen, no key pressed,
    /// all registers and timers 0, and the program counter at 0x200.
    pub fn new() -> (cpu: Cpu)
        ensures
            cpu@ == Machine::initial(cpu.delay.since, cpu.sound.since),
    {
        let cpu = Cpu {
            ram: Ram::new(),
            display: Display::new(),
            keyboard: Keyboard::new(),
            vx: [0u8;16],
            pc: 0x200,
            i: 0,
            stack: Vec::new(),
            rng: local_rng(),
            delay: Timer::new(),
            sound: Timer::new(),
        };
        assert(cpu@.v =~= Machine::initial(cpu.delay.since, cpu.sound.since).v);
        assert(cpu@.stack =~= Machine::initial(cpu.delay.since, cpu.sound.since).stack);
        cpu
    }

    /// Copies `data` into memory from address 0x200 upwards. The program
    /// must fit into the 3584 bytes from there to the end of memory.
    pub fn load_rom(&mut self, data: &Vec<u8>)
        requires
            data@.len() <= 4096 - 0x200,
        ensures
            final(self)@ == old(self)@.with_mem(load_program(old(self)@.mem, data@)),
            final(self).delay == old(self).delay,
            final(self).sound == old(self).sound,
    {
        let ghost before = self@;
        let mut idx: usize = 0;
        assert(self@ =~= before.with_mem(self.ram.mem@));
        while idx < data.len()
            invariant
                idx <= data@.len() <= 4096 - 0x200,
                self@ == before.with_mem(self.ram.mem@),
                before.mem.len() == 4096,
                forall|addr: int|
                    0 <= addr < 4096 ==> #[trigger] self.ram.mem@[addr] == (if 0x200 <= addr < 0x200
                        + idx {
                        data@[addr - 0x200]
                    } else {
                        before.mem[addr]
                    }),
            decreases data@.len() - idx,
        {
            self.ram.write_byte((0x200 + idx) as u16, data[idx]);
            idx += 1;
        }
        assert(self.ram.mem@ =~= load_program(before.mem, data@));
    }

    /// The current value of the sound timer, which decays as the delay
    /// timer does.
    pub fn sound_timer(&self) -> (left: u8)
        ensures
            left <= self@.sound.value,
            exists|elapsed_ms: int|
                0 <= elapsed_ms && left == #[trigger] remaining(self@.sound.value, elapsed_ms),
    {
        self.sound.get()
    }

    /// The current value of the delay timer: the value it was set to, less
    /// one for every 16 milliseconds that the clock says have passed since,
    /// and 0 once that would go below.
    pub fn get_timer(&self) -> (left: u8)
        ensures
            left <= self@.delay.value,
            exists|elapsed_ms: int|
                0 <= elapsed_ms && left == #[trigger] remaining(self@.delay.value, elapsed_ms),
    {
        self.delay.get()
    }

    /// Sets the delay timer to `value` and restarts its clock at the
    /// instant `at`. Nothing else changes.
    pub fn set_timer_at(&mut self, value: u8, at: Instant)
        ensures
            final(self)@ == old(self)@.with_delay(Timer { value, since: at }),
    {
        self.delay.set_at(value, at);
    }

    /// Sets the delay timer to `value` and restarts its clock at the
    /// instant that the clock shows now. Nothing else changes.
    pub fn set_timer(&mut self, value: u8)
        ensures
            final(self)@ == old(self)@.with_delay(
                Timer { value, since: final(self).delay.since },
            ),
    {
        let at: Instant = now();
        self.set_timer_at(value, at);
    }

    /// Draws the sprite of `n` rows that starts at the index register onto
    /// the screen at `(x, y)`, each row one line below the last, and sets
    /// VF to 1 if a pixel was erased, else to 0.
    pub fn draw(&mut self, x: u8, y: u8, n: u8)
        ensures
            final(self)@ == old(self)@.draw(x, y, n as int),
            final(self).delay == old(self).delay,
            final(self).sound == old(self).sound,
    {
        let ghost before = self@;
        let mut vf_state = false;
        let mut r: u8 = 0;
        assert(self@ =~= before.with_screen(self.display.screen@));
        while r < n
            invariant
                r <= n,
                self.i == before.i,
                self.ram.mem@ == before.mem,
                self@ == before.with_screen(self.display.screen@),
                self.display.screen@ == draw_sprite(
                    before.screen,
                    before.mem,
                    before.i,
                    x,
                    y,
                    r as int,
                ),
                vf_state == sprite_collides(before.screen, before.mem, before.i, x, y, r as int),
            decreases n - r,
        {
            let addr: u16 = ((self.i as u32 + r as u32) % 4096) as u16;
            let d: u8 = self.ram.read_byte(addr);
            let row: u8 = ((y as u16 + r as u16) % 256) as u8;
            assert(addr as int == cell(before.i + r));
            assert(row == sprite_y(y, r as int));
            let erased: bool = self.display.draw(x, row, d);
            vf_state = vf_state || erased;
            r += 1;
        }
        self.vx[0xF] = if vf_state {
            1
        } else {
            0
        };
        assert(self@ =~= before.draw(x, y, n as int));
    }

    fn set_register(&mut self, x: u8, value: u8)
        requires
            x < 16,
        ensures
            final(self)@ == old(self)@.with_reg(x as int, value),
    {
        let ghost before = self@;
        self.vx[x as usize] = value;
        assert(self@ =~= before.with_reg(x as int, value));
    }

    fn forward(&mut self, by: u16)
        requires
            by <= 4,
        ensures
            final(self)@ == old(self)@.forward(by as int),
    {
        self.pc = ((self.pc as u32 + by as u32) % 4096) as u16;
    }

    fn skip_if(&mut self, cond: bool)
        ensures
            final(self)@ == old(self)@.skip_if(cond),
    {
        self.forward(
            if cond {
                4
            } else {
                2
            },
        );
    }

    fn set_index(&mut self, i: u16)
        ensures
            final(self)@ == old(self)@.with_index(i),
    {
        self.i = i;
    }

    /// The arithmetic instruction `n` on the registers `x` and `y`.
    fn alu(&mut self, n: u8, x: u8, y: u8)
        requires
            x < 16,
            y < 16,
            alu_known(n as int),
        ensures
            final(self)@ == old(self)@.with_regs(alu(old(self)@.v, n as int, x as int, y as int)),
    {
        let ghost before = self@;
        let vx: u8 = self.vx[x as usize];
        let vy: u8 = self.vx[y as usize];
        if n == 0x0 {
            self.vx[x as usize] = vy;
        } else if n == 0x1 {
            self.vx[x as usize] = vx | vy;
        } else if n == 0x2 {
            self.vx[x as usize] = vx & vy;
        } else if n == 0x3 {
            self.vx[x as usize] = vx ^ vy;
        } else if n == 0x4 {
            let s: u16 = vx as u16 + vy as u16;
            self.vx[x as usize] = (s % 256) as u8;
            self.vx[0xF] = if s > 0xFF {
                1
            } else {
                0
            };
        } else if n == 0x5 {
            self.vx[x as usize] = if vx >= vy {
                vx - vy
            } else {
                (256 + vx as u16 - vy as u16) as u8
            };
            self.vx[0xF] = if vx >= vy {
                1
            } else {
                0
            };
        } else if n == 0x6 {
            self.vx[0xF] = vx % 2;
            self.vx[x as usize] = vx / 2;
        } else if n == 0x7 {
            self.vx[x as usize] = if vy >= vx {
                vy - vx
            } else {
                (256 + vy as u16 - vx as u16) as u8
            };
            self.vx[0xF] = if vy >= vx {
                1
            } else {
                0
            };
        } else {
            self.vx[x as usize] = ((vx as u16 * 2) % 256) as u8;
            self.vx[0xF] = vx / 128;
        }
        assert(self@.v =~= alu(before.v, n as int, x as int, y as int));
    }

    /// Stores the decimal digits of `value` at the index register.
    fn store_bcd(&mut self, value: u8)
        ensures
            final(self)@ == old(self)@.with_mem(store_bcd(old(self)@.mem, old(self)@.i, value)),
    {
        let ghost before = self@;
        let a0: u16 = self.i % 4096;
        let a1: u16 = ((self.i as u32 + 1) % 4096) as u16;
        let a2: u16 = ((self.i as u32 + 2) % 4096) as u16;
        self.ram.write_byte(a0, value / 100);
        self.ram.write_byte(a1, (value % 100) / 10);
        self.ram.write_byte(a2, value % 10);
        assert(self@.mem =~= store_bcd(before.mem, before.i, value));
    }

    /// Stores the registers V0 to Vx at the index register and upwards.
    fn store_registers(&mut self, x: u8)
        requires
            x < 16,
        ensures
            final(self)@ == old(self)@.with_mem(
                store_registers(old(self)@.mem, old(self)@.v, old(self)@.i, x + 1),
            ),
    {
        let ghost before = self@;
        let mut k: u8 = 0;
        assert(self@ =~= before.with_mem(self.ram.mem@));
        while k <= x
            invariant
                k <= x + 1,
                x < 16,
                self@ == before.with_mem(self.ram.mem@),
                before.mem.len() == 4096,
                forall|addr: int|
                    0 <= addr < 4096 ==> #[trigger] self.ram.mem@[addr] == (if cell_offset(
                        before.i,
                        addr,
                    ) < k {
                        before.v[cell_offset(before.i, addr)]
                    } else {
                        before.mem[addr]
                    }),
            decreases x + 1 - k,
        {
            let addr: u16 = ((self.i as u32 + k as u32) % 4096) as u16;
            let value: u8 = self.vx[k as usize];
            proof {
                assert forall|other: int| 0 <= other < 4096 implies (cell_offset(before.i, other)
                    == k <==> other == addr) by {
                    lemma_cell_offset_unique(before.i, k as int, other);
                }
            }
            self.ram.write_byte(addr, value);
            k += 1;
        }
        assert(self.ram.mem@ =~= store_registers(before.mem, before.v, before.i, x + 1));
    }

    /// Loads the registers V0 to Vx from the index register and upwards.
    fn load_registers(&mut self, x: u8)
        requires
            x < 16,
        ensures
            final(self)@ == old(self)@.with_regs(
                load_registers(old(self)@.v, old(self)@.mem, old(self)@.i, x + 1),
            ),
    {
        let ghost before = self@;
        let mut k: u8 = 0;
        assert(self@ =~= before.with_regs(self.vx@));
        while k <= x
            invariant
                k <= x + 1,
                x < 16,
                self@ == before.with_regs(self.vx@),
                forall|j: int|
                    0 <= j < 16 ==> #[trigger] self.vx@[j] == (if j < k {
                        before.mem[cell(before.i + j)]
                    } else {
                        before.v[j]
                    }),
            decreases x + 1 - k,
        {
            let addr: u16 = ((self.i as u32 + k as u32) % 4096) as u16;
            let value: u8 = self.ram.read_byte(addr);
            self.vx[k as usize] = value;
            k += 1;
        }
        assert(self.vx@ =~= load_registers(before.v, before.mem, before.i, x + 1));
    }

    /// The instruction word at the program counter.
    pub fn fetch(&self) -> (inst: u16)
        ensures
            inst == fetch(self@.mem, self@.pc),
    {
        let h: u8 = self.ram.read_byte(self.pc % 4096);
        let l: u8 = self.ram.read_byte(((self.pc as u32 + 1) % 4096) as u16);
        h as u16 * 256 + l as u16
    }

    /// Executes `inst`. `rnd` is the byte that `Cxnn` takes for its random
    /// number, `delay_now` the value that `Fx07` reads as the delay timer,
    /// and `at` the instant at which `Fx15` and `Fx18` restart their timer.
    /// On a fault the machine is left as it was.
    pub fn execute(&mut self, inst: u16, rnd: u8, delay_now: u8, at: Instant) -> (r: Result<
        (),
        Fault,
    >)
        ensures
            follows(old(self)@, inst, rnd, delay_now, at, final(self)@, r),
            !(family(inst) == 0xF && op_nn(inst) == 0x15) ==> final(self).delay == old(self).delay,
            !(family(inst) == 0xF && op_nn(inst) == 0x18) ==> final(self).sound == old(self).sound,
    {
        let ghost before = self@;
        let f: u16 = inst / 0x1000;
        let x: u8 = ((inst / 0x100) % 0x10) as u8;
        let y: u8 = ((inst / 0x10) % 0x10) as u8;
        let n: u8 = (inst % 0x10) as u8;
        let nn: u8 = (inst % 0x100) as u8;
        let nnn: u16 = inst % 0x1000;
        assert(f == family(inst) && x == op_x(inst) && y == op_y(inst) && n == op_n(inst) && nn
            == op_nn(inst) && nnn == op_nnn(inst));
        let unknown: Result<(), Fault> = Err(Fault::UnknownInstruction { inst, pc: self.pc });
        if f == 0x0 {
            if nn == 0xE0 {
                self.display.clear();
                self.forward(2);
            } else if nn == 0xEE {
                match self.stack.pop() {
                    Some(addr) => {
                        self.pc = addr;
                        assert(self@ =~= before.ret());
                    },
                    None => {
                        return Err(Fault::StackUnderflow { pc: self.pc });
                    },
                }
            } else {
                return unknown;
            }
        } else if f == 0x1 {
            self.pc = nnn;
        } else if f == 0x2 {
            let back: u16 = ((self.pc as u32 + 2) % 4096) as u16;
            self.stack.push(back);
            self.pc = nnn;
            assert(self@ =~= before.call(nnn));
        } else if f == 0x3 {
            let vx: u8 = self.vx[x as usize];
            self.skip_if(vx == nn);
        } else if f == 0x4 {
            let vx: u8 = self.vx[x as usize];
            self.skip_if(vx != nn);
        } else if f == 0x5 {
            let vx: u8 = self.vx[x as usize];
            let vy: u8 = self.vx[y as usize];
            self.skip_if(vx == vy);
        } else if f == 0x6 {
            self.set_register(x, nn);
            self.forward(2);
        } else if f == 0x7 {
            let vx: u8 = self.vx[x as usize];
            self.set_register(x, ((vx as u16 + nn as u16) % 256) as u8);
            self.forward(2);
        } else if f == 0x8 {
            if n <= 0x7 || n == 0xE {
                self.alu(n, x, y);
                self.forward(2);
            } else {
                return unknown;
            }
        } else if f == 0x9 {
            let vx: u8 = self.vx[x as usize];
            let vy: u8 = self.vx[y as usize];
            self.skip_if(vx != vy);
        } else if f == 0xA {
            self.set_index(nnn);
            self.forward(2);
        } else if f == 0xB {
            self.pc = ((self.vx[0] as u32 + nnn as u32) % 4096) as u16;
        } else if f == 0xC {
            self.set_register(x, rnd & nn);
            self.forward(2);
        } else if f == 0xD {
            let vx: u8 = self.vx[x as usize];
            let vy: u8 = self.vx[y as usize];
            self.draw(vx, vy, n);
            self.forward(2);
        } else if f == 0xE {
            let key: u8 = self.vx[x as usize];
            let pressed: bool = match self.keyboard.pressed_key {
                Some(down) => down == key,
                None => false,
            };
            if nn == 0x9E {
                self.skip_if(pressed);
            } else if nn == 0xA1 {
                self.skip_if(!pressed);
            } else {
                return unknown;
            }
        } else {
            let vx: u8 = self.vx[x as usize];
            if nn == 0x07 {
                self.set_register(x, delay_now);
                self.forward(2);
            } else if nn == 0x0A {
                match self.keyboard.pressed_key {
                    Some(down) => {
                        self.set_register(x, down);
                        self.forward(2);
                    },
                    None => {},
                }
            } else if nn == 0x15 {
                self.set_timer_at(vx, at);
                self.forward(2);
            } else if nn == 0x18 {
                self.sound.set_at(vx, at);
                self.forward(2);
            } else if nn == 0x1E {
                self.set_index(((self.i as u32 + vx as u32) % 0x10000) as u16);
                self.forward(2);
            } else if nn == 0x29 {
                self.set_index(vx as u16 * 5);
                self.forward(2);
            } else if nn == 0x33 {
                self.store_bcd(vx);
                self.forward(2);
            } else if nn == 0x55 {
                self.store_registers(x);
                self.set_index(((self.i as u32 + x as u32 + 1) % 0x10000) as u16);
                self.forward(2);
            } else if nn == 0x65 {
                self.load_registers(x);
                self.set_index(((self.i as u32 + x as u32 + 1) % 0x10000) as u16);
                self.forward(2);
            } else {
                return unknown;
            }
        }
        Ok(())
    }

    /// Fetches the instruction at the program counter and executes it.
    /// `Cxnn` draws its byte from the random generator, `Fx07` reads the
    /// delay timer from the clock and `Fx15` and `Fx18` read the instant
    /// from it, so the outcome is that of `execute` for some byte, for the
    /// delay timer as it stands after some amount of time, and for some
    /// instant.
    pub fn run_instruction(&mut self) -> (r: Result<(), Fault>)
        ensures
            exists|rnd: u8, elapsed_ms: int, at: Instant|
                0 <= elapsed_ms && #[trigger] follows(
                    old(self)@,
                    fetch(old(self)@.mem, old(self)@.pc),
                    rnd,
                    remaining(old(self)@.delay.value, elapsed_ms),
                    at,
                    final(self)@,
                    r,
                ),
            !(family(fetch(old(self)@.mem, old(self)@.pc)) == 0xF && op_nn(
                fetch(old(self)@.mem, old(self)@.pc),
            ) == 0x15) ==> final(self).delay == old(self).delay,
            !(family(fetch(old(self)@.mem, old(self)@.pc)) == 0xF && op_nn(
                fetch(old(self)@.mem, old(self)@.pc),
            ) == 0x18) ==> final(self).sound == old(self).sound,
    {
        let ghost before = self@;
        let ghost mut elapsed_ms: int = 4080int;
        let inst: u16 = self.fetch();
        let rnd: u8 = if inst / 0x1000 == 0xC {
            random_in(&mut self.rng, 0, 255)
        } else {
            0
        };
        let delay_now: u8 = if inst / 0x1000 == 0xF && inst % 0x100 == 0x07 {
            let left: u8 = self.get_timer();
            proof {
                elapsed_ms =
                choose|ms: int| 0 <= ms && left == #[trigger] remaining(before.delay.value, ms);
            }
            left
        } else {
            0
        };
        let at: Instant = if inst / 0x1000 == 0xF && (inst % 0x100 == 0x15 || inst % 0x100
            == 0x18) {
            now()
        } else {
            self.delay.since
        };
        assert(delay_now == remaining(before.delay.value, elapsed_ms));
        let r = self.execute(inst, rnd, delay_now, at);
        assert(follows(
            before,
            fetch(before.mem, before.pc),
            rnd,
            remaining(before.delay.value, elapsed_ms),
            at,
            self@,
            r,
        ));
        r
    }
}

} // verus!
