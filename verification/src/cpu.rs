//! The interpreter: machine state and the stepping, ticking and input
//! operations, each verified against the model in `semantics`.

use vstd::prelude::*;

use crate::semantics::{
    add_flag, add_val, blank_disp, draw_collision, draw_disp, dump_mem, fetch16,
    font_table, initial_machine, lit, load_regs, op_c, op_d, op_kk, op_nnn, op_x, op_y, sprite_bit,
    sprite_hits, step_rel, sub_flag, sub_val, toggle, Fault, Machine, HEIGHT, MEM_SIZE, PIXEL_ON,
    lemma_grid_index, lemma_runs_to_extend, runs_to,
    PROGRAM_START, STACK_SIZE, WIDTH,
};

verus! {

/// The whole machine state: registers, memory, call stack, timers, keypad,
/// pixel grid, and the running/blocked distinction. Duplicating the value
/// yields a snapshot; assigning a snapshot back restores it whole.
#[derive(Clone)]
pub struct CPU {
    reg: Vec<u8>,
    pc: usize,
    mem: Vec<u8>,
    stack: Vec<u16>,
    sp: usize,
    i: u16,
    delay: u8,
    sound: u8,
    keys: Vec<bool>,
    waiting_key: Option<u8>,
    disp: Vec<u32>,
    halted: bool,
}

impl View for CPU {
    type V = Machine;

    closed spec fn view(&self) -> Machine {
        Machine {
            regs: self.reg@,
            mem: self.mem@,
            stack: self.stack@,
            sp: self.sp as nat,
            pc: self.pc as nat,
            index: self.i,
            delay: self.delay,
            sound: self.sound,
            keys: self.keys@,
            waiting: self.waiting_key,
            disp: self.disp@,
            halted: self.halted,
        }
    }
}

/// Relies on rand::random: a fresh value drawn from the thread-local
/// generator. Nothing is promised of the result; callers state only what
/// holds of every outcome.
pub assume_specification<T>[ rand::random::<T> ]() -> (r: T)
    where
        rand::distributions::Standard: rand::distributions::Distribution<T>,
;

/// The font bytes as a vector, glyph by glyph.
fn font_bytes() -> (v: Vec<u8>)
    ensures
        v@ == font_table(),
{
    let mut v: Vec<u8> = Vec::new();
    v.push(0xF0);
    v.push(0x90);
    v.push(0x90);
    v.push(0x90);
    v.push(0xF0);
    v.push(0x20);
    v.push(0x60);
    v.push(0x20);
    v.push(0x20);
    v.push(0x70);
    v.push(0xF0);
    v.push(0x10);
    v.push(0xF0);
    v.push(0x80);
    v.push(0xF0);
    v.push(0xF0);
    v.push(0x10);
    v.push(0xF0);
    v.push(0x10);
    v.push(0xF0);
    v.push(0x90);
    v.push(0x90);
    v.push(0xF0);
    v.push(0x10);
    v.push(0x10);
    v.push(0xF0);
    v.push(0x80);
    v.push(0xF0);
    v.push(0x10);
    v.push(0xF0);
    v.push(0xF0);
    v.push(0x80);
    v.push(0xF0);
    v.push(0x90);
    v.push(0xF0);
    v.push(0xF0);
    v.push(0x10);
    v.push(0x20);
    v.push(0x40);
    v.push(0x40);
    v.push(0xF0);
    v.push(0x90);
    v.push(0xF0);
    v.push(0x90);
    v.push(0xF0);
    v.push(0xF0);
    v.push(0x90);
    v.push(0xF0);
    v.push(0x10);
    v.push(0xF0);
    v.push(0xF0);
    v.push(0x90);
    v.push(0xF0);
    v.push(0x90);
    v.push(0x90);
    v.push(0xE0);
    v.push(0x90);
    v.push(0xE0);
    v.push(0x90);
    v.push(0xE0);
    v.push(0xF0);
    v.push(0x80);
    v.push(0x80);
    v.push(0x80);
    v.push(0xF0);
    v.push(0xE0);
    v.push(0x90);
    v.push(0x90);
    v.push(0x90);
    v.push(0xE0);
    v.push(0xF0);
    v.push(0x80);
    v.push(0xF0);
    v.push(0x80);
    v.push(0xF0);
    v.push(0xF0);
    v.push(0x80);
    v.push(0xF0);
    v.push(0x80);
    v.push(0x80);
    proof {
        assert(v@ =~= font_table());
    }
    v
}

/// Target cells of a draw that has finished `rows` full sprite rows and,
/// within the next row, the leftmost `cols` columns.
spec fn sprite_hits_partial(
    mem: Seq<u8>,
    i: int,
    x0: int,
    y0: int,
    rows: int,
    cols: int,
    px: int,
    py: int,
) -> bool {
    ||| sprite_hits(mem, i, x0, y0, rows, px, py)
    ||| (py == y0 + rows && x0 <= px < x0 + cols && sprite_bit(mem[i + rows], px - x0))
}

/// Whether the finished part of a draw has unlit some previously-lit
/// in-grid cell.
spec fn draw_collision_partial(
    disp: Seq<u32>,
    mem: Seq<u8>,
    i: int,
    x0: int,
    y0: int,
    rows: int,
    cols: int,
) -> bool {
    exists|px: int, py: int|
        0 <= px < WIDTH && 0 <= py < HEIGHT && sprite_hits_partial(
            mem,
            i,
            x0,
            y0,
            rows,
            cols,
            px,
            py,
        ) && lit(disp[py * (WIDTH as int) + px])
}

impl CPU {
    /// A fresh machine: font in low memory, program counter at the program
    /// start, registers, stack, timers, keypad and pixel grid all cleared.
    pub fn new() -> (r: CPU)
        ensures
            r@.wf(),
            r@ == initial_machine(),
    {
        let font = font_bytes();
        let mut mem: Vec<u8> = vec![0u8; MEM_SIZE];
        let mut j: usize = 0;
        while j < 80
            invariant
                mem@.len() == MEM_SIZE,
                j <= 80,
                font@ == font_table(),
                forall|k: int| 0 <= k < j ==> mem@[k] == font_table()[k],
                forall|k: int| j <= k < MEM_SIZE ==> mem@[k] == 0u8,
            decreases 80 - j,
        {
            mem[j] = font[j];
            j += 1;
        }
        let cpu = CPU {
            reg: vec![0u8; 16],
            pc: PROGRAM_START,
            mem,
            stack: vec![0u16; STACK_SIZE],
            sp: 0,
            i: 0,
            delay: 0,
            sound: 0,
            keys: vec![false; 16],
            waiting_key: None,
            disp: vec![0u32; WIDTH * HEIGHT],
            halted: false,
        };
        proof {
            assert(cpu@ =~= initial_machine());
        }
        cpu
    }

    /// Whether a halt instruction has been executed.
    pub fn halted(&self) -> (r: bool)
        ensures
            r == self@.halted,
    {
        self.halted
    }

    /// Read-only access to the full pixel grid, row-major.
    pub fn disp(&self) -> (r: &Vec<u32>)
        ensures
            r@ == self@.disp,
    {
        &self.disp
    }

    /// The value of one general-purpose register.
    pub fn reg(&self, x: u8) -> (r: u8)
        requires
            self@.wf(),
            x < 16,
        ensures
            r == self@.regs[x as int],
    {
        self.reg[x as usize]
    }

    /// Overwrite one general-purpose register.
    pub fn set_reg(&mut self, x: u8, v: u8)
        requires
            old(self)@.wf(),
            x < 16,
        ensures
            final(self)@.wf(),
            final(self)@ == old(self)@.with_reg(x as int, v),
    {
        self.reg[x as usize] = v;
        proof {
            assert(self@ =~= old(self)@.with_reg(x as int, v));
        }
    }

    /// The byte at one memory address.
    pub fn mem_at(&self, addr: u16) -> (r: u8)
        requires
            self@.wf(),
            addr < MEM_SIZE,
        ensures
            r == self@.mem[addr as int],
    {
        self.mem[addr as usize]
    }

    /// Copy a program image into memory, starting at the program start
    /// address; everything else is untouched.
    pub fn load(&mut self, rom: &[u8])
        requires
            old(self)@.wf(),
            rom@.len() <= MEM_SIZE - PROGRAM_START,
        ensures
            final(self)@.wf(),
            final(self)@ == old(self)@.with_mem(final(self)@.mem),
            final(self)@.mem.len() == MEM_SIZE,
            forall|k: int|
                0 <= k < MEM_SIZE
                    ==> final(self)@.mem[k] == (if PROGRAM_START <= k < PROGRAM_START + rom@.len() {
                    rom@[k - PROGRAM_START]
                } else {
                    old(self)@.mem[k]
                }),
    {
        let n = rom.len();
        let mut j: usize = 0;
        while j < n
            invariant
                self@.mem.len() == MEM_SIZE,
                n == rom@.len(),
                n <= MEM_SIZE - PROGRAM_START,
                j <= n,
                self@ == old(self)@.with_mem(self@.mem),
                forall|k: int|
                    0 <= k < MEM_SIZE
                        ==> self@.mem[k] == (if PROGRAM_START <= k < PROGRAM_START + j {
                        rom@[k - PROGRAM_START]
                    } else {
                        old(self)@.mem[k]
                    }),
            decreases n - j,
        {
            let b = *vstd::slice::slice_index_get(rom, j);
            self.mem[PROGRAM_START + j] = b;
            proof {
                assert(self@ =~= old(self)@.with_mem(self@.mem));
            }
            j += 1;
        }
    }

    /// One tick of the delay timer: decrement once, floored at zero.
    pub fn delay_timer_tick(&mut self)
        ensures
            final(self)@ == (Machine {
                delay: (if old(self)@.delay > 0 {
                    (old(self)@.delay - 1) as u8
                } else {
                    0u8
                }),
                ..old(self)@
            }),
    {
        if self.delay > 0 {
            self.delay = self.delay - 1;
        }
        proof {
            assert(self@ =~= Machine {
                delay: (if old(self)@.delay > 0 {
                    (old(self)@.delay - 1) as u8
                } else {
                    0u8
                }),
                ..old(self)@
            });
        }
    }

    /// One tick of the sound timer: decrement once, floored at zero. The
    /// result reports the one-shot tone request: true exactly on the tick
    /// that drives the counter from 1 to 0.
    pub fn sound_timer_tick(&mut self) -> (tone: bool)
        ensures
            final(self)@ == (Machine {
                sound: (if old(self)@.sound > 0 {
                    (old(self)@.sound - 1) as u8
                } else {
                    0u8
                }),
                ..old(self)@
            }),
            tone == (old(self)@.sound == 1),
    {
        let mut tone = false;
        if self.sound > 0 {
            self.sound = self.sound - 1;
            if self.sound == 0 {
                tone = true;
            }
        }
        proof {
            assert(self@ =~= Machine {
                sound: (if old(self)@.sound > 0 {
                    (old(self)@.sound - 1) as u8
                } else {
                    0u8
                }),
                ..old(self)@
            });
        }
        tone
    }

    /// Read the big-endian instruction word at the program counter.
    fn read_opcode(&self) -> (r: u16)
        requires
            self@.wf(),
            self@.pc + 1 < MEM_SIZE,
        ensures
            r == fetch16(self@.mem, self@.pc as int),
    {
        let pc = self.pc;
        let op_byte1 = self.mem[pc] as u16;
        let op_byte2 = self.mem[pc + 1] as u16;
        op_byte1 << 8u16 | op_byte2
    }

    /// Clear the pixel grid to all-unlit.
    fn disp_clear(&mut self)
        requires
            old(self)@.wf(),
        ensures
            final(self)@.wf(),
            final(self)@ == old(self)@.with_disp(blank_disp()),
    {
        self.disp = vec![0u32; WIDTH * HEIGHT];
        proof {
            assert(self@.disp =~= blank_disp());
            assert(self@ =~= old(self)@.with_disp(blank_disp()));
        }
    }

    /// Pop the call stack into the program counter; underflow is fatal.
    fn ret(&mut self) -> (r: Result<(), Fault>)
        requires
            old(self)@.wf(),
        ensures
            final(self)@.wf(),
            old(self)@.sp == 0 ==> r == Err::<(), Fault>(Fault::StackUnderflow) && final(self)@
                == old(self)@,
            old(self)@.sp > 0 ==> r == Ok::<(), Fault>(()) && final(self)@ == (Machine {
                sp: (old(self)@.sp - 1) as nat,
                pc: old(self)@.stack[old(self)@.sp - 1] as nat,
                ..old(self)@
            }),
    {
        if self.sp == 0 {
            return Err(Fault::StackUnderflow);
        }
        self.sp = self.sp - 1;
        let addr = self.stack[self.sp];
        self.pc = addr as usize;
        proof {
            assert(self@ =~= (Machine {
                sp: (old(self)@.sp - 1) as nat,
                pc: old(self)@.stack[old(self)@.sp - 1] as nat,
                ..old(self)@
            }));
        }
        Ok(())
    }

    /// Set the program counter to an absolute address.
    fn jump(&mut self, addr: u16)
        requires
            old(self)@.wf(),
        ensures
            final(self)@.wf(),
            final(self)@ == old(self)@.with_pc(addr as nat),
    {
        self.pc = addr as usize;
        proof {
            assert(self@ =~= old(self)@.with_pc(addr as nat));
        }
    }

    /// Push the program counter and jump; overflow of the 16-entry call
    /// stack is fatal.
    fn call(&mut self, addr: u16) -> (r: Result<(), Fault>)
        requires
            old(self)@.wf(),
        ensures
            final(self)@.wf(),
            old(self)@.sp == STACK_SIZE ==> r == Err::<(), Fault>(Fault::StackOverflow) && final(self)@ == old(self)@,
            old(self)@.sp < STACK_SIZE ==> r == Ok::<(), Fault>(()) && final(self)@ == (Machine {
                stack: old(self)@.stack.update(old(self)@.sp as int, old(self)@.pc as u16),
                sp: (old(self)@.sp + 1) as nat,
                pc: addr as nat,
                ..old(self)@
            }),
    {
        if self.sp == STACK_SIZE {
            return Err(Fault::StackOverflow);
        }
        self.stack[self.sp] = self.pc as u16;
        self.sp = self.sp + 1;
        self.pc = addr as usize;
        proof {
            assert(self@ =~= (Machine {
                stack: old(self)@.stack.update(old(self)@.sp as int, old(self)@.pc as u16),
                sp: (old(self)@.sp + 1) as nat,
                pc: addr as nat,
                ..old(self)@
            }));
        }
        Ok(())
    }

    /// Skip the next instruction when register `x` equals `kk`.
    fn eq(&mut self, x: u8, kk: u8)
        requires
            old(self)@.wf(),
            x < 16,
            old(self)@.pc + 2 <= 0xFFFF,
        ensures
            final(self)@.wf(),
            final(self)@ == (if old(self)@.regs[x as int] == kk {
                old(self)@.with_pc((old(self)@.pc + 2) as nat)
            } else {
                old(self)@
            }),
    {
        let x_val = self.reg[x as usize];
        if x_val == kk {
            self.pc = self.pc + 2;
        }
        proof {
            if old(self)@.regs[x as int] == kk {
                assert(self@ =~= old(self)@.with_pc((old(self)@.pc + 2) as nat));
            }
        }
    }

    /// Skip the next instruction when register `x` differs from `kk`.
    fn neq(&mut self, x: u8, kk: u8)
        requires
            old(self)@.wf(),
            x < 16,
            old(self)@.pc + 2 <= 0xFFFF,
        ensures
            final(self)@.wf(),
            final(self)@ == (if old(self)@.regs[x as int] != kk {
                old(self)@.with_pc((old(self)@.pc + 2) as nat)
            } else {
                old(self)@
            }),
    {
        let x_val = self.reg[x as usize];
        if x_val != kk {
            self.pc = self.pc + 2;
        }
        proof {
            if old(self)@.regs[x as int] != kk {
                assert(self@ =~= old(self)@.with_pc((old(self)@.pc + 2) as nat));
            }
        }
    }

    /// Skip the next instruction when register `x` equals register `y`.
    fn eq_xy(&mut self, x: u8, y: u8)
        requires
            old(self)@.wf(),
            x < 16,
            y < 16,
            old(self)@.pc + 2 <= 0xFFFF,
        ensures
            final(self)@.wf(),
            final(self)@ == (if old(self)@.regs[x as int] == old(self)@.regs[y as int] {
                old(self)@.with_pc((old(self)@.pc + 2) as nat)
            } else {
                old(self)@
            }),
    {
        let x_val = self.reg[x as usize];
        let y_val = self.reg[y as usize];
        if x_val == y_val {
            self.pc = self.pc + 2;
        }
        proof {
            if old(self)@.regs[x as int] == old(self)@.regs[y as int] {
                assert(self@ =~= old(self)@.with_pc((old(self)@.pc + 2) as nat));
            }
        }
    }

    /// Skip the next instruction when register `x` differs from register `y`.
    fn neq_xy(&mut self, x: u8, y: u8)
        requires
            old(self)@.wf(),
            x < 16,
            y < 16,
            old(self)@.pc + 2 <= 0xFFFF,
        ensures
            final(self)@.wf(),
            final(self)@ == (if old(self)@.regs[x as int] != old(self)@.regs[y as int] {
                old(self)@.with_pc((old(self)@.pc + 2) as nat)
            } else {
                old(self)@
            }),
    {
        let x_val = self.reg[x as usize];
        let y_val = self.reg[y as usize];
        if x_val != y_val {
            self.pc = self.pc + 2;
        }
        proof {
            if old(self)@.regs[x as int] != old(self)@.regs[y as int] {
                assert(self@ =~= old(self)@.with_pc((old(self)@.pc + 2) as nat));
            }
        }
    }

    /// Register `x` := `kk`.
    fn set(&mut self, x: u8, kk: u8)
        requires
            old(self)@.wf(),
            x < 16,
        ensures
            final(self)@.wf(),
            final(self)@ == old(self)@.with_reg(x as int, kk),
    {
        self.reg[x as usize] = kk;
        proof {
            assert(self@ =~= old(self)@.with_reg(x as int, kk));
        }
    }

    /// Register `x` := register `x` + `kk`, modulo 256; the flag register
    /// is untouched.
    fn inc(&mut self, x: u8, kk: u8)
        requires
            old(self)@.wf(),
            x < 16,
        ensures
            final(self)@.wf(),
            final(self)@ == old(self)@.with_reg(
                x as int,
                add_val(old(self)@.regs[x as int], kk),
            ),
    {
        let v = ((self.reg[x as usize] as u16 + kk as u16) % 256) as u8;
        self.reg[x as usize] = v;
        proof {
            assert(self@ =~= old(self)@.with_reg(x as int, add_val(old(self)@.regs[x as int], kk)));
        }
    }

    /// Register `x` := register `y`.
    fn assn(&mut self, x: u8, y: u8)
        requires
            old(self)@.wf(),
            x < 16,
            y < 16,
        ensures
            final(self)@.wf(),
            final(self)@ == old(self)@.with_reg(x as int, old(self)@.regs[y as int]),
    {
        let y_val = self.reg[y as usize];
        self.reg[x as usize] = y_val;
        proof {
            assert(self@ =~= old(self)@.with_reg(x as int, old(self)@.regs[y as int]));
        }
    }

    /// Register `x` := register `x` bitwise-or register `y`.
    fn or_xy(&mut self, x: u8, y: u8)
        requires
            old(self)@.wf(),
            x < 16,
            y < 16,
        ensures
            final(self)@.wf(),
            final(self)@ == old(self)@.with_reg(
                x as int,
                old(self)@.regs[x as int] | old(self)@.regs[y as int],
            ),
    {
        let x_val = self.reg[x as usize];
        let y_val = self.reg[y as usize];
        self.reg[x as usize] = x_val | y_val;
        proof {
            assert(self@ =~= old(self)@.with_reg(
                x as int,
                old(self)@.regs[x as int] | old(self)@.regs[y as int],
            ));
        }
    }

    /// Register `x` := register `x` bitwise-and register `y`.
    fn and_xy(&mut self, x: u8, y: u8)
        requires
            old(self)@.wf(),
            x < 16,
            y < 16,
        ensures
            final(self)@.wf(),
            final(self)@ == old(self)@.with_reg(
                x as int,
                old(self)@.regs[x as int] & old(self)@.regs[y as int],
            ),
    {
        let x_val = self.reg[x as usize];
        let y_val = self.reg[y as usize];
        self.reg[x as usize] = x_val & y_val;
        proof {
            assert(self@ =~= old(self)@.with_reg(
                x as int,
                old(self)@.regs[x as int] & old(self)@.regs[y as int],
            ));
        }
    }

    /// Register `x` := register `x` bitwise-xor register `y`.
    fn xor_xy(&mut self, x: u8, y: u8)
        requires
            old(self)@.wf(),
            x < 16,
            y < 16,
        ensures
            final(self)@.wf(),
            final(self)@ == old(self)@.with_reg(
                x as int,
                old(self)@.regs[x as int] ^ old(self)@.regs[y as int],
            ),
    {
        let x_val = self.reg[x as usize];
        let y_val = self.reg[y as usize];
        self.reg[x as usize] = x_val ^ y_val;
        proof {
            assert(self@ =~= old(self)@.with_reg(
                x as int,
                old(self)@.regs[x as int] ^ old(self)@.regs[y as int],
            ));
        }
    }

    /// Register `x` := register `x` + register `y`, modulo 256; the flag
    /// register takes the carry: 1 exactly when the true sum reaches 256.
    fn add_xy(&mut self, x: u8, y: u8)
        requires
            old(self)@.wf(),
            x < 16,
            y < 16,
        ensures
            final(self)@.wf(),
            final(self)@ == old(self)@.with_reg(
                x as int,
                add_val(old(self)@.regs[x as int], old(self)@.regs[y as int]),
            ).with_reg(15, add_flag(old(self)@.regs[x as int], old(self)@.regs[y as int])),
    {
        let x_val = self.reg[x as usize];
        let y_val = self.reg[y as usize];
        let sum = x_val as u16 + y_val as u16;
        self.reg[x as usize] = (sum % 256) as u8;
        self.reg[15] = if sum >= 256 {
            1
        } else {
            0
        };
        proof {
            assert(self@ =~= old(self)@.with_reg(
                x as int,
                add_val(old(self)@.regs[x as int], old(self)@.regs[y as int]),
            ).with_reg(15, add_flag(old(self)@.regs[x as int], old(self)@.regs[y as int])));
        }
    }

    /// Register `x` := register `x` - register `y`, modulo 256; the flag
    /// register takes the no-borrow indicator: 1 exactly when register `x`
    /// was at least register `y`.
    fn sub_xy(&mut self, x: u8, y: u8)
        requires
            old(self)@.wf(),
            x < 16,
            y < 16,
        ensures
            final(self)@.wf(),
            final(self)@ == old(self)@.with_reg(
                x as int,
                sub_val(old(self)@.regs[x as int], old(self)@.regs[y as int]),
            ).with_reg(15, sub_flag(old(self)@.regs[x as int], old(self)@.regs[y as int])),
    {
        let x_val = self.reg[x as usize];
        let y_val = self.reg[y as usize];
        let diff = ((x_val as u16 + 256) - y_val as u16) % 256;
        self.reg[x as usize] = diff as u8;
        self.reg[15] = if x_val >= y_val {
            1
        } else {
            0
        };
        proof {
            assert(self@ =~= old(self)@.with_reg(
                x as int,
                sub_val(old(self)@.regs[x as int], old(self)@.regs[y as int]),
            ).with_reg(15, sub_flag(old(self)@.regs[x as int], old(self)@.regs[y as int])));
        }
    }

    /// Register `x` := register `y` - register `x`, modulo 256; the flag
    /// register takes the no-borrow indicator of that reversed subtraction.
    fn isub_xy(&mut self, x: u8, y: u8)
        requires
            old(self)@.wf(),
            x < 16,
            y < 16,
        ensures
            final(self)@.wf(),
            final(self)@ == old(self)@.with_reg(
                x as int,
                sub_val(old(self)@.regs[y as int], old(self)@.regs[x as int]),
            ).with_reg(15, sub_flag(old(self)@.regs[y as int], old(self)@.regs[x as int])),
    {
        let x_val = self.reg[x as usize];
        let y_val = self.reg[y as usize];
        let diff = ((y_val as u16 + 256) - x_val as u16) % 256;
        self.reg[x as usize] = diff as u8;
        self.reg[15] = if y_val >= x_val {
            1
        } else {
            0
        };
        proof {
            assert(self@ =~= old(self)@.with_reg(
                x as int,
                sub_val(old(self)@.regs[y as int], old(self)@.regs[x as int]),
            ).with_reg(15, sub_flag(old(self)@.regs[y as int], old(self)@.regs[x as int])));
        }
    }

    /// Shift register `x` right by one; the flag register takes the bit
    /// shifted out.
    fn rshift(&mut self, x: u8)
        requires
            old(self)@.wf(),
            x < 16,
        ensures
            final(self)@.wf(),
            final(self)@ == old(self)@.with_reg(x as int, old(self)@.regs[x as int] >> 1u8).with_reg(
                15,
                old(self)@.regs[x as int] & 1,
            ),
    {
        let x_val = self.reg[x as usize];
        self.reg[x as usize] = x_val >> 1u8;
        self.reg[15] = x_val & 1;
        proof {
            assert(self@ =~= old(self)@.with_reg(
                x as int,
                old(self)@.regs[x as int] >> 1u8,
            ).with_reg(15, old(self)@.regs[x as int] & 1));
        }
    }

    /// Shift register `x` left by one, modulo 256; the flag register takes
    /// the raw masked high bit of the value before the shift.
    fn lshift(&mut self, x: u8)
        requires
            old(self)@.wf(),
            x < 16,
        ensures
            final(self)@.wf(),
            final(self)@ == old(self)@.with_reg(x as int, old(self)@.regs[x as int] << 1u8).with_reg(
                15,
                old(self)@.regs[x as int] & 0x80,
            ),
    {
        let x_val = self.reg[x as usize];
        self.reg[x as usize] = x_val << 1u8;
        self.reg[15] = x_val & 0x80;
        proof {
            assert(self@ =~= old(self)@.with_reg(
                x as int,
                old(self)@.regs[x as int] << 1u8,
            ).with_reg(15, old(self)@.regs[x as int] & 0x80));
        }
    }

    /// Index register := `nnn`.
    fn set_i(&mut self, nnn: u16)
        requires
            old(self)@.wf(),
        ensures
            final(self)@.wf(),
            final(self)@ == old(self)@.with_index(nnn),
    {
        self.i = nnn;
        proof {
            assert(self@ =~= old(self)@.with_index(nnn));
        }
    }

    /// Program counter := register 0 + `nnn`.
    fn jmp_off(&mut self, nnn: u16)
        requires
            old(self)@.wf(),
            nnn <= 0xFFF,
        ensures
            final(self)@.wf(),
            final(self)@ == old(self)@.with_pc((old(self)@.regs[0] + nnn) as nat),
    {
        self.pc = self.reg[0] as usize + nnn as usize;
        proof {
            assert(self@ =~= old(self)@.with_pc((old(self)@.regs[0] + nnn) as nat));
        }
    }

    /// Register `x` := a random byte masked by `kk`.
    fn randomize(&mut self, x: u8, kk: u8)
        requires
            old(self)@.wf(),
            x < 16,
        ensures
            final(self)@.wf(),
            exists|b: u8| final(self)@ == old(self)@.with_reg(x as int, b & kk),
    {
        let b: u8 = rand::random::<u8>();
        self.reg[x as usize] = b & kk;
        proof {
            assert(self@ =~= old(self)@.with_reg(x as int, b & kk));
        }
    }

    /// Skip the next instruction when the key numbered by register `x` is
    /// pressed.
    fn key(&mut self, x: u8)
        requires
            old(self)@.wf(),
            x < 16,
            old(self)@.pc + 2 <= 0xFFFF,
        ensures
            final(self)@.wf(),
            final(self)@ == (if old(self)@.key_pressed(old(self)@.regs[x as int]) {
                old(self)@.with_pc((old(self)@.pc + 2) as nat)
            } else {
                old(self)@
            }),
    {
        let v = self.reg[x as usize];
        if v < 16 && self.keys[v as usize] {
            self.pc = self.pc + 2;
        }
        proof {
            if old(self)@.key_pressed(old(self)@.regs[x as int]) {
                assert(self@ =~= old(self)@.with_pc((old(self)@.pc + 2) as nat));
            }
        }
    }

    /// Skip the next instruction when the key numbered by register `x` is
    /// not pressed.
    fn nkey(&mut self, x: u8)
        requires
            old(self)@.wf(),
            x < 16,
            old(self)@.pc + 2 <= 0xFFFF,
        ensures
            final(self)@.wf(),
            final(self)@ == (if !old(self)@.key_pressed(old(self)@.regs[x as int]) {
                old(self)@.with_pc((old(self)@.pc + 2) as nat)
            } else {
                old(self)@
            }),
    {
        let v = self.reg[x as usize];
        if !(v < 16 && self.keys[v as usize]) {
            self.pc = self.pc + 2;
        }
        proof {
            if !old(self)@.key_pressed(old(self)@.regs[x as int]) {
                assert(self@ =~= old(self)@.with_pc((old(self)@.pc + 2) as nat));
            }
        }
    }

    /// Register `x` := the delay timer.
    fn get_delay(&mut self, x: u8)
        requires
            old(self)@.wf(),
            x < 16,
        ensures
            final(self)@.wf(),
            final(self)@ == old(self)@.with_reg(x as int, old(self)@.delay),
    {
        let d = self.delay;
        self.reg[x as usize] = d;
        proof {
            assert(self@ =~= old(self)@.with_reg(x as int, old(self)@.delay));
        }
    }

    /// Enter the blocked state, awaiting the key numbered by the current
    /// value of register `x`.
    fn get_key(&mut self, x: u8)
        requires
            old(self)@.wf(),
            x < 16,
        ensures
            final(self)@.wf(),
            final(self)@ == old(self)@.with_waiting(Some(old(self)@.regs[x as int])),
    {
        let v = self.reg[x as usize];
        self.waiting_key = Some(v);
        proof {
            assert(self@ =~= old(self)@.with_waiting(Some(old(self)@.regs[x as int])));
        }
    }

    /// Delay timer := register `x`.
    fn set_delay(&mut self, x: u8)
        requires
            old(self)@.wf(),
            x < 16,
        ensures
            final(self)@.wf(),
            final(self)@ == (Machine { delay: old(self)@.regs[x as int], ..old(self)@ }),
    {
        self.delay = self.reg[x as usize];
        proof {
            assert(self@ =~= (Machine { delay: old(self)@.regs[x as int], ..old(self)@ }));
        }
    }

    /// Sound timer := register `x`.
    fn set_sound(&mut self, x: u8)
        requires
            old(self)@.wf(),
            x < 16,
        ensures
            final(self)@.wf(),
            final(self)@ == (Machine { sound: old(self)@.regs[x as int], ..old(self)@ }),
    {
        self.sound = self.reg[x as usize];
        proof {
            assert(self@ =~= (Machine { sound: old(self)@.regs[x as int], ..old(self)@ }));
        }
    }

    /// Index register := index register + register `x`, wrapping at 16 bits.
    fn i_inc(&mut self, x: u8)
        requires
            old(self)@.wf(),
            x < 16,
        ensures
            final(self)@.wf(),
            final(self)@ == old(self)@.with_index(
                ((old(self)@.index + old(self)@.regs[x as int]) % 0x10000) as u16,
            ),
    {
        let v = self.reg[x as usize];
        self.i = ((self.i as u32 + v as u32) % 0x10000) as u16;
        proof {
            assert(self@ =~= old(self)@.with_index(
                ((old(self)@.index + old(self)@.regs[x as int]) % 0x10000) as u16,
            ));
        }
    }

    /// Index register := address of the built-in font glyph for the
    /// hexadecimal digit held in register `x`.
    fn get_sprite(&mut self, x: u8)
        requires
            old(self)@.wf(),
            x < 16,
        ensures
            final(self)@.wf(),
            final(self)@ == old(self)@.with_index((old(self)@.regs[x as int] * 5) as u16),
    {
        let v = self.reg[x as usize];
        self.i = v as u16 * 5;
        proof {
            assert(self@ =~= old(self)@.with_index((old(self)@.regs[x as int] * 5) as u16));
        }
    }

    /// Store the decimal digits of register `x` at the index register:
    /// hundreds, tens, ones. A write outside memory is fatal.
    fn bcd(&mut self, x: u8) -> (r: Result<(), Fault>)
        requires
            old(self)@.wf(),
            x < 16,
        ensures
            final(self)@.wf(),
            old(self)@.index + 2 >= MEM_SIZE ==> r == Err::<(), Fault>(Fault::MemoryFault) && final(self)@ == old(self)@,
            old(self)@.index + 2 < MEM_SIZE ==> r == Ok::<(), Fault>(()) && final(self)@ == old(self)@.with_mem(
                old(self)@.mem.update(
                    old(self)@.index as int,
                    old(self)@.regs[x as int] / 100,
                ).update(old(self)@.index + 1, (old(self)@.regs[x as int] % 100) / 10).update(
                    old(self)@.index + 2,
                    old(self)@.regs[x as int] % 10,
                ),
            ),
    {
        let i = self.i as usize;
        if i + 2 >= MEM_SIZE {
            return Err(Fault::MemoryFault);
        }
        let v = self.reg[x as usize];
        let hundreds = v / 100;
        let tens = (v % 100) / 10;
        let ones = v % 10;
        self.mem[i] = hundreds;
        self.mem[i + 1] = tens;
        self.mem[i + 2] = ones;
        proof {
            assert(self@ =~= old(self)@.with_mem(
                old(self)@.mem.update(
                    old(self)@.index as int,
                    old(self)@.regs[x as int] / 100,
                ).update(old(self)@.index + 1, (old(self)@.regs[x as int] % 100) / 10).update(
                    old(self)@.index + 2,
                    old(self)@.regs[x as int] % 10,
                ),
            ));
        }
        Ok(())
    }

    /// Copy registers 0 through `x` inclusive into memory at the index
    /// register. A write outside memory is fatal.
    fn reg_dump(&mut self, x: u8) -> (r: Result<(), Fault>)
        requires
            old(self)@.wf(),
            x < 16,
        ensures
            final(self)@.wf(),
            old(self)@.index + x + 1 > MEM_SIZE ==> r == Err::<(), Fault>(Fault::MemoryFault)
                && final(self)@ == old(self)@,
            old(self)@.index + x + 1 <= MEM_SIZE ==> r == Ok::<(), Fault>(()) && final(self)@ == old(self)@.with_mem(dump_mem(old(self)@.mem, old(self)@.regs, old(self)@.index as int, x as int)),
    {
        let i = self.i as usize;
        let count = x as usize + 1;
        if i + count > MEM_SIZE {
            return Err(Fault::MemoryFault);
        }
        let mut j: usize = 0;
        while j < count
            invariant
                old(self)@.wf(),
                x < 16,
                count == x + 1,
                i == old(self)@.index,
                i + count <= MEM_SIZE,
                j <= count,
                self@.mem.len() == MEM_SIZE,
                self@ == old(self)@.with_mem(self@.mem),
                forall|k: int|
                    0 <= k < MEM_SIZE
                        ==> self@.mem[k] == (if i <= k < i + j {
                        old(self)@.regs[k - i]
                    } else {
                        old(self)@.mem[k]
                    }),
            decreases count - j,
        {
            let b = self.reg[j];
            self.mem[i + j] = b;
            proof {
                assert(self@ =~= old(self)@.with_mem(self@.mem));
            }
            j += 1;
        }
        proof {
            assert(self@.mem =~= dump_mem(
                old(self)@.mem,
                old(self)@.regs,
                old(self)@.index as int,
                x as int,
            ));
            assert(self@ =~= old(self)@.with_mem(
                dump_mem(old(self)@.mem, old(self)@.regs, old(self)@.index as int, x as int),
            ));
        }
        Ok(())
    }

    /// Copy memory at the index register into registers 0 through `x`
    /// inclusive. A read outside memory is fatal.
    fn reg_load(&mut self, x: u8) -> (r: Result<(), Fault>)
        requires
            old(self)@.wf(),
            x < 16,
        ensures
            final(self)@.wf(),
            old(self)@.index + x + 1 > MEM_SIZE ==> r == Err::<(), Fault>(Fault::MemoryFault)
                && final(self)@ == old(self)@,
            old(self)@.index + x + 1 <= MEM_SIZE ==> r == Ok::<(), Fault>(()) && final(self)@
                == (Machine {
                regs: load_regs(old(self)@.regs, old(self)@.mem, old(self)@.index as int, x as int),
                ..old(self)@
            }),
    {
        let i = self.i as usize;
        let count = x as usize + 1;
        if i + count > MEM_SIZE {
            return Err(Fault::MemoryFault);
        }
        let mut j: usize = 0;
        while j < count
            invariant
                old(self)@.wf(),
                x < 16,
                count == x + 1,
                i == old(self)@.index,
                i + count <= MEM_SIZE,
                j <= count,
                self@.regs.len() == 16,
                self@ == (Machine { regs: self@.regs, ..old(self)@ }),
                forall|k: int|
                    0 <= k < 16
                        ==> self@.regs[k] == (if 0 <= k < j {
                        old(self)@.mem[i + k]
                    } else {
                        old(self)@.regs[k]
                    }),
            decreases count - j,
        {
            let b = self.mem[i + j];
            self.reg[j] = b;
            proof {
                assert(self@ =~= (Machine { regs: self@.regs, ..old(self)@ }));
            }
            j += 1;
        }
        proof {
            assert(self@.regs =~= load_regs(
                old(self)@.regs,
                old(self)@.mem,
                old(self)@.index as int,
                x as int,
            ));
            assert(self@ =~= (Machine {
                regs: load_regs(old(self)@.regs, old(self)@.mem, old(self)@.index as int, x as int),
                ..old(self)@
            }));
        }
        Ok(())
    }

    /// XOR-blend one pixel: an in-grid target cell is toggled when `set`
    /// holds, every other cell is untouched, and the result reports a
    /// collision: a lit cell that this write unlights. Off-grid targets
    /// are dropped and never collide.
    fn set_px(&mut self, x: usize, y: usize, set: bool) -> (unset: bool)
        requires
            old(self)@.wf(),
        ensures
            final(self)@.wf(),
            x < WIDTH && y < HEIGHT ==> final(self)@ == old(self)@.with_disp(
                old(self)@.disp.update(
                    (y * WIDTH + x) as int,
                    (if set {
                        toggle(old(self)@.disp[(y * WIDTH + x) as int])
                    } else {
                        old(self)@.disp[(y * WIDTH + x) as int]
                    }),
                ),
            ) && unset == (set && lit(old(self)@.disp[(y * WIDTH + x) as int])),
            !(x < WIDTH && y < HEIGHT) ==> final(self)@ == old(self)@ && unset == false,
    {
        if x >= WIDTH || y >= HEIGHT {
            return false;
        }
        let offset = y * WIDTH + x;
        let was_set = self.disp[offset] == PIXEL_ON;
        self.disp[offset] = if set != was_set {
            PIXEL_ON
        } else {
            0
        };
        proof {
            assert(self@ =~= old(self)@.with_disp(
                old(self)@.disp.update(
                    (y * WIDTH + x) as int,
                    (if set {
                        toggle(old(self)@.disp[(y * WIDTH + x) as int])
                    } else {
                        old(self)@.disp[(y * WIDTH + x) as int]
                    }),
                ),
            ));
        }
        was_set && set
    }

    /// Draw the `d`-row sprite stored at the index register at the position
    /// named by registers `x` and `y`: every set sprite bit toggles its
    /// in-grid cell, off-grid cells are dropped, and the flag register
    /// reports whether any cell went from lit to unlit. A sprite row read
    /// outside memory is fatal.
    fn draw(&mut self, x: u8, y: u8, d: u8) -> (r: Result<(), Fault>)
        requires
            old(self)@.wf(),
            x < 16,
            y < 16,
            d < 16,
        ensures
            final(self)@.wf(),
            d > 0 && old(self)@.index + d > MEM_SIZE ==> r == Err::<(), Fault>(Fault::MemoryFault)
                && final(self)@ == old(self)@,
            d == 0 || old(self)@.index + d <= MEM_SIZE ==> r == Ok::<(), Fault>(()) && final(self)@ == old(self)@.with_disp(
                draw_disp(
                    old(self)@.disp,
                    old(self)@.mem,
                    old(self)@.index as int,
                    old(self)@.regs[x as int] as int,
                    old(self)@.regs[y as int] as int,
                    d as int,
                ),
            ).with_reg(
                15,
                (if draw_collision(
                    old(self)@.disp,
                    old(self)@.mem,
                    old(self)@.index as int,
                    old(self)@.regs[x as int] as int,
                    old(self)@.regs[y as int] as int,
                    d as int,
                ) {
                    1u8
                } else {
                    0u8
                }),
            ),
    {
        let i = self.i as usize;
        if d > 0 && i + d as usize > MEM_SIZE {
            return Err(Fault::MemoryFault);
        }
        let x0 = self.reg[x as usize];
        let y0 = self.reg[y as usize];
        self.reg[15] = 0;
        let ghost m0 = old(self)@;
        let ghost gi = i as int;
        let ghost gx0 = x0 as int;
        let ghost gy0 = y0 as int;
        proof {
            assert(self@ =~= m0.with_disp(self@.disp).with_reg(15, self@.regs[15]));
        }
        let mut yo: u8 = 0;
        while yo < d
            invariant
                m0.wf(),
                self@.wf(),
                yo <= d,
                d < 16,
                gi == m0.index,
                d > 0 ==> gi + d <= MEM_SIZE,
                i == gi,
                gx0 == x0 as int,
                gy0 == y0 as int,
                self@ == m0.with_disp(self@.disp).with_reg(15, self@.regs[15]),
                forall|px: int, py: int|
                    0 <= px < WIDTH && 0 <= py < HEIGHT ==> self@.disp[py * (WIDTH as int) + px]
                        == (if sprite_hits(m0.mem, gi, gx0, gy0, yo as int, px, py) {
                        toggle(m0.disp[py * (WIDTH as int) + px])
                    } else {
                        m0.disp[py * (WIDTH as int) + px]
                    }),
                self@.regs[15] == (if draw_collision(m0.disp, m0.mem, gi, gx0, gy0, yo as int) {
                    1u8
                } else {
                    0u8
                }),
            decreases d - yo,
        {
            let row = self.mem[i + yo as usize];
            proof {
                assert(row == m0.mem[gi + yo as int]);
                let ghost rows = yo as int;
                assert forall|px: int, py: int|
                    #![trigger sprite_hits_partial(m0.mem, gi, gx0, gy0, rows, 0, px, py)]
                    0 <= px < WIDTH && 0 <= py < HEIGHT implies self@.disp[py * (WIDTH as int) + px]
                    == (if sprite_hits_partial(m0.mem, gi, gx0, gy0, rows, 0, px, py) {
                    toggle(m0.disp[py * (WIDTH as int) + px])
                } else {
                    m0.disp[py * (WIDTH as int) + px]
                }) by {
                    assert(sprite_hits_partial(m0.mem, gi, gx0, gy0, rows, 0, px, py)
                        == sprite_hits(m0.mem, gi, gx0, gy0, rows, px, py));
                }
                assert(draw_collision_partial(m0.disp, m0.mem, gi, gx0, gy0, rows, 0)
                    == draw_collision(m0.disp, m0.mem, gi, gx0, gy0, rows)) by {
                    if draw_collision_partial(m0.disp, m0.mem, gi, gx0, gy0, rows, 0) {
                        let (px, py) = choose|px: int, py: int|
                            0 <= px < WIDTH && 0 <= py < HEIGHT && #[trigger] sprite_hits_partial(
                                m0.mem,
                                gi,
                                gx0,
                                gy0,
                                rows,
                                0,
                                px,
                                py,
                            ) && lit(m0.disp[py * (WIDTH as int) + px]);
                        assert(sprite_hits(m0.mem, gi, gx0, gy0, rows, px, py));
                        assert(draw_collision(m0.disp, m0.mem, gi, gx0, gy0, rows));
                    }
                    if draw_collision(m0.disp, m0.mem, gi, gx0, gy0, rows) {
                        let (px, py) = choose|px: int, py: int|
                            0 <= px < WIDTH && 0 <= py < HEIGHT && #[trigger] sprite_hits(
                                m0.mem,
                                gi,
                                gx0,
                                gy0,
                                rows,
                                px,
                                py,
                            ) && lit(m0.disp[py * (WIDTH as int) + px]);
                        assert(sprite_hits_partial(m0.mem, gi, gx0, gy0, rows, 0, px, py));
                        assert(draw_collision_partial(m0.disp, m0.mem, gi, gx0, gy0, rows, 0));
                    }
                }
            }
            let mut xo: u8 = 0;
            while xo < 8
                invariant
                    m0.wf(),
                    self@.wf(),
                    yo < d,
                    d < 16,
                    xo <= 8,
                    gi == m0.index,
                    d > 0 ==> gi + d <= MEM_SIZE,
                    i == gi,
                    gx0 == x0 as int,
                    gy0 == y0 as int,
                    row == m0.mem[gi + yo as int],
                    self@ == m0.with_disp(self@.disp).with_reg(15, self@.regs[15]),
                    forall|px: int, py: int|
                        0 <= px < WIDTH && 0 <= py < HEIGHT ==> self@.disp[py * (WIDTH as int) + px]
                            == (if sprite_hits_partial(
                            m0.mem,
                            gi,
                            gx0,
                            gy0,
                            yo as int,
                            xo as int,
                            px,
                            py,
                        ) {
                            toggle(m0.disp[py * (WIDTH as int) + px])
                        } else {
                            m0.disp[py * (WIDTH as int) + px]
                        }),
                    self@.regs[15] == (if draw_collision_partial(
                        m0.disp,
                        m0.mem,
                        gi,
                        gx0,
                        gy0,
                        yo as int,
                        xo as int,
                    ) {
                        1u8
                    } else {
                        0u8
                    }),
                decreases 8 - xo,
            {
                let set = (row & (0x80u8 >> xo)) != 0;
                let px = x0 as usize + xo as usize;
                let py = y0 as usize + yo as usize;
                let ghost prev = self@;
                proof {
                    assert(set == sprite_bit(m0.mem[gi + yo as int], xo as int));
                    // the target cell is not covered by the finished part
                    assert(!sprite_hits_partial(
                        m0.mem,
                        gi,
                        gx0,
                        gy0,
                        yo as int,
                        xo as int,
                        px as int,
                        py as int,
                    ));
                    if px < WIDTH && py < HEIGHT {
                        assert(prev.disp[py as int * (WIDTH as int) + px as int] == m0.disp[py as int
                            * (WIDTH as int) + px as int]);
                    }
                }
                let unset = self.set_px(px, py, set);
                if unset {
                    self.reg[15] = 1;
                }
                proof {
                    assert(self@ =~= m0.with_disp(self@.disp).with_reg(15, self@.regs[15]));
                    let rows = yo as int;
                    let cols = xo as int;
                    let cols1 = cols + 1;
                    let tx = px as int;
                    let ty = py as int;
                    // pointwise grid contents after this column
                    assert forall|qx: int, qy: int|
                        #![trigger sprite_hits_partial(m0.mem, gi, gx0, gy0, rows, cols1, qx, qy)]
                        0 <= qx < WIDTH && 0 <= qy < HEIGHT implies self@.disp[qy * (WIDTH as int)
                        + qx] == (if sprite_hits_partial(m0.mem, gi, gx0, gy0, rows, cols1, qx, qy) {
                        toggle(m0.disp[qy * (WIDTH as int) + qx])
                    } else {
                        m0.disp[qy * (WIDTH as int) + qx]
                    }) by {
                        if tx < WIDTH && ty < HEIGHT {
                            if qx == tx && qy == ty {
                            } else {
                                assert(qy * (WIDTH as int) + qx != ty * (WIDTH as int) + tx);
                                assert(sprite_hits_partial(m0.mem, gi, gx0, gy0, rows, cols1, qx, qy)
                                    == sprite_hits_partial(m0.mem, gi, gx0, gy0, rows, cols, qx, qy));
                            }
                        } else {
                            assert(qx != tx || qy != ty);
                            assert(sprite_hits_partial(m0.mem, gi, gx0, gy0, rows, cols1, qx, qy)
                                == sprite_hits_partial(m0.mem, gi, gx0, gy0, rows, cols, qx, qy));
                        }
                    }
                    // collision flag after this column
                    if unset {
                        assert(tx < WIDTH && ty < HEIGHT);
                        assert(sprite_hits_partial(m0.mem, gi, gx0, gy0, rows, cols1, tx, ty));
                        assert(lit(m0.disp[ty * (WIDTH as int) + tx]));
                        assert(draw_collision_partial(m0.disp, m0.mem, gi, gx0, gy0, rows, cols1));
                    } else {
                        if draw_collision_partial(m0.disp, m0.mem, gi, gx0, gy0, rows, cols1) {
                            let (qx, qy) = choose|qx: int, qy: int|
                                0 <= qx < WIDTH && 0 <= qy < HEIGHT && #[trigger] sprite_hits_partial(
                                    m0.mem,
                                    gi,
                                    gx0,
                                    gy0,
                                    rows,
                                    cols1,
                                    qx,
                                    qy,
                                ) && lit(m0.disp[qy * (WIDTH as int) + qx]);
                            if qx == tx && qy == ty {
                                assert(set && lit(prev.disp[ty * (WIDTH as int) + tx]));
                                assert(false);
                            } else {
                                assert(sprite_hits_partial(m0.mem, gi, gx0, gy0, rows, cols, qx, qy));
                                assert(draw_collision_partial(m0.disp, m0.mem, gi, gx0, gy0, rows, cols));
                            }
                        }
                        if draw_collision_partial(m0.disp, m0.mem, gi, gx0, gy0, rows, cols) {
                            let (qx, qy) = choose|qx: int, qy: int|
                                0 <= qx < WIDTH && 0 <= qy < HEIGHT && #[trigger] sprite_hits_partial(
                                    m0.mem,
                                    gi,
                                    gx0,
                                    gy0,
                                    rows,
                                    cols,
                                    qx,
                                    qy,
                                ) && lit(m0.disp[qy * (WIDTH as int) + qx]);
                            assert(sprite_hits_partial(m0.mem, gi, gx0, gy0, rows, cols1, qx, qy));
                            assert(draw_collision_partial(m0.disp, m0.mem, gi, gx0, gy0, rows, cols1));
                        }
                    }
                }
                xo += 1;
            }
            proof {
                let rows = yo as int;
                let rows1 = rows + 1;
                assert forall|px: int, py: int|
                    #![trigger sprite_hits(m0.mem, gi, gx0, gy0, rows1, px, py)]
                    0 <= px < WIDTH && 0 <= py < HEIGHT implies self@.disp[py * (WIDTH as int) + px]
                    == (if sprite_hits(m0.mem, gi, gx0, gy0, rows1, px, py) {
                    toggle(m0.disp[py * (WIDTH as int) + px])
                } else {
                    m0.disp[py * (WIDTH as int) + px]
                }) by {
                    assert(sprite_hits_partial(m0.mem, gi, gx0, gy0, rows, 8, px, py)
                        == sprite_hits(m0.mem, gi, gx0, gy0, rows1, px, py));
                }
                assert(draw_collision_partial(m0.disp, m0.mem, gi, gx0, gy0, rows, 8)
                    == draw_collision(m0.disp, m0.mem, gi, gx0, gy0, rows1)) by {
                    if draw_collision_partial(m0.disp, m0.mem, gi, gx0, gy0, rows, 8) {
                        let (px, py) = choose|px: int, py: int|
                            0 <= px < WIDTH && 0 <= py < HEIGHT && #[trigger] sprite_hits_partial(
                                m0.mem,
                                gi,
                                gx0,
                                gy0,
                                rows,
                                8,
                                px,
                                py,
                            ) && lit(m0.disp[py * (WIDTH as int) + px]);
                        assert(sprite_hits(m0.mem, gi, gx0, gy0, rows1, px, py));
                        assert(draw_collision(m0.disp, m0.mem, gi, gx0, gy0, rows1));
                    }
                    if draw_collision(m0.disp, m0.mem, gi, gx0, gy0, rows1) {
                        let (px, py) = choose|px: int, py: int|
                            0 <= px < WIDTH && 0 <= py < HEIGHT && #[trigger] sprite_hits(
                                m0.mem,
                                gi,
                                gx0,
                                gy0,
                                rows1,
                                px,
                                py,
                            ) && lit(m0.disp[py * (WIDTH as int) + px]);
                        assert(sprite_hits_partial(m0.mem, gi, gx0, gy0, rows, 8, px, py));
                        assert(draw_collision_partial(m0.disp, m0.mem, gi, gx0, gy0, rows, 8));
                    }
                }
            }
            yo += 1;
        }
        proof {
            let n = d as int;
            assert(self@.disp.len() == WIDTH * HEIGHT);
            assert forall|idx: int| 0 <= idx < WIDTH * HEIGHT implies self@.disp[idx] == draw_disp(
                m0.disp,
                m0.mem,
                gi,
                gx0,
                gy0,
                n,
            )[idx] by {
                lemma_grid_index(idx);
                let px = idx % (WIDTH as int);
                let py = idx / (WIDTH as int);
                assert(py * (WIDTH as int) + px == idx);
            }
            assert(self@.disp =~= draw_disp(m0.disp, m0.mem, gi, gx0, gy0, n));
            assert(self@ =~= m0.with_disp(draw_disp(m0.disp, m0.mem, gi, gx0, gy0, n)).with_reg(
                15,
                (if draw_collision(m0.disp, m0.mem, gi, gx0, gy0, n) {
                    1u8
                } else {
                    0u8
                }),
            ));
        }
        Ok(())
    }

    /// Execute one cycle of the machine, as `step_rel` states it: while
    /// blocked on a key the cycle only polls the awaited key; otherwise it
    /// fetches the instruction word at the program counter, advances past
    /// it, and applies the instruction's effect. `Ok(true)` reports that
    /// the pixel grid changed; every fault leaves the machine untouched.
    pub fn step(&mut self) -> (r: Result<bool, Fault>)
        requires
            old(self)@.wf(),
        ensures
            final(self)@.wf(),
            step_rel(old(self)@, final(self)@, r),
    {
        if let Some(key) = self.waiting_key {
            if key < 16 && self.keys[key as usize] {
                self.waiting_key = None;
                proof {
                    assert(self@ =~= old(self)@.with_waiting(None::<u8>));
                }
                return Ok(false);
            }
            return Ok(false);
        }
        let prev = self.pc;
        if prev + 1 >= MEM_SIZE {
            return Err(Fault::MemoryFault);
        }
        let opcode = self.read_opcode();
        self.pc = prev + 2;
        proof {
            assert(self@ =~= old(self)@.with_pc((old(self)@.pc + 2) as nat));
        }
        let ghost m = self@;

        let c = ((opcode & 0xF000) >> 12) as u8;
        let x = ((opcode & 0x0F00) >> 8) as u8;
        let y = ((opcode & 0x00F0) >> 4) as u8;
        let d = (opcode & 0x000F) as u8;
        let nnn = opcode & 0x0FFF;
        let kk = (opcode & 0x00FF) as u8;
        proof {
            assert(((opcode & 0x0F00) >> 8) < 16 && ((opcode & 0x00F0) >> 4) < 16 && (opcode
                & 0x000F) < 16 && (opcode & 0x0FFF) <= 0xFFF) by (bit_vector);
            assert(c == op_c(opcode) && x == op_x(opcode) && y == op_y(opcode) && d == op_d(opcode));
            assert(nnn == op_nnn(opcode) && kk == op_kk(opcode));
        }

        match (c, x, y, d) {
            (0, 0, 0, 0) => {
                self.halted = true;
                proof {
                    assert(self@ =~= (Machine { halted: true, ..m }));
                }
                Ok(false)
            },
            (0, 0, 0xE, 0) => {
                self.disp_clear();
                Ok(false)
            },
            (0, 0, 0xE, 0xE) => {
                match self.ret() {
                    Ok(()) => Ok(false),
                    Err(f) => {
                        self.pc = prev;
                        proof {
                            assert(self@ =~= old(self)@);
                        }
                        Err(f)
                    },
                }
            },
            (0x1, _, _, _) => {
                self.jump(nnn);
                Ok(false)
            },
            (0x2, _, _, _) => {
                match self.call(nnn) {
                    Ok(()) => Ok(false),
                    Err(f) => {
                        self.pc = prev;
                        proof {
                            assert(self@ =~= old(self)@);
                        }
                        Err(f)
                    },
                }
            },
            (0x3, _, _, _) => {
                self.eq(x, kk);
                Ok(false)
            },
            (0x4, _, _, _) => {
                self.neq(x, kk);
                Ok(false)
            },
            (0x5, _, _, 0) => {
                self.eq_xy(x, y);
                Ok(false)
            },
            (0x6, _, _, _) => {
                self.set(x, kk);
                Ok(false)
            },
            (0x7, _, _, _) => {
                self.inc(x, kk);
                Ok(false)
            },
            (0x8, _, _, 0) => {
                self.assn(x, y);
                Ok(false)
            },
            (0x8, _, _, 0x1) => {
                self.or_xy(x, y);
                Ok(false)
            },
            (0x8, _, _, 0x2) => {
                self.and_xy(x, y);
                Ok(false)
            },
            (0x8, _, _, 0x3) => {
                self.xor_xy(x, y);
                Ok(false)
            },
            (0x8, _, _, 0x4) => {
                self.add_xy(x, y);
                Ok(false)
            },
            (0x8, _, _, 0x5) => {
                self.sub_xy(x, y);
                Ok(false)
            },
            (0x8, _, _, 0x6) => {
                self.rshift(x);
                Ok(false)
            },
            (0x8, _, _, 0x7) => {
                self.isub_xy(x, y);
                Ok(false)
            },
            (0x8, _, _, 0xE) => {
                self.lshift(x);
                Ok(false)
            },
            (0x9, _, _, 0) => {
                self.neq_xy(x, y);
                Ok(false)
            },
            (0xA, _, _, _) => {
                self.set_i(nnn);
                Ok(false)
            },
            (0xB, _, _, _) => {
                self.jmp_off(nnn);
                Ok(false)
            },
            (0xC, _, _, _) => {
                self.randomize(x, kk);
                Ok(false)
            },
            (0xD, _, _, _) => {
                match self.draw(x, y, d) {
                    Ok(()) => Ok(true),
                    Err(f) => {
                        self.pc = prev;
                        proof {
                            assert(self@ =~= old(self)@);
                        }
                        Err(f)
                    },
                }
            },
            (0xE, _, 0x9, 0xE) => {
                self.key(x);
                Ok(false)
            },
            (0xE, _, 0xA, 0x1) => {
                self.nkey(x);
                Ok(false)
            },
            (0xF, _, 0, 0x7) => {
                self.get_delay(x);
                Ok(false)
            },
            (0xF, _, 0, 0xA) => {
                self.get_key(x);
                Ok(false)
            },
            (0xF, _, 0x1, 0x5) => {
                self.set_delay(x);
                Ok(false)
            },
            (0xF, _, 0x1, 0x8) => {
                self.set_sound(x);
                Ok(false)
            },
            (0xF, _, 0x1, 0xE) => {
                self.i_inc(x);
                Ok(false)
            },
            (0xF, _, 0x2, 0x9) => {
                self.get_sprite(x);
                Ok(false)
            },
            (0xF, _, 0x3, 0x3) => {
                match self.bcd(x) {
                    Ok(()) => Ok(false),
                    Err(f) => {
                        self.pc = prev;
                        proof {
                            assert(self@ =~= old(self)@);
                        }
                        Err(f)
                    },
                }
            },
            (0xF, _, 0x5, 0x5) => {
                match self.reg_dump(x) {
                    Ok(()) => Ok(false),
                    Err(f) => {
                        self.pc = prev;
                        proof {
                            assert(self@ =~= old(self)@);
                        }
                        Err(f)
                    },
                }
            },
            (0xF, _, 0x6, 0x5) => {
                match self.reg_load(x) {
                    Ok(()) => Ok(false),
                    Err(f) => {
                        self.pc = prev;
                        proof {
                            assert(self@ =~= old(self)@);
                        }
                        Err(f)
                    },
                }
            },
            _ => {
                self.pc = prev;
                proof {
                    assert(self@ =~= old(self)@);
                }
                Err(Fault::IllegalInstruction(opcode))
            },
        }
    }

    /// Step the machine until it halts cooperatively, faults, or `fuel`
    /// cycles have run: the final state is always reached from the initial
    /// one by iterated non-faulting steps of `step_rel`. `Ok(true)` reports
    /// a halt; `Ok(false)` that all `fuel` cycles ran without one; a fault
    /// is passed through with the machine exactly as the faulting cycle
    /// found it, so the same fault is re-observable there.
    pub fn run(&mut self, fuel: u64) -> (r: Result<bool, Fault>)
        requires
            old(self)@.wf(),
        ensures
            final(self)@.wf(),
            (exists|n: nat| n <= fuel && #[trigger] runs_to(old(self)@, final(self)@, n)),
            r == Ok::<bool, Fault>(true) ==> final(self)@.halted,
            r == Ok::<bool, Fault>(false) ==> !final(self)@.halted && runs_to(
                old(self)@,
                final(self)@,
                fuel as nat,
            ),
            (r matches Err(f) ==> step_rel(final(self)@, final(self)@, Err::<bool, Fault>(f))),
    {
        let mut left = fuel;
        while !self.halted() && left > 0
            invariant
                self@.wf(),
                left <= fuel,
                runs_to(old(self)@, self@, (fuel - left) as nat),
            decreases left,
        {
            let ghost mid = self@;
            match self.step() {
                Ok(b) => {
                    proof {
                        lemma_runs_to_extend(old(self)@, mid, self@, (fuel - left) as nat, b);
                    }
                },
                Err(f) => {
                    proof {
                        // a faulting step leaves the machine untouched
                        assert(self@ == mid);
                        assert(runs_to(old(self)@, self@, (fuel - left) as nat));
                    }
                    return Err(f);
                },
            }
            left = left - 1;
        }
        proof {
            assert(runs_to(old(self)@, self@, (fuel - left) as nat));
        }
        if self.halted() {
            Ok(true)
        } else {
            Ok(false)
        }
    }

    /// Record the pressed state of one key of the 16-key pad.
    pub fn key_state(&mut self, key: u8, state: bool)
        requires
            old(self)@.wf(),
            key < 16,
        ensures
            final(self)@.wf(),
            final(self)@ == (Machine {
                keys: old(self)@.keys.update(key as int, state),
                ..old(self)@
            }),
    {
        self.keys[key as usize] = state;
        proof {
            assert(self@ =~= Machine {
                keys: old(self)@.keys.update(key as int, state),
                ..old(self)@
            });
        }
    }
}

} // verus!
