//! Mathematical model of the machine and of one execution step.
//!
//! `Machine` is the ghost view of the interpreter state; the spec functions
//! here give the meaning of each instruction, and `step_rel` relates the
//! state before a step to the state after it.

use vstd::prelude::*;

verus! {

/// Width of the pixel grid, in cells.
pub const WIDTH: usize = 64;

/// Height of the pixel grid, in cells.
pub const HEIGHT: usize = 32;

/// Value of a lit display cell; unlit cells hold 0.
pub const PIXEL_ON: u32 = 0x0000ffff;

/// Size of the addressable memory, in bytes.
pub const MEM_SIZE: usize = 0x1000;

/// Address at which a loaded program image begins.
pub const PROGRAM_START: usize = 0x200;

/// Capacity of the call stack.
pub const STACK_SIZE: usize = 16;

/// A fatal condition raised at an instruction boundary.
#[derive(Clone, Copy, Debug, PartialEq, Eq, Structural)]
pub enum Fault {
    /// The decoded fields match no entry of the instruction table.
    IllegalInstruction(u16),
    /// A call would push past the capacity of the call stack.
    StackOverflow,
    /// A return was attempted with an empty call stack.
    StackUnderflow,
    /// An instruction would touch memory outside the addressable range.
    MemoryFault,
}

/// Ghost view of the whole machine state.
#[verifier::ext_equal]
pub ghost struct Machine {
    /// The 16 general-purpose registers; index 15 is the flag register.
    pub regs: Seq<u8>,
    /// The 4096 addressable memory cells.
    pub mem: Seq<u8>,
    /// The 16-entry call stack; entries at index `sp` and above are inactive.
    pub stack: Seq<u16>,
    /// Number of active call-stack entries.
    pub sp: nat,
    /// Program counter.
    pub pc: nat,
    /// Index register.
    pub index: u16,
    /// Delay timer counter.
    pub delay: u8,
    /// Sound timer counter.
    pub sound: u8,
    /// Pressed state of the 16 keys.
    pub keys: Seq<bool>,
    /// Awaited key code, while the machine is blocked on a key.
    pub waiting: Option<u8>,
    /// The 64x32 pixel grid, row-major.
    pub disp: Seq<u32>,
    /// Whether a halt instruction has been executed.
    pub halted: bool,
}

impl Machine {
    /// Structural well-formedness of the machine state.
    pub open spec fn wf(self) -> bool {
        &&& self.regs.len() == 16
        &&& self.mem.len() == MEM_SIZE
        &&& self.stack.len() == STACK_SIZE
        &&& self.sp <= STACK_SIZE
        &&& self.pc <= 0xFFFF
        &&& self.keys.len() == 16
        &&& self.disp.len() == WIDTH * HEIGHT
        &&& forall|j: int| 0 <= j < self.disp.len() ==> self.disp[j] == 0 || self.disp[j] == PIXEL_ON
    }

    pub open spec fn with_reg(self, x: int, v: u8) -> Machine {
        Machine { regs: self.regs.update(x, v), ..self }
    }

    pub open spec fn with_pc(self, pc: nat) -> Machine {
        Machine { pc, ..self }
    }

    pub open spec fn with_index(self, index: u16) -> Machine {
        Machine { index, ..self }
    }

    pub open spec fn with_mem(self, mem: Seq<u8>) -> Machine {
        Machine { mem, ..self }
    }

    pub open spec fn with_disp(self, disp: Seq<u32>) -> Machine {
        Machine { disp, ..self }
    }

    pub open spec fn with_waiting(self, waiting: Option<u8>) -> Machine {
        Machine { waiting, ..self }
    }

    /// Whether the key numbered `code` is reported pressed; codes outside the
    /// 16-key pad are never pressed.
    pub open spec fn key_pressed(self, code: u8) -> bool {
        code < 16 && self.keys[code as int]
    }
}

/// The machine as created: font in low memory, program counter at the
/// program start, everything else zeroed.
pub open spec fn initial_machine() -> Machine {
    Machine {
        regs: Seq::new(16, |j: int| 0u8),
        mem: Seq::new(MEM_SIZE as nat, |j: int| if j < 80 { font_table()[j] } else { 0u8 }),
        stack: Seq::new(STACK_SIZE as nat, |j: int| 0u16),
        sp: 0,
        pc: PROGRAM_START as nat,
        index: 0,
        delay: 0,
        sound: 0,
        keys: Seq::new(16, |j: int| false),
        waiting: None,
        disp: Seq::new((WIDTH * HEIGHT) as nat, |j: int| 0u32),
        halted: false,
    }
}

/// The built-in font: 16 glyphs of 5 bytes each, for the hexadecimal
/// digits 0 through F, stored from address 0 upward.
pub open spec fn font_table() -> Seq<u8> {
    seq![
        0xF0u8, 0x90, 0x90, 0x90, 0xF0, // 0
        0x20, 0x60, 0x20, 0x20, 0x70, // 1
        0xF0, 0x10, 0xF0, 0x80, 0xF0, // 2
        0xF0, 0x10, 0xF0, 0x10, 0xF0, // 3
        0x90, 0x90, 0xF0, 0x10, 0x10, // 4
        0xF0, 0x80, 0xF0, 0x10, 0xF0, // 5
        0xF0, 0x80, 0xF0, 0x90, 0xF0, // 6
        0xF0, 0x10, 0x20, 0x40, 0x40, // 7
        0xF0, 0x90, 0xF0, 0x90, 0xF0, // 8
        0xF0, 0x90, 0xF0, 0x10, 0xF0, // 9
        0xF0, 0x90, 0xF0, 0x90, 0x90, // A
        0xE0, 0x90, 0xE0, 0x90, 0xE0, // B
        0xF0, 0x80, 0x80, 0x80, 0xF0, // C
        0xE0, 0x90, 0x90, 0x90, 0xE0, // D
        0xF0, 0x80, 0xF0, 0x80, 0xF0, // E
        0xF0, 0x80, 0xF0, 0x80, 0x80, // F
    ]
}

/// The 16-bit instruction word at `pc`: two bytes read big-endian.
pub open spec fn fetch16(mem: Seq<u8>, pc: int) -> u16 {
    ((mem[pc] as u16) << 8) | (mem[pc + 1] as u16)
}

/// Class nibble (bits 15-12) of an instruction word.
pub open spec fn op_c(op: u16) -> u8 {
    ((op & 0xF000) >> 12) as u8
}

/// First register-index nibble (bits 11-8).
pub open spec fn op_x(op: u16) -> u8 {
    ((op & 0x0F00) >> 8) as u8
}

/// Second register-index nibble (bits 7-4).
pub open spec fn op_y(op: u16) -> u8 {
    ((op & 0x00F0) >> 4) as u8
}

/// Sub-operation nibble (bits 3-0).
pub open spec fn op_d(op: u16) -> u8 {
    (op & 0x000F) as u8
}

/// 12-bit address literal (bits 11-0).
pub open spec fn op_nnn(op: u16) -> u16 {
    op & 0x0FFF
}

/// 8-bit immediate literal (bits 7-0).
pub open spec fn op_kk(op: u16) -> u8 {
    (op & 0x00FF) as u8
}

/// Sum of two register values, modulo 256.
pub open spec fn add_val(a: u8, b: u8) -> u8 {
    ((a + b) % 256) as u8
}

/// Carry flag of an 8-bit addition: 1 exactly when the true sum reaches 256.
pub open spec fn add_flag(a: u8, b: u8) -> u8 {
    if a + b >= 256 {
        1u8
    } else {
        0u8
    }
}

/// Difference `a - b`, modulo 256.
pub open spec fn sub_val(a: u8, b: u8) -> u8 {
    (((a - b) + 256) % 256) as u8
}

/// No-borrow flag of an 8-bit subtraction `a - b`: 1 exactly when `a >= b`.
pub open spec fn sub_flag(a: u8, b: u8) -> u8 {
    if a >= b {
        1u8
    } else {
        0u8
    }
}

/// An all-unlit pixel grid.
pub open spec fn blank_disp() -> Seq<u32> {
    Seq::new((WIDTH * HEIGHT) as nat, |j: int| 0u32)
}

/// Whether a display cell is lit.
pub open spec fn lit(c: u32) -> bool {
    c == PIXEL_ON
}

/// The opposite state of a display cell.
pub open spec fn toggle(c: u32) -> u32 {
    if lit(c) {
        0u32
    } else {
        PIXEL_ON
    }
}

/// Whether bit `xo` of a sprite row is set; bit 0 is the leftmost column,
/// held in the most significant bit of the row byte.
pub open spec fn sprite_bit(row: u8, xo: int) -> bool {
    row & (0x80u8 >> (xo as u8)) != 0
}

/// Whether the draw of an `n`-row sprite stored at `i`, placed at
/// `(x0, y0)`, targets the cell `(px, py)` with a set bit.
pub open spec fn sprite_hits(
    mem: Seq<u8>,
    i: int,
    x0: int,
    y0: int,
    n: int,
    px: int,
    py: int,
) -> bool {
    &&& x0 <= px < x0 + 8
    &&& y0 <= py < y0 + n
    &&& sprite_bit(mem[i + (py - y0)], px - x0)
}

/// The pixel grid after a draw: every targeted in-grid cell is toggled,
/// every other cell (off-grid targets included) is untouched.
pub open spec fn draw_disp(
    disp: Seq<u32>,
    mem: Seq<u8>,
    i: int,
    x0: int,
    y0: int,
    n: int,
) -> Seq<u32> {
    Seq::new(
        disp.len(),
        |idx: int|
            if sprite_hits(mem, i, x0, y0, n, idx % (WIDTH as int), idx / (WIDTH as int)) {
                toggle(disp[idx])
            } else {
                disp[idx]
            },
    )
}

/// Whether a draw unlights some previously-lit in-grid cell.
pub open spec fn draw_collision(
    disp: Seq<u32>,
    mem: Seq<u8>,
    i: int,
    x0: int,
    y0: int,
    n: int,
) -> bool {
    exists|px: int, py: int|
        0 <= px < WIDTH && 0 <= py < HEIGHT && sprite_hits(mem, i, x0, y0, n, px, py) && lit(
            disp[py * (WIDTH as int) + px],
        )
}

/// Memory after registers 0 through `x` are copied to addresses
/// `i` through `i + x`.
pub open spec fn dump_mem(mem: Seq<u8>, regs: Seq<u8>, i: int, x: int) -> Seq<u8> {
    Seq::new(
        mem.len(),
        |j: int|
            if i <= j < i + x + 1 {
                regs[j - i]
            } else {
                mem[j]
            },
    )
}

/// Registers after addresses `i` through `i + x` are copied into
/// registers 0 through `x`.
pub open spec fn load_regs(regs: Seq<u8>, mem: Seq<u8>, i: int, x: int) -> Seq<u8> {
    Seq::new(
        regs.len(),
        |j: int|
            if 0 <= j <= x {
                mem[i + j]
            } else {
                regs[j]
            },
    )
}

/// Effect of the instruction word `op` on the machine `m`, whose program
/// counter has already been advanced past the word; `pre` is the state
/// before the step, left untouched by every faulting outcome.
pub open spec fn exec_rel(
    op: u16,
    pre: Machine,
    m: Machine,
    post: Machine,
    r: Result<bool, Fault>,
) -> bool {
    let c = op_c(op);
    let x = op_x(op) as int;
    let y = op_y(op) as int;
    let d = op_d(op);
    let nnn = op_nnn(op);
    let kk = op_kk(op);
    let vx = m.regs[x];
    let vy = m.regs[y];
    if c == 0 && x == 0 && y == 0 && d == 0 {
        // halt
        post == Machine { halted: true, ..m } && r == Ok::<bool, Fault>(false)
    } else if c == 0 && x == 0 && y == 0xE && d == 0 {
        // clear display
        post == m.with_disp(blank_disp()) && r == Ok::<bool, Fault>(false)
    } else if c == 0 && x == 0 && y == 0xE && d == 0xE {
        // return
        if m.sp == 0 {
            post == pre && r == Err::<bool, Fault>(Fault::StackUnderflow)
        } else {
            post == Machine {
                sp: (m.sp - 1) as nat,
                pc: m.stack[m.sp - 1] as nat,
                ..m
            } && r == Ok::<bool, Fault>(false)
        }
    } else if c == 0x1 {
        // jump
        post == m.with_pc(nnn as nat) && r == Ok::<bool, Fault>(false)
    } else if c == 0x2 {
        // call
        if m.sp == STACK_SIZE {
            post == pre && r == Err::<bool, Fault>(Fault::StackOverflow)
        } else {
            post == Machine {
                stack: m.stack.update(m.sp as int, m.pc as u16),
                sp: (m.sp + 1) as nat,
                pc: nnn as nat,
                ..m
            } && r == Ok::<bool, Fault>(false)
        }
    } else if c == 0x3 {
        // skip if register x equals kk
        post == (if vx == kk {
            m.with_pc((m.pc + 2) as nat)
        } else {
            m
        }) && r == Ok::<bool, Fault>(false)
    } else if c == 0x4 {
        // skip if register x differs from kk
        post == (if vx != kk {
            m.with_pc((m.pc + 2) as nat)
        } else {
            m
        }) && r == Ok::<bool, Fault>(false)
    } else if c == 0x5 && d == 0 {
        // skip if register x equals register y
        post == (if vx == vy {
            m.with_pc((m.pc + 2) as nat)
        } else {
            m
        }) && r == Ok::<bool, Fault>(false)
    } else if c == 0x6 {
        // register x := kk
        post == m.with_reg(x, kk) && r == Ok::<bool, Fault>(false)
    } else if c == 0x7 {
        // register x := register x + kk, flag untouched
        post == m.with_reg(x, add_val(vx, kk)) && r == Ok::<bool, Fault>(false)
    } else if c == 0x8 && d == 0 {
        // register x := register y
        post == m.with_reg(x, vy) && r == Ok::<bool, Fault>(false)
    } else if c == 0x8 && d == 0x1 {
        post == m.with_reg(x, vx | vy) && r == Ok::<bool, Fault>(false)
    } else if c == 0x8 && d == 0x2 {
        post == m.with_reg(x, vx & vy) && r == Ok::<bool, Fault>(false)
    } else if c == 0x8 && d == 0x3 {
        post == m.with_reg(x, vx ^ vy) && r == Ok::<bool, Fault>(false)
    } else if c == 0x8 && d == 0x4 {
        // add with carry flag
        post == m.with_reg(x, add_val(vx, vy)).with_reg(15, add_flag(vx, vy)) && r == Ok::<
            bool,
            Fault,
        >(false)
    } else if c == 0x8 && d == 0x5 {
        // subtract with no-borrow flag
        post == m.with_reg(x, sub_val(vx, vy)).with_reg(15, sub_flag(vx, vy)) && r == Ok::<
            bool,
            Fault,
        >(false)
    } else if c == 0x8 && d == 0x6 {
        // shift right; flag takes the bit shifted out
        post == m.with_reg(x, vx >> 1u8).with_reg(15, vx & 1) && r == Ok::<bool, Fault>(false)
    } else if c == 0x8 && d == 0x7 {
        // reverse subtract with no-borrow flag
        post == m.with_reg(x, sub_val(vy, vx)).with_reg(15, sub_flag(vy, vx)) && r == Ok::<
            bool,
            Fault,
        >(false)
    } else if c == 0x8 && d == 0xE {
        // shift left; flag takes the raw masked high bit
        post == m.with_reg(x, (vx << 1u8) as u8).with_reg(15, vx & 0x80) && r == Ok::<bool, Fault>(
            false,
        )
    } else if c == 0x9 && d == 0 {
        // skip if register x differs from register y
        post == (if vx != vy {
            m.with_pc((m.pc + 2) as nat)
        } else {
            m
        }) && r == Ok::<bool, Fault>(false)
    } else if c == 0xA {
        // index register := nnn
        post == m.with_index(nnn) && r == Ok::<bool, Fault>(false)
    } else if c == 0xB {
        // jump to register 0 plus nnn
        post == m.with_pc((m.regs[0] + nnn) as nat) && r == Ok::<bool, Fault>(false)
    } else if c == 0xC {
        // register x := random byte masked by kk
        (exists|b: u8| post == m.with_reg(x, b & kk)) && r == Ok::<bool, Fault>(false)
    } else if c == 0xD {
        // draw an n-row sprite from memory at the index register; a
        // zero-row sprite reads no memory and so can never fault
        if d > 0 && m.index + d > MEM_SIZE {
            post == pre && r == Err::<bool, Fault>(Fault::MemoryFault)
        } else {
            post == m.with_disp(
                draw_disp(m.disp, m.mem, m.index as int, vx as int, vy as int, d as int),
            ).with_reg(
                15,
                if draw_collision(m.disp, m.mem, m.index as int, vx as int, vy as int, d as int) {
                    1u8
                } else {
                    0u8
                },
            ) && r == Ok::<bool, Fault>(true)
        }
    } else if c == 0xE && y == 0x9 && d == 0xE {
        // skip if the key numbered by register x is pressed
        post == (if m.key_pressed(vx) {
            m.with_pc((m.pc + 2) as nat)
        } else {
            m
        }) && r == Ok::<bool, Fault>(false)
    } else if c == 0xE && y == 0xA && d == 0x1 {
        // skip if the key numbered by register x is not pressed
        post == (if !m.key_pressed(vx) {
            m.with_pc((m.pc + 2) as nat)
        } else {
            m
        }) && r == Ok::<bool, Fault>(false)
    } else if c == 0xF && y == 0x0 && d == 0x7 {
        // register x := delay timer
        post == m.with_reg(x, m.delay) && r == Ok::<bool, Fault>(false)
    } else if c == 0xF && y == 0x0 && d == 0xA {
        // block awaiting the key numbered by register x
        post == m.with_waiting(Some(vx)) && r == Ok::<bool, Fault>(false)
    } else if c == 0xF && y == 0x1 && d == 0x5 {
        // delay timer := register x
        post == Machine { delay: vx, ..m } && r == Ok::<bool, Fault>(false)
    } else if c == 0xF && y == 0x1 && d == 0x8 {
        // sound timer := register x
        post == Machine { sound: vx, ..m } && r == Ok::<bool, Fault>(false)
    } else if c == 0xF && y == 0x1 && d == 0xE {
        // index register := index register + register x, 16-bit wrap
        post == m.with_index(((m.index + vx) % 0x10000) as u16) && r == Ok::<bool, Fault>(false)
    } else if c == 0xF && y == 0x2 && d == 0x9 {
        // index register := font glyph address of the digit in register x
        post == m.with_index((vx * 5) as u16) && r == Ok::<bool, Fault>(false)
    } else if c == 0xF && y == 0x3 && d == 0x3 {
        // store the decimal digits of register x at the index register
        if m.index + 2 >= MEM_SIZE {
            post == pre && r == Err::<bool, Fault>(Fault::MemoryFault)
        } else {
            post == m.with_mem(
                m.mem.update(m.index as int, vx / 100).update(
                    m.index + 1,
                    (vx % 100) / 10,
                ).update(m.index + 2, vx % 10),
            ) && r == Ok::<bool, Fault>(false)
        }
    } else if c == 0xF && y == 0x5 && d == 0x5 {
        // copy registers 0..x inclusive to memory at the index register
        if m.index + x + 1 > MEM_SIZE {
            post == pre && r == Err::<bool, Fault>(Fault::MemoryFault)
        } else {
            post == m.with_mem(dump_mem(m.mem, m.regs, m.index as int, x)) && r == Ok::<bool, Fault>(
                false,
            )
        }
    } else if c == 0xF && y == 0x6 && d == 0x5 {
        // copy memory at the index register into registers 0..x inclusive
        if m.index + x + 1 > MEM_SIZE {
            post == pre && r == Err::<bool, Fault>(Fault::MemoryFault)
        } else {
            post == Machine { regs: load_regs(m.regs, m.mem, m.index as int, x), ..m } && r == Ok::<
                bool,
                Fault,
            >(false)
        }
    } else {
        post == pre && r == Err::<bool, Fault>(Fault::IllegalInstruction(op))
    }
}

/// One invocation of the stepping operation: a blocked machine polls its
/// awaited key; a running machine fetches, advances past, and executes one
/// instruction word. Every `Err` outcome leaves the machine untouched; an
/// `Ok(true)` reports that the pixel grid changed.
pub open spec fn step_rel(pre: Machine, post: Machine, r: Result<bool, Fault>) -> bool {
    match pre.waiting {
        Some(k) => {
            if pre.key_pressed(k) {
                post == pre.with_waiting(None::<u8>) && r == Ok::<bool, Fault>(false)
            } else {
                post == pre && r == Ok::<bool, Fault>(false)
            }
        },
        None => {
            if pre.pc + 1 >= MEM_SIZE {
                post == pre && r == Err::<bool, Fault>(Fault::MemoryFault)
            } else {
                exec_rel(
                    fetch16(pre.mem, pre.pc as int),
                    pre,
                    pre.with_pc((pre.pc + 2) as nat),
                    post,
                    r,
                )
            }
        },
    }
}

/// Decomposition of a row-major grid index into its column and row.
pub proof fn lemma_grid_index(idx: int)
    requires
        0 <= idx < WIDTH * HEIGHT,
    ensures
        0 <= idx % (WIDTH as int) < WIDTH,
        0 <= idx / (WIDTH as int) < HEIGHT,
        (idx / (WIDTH as int)) * (WIDTH as int) + (idx % (WIDTH as int)) == idx,
{
    vstd::arithmetic::div_mod::lemma_fundamental_div_mod(idx, WIDTH as int);
    vstd::arithmetic::div_mod::lemma_mod_division_less_than_divisor(idx, WIDTH as int);
}

/// The machine `post` is reachable from `pre` by exactly `n` invocations
/// of the stepping operation, none of which faulted.
pub open spec fn runs_to(pre: Machine, post: Machine, n: nat) -> bool
    decreases n,
{
    if n == 0 {
        post == pre
    } else {
        exists|mid: Machine, b: bool|
            #[trigger] step_rel(pre, mid, Ok(b)) && runs_to(mid, post, (n - 1) as nat)
    }
}

/// A run of `n` non-faulting steps followed by one more non-faulting step
/// is a run of `n + 1` steps.
pub proof fn lemma_runs_to_extend(pre: Machine, mid: Machine, post: Machine, n: nat, b: bool)
    requires
        runs_to(pre, mid, n),
        step_rel(mid, post, Ok(b)),
    ensures
        runs_to(pre, post, n + 1),
    decreases n,
{
    if n == 0 {
        assert(runs_to(post, post, 0));
        assert(step_rel(pre, post, Ok(b)));
    } else {
        let (m1, b1) = choose|m1: Machine, b1: bool|
            #[trigger] step_rel(pre, m1, Ok(b1)) && runs_to(m1, mid, (n - 1) as nat);
        lemma_runs_to_extend(m1, mid, post, (n - 1) as nat, b);
        assert(step_rel(pre, m1, Ok(b1)) && runs_to(m1, post, n));
    }
}

} // verus!
