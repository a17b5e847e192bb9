//! Laws of the instruction semantics, stated over the spec functions that
//! the step relation uses.

use vstd::prelude::*;

use crate::semantics::{
    add_flag, add_val, draw_collision, draw_disp, dump_mem, exec_rel, lemma_grid_index, lit,
    load_regs, op_c, op_d, op_nnn, op_x, op_y, sprite_hits, sub_flag, sub_val, toggle, Fault,
    Machine, HEIGHT, MEM_SIZE, WIDTH,
};

verus! {

/// For all 8-bit values `a` and `b`: the add-with-carry instruction leaves
/// `(a + b) mod 256` in the destination register, and its flag is 1 exactly
/// when the true sum reaches 256, else 0.
pub proof fn lemma_add_carry(a: u8, b: u8)
    ensures
        add_val(a, b) == (a + b) % 256,
        add_flag(a, b) == 1u8 <==> a + b >= 256,
        add_flag(a, b) == 0u8 <==> a + b < 256,
{
}

/// For all 8-bit values `a` and `b`: subtracting `b` from `a` leaves
/// `(a - b) mod 256` in the destination register, and the flag is 1 exactly
/// when no borrow occurs, that is when `a >= b`, else 0. The reverse
/// subtract form uses the same two functions with its arguments swapped,
/// so its flag semantics are these, mirrored.
pub proof fn lemma_sub_borrow(a: u8, b: u8)
    ensures
        sub_val(a, b) == (a - b + 256) % 256,
        a >= b ==> sub_val(a, b) == a - b,
        sub_flag(a, b) == 1u8 <==> a >= b,
        sub_flag(a, b) == 0u8 <==> a < b,
{
}

/// Dumping registers 0 through `x` to memory at index `i`, then loading
/// registers 0 through `x` back from the same place, restores every
/// register exactly, whatever the registers and memory held before.
pub proof fn lemma_dump_load_round_trip(regs: Seq<u8>, mem: Seq<u8>, i: int, x: int)
    requires
        regs.len() == 16,
        mem.len() == MEM_SIZE,
        0 <= x < 16,
        0 <= i,
        i + x + 1 <= MEM_SIZE,
    ensures
        load_regs(regs, dump_mem(mem, regs, i, x), i, x) == regs,
{
    let dumped = dump_mem(mem, regs, i, x);
    assert forall|j: int| 0 <= j < 16 implies load_regs(regs, dumped, i, x)[j] == regs[j] by {
        if 0 <= j <= x {
            assert(dumped[i + j] == regs[j]);
        }
    }
    assert(load_regs(regs, dumped, i, x) =~= regs);
}

/// The full effect of the add-with-carry instruction on a machine: the
/// destination register takes `(a + b) mod 256`, the flag register takes 1
/// exactly when the true sum reaches 256 and 0 otherwise, every other
/// register keeps its value, and no other part of the machine moves.
pub proof fn lemma_add_instruction_state(m: Machine, x: int, y: int)
    requires
        m.wf(),
        0 <= x < 16,
        0 <= y < 16,
    ensures
        ({
            let a = m.regs[x];
            let b = m.regs[y];
            let post = m.with_reg(x, add_val(a, b)).with_reg(15, add_flag(a, b));
            &&& (post.regs[15] == 1u8 <==> a + b >= 256)
            &&& (post.regs[15] == 0u8 <==> a + b < 256)
            &&& (x != 15 ==> post.regs[x] == (a + b) % 256)
            &&& (forall|j: int| 0 <= j < 16 && j != x && j != 15 ==> post.regs[j] == m.regs[j])
            &&& post == (Machine { regs: post.regs, ..m })
        }),
{
    let a = m.regs[x];
    let b = m.regs[y];
    let post = m.with_reg(x, add_val(a, b)).with_reg(15, add_flag(a, b));
    assert(post =~= (Machine { regs: post.regs, ..m }));
}

/// The full effect of the subtract instruction on a machine: the
/// destination register takes `(a - b) mod 256`, the flag register takes 1
/// exactly when no borrow occurs (`a >= b`) and 0 otherwise, every other
/// register keeps its value, and no other part of the machine moves.
pub proof fn lemma_sub_instruction_state(m: Machine, x: int, y: int)
    requires
        m.wf(),
        0 <= x < 16,
        0 <= y < 16,
    ensures
        ({
            let a = m.regs[x];
            let b = m.regs[y];
            let post = m.with_reg(x, sub_val(a, b)).with_reg(15, sub_flag(a, b));
            &&& (post.regs[15] == 1u8 <==> a >= b)
            &&& (post.regs[15] == 0u8 <==> a < b)
            &&& (x != 15 ==> post.regs[x] == (a - b + 256) % 256)
            &&& (forall|j: int| 0 <= j < 16 && j != x && j != 15 ==> post.regs[j] == m.regs[j])
            &&& post == (Machine { regs: post.regs, ..m })
        }),
{
    let a = m.regs[x];
    let b = m.regs[y];
    let post = m.with_reg(x, sub_val(a, b)).with_reg(15, sub_flag(a, b));
    assert(post =~= (Machine { regs: post.regs, ..m }));
}

/// The full effect of the reverse subtract instruction on a machine: the
/// flag semantics of the subtract, mirrored on `(b, a)` — the destination
/// register takes `(b - a) mod 256` and the flag is 1 exactly when
/// `b >= a`; every other register keeps its value, and no other part of
/// the machine moves.
pub proof fn lemma_reverse_sub_instruction_state(m: Machine, x: int, y: int)
    requires
        m.wf(),
        0 <= x < 16,
        0 <= y < 16,
    ensures
        ({
            let a = m.regs[x];
            let b = m.regs[y];
            let post = m.with_reg(x, sub_val(b, a)).with_reg(15, sub_flag(b, a));
            &&& (post.regs[15] == 1u8 <==> b >= a)
            &&& (post.regs[15] == 0u8 <==> b < a)
            &&& (x != 15 ==> post.regs[x] == (b - a + 256) % 256)
            &&& (forall|j: int| 0 <= j < 16 && j != x && j != 15 ==> post.regs[j] == m.regs[j])
            &&& post == (Machine { regs: post.regs, ..m })
        }),
{
    let a = m.regs[x];
    let b = m.regs[y];
    let post = m.with_reg(x, sub_val(b, a)).with_reg(15, sub_flag(b, a));
    assert(post =~= (Machine { regs: post.regs, ..m }));
}

/// The round-trip law at machine level: the register-dump instruction
/// followed by the register-load instruction, both over registers 0
/// through `x` at index `i`, restores the register file exactly, while
/// the dump writes the registers at `i` through `i + x` and touches no
/// other memory cell.
pub proof fn lemma_machine_dump_load_round_trip(m: Machine, i: int, x: int)
    requires
        m.wf(),
        0 <= x < 16,
        0 <= i,
        i + x + 1 <= MEM_SIZE,
    ensures
        ({
            let dumped = m.with_mem(dump_mem(m.mem, m.regs, i, x));
            let loaded = Machine { regs: load_regs(dumped.regs, dumped.mem, i, x), ..dumped };
            &&& loaded.regs == m.regs
            &&& (forall|j: int| #![trigger m.regs[j]] 0 <= j <= x ==> dumped.mem[i + j] == m.regs[j])
            &&& (forall|j: int| 0 <= j < MEM_SIZE && !(i <= j < i + x + 1) ==> dumped.mem[j]
                == m.mem[j])
        }),
{
    lemma_dump_load_round_trip(m.regs, m.mem, i, x);
}

/// A call descends exactly while the stack holds fewer than its 16
/// entries: it pushes the already-advanced program counter and jumps. On a
/// full stack the call is the distinct overflow fault and commits nothing,
/// so from an empty stack exactly 16 nested calls succeed and the
/// seventeenth faults.
pub proof fn lemma_call_capacity(
    op: u16,
    pre: Machine,
    m: Machine,
    post: Machine,
    r: Result<bool, Fault>,
)
    requires
        m.wf(),
        op_c(op) == 0x2,
        exec_rel(op, pre, m, post, r),
    ensures
        m.sp < 16 ==> r == Ok::<bool, Fault>(false) && post == (Machine {
            stack: m.stack.update(m.sp as int, m.pc as u16),
            sp: (m.sp + 1) as nat,
            pc: op_nnn(op) as nat,
            ..m
        }),
        m.sp == 16 ==> r == Err::<bool, Fault>(Fault::StackOverflow) && post == pre,
{
}

/// A return pops the top of the stack into the program counter exactly
/// while the stack is nonempty; a return on an empty stack is the distinct
/// underflow fault and commits nothing.
pub proof fn lemma_return_underflow(
    op: u16,
    pre: Machine,
    m: Machine,
    post: Machine,
    r: Result<bool, Fault>,
)
    requires
        m.wf(),
        op_c(op) == 0,
        op_x(op) == 0,
        op_y(op) == 0xE,
        op_d(op) == 0xE,
        exec_rel(op, pre, m, post, r),
    ensures
        m.sp > 0 ==> r == Ok::<bool, Fault>(false) && post == (Machine {
            sp: (m.sp - 1) as nat,
            pc: m.stack[m.sp - 1] as nat,
            ..m
        }),
        m.sp == 0 ==> r == Err::<bool, Fault>(Fault::StackUnderflow) && post == pre,
{
}

/// A draw clips to the grid: every in-grid cell targeted by a set sprite
/// bit is XOR-toggled, every other in-grid cell keeps its value, and
/// off-grid target cells are dropped — the resulting grid has the same
/// cells, and a collision is an unlit transition of an in-grid cell alone.
pub proof fn lemma_draw_clips_to_grid(
    disp: Seq<u32>,
    mem: Seq<u8>,
    i: int,
    x0: int,
    y0: int,
    n: int,
)
    requires
        disp.len() == WIDTH * HEIGHT,
    ensures
        draw_disp(disp, mem, i, x0, y0, n).len() == disp.len(),
        forall|px: int, py: int|
            0 <= px < WIDTH && 0 <= py < HEIGHT && #[trigger] sprite_hits(mem, i, x0, y0, n, px, py)
                ==> draw_disp(disp, mem, i, x0, y0, n)[py * (WIDTH as int) + px] == toggle(
                disp[py * (WIDTH as int) + px],
            ),
        forall|px: int, py: int|
            0 <= px < WIDTH && 0 <= py < HEIGHT && !(#[trigger] sprite_hits(
                mem,
                i,
                x0,
                y0,
                n,
                px,
                py,
            )) ==> draw_disp(disp, mem, i, x0, y0, n)[py * (WIDTH as int) + px] == disp[py * (
            WIDTH as int) + px],
        draw_collision(disp, mem, i, x0, y0, n) <==> (exists|px: int, py: int|
            0 <= px < WIDTH && 0 <= py < HEIGHT && #[trigger] sprite_hits(mem, i, x0, y0, n, px, py)
                && lit(disp[py * (WIDTH as int) + px])),
{
    assert forall|px: int, py: int|
        0 <= px < WIDTH && 0 <= py < HEIGHT implies draw_disp(disp, mem, i, x0, y0, n)[py * (
    WIDTH as int) + px] == (if sprite_hits(mem, i, x0, y0, n, px, py) {
        toggle(disp[py * (WIDTH as int) + px])
    } else {
        disp[py * (WIDTH as int) + px]
    }) by {
        let idx = py * (WIDTH as int) + px;
        lemma_grid_index(idx);
    }
}

} // verus!
