//! General properties of the interpreter, proved once and for all over the
//! abstract machine of [`crate::step`]: how skip instructions move the
//! program counter, that a register save followed by a restore of the same
//! range round-trips the register file, that sprite coordinates wrap rather
//! than clip, and that a call on a full stack faults instead of wrapping the
//! stack pointer.

use vstd::prelude::*;
use crate::decode::{spec_decode, Instr};
use crate::step::{
    display_after_draw, draw_collision, draw_hits, mem_with_saved_regs, pixel_index,
    regs_loaded_from_mem, sprite_bit, step, CycleDiag, Fault, MachineView,
};

verus! {

/// The four conditional-skip instructions.
pub open spec fn is_skip_instr(instr: Instr) -> bool {
    match instr {
        Instr::SkipEqImm(_, _) => true,
        Instr::SkipNeImm(_, _) => true,
        Instr::SkipEqReg(_, _) => true,
        Instr::SkipNeReg(_, _) => true,
        _ => false,
    }
}

/// The predicate a skip instruction tests against the register file.
pub open spec fn skip_predicate(v: MachineView, instr: Instr) -> bool {
    match instr {
        Instr::SkipEqImm(x, kk) => v.regs[x as int] == kk,
        Instr::SkipNeImm(x, kk) => v.regs[x as int] != kk,
        Instr::SkipEqReg(x, y) => v.regs[x as int] == v.regs[y as int],
        Instr::SkipNeReg(x, y) => v.regs[x as int] != v.regs[y as int],
        _ => false,
    }
}

/// A skip instruction advances the program counter by exactly 4 when its
/// predicate holds and by exactly 2 otherwise — for every machine state and
/// so for all register and immediate combinations — and changes nothing
/// else.
pub proof fn lemma_skip_advances_pc(pre: MachineView, rnd: u8)
    requires
        pre.wf(),
        !pre.awaiting_keypress,
        pre.pc + 1 < 4096,
        is_skip_instr(spec_decode(pre.memory[pre.pc as int], pre.memory[pre.pc + 1])),
    ensures
        ({
            let instr = spec_decode(pre.memory[pre.pc as int], pre.memory[pre.pc + 1]);
            let outcome = step(pre, rnd);
            outcome.1 == Ok::<CycleDiag, Fault>(CycleDiag::Normal) && outcome.0.pc == pre.pc + (
            if skip_predicate(pre, instr) {
                4int
            } else {
                2int
            }) && outcome.0 == (MachineView { pc: outcome.0.pc, ..pre })
        }),
{
    let instr = spec_decode(pre.memory[pre.pc as int], pre.memory[pre.pc + 1]);
    match instr {
        Instr::SkipEqImm(x, kk) => {},
        Instr::SkipNeImm(x, kk) => {},
        Instr::SkipEqReg(x, y) => {},
        Instr::SkipNeReg(x, y) => {},
        _ => {},
    }
}

/// Loading back a register range that was just saved restores the register
/// file exactly, whatever memory held before.
pub proof fn lemma_save_load_round_trip_seqs(mem: Seq<u8>, regs: Seq<u8>, i: int, x: int)
    requires
        regs.len() == 16,
        mem.len() == 4096,
        0 <= x < 16,
        0 <= i,
        i + x < 4096,
    ensures
        regs_loaded_from_mem(regs, mem_with_saved_regs(mem, regs, i, x), i, x) == regs,
{
    assert(regs_loaded_from_mem(regs, mem_with_saved_regs(mem, regs, i, x), i, x) =~= regs);
}

/// A register save (Fx55) followed by a register restore (Fx65) of the same
/// range, with the index register untouched in between (the compatibility
/// switch off) and the saved range disjoint from the two instruction words,
/// round-trips the register file unchanged.
pub proof fn lemma_save_load_round_trip(pre: MachineView, x: u8, rnd1: u8, rnd2: u8)
    requires
        pre.wf(),
        !pre.awaiting_keypress,
        !pre.saving_increases_reg_i,
        x < 16,
        pre.pc + 3 < 4096,
        spec_decode(pre.memory[pre.pc as int], pre.memory[pre.pc + 1]) == Instr::SaveRegs(x),
        spec_decode(pre.memory[pre.pc + 2], pre.memory[pre.pc + 3]) == Instr::LoadRegs(x),
        pre.reg_i + x < 4096,
        pre.reg_i > pre.pc + 3 || pre.reg_i + x < pre.pc + 2,
    ensures
        ({
            let first = step(pre, rnd1);
            let second = step(first.0, rnd2);
            first.1 == Ok::<CycleDiag, Fault>(CycleDiag::Normal) && second.1 == Ok::<
                CycleDiag,
                Fault,
            >(CycleDiag::Normal) && second.0.regs == pre.regs && second.0.reg_i == pre.reg_i
                && second.0.pc == pre.pc + 4
        }),
{
    let i = pre.reg_i as int;
    let mid = step(pre, rnd1).0;
    assert(mid.memory == mem_with_saved_regs(pre.memory, pre.regs, i, x as int));
    assert(mid.memory[pre.pc + 2] == pre.memory[pre.pc + 2]);
    assert(mid.memory[pre.pc + 3] == pre.memory[pre.pc + 3]);
    assert(mid.pc == pre.pc + 2);
    let post = step(mid, rnd2).0;
    assert(post.regs == regs_loaded_from_mem(
        pre.regs,
        mem_with_saved_regs(pre.memory, pre.regs, i, x as int),
        i,
        x as int,
    ));
    lemma_save_load_round_trip_seqs(pre.memory, pre.regs, i, x as int);
}

/// A sprite draw at coordinates beyond the grid bounds wraps rather than
/// clips: it toggles exactly the cells of the draw at the coordinates
/// reduced modulo the display width and height, and reports the same
/// collision.
pub proof fn lemma_draw_wraps(disp: Seq<usize>, mem: Seq<u8>, i: int, x: int, y: int, n: int)
    requires
        0 <= x,
        0 <= y,
        0 <= n < 16,
    ensures
        display_after_draw(disp, mem, i, x, y, n) == display_after_draw(
            disp,
            mem,
            i,
            x % 64,
            y % 32,
            n,
        ),
        draw_collision(disp, mem, i, x, y, n) == draw_collision(disp, mem, i, x % 64, y % 32, n),
{
    assert forall|row: int, col: int| 0 <= row < 16 && 0 <= col < 8 implies pixel_index(
        x,
        y,
        row,
        col,
    ) == pixel_index(x % 64, y % 32, row, col) by {
        vstd::arithmetic::div_mod::lemma_add_mod_noop(y, row, 32);
        vstd::arithmetic::div_mod::lemma_small_mod(row as nat, 32);
        vstd::arithmetic::div_mod::lemma_add_mod_noop(x, col, 64);
        vstd::arithmetic::div_mod::lemma_small_mod(col as nat, 64);
    }
    assert forall|p: int| draw_hits(mem, i, x, y, n, p) == draw_hits(
        mem,
        i,
        x % 64,
        y % 32,
        n,
        p,
    ) by {
        if draw_hits(mem, i, x, y, n, p) {
            let (row, col): (int, int) = choose|row: int, col: int|
                0 <= row < n && 0 <= col < 8 && #[trigger] sprite_bit(mem, i, row, col) && p
                    == pixel_index(x, y, row, col);
            assert(pixel_index(x, y, row, col) == pixel_index(x % 64, y % 32, row, col));
            assert(draw_hits(mem, i, x % 64, y % 32, n, p));
        }
        if draw_hits(mem, i, x % 64, y % 32, n, p) {
            let (row, col): (int, int) = choose|row: int, col: int|
                0 <= row < n && 0 <= col < 8 && #[trigger] sprite_bit(mem, i, row, col) && p
                    == pixel_index(x % 64, y % 32, row, col);
            assert(pixel_index(x, y, row, col) == pixel_index(x % 64, y % 32, row, col));
            assert(draw_hits(mem, i, x, y, n, p));
        }
    }
    assert(display_after_draw(disp, mem, i, x, y, n) =~= display_after_draw(
        disp,
        mem,
        i,
        x % 64,
        y % 32,
        n,
    ));
    if draw_collision(disp, mem, i, x, y, n) {
        let p = choose|p: int|
            0 <= p < disp.len() && #[trigger] draw_hits(mem, i, x, y, n, p) && disp[p] == 1;
        assert(draw_hits(mem, i, x, y, n, p) == draw_hits(mem, i, x % 64, y % 32, n, p));
        assert(draw_collision(disp, mem, i, x % 64, y % 32, n));
    }
    if draw_collision(disp, mem, i, x % 64, y % 32, n) {
        let p = choose|p: int|
            0 <= p < disp.len() && #[trigger] draw_hits(mem, i, x % 64, y % 32, n, p) && disp[p]
                == 1;
        assert(draw_hits(mem, i, x, y, n, p) == draw_hits(mem, i, x % 64, y % 32, n, p));
        assert(draw_collision(disp, mem, i, x, y, n));
    }
}

/// A call executed with all 16 stack slots in use raises the fatal overflow
/// fault and leaves the whole machine state unchanged: the stack pointer
/// does not wrap.
pub proof fn lemma_call_overflow(pre: MachineView, rnd: u8)
    requires
        pre.wf(),
        !pre.awaiting_keypress,
        pre.pc + 1 < 4096,
        spec_decode(pre.memory[pre.pc as int], pre.memory[pre.pc + 1]) is Call,
        pre.sp == 16,
    ensures
        step(pre, rnd) == (pre, Err::<CycleDiag, Fault>(Fault::StackOverflow)),
{
}

} // verus!
