//! The mathematical model of the machine: an abstract state over sequences
//! and integers, and the `step` function that says what one instruction cycle
//! does to it. The executable interpreter in [`crate::emu`] is proved to
//! follow `step` exactly.

use vstd::prelude::*;
use crate::arith::{spec_add_carry, spec_sub_borrow};
use crate::decode::{spec_decode, Instr};
use crate::font::spec_font;

verus! {

/// An unrecoverable fault: executing further would have to read or write
/// outside the machine, so the cycle stops and reports instead. The state is
/// left exactly as it was before the faulting instruction.
#[derive(Clone, Copy, Debug, PartialEq, Eq)]
pub enum Fault {
    /// A call was executed with all 16 stack slots in use.
    StackOverflow,
    /// A return was executed with an empty call stack.
    StackUnderflow,
    /// The program counter does not point at two bytes of memory.
    ProgramCounterOutOfBounds,
    /// A memory-relative operation reaches past the 4096-byte address space.
    MemoryOutOfBounds,
    /// A key-skip instruction named a register value outside the 16 keys.
    KeyOutOfRange,
}

/// A recoverable anomaly surfaced by a cycle that completed normally. The
/// caller may log it; execution can simply continue.
#[derive(Clone, Copy, Debug, PartialEq, Eq)]
pub enum CycleDiag {
    /// Nothing to report.
    Normal,
    /// The fetched word (given as its two bytes) matches no known opcode.
    UnknownOpcode(u8, u8),
    /// A jump or call targeted the reserved region below 0x200.
    LowTarget(u16),
}

/// The abstract machine state: every field of the interpreter, with the
/// collections as mathematical sequences.
#[verifier::ext_equal]
pub ghost struct MachineView {
    /// The 4096-byte address space.
    pub memory: Seq<u8>,
    /// The program counter.
    pub pc: usize,
    /// The 16 one-byte general registers V0..VF.
    pub regs: Seq<u8>,
    /// The address register, independent of the general registers.
    pub reg_i: usize,
    /// Counts down to zero, one per tick.
    pub delay_timer: u8,
    /// Counts down to zero, one per tick.
    pub sound_timer: u8,
    /// The 16 saved return addresses; only the first `sp` are live.
    pub stack: Seq<usize>,
    /// The call-stack depth, at most 16.
    pub sp: usize,
    /// The 64x32 display, row-major: pixel (column c, row r) is entry
    /// `r * 64 + c`, and each entry is 0 or 1.
    pub display: Seq<usize>,
    /// The 16 key-down flags, written by the input collaborator.
    pub keys: Seq<bool>,
    /// True while execution is paused waiting for a key press.
    pub awaiting_keypress: bool,
    /// The register that receives the key once one is pressed.
    pub awaiting_target: usize,
    /// Compatibility switch: a register save/restore also advances the index
    /// register past the copied range.
    pub saving_increases_reg_i: bool,
    /// Compatibility switch: the shift opcodes read Vy instead of Vx.
    pub shift_vy_not_vx: bool,
}

impl MachineView {
    /// Structural well-formedness: the collections have their fixed sizes,
    /// the stack depth is in range, every pixel is 0 or 1, and the register
    /// recorded for a pending key wait exists.
    pub open spec fn wf(self) -> bool {
        &&& self.memory.len() == 4096
        &&& self.regs.len() == 16
        &&& self.stack.len() == 16
        &&& self.sp <= 16
        &&& self.display.len() == 2048
        &&& forall|p: int| 0 <= p < 2048 ==> self.display[p] == 0 || self.display[p] == 1
        &&& self.keys.len() == 16
        &&& self.awaiting_target < 16
    }
}

/// The state with the program counter moved `n` bytes ahead.
pub open spec fn bump_pc(v: MachineView, n: int) -> MachineView {
    MachineView { pc: (v.pc + n) as usize, ..v }
}

/// The state with register `x` set to `val`.
pub open spec fn with_reg(v: MachineView, x: int, val: u8) -> MachineView {
    MachineView { regs: v.regs.update(x, val), ..v }
}

/// A conditional skip: the program counter advances 4 bytes when `cond`
/// holds (skipping the next instruction) and 2 bytes otherwise.
pub open spec fn skip_pc(v: MachineView, cond: bool) -> MachineView {
    bump_pc(v, if cond { 4int } else { 2int })
}

/// An all-dark display.
pub open spec fn blank_display() -> Seq<usize> {
    Seq::new(2048, |p: int| 0usize)
}

/// One timer tick of a single counter: down by one, but never below zero.
pub open spec fn tick_timer(t: u8) -> u8 {
    if t > 0 {
        (t - 1) as u8
    } else {
        0
    }
}

/// The diagnostic for a jump or call: targets below 0x200 point into the
/// reserved region and are surfaced, all others are silent.
pub open spec fn target_diag(t: u16) -> CycleDiag {
    if t < 0x200 {
        CycleDiag::LowTarget(t)
    } else {
        CycleDiag::Normal
    }
}

/// The lowest pressed key at or above index `i`, or 16 when none is.
pub open spec fn first_pressed(keys: Seq<bool>, i: int) -> int
    decreases 16 - i,
{
    if i < 0 || i >= 16 {
        16
    } else if keys[i] {
        i
    } else {
        first_pressed(keys, i + 1)
    }
}

/// What a cycle does while the machine waits for a key: when some key is
/// down, the lowest such key index is stored in the recorded register and
/// the wait ends; otherwise nothing changes. The program counter already
/// points past the wait instruction and does not move.
pub open spec fn wait_step(pre: MachineView) -> MachineView {
    let k = first_pressed(pre.keys, 0);
    if k == 16 {
        pre
    } else {
        MachineView {
            awaiting_keypress: false,
            regs: pre.regs.update(pre.awaiting_target as int, k as u8),
            ..pre
        }
    }
}

/// Whether sprite row `row`, column `col` (drawn leftmost first from the
/// most significant bit) is set, for a sprite read from `mem` at `i`.
pub open spec fn sprite_bit(mem: Seq<u8>, i: int, row: int, col: int) -> bool {
    (mem[i + row] >> ((7 - col) as u8)) & 1 == 1
}

/// The display cell a sprite bit lands on: coordinates wrap around the
/// 64x32 grid rather than clipping at its edge.
pub open spec fn pixel_index(x: int, y: int, row: int, col: int) -> int {
    ((y + row) % 32) * 64 + ((x + col) % 64)
}

/// Whether the draw of an `n`-row sprite at (`x`, `y`) toggles cell `p`.
pub open spec fn draw_hits(mem: Seq<u8>, i: int, x: int, y: int, n: int, p: int) -> bool {
    exists|row: int, col: int|
        0 <= row < n && 0 <= col < 8 && #[trigger] sprite_bit(mem, i, row, col) && p
            == pixel_index(x, y, row, col)
}

/// The display after a sprite draw: every cell a set sprite bit lands on is
/// toggled, every other cell keeps its value.
pub open spec fn display_after_draw(
    disp: Seq<usize>,
    mem: Seq<u8>,
    i: int,
    x: int,
    y: int,
    n: int,
) -> Seq<usize> {
    Seq::new(
        disp.len(),
        |p: int|
            if draw_hits(mem, i, x, y, n, p) {
                (1 - disp[p]) as usize
            } else {
                disp[p]
            },
    )
}

/// Whether a sprite draw erases some previously lit cell (the collision
/// reported in VF).
pub open spec fn draw_collision(
    disp: Seq<usize>,
    mem: Seq<u8>,
    i: int,
    x: int,
    y: int,
    n: int,
) -> bool {
    exists|p: int|
        0 <= p < disp.len() && #[trigger] draw_hits(mem, i, x, y, n, p) && disp[p] == 1
}

/// Memory after registers V0..=Vx are copied to addresses `i ..= i + x`.
pub open spec fn mem_with_saved_regs(mem: Seq<u8>, regs: Seq<u8>, i: int, x: int) -> Seq<u8> {
    Seq::new(
        mem.len(),
        |j: int|
            if i <= j <= i + x {
                regs[j - i]
            } else {
                mem[j]
            },
    )
}

/// Registers after V0..=Vx are loaded from addresses `i ..= i + x`.
pub open spec fn regs_loaded_from_mem(regs: Seq<u8>, mem: Seq<u8>, i: int, x: int) -> Seq<u8> {
    Seq::new(
        regs.len(),
        |k: int|
            if k <= x {
                mem[i + k]
            } else {
                regs[k]
            },
    )
}

/// Memory after the decimal digits of `v` (hundreds, tens, ones) are written
/// at addresses `i`, `i + 1`, `i + 2`.
pub open spec fn mem_with_digits(mem: Seq<u8>, i: int, v: u8) -> Seq<u8> {
    mem.update(i, ((v as int) / 100) as u8).update(i + 1, (((v as int) / 10) % 10) as u8).update(
        i + 2,
        ((v as int) % 10) as u8,
    )
}

/// What one decoded instruction does to the machine: the state after, and
/// either the diagnostic of a completed cycle or the fault that stopped it.
/// `rnd` is the byte the entropy source hands to the random-mask opcode; no
/// other instruction looks at it.
pub open spec fn step_instr(pre: MachineView, instr: Instr, rnd: u8) -> (
    MachineView,
    Result<CycleDiag, Fault>,
) {
    match instr {
        Instr::ClearScreen => (
            bump_pc(MachineView { display: blank_display(), ..pre }, 2),
            Ok(CycleDiag::Normal),
        ),
        Instr::Return => {
            if pre.sp == 0 {
                (pre, Err(Fault::StackUnderflow))
            } else {
                (
                    MachineView { sp: (pre.sp - 1) as usize, pc: pre.stack[pre.sp - 1], ..pre },
                    Ok(CycleDiag::Normal),
                )
            }
        },
        Instr::Jump(nnn) => (MachineView { pc: nnn as usize, ..pre }, Ok(target_diag(nnn))),
        Instr::Call(nnn) => {
            if pre.sp >= 16 {
                (pre, Err(Fault::StackOverflow))
            } else {
                (
                    MachineView {
                        stack: pre.stack.update(pre.sp as int, (pre.pc + 2) as usize),
                        sp: (pre.sp + 1) as usize,
                        pc: nnn as usize,
                        ..pre
                    },
                    Ok(target_diag(nnn)),
                )
            }
        },
        Instr::SkipEqImm(x, kk) => (skip_pc(pre, pre.regs[x as int] == kk), Ok(CycleDiag::Normal)),
        Instr::SkipNeImm(x, kk) => (skip_pc(pre, pre.regs[x as int] != kk), Ok(CycleDiag::Normal)),
        Instr::SkipEqReg(x, y) => (
            skip_pc(pre, pre.regs[x as int] == pre.regs[y as int]),
            Ok(CycleDiag::Normal),
        ),
        Instr::SkipNeReg(x, y) => (
            skip_pc(pre, pre.regs[x as int] != pre.regs[y as int]),
            Ok(CycleDiag::Normal),
        ),
        Instr::SetImm(x, kk) => (bump_pc(with_reg(pre, x as int, kk), 2), Ok(CycleDiag::Normal)),
        Instr::AddImm(x, kk) => (
            bump_pc(with_reg(pre, x as int, spec_add_carry(pre.regs[x as int], kk).0), 2),
            Ok(CycleDiag::Normal),
        ),
        Instr::CopyReg(x, y) => (
            bump_pc(with_reg(pre, x as int, pre.regs[y as int]), 2),
            Ok(CycleDiag::Normal),
        ),
        Instr::OrReg(x, y) => (
            bump_pc(with_reg(pre, x as int, pre.regs[x as int] | pre.regs[y as int]), 2),
            Ok(CycleDiag::Normal),
        ),
        Instr::AndReg(x, y) => (
            bump_pc(with_reg(pre, x as int, pre.regs[x as int] & pre.regs[y as int]), 2),
            Ok(CycleDiag::Normal),
        ),
        Instr::XorReg(x, y) => (
            bump_pc(with_reg(pre, x as int, pre.regs[x as int] ^ pre.regs[y as int]), 2),
            Ok(CycleDiag::Normal),
        ),
        Instr::AddReg(x, y) => {
            let sum = spec_add_carry(pre.regs[x as int], pre.regs[y as int]);
            (
                bump_pc(with_reg(with_reg(pre, 15, sum.1), x as int, sum.0), 2),
                Ok(CycleDiag::Normal),
            )
        },
        Instr::SubReg(x, y) => {
            let diff = spec_sub_borrow(pre.regs[x as int], pre.regs[y as int]);
            let no_borrow: u8 = if pre.regs[x as int] >= pre.regs[y as int] { 1 } else { 0 };
            (
                bump_pc(with_reg(with_reg(pre, 15, no_borrow), x as int, diff.0), 2),
                Ok(CycleDiag::Normal),
            )
        },
        Instr::ShrReg(x, y) => {
            let op = if pre.shift_vy_not_vx { pre.regs[y as int] } else { pre.regs[x as int] };
            (
                bump_pc(with_reg(with_reg(pre, 15, op & 1), x as int, op >> 1), 2),
                Ok(CycleDiag::Normal),
            )
        },
        Instr::SubFrom(x, y) => {
            let diff = spec_sub_borrow(pre.regs[y as int], pre.regs[x as int]);
            let no_borrow: u8 = if pre.regs[y as int] >= pre.regs[x as int] { 1 } else { 0 };
            (
                bump_pc(with_reg(with_reg(pre, 15, no_borrow), x as int, diff.0), 2),
                Ok(CycleDiag::Normal),
            )
        },
        Instr::ShlReg(x, y) => {
            let op = if pre.shift_vy_not_vx { pre.regs[y as int] } else { pre.regs[x as int] };
            (
                bump_pc(with_reg(with_reg(pre, 15, op >> 7), x as int, op << 1), 2),
                Ok(CycleDiag::Normal),
            )
        },
        Instr::SetIndex(nnn) => (
            bump_pc(MachineView { reg_i: nnn as usize, ..pre }, 2),
            Ok(CycleDiag::Normal),
        ),
        Instr::JumpPlus(nnn) => {
            let t = (nnn + pre.regs[0]) as u16;
            (MachineView { pc: t as usize, ..pre }, Ok(target_diag(t)))
        },
        Instr::RandomMask(x, kk) => (
            bump_pc(with_reg(pre, x as int, rnd & kk), 2),
            Ok(CycleDiag::Normal),
        ),
        Instr::Draw(x, y, n) => {
            if n > 0 && pre.reg_i + n > 4096 {
                (pre, Err(Fault::MemoryOutOfBounds))
            } else {
                let vx = pre.regs[x as int] as int;
                let vy = pre.regs[y as int] as int;
                let disp = display_after_draw(
                    pre.display,
                    pre.memory,
                    pre.reg_i as int,
                    vx,
                    vy,
                    n as int,
                );
                let flag: u8 = if draw_collision(
                    pre.display,
                    pre.memory,
                    pre.reg_i as int,
                    vx,
                    vy,
                    n as int,
                ) {
                    1
                } else {
                    0
                };
                (
                    bump_pc(with_reg(MachineView { display: disp, ..pre }, 15, flag), 2),
                    Ok(CycleDiag::Normal),
                )
            }
        },
        Instr::SkipKey(x) => {
            let vx = pre.regs[x as int];
            if vx >= 16 {
                (pre, Err(Fault::KeyOutOfRange))
            } else {
                (skip_pc(pre, pre.keys[vx as int]), Ok(CycleDiag::Normal))
            }
        },
        Instr::SkipNoKey(x) => {
            let vx = pre.regs[x as int];
            if vx >= 16 {
                (pre, Err(Fault::KeyOutOfRange))
            } else {
                (skip_pc(pre, !pre.keys[vx as int]), Ok(CycleDiag::Normal))
            }
        },
        Instr::GetDelay(x) => (
            bump_pc(with_reg(pre, x as int, pre.delay_timer), 2),
            Ok(CycleDiag::Normal),
        ),
        Instr::WaitKey(x) => (
            bump_pc(
                MachineView { awaiting_keypress: true, awaiting_target: x as usize, ..pre },
                2,
            ),
            Ok(CycleDiag::Normal),
        ),
        Instr::SetDelay(x) => (
            bump_pc(MachineView { delay_timer: pre.regs[x as int], ..pre }, 2),
            Ok(CycleDiag::Normal),
        ),
        Instr::SetSound(x) => (
            bump_pc(MachineView { sound_timer: pre.regs[x as int], ..pre }, 2),
            Ok(CycleDiag::Normal),
        ),
        Instr::AddIndex(x) => (
            bump_pc(
                MachineView {
                    reg_i: pre.reg_i.wrapping_add(pre.regs[x as int] as usize),
                    ..pre
                },
                2,
            ),
            Ok(CycleDiag::Normal),
        ),
        Instr::FontChar(x) => (
            bump_pc(
                MachineView { reg_i: ((pre.regs[x as int] & 0xF) * 5) as usize, ..pre },
                2,
            ),
            Ok(CycleDiag::Normal),
        ),
        Instr::StoreDigits(x) => {
            if pre.reg_i + 2 >= 4096 {
                (pre, Err(Fault::MemoryOutOfBounds))
            } else {
                (
                    bump_pc(
                        MachineView {
                            memory: mem_with_digits(
                                pre.memory,
                                pre.reg_i as int,
                                pre.regs[x as int],
                            ),
                            ..pre
                        },
                        2,
                    ),
                    Ok(CycleDiag::Normal),
                )
            }
        },
        Instr::SaveRegs(x) => {
            if pre.reg_i + x >= 4096 {
                (pre, Err(Fault::MemoryOutOfBounds))
            } else {
                (
                    bump_pc(
                        MachineView {
                            memory: mem_with_saved_regs(
                                pre.memory,
                                pre.regs,
                                pre.reg_i as int,
                                x as int,
                            ),
                            reg_i: if pre.saving_increases_reg_i {
                                pre.reg_i.wrapping_add((x + 1) as usize)
                            } else {
                                pre.reg_i
                            },
                            ..pre
                        },
                        2,
                    ),
                    Ok(CycleDiag::Normal),
                )
            }
        },
        Instr::LoadRegs(x) => {
            if pre.reg_i + x >= 4096 {
                (pre, Err(Fault::MemoryOutOfBounds))
            } else {
                (
                    bump_pc(
                        MachineView {
                            regs: regs_loaded_from_mem(
                                pre.regs,
                                pre.memory,
                                pre.reg_i as int,
                                x as int,
                            ),
                            reg_i: if pre.saving_increases_reg_i {
                                pre.reg_i.wrapping_add((x + 1) as usize)
                            } else {
                                pre.reg_i
                            },
                            ..pre
                        },
                        2,
                    ),
                    Ok(CycleDiag::Normal),
                )
            }
        },
        Instr::Unknown(b1, b2) => (bump_pc(pre, 2), Ok(CycleDiag::UnknownOpcode(b1, b2))),
    }
}

/// One whole instruction cycle on the abstract machine. While a key wait is
/// pending the cycle only performs the key scan; otherwise it requires the
/// program counter to point at two bytes of memory (a fatal fault when it
/// does not), fetches and decodes them, and executes the instruction.
pub open spec fn step(pre: MachineView, rnd: u8) -> (MachineView, Result<CycleDiag, Fault>) {
    if pre.awaiting_keypress {
        (wait_step(pre), Ok(CycleDiag::Normal))
    } else if pre.pc + 1 >= 4096 {
        (pre, Err(Fault::ProgramCounterOutOfBounds))
    } else {
        step_instr(pre, spec_decode(pre.memory[pre.pc as int], pre.memory[pre.pc + 1]), rnd)
    }
}

/// Whether the draw of a sprite at (`x`, `y`) toggles cell `p`, counting only
/// the sprite bits strictly before row `r`, column `c` in drawing order
/// (row-major, each row left to right). With `r = n` and `c = 0` this is the
/// whole `n`-row draw; the interpreter's drawing loop walks these sets.
pub open spec fn draw_hits_before(
    mem: Seq<u8>,
    i: int,
    x: int,
    y: int,
    r: int,
    c: int,
    p: int,
) -> bool {
    exists|row: int, col: int|
        0 <= row && 0 <= col < 8 && (row < r || (row == r && col < c)) && #[trigger] sprite_bit(
            mem,
            i,
            row,
            col,
        ) && p == pixel_index(x, y, row, col)
}

/// Whether some cell hit strictly before row `r`, column `c` was lit in
/// `disp`.
pub open spec fn draw_collision_before(
    disp: Seq<usize>,
    mem: Seq<u8>,
    i: int,
    x: int,
    y: int,
    r: int,
    c: int,
) -> bool {
    exists|p: int|
        0 <= p < disp.len() && #[trigger] draw_hits_before(mem, i, x, y, r, c, p) && disp[p] == 1
}

/// Adding a whole multiple of `m` moves a remainder: two offsets less than
/// `m` apart (and not equal) land on different remainders.
pub proof fn lemma_mod_add_distinct(a: int, r1: int, r2: int, m: int)
    requires
        0 <= a,
        0 <= r1 < r2,
        r2 - r1 < m,
        0 < m,
    ensures
        (a + r1) % m != (a + r2) % m,
{
    vstd::arithmetic::div_mod::lemma_fundamental_div_mod(a + r1, m);
    vstd::arithmetic::div_mod::lemma_fundamental_div_mod(a + r2, m);
    let d1 = (a + r1) / m;
    let d2 = (a + r2) / m;
    if (a + r1) % m == (a + r2) % m {
        assert(r2 - r1 == m * d2 - m * d1);
        vstd::arithmetic::mul::lemma_mul_is_distributive_sub(m, d2, d1);
        assert(r2 - r1 == m * (d2 - d1));
        if d2 - d1 >= 1 {
            vstd::arithmetic::mul::lemma_mul_inequality(1, d2 - d1, m);
            assert(1 * m <= (d2 - d1) * m);
            vstd::arithmetic::mul::lemma_mul_is_commutative(m, d2 - d1);
            assert(false);
        } else {
            vstd::arithmetic::mul::lemma_mul_inequality(d2 - d1, 0, m);
            assert((d2 - d1) * m <= 0 * m);
            vstd::arithmetic::mul::lemma_mul_is_commutative(m, d2 - d1);
            assert(false);
        }
    }
}

/// Every sprite bit lands inside the 2048-cell display.
pub proof fn lemma_pixel_index_bounds(x: int, y: int, row: int, col: int)
    ensures
        0 <= pixel_index(x, y, row, col) < 2048,
{
    vstd::arithmetic::div_mod::lemma_mod_bound(y + row, 32);
    vstd::arithmetic::div_mod::lemma_mod_bound(x + col, 64);
    vstd::arithmetic::mul::lemma_mul_inequality((y + row) % 32, 31, 64);
}

/// Distinct sprite bits of one draw land on distinct display cells: the
/// sprite is at most 16 rows by 8 columns, smaller than the 32x64 grid, so
/// wrapping cannot fold two of its bits together.
pub proof fn lemma_pixel_index_injective(
    x: int,
    y: int,
    r1: int,
    c1: int,
    r2: int,
    c2: int,
)
    requires
        0 <= x,
        0 <= y,
        0 <= r1 < 16,
        0 <= r2 < 16,
        0 <= c1 < 8,
        0 <= c2 < 8,
        !(r1 == r2 && c1 == c2),
    ensures
        pixel_index(x, y, r1, c1) != pixel_index(x, y, r2, c2),
{
    vstd::arithmetic::div_mod::lemma_mod_bound(y + r1, 32);
    vstd::arithmetic::div_mod::lemma_mod_bound(y + r2, 32);
    vstd::arithmetic::div_mod::lemma_mod_bound(x + c1, 64);
    vstd::arithmetic::div_mod::lemma_mod_bound(x + c2, 64);
    if r1 != r2 {
        if r1 < r2 {
            lemma_mod_add_distinct(y, r1, r2, 32);
        } else {
            lemma_mod_add_distinct(y, r2, r1, 32);
        }
    } else {
        if c1 < c2 {
            lemma_mod_add_distinct(x, c1, c2, 64);
        } else {
            lemma_mod_add_distinct(x, c2, c1, 64);
        }
    }
}

/// Finishing a row's 8 columns is the same as standing at the start of the
/// next row.
pub proof fn lemma_hits_before_row_wrap(
    mem: Seq<u8>,
    i: int,
    x: int,
    y: int,
    r: int,
    p: int,
)
    requires
        0 <= r,
    ensures
        draw_hits_before(mem, i, x, y, r, 8, p) <==> draw_hits_before(mem, i, x, y, r + 1, 0, p),
{
    if draw_hits_before(mem, i, x, y, r, 8, p) {
        let (row, col): (int, int) = choose|row: int, col: int|
            0 <= row && 0 <= col < 8 && (row < r || (row == r && col < 8)) && #[trigger] sprite_bit(
                mem,
                i,
                row,
                col,
            ) && p == pixel_index(x, y, row, col);
        assert(row < r + 1);
        assert(draw_hits_before(mem, i, x, y, r + 1, 0, p));
    }
    if draw_hits_before(mem, i, x, y, r + 1, 0, p) {
        let (row, col): (int, int) = choose|row: int, col: int|
            0 <= row && 0 <= col < 8 && (row < r + 1 || (row == r + 1 && col < 0))
                && #[trigger] sprite_bit(mem, i, row, col) && p == pixel_index(x, y, row, col);
        assert(row < r || (row == r && col < 8));
        assert(draw_hits_before(mem, i, x, y, r, 8, p));
    }
}

/// Processing one more sprite bit adds exactly that bit's cell (when the bit
/// is set) to the hit set.
pub proof fn lemma_hits_before_step(
    mem: Seq<u8>,
    i: int,
    x: int,
    y: int,
    r: int,
    c: int,
    p: int,
)
    requires
        0 <= r,
        0 <= c < 8,
    ensures
        draw_hits_before(mem, i, x, y, r, c + 1, p) <==> (draw_hits_before(mem, i, x, y, r, c, p)
            || (sprite_bit(mem, i, r, c) && p == pixel_index(x, y, r, c))),
{
    if draw_hits_before(mem, i, x, y, r, c + 1, p) {
        let (row, col): (int, int) = choose|row: int, col: int|
            0 <= row && 0 <= col < 8 && (row < r || (row == r && col < c + 1))
                && #[trigger] sprite_bit(mem, i, row, col) && p == pixel_index(x, y, row, col);
        if !(row == r && col == c) {
            assert(row < r || (row == r && col < c));
            assert(draw_hits_before(mem, i, x, y, r, c, p));
        }
    }
    if draw_hits_before(mem, i, x, y, r, c, p) {
        let (row, col): (int, int) = choose|row: int, col: int|
            0 <= row && 0 <= col < 8 && (row < r || (row == r && col < c)) && #[trigger] sprite_bit(
                mem,
                i,
                row,
                col,
            ) && p == pixel_index(x, y, row, col);
        assert(draw_hits_before(mem, i, x, y, r, c + 1, p));
    }
    if sprite_bit(mem, i, r, c) && p == pixel_index(x, y, r, c) {
        assert(draw_hits_before(mem, i, x, y, r, c + 1, p));
    }
}

/// The whole draw's hit set is the partial set that has walked all `n` rows.
pub proof fn lemma_hits_before_full(
    mem: Seq<u8>,
    i: int,
    x: int,
    y: int,
    n: int,
    p: int,
)
    requires
        0 <= n,
    ensures
        draw_hits_before(mem, i, x, y, n, 0, p) <==> draw_hits(mem, i, x, y, n, p),
{
    if draw_hits_before(mem, i, x, y, n, 0, p) {
        let (row, col): (int, int) = choose|row: int, col: int|
            0 <= row && 0 <= col < 8 && (row < n || (row == n && col < 0)) && #[trigger] sprite_bit(
                mem,
                i,
                row,
                col,
            ) && p == pixel_index(x, y, row, col);
        assert(draw_hits(mem, i, x, y, n, p));
    }
    if draw_hits(mem, i, x, y, n, p) {
        let (row, col): (int, int) = choose|row: int, col: int|
            0 <= row < n && 0 <= col < 8 && #[trigger] sprite_bit(mem, i, row, col) && p
                == pixel_index(x, y, row, col);
        assert(draw_hits_before(mem, i, x, y, n, 0, p));
    }
}

/// The cell of the sprite bit about to be processed has not been hit by any
/// earlier bit of the same draw.
pub proof fn lemma_pixel_not_hit_before(
    mem: Seq<u8>,
    i: int,
    x: int,
    y: int,
    r: int,
    c: int,
)
    requires
        0 <= x,
        0 <= y,
        0 <= r < 16,
        0 <= c < 8,
    ensures
        !draw_hits_before(mem, i, x, y, r, c, pixel_index(x, y, r, c)),
{
    let p = pixel_index(x, y, r, c);
    if draw_hits_before(mem, i, x, y, r, c, p) {
        let (row, col): (int, int) = choose|row: int, col: int|
            0 <= row && 0 <= col < 8 && (row < r || (row == r && col < c)) && #[trigger] sprite_bit(
                mem,
                i,
                row,
                col,
            ) && p == pixel_index(x, y, row, col);
        assert(row < 16);
        lemma_pixel_index_injective(x, y, row, col, r, c);
        assert(false);
    }
}

/// Processing one more sprite bit reports a collision exactly when one was
/// already reported or the new bit lands on a lit cell.
pub proof fn lemma_collision_before_step(
    disp: Seq<usize>,
    mem: Seq<u8>,
    i: int,
    x: int,
    y: int,
    r: int,
    c: int,
)
    requires
        0 <= x,
        0 <= y,
        0 <= r,
        0 <= c < 8,
        disp.len() == 2048,
    ensures
        draw_collision_before(disp, mem, i, x, y, r, c + 1) <==> (draw_collision_before(
            disp,
            mem,
            i,
            x,
            y,
            r,
            c,
        ) || (sprite_bit(mem, i, r, c) && disp[pixel_index(x, y, r, c)] == 1)),
{
    let p0 = pixel_index(x, y, r, c);
    lemma_pixel_index_bounds(x, y, r, c);
    if draw_collision_before(disp, mem, i, x, y, r, c + 1) {
        let p = choose|p: int|
            0 <= p < disp.len() && #[trigger] draw_hits_before(mem, i, x, y, r, c + 1, p)
                && disp[p] == 1;
        lemma_hits_before_step(mem, i, x, y, r, c, p);
        if draw_hits_before(mem, i, x, y, r, c, p) {
            assert(draw_collision_before(disp, mem, i, x, y, r, c));
        } else {
            assert(p == p0 && sprite_bit(mem, i, r, c));
        }
    }
    if draw_collision_before(disp, mem, i, x, y, r, c) {
        let p = choose|p: int|
            0 <= p < disp.len() && #[trigger] draw_hits_before(mem, i, x, y, r, c, p) && disp[p]
                == 1;
        lemma_hits_before_step(mem, i, x, y, r, c, p);
        assert(draw_hits_before(mem, i, x, y, r, c + 1, p));
        assert(draw_collision_before(disp, mem, i, x, y, r, c + 1));
    }
    if sprite_bit(mem, i, r, c) && disp[p0] == 1 {
        lemma_hits_before_step(mem, i, x, y, r, c, p0);
        assert(draw_hits_before(mem, i, x, y, r, c + 1, p0));
        assert(draw_collision_before(disp, mem, i, x, y, r, c + 1));
    }
}

/// Collision state carries over from the end of a row to the start of the
/// next.
pub proof fn lemma_collision_before_row_wrap(
    disp: Seq<usize>,
    mem: Seq<u8>,
    i: int,
    x: int,
    y: int,
    r: int,
)
    requires
        0 <= r,
    ensures
        draw_collision_before(disp, mem, i, x, y, r, 8) <==> draw_collision_before(
            disp,
            mem,
            i,
            x,
            y,
            r + 1,
            0,
        ),
{
    if draw_collision_before(disp, mem, i, x, y, r, 8) {
        let p = choose|p: int|
            0 <= p < disp.len() && #[trigger] draw_hits_before(mem, i, x, y, r, 8, p) && disp[p]
                == 1;
        lemma_hits_before_row_wrap(mem, i, x, y, r, p);
        assert(draw_collision_before(disp, mem, i, x, y, r + 1, 0));
    }
    if draw_collision_before(disp, mem, i, x, y, r + 1, 0) {
        let p = choose|p: int|
            0 <= p < disp.len() && #[trigger] draw_hits_before(mem, i, x, y, r + 1, 0, p) && disp[p]
                == 1;
        lemma_hits_before_row_wrap(mem, i, x, y, r, p);
        assert(draw_collision_before(disp, mem, i, x, y, r, 8));
    }
}

/// The collision of the whole draw is the collision of the partial walk
/// that has covered all `n` rows.
pub proof fn lemma_collision_before_full(
    disp: Seq<usize>,
    mem: Seq<u8>,
    i: int,
    x: int,
    y: int,
    n: int,
)
    requires
        0 <= n,
    ensures
        draw_collision_before(disp, mem, i, x, y, n, 0) <==> draw_collision(disp, mem, i, x, y, n),
{
    if draw_collision_before(disp, mem, i, x, y, n, 0) {
        let p = choose|p: int|
            0 <= p < disp.len() && #[trigger] draw_hits_before(mem, i, x, y, n, 0, p) && disp[p]
                == 1;
        lemma_hits_before_full(mem, i, x, y, n, p);
        assert(draw_collision(disp, mem, i, x, y, n));
    }
    if draw_collision(disp, mem, i, x, y, n) {
        let p = choose|p: int|
            0 <= p < disp.len() && #[trigger] draw_hits(mem, i, x, y, n, p) && disp[p] == 1;
        lemma_hits_before_full(mem, i, x, y, n, p);
        assert(draw_collision_before(disp, mem, i, x, y, n, 0));
    }
}

/// The machine as it is at construction: the font in low memory, the program
/// image from 0x200 up, everything else zeroed, the program counter at the
/// start of the program.
pub open spec fn initial_memory(data: Seq<u8>) -> Seq<u8> {
    Seq::new(
        4096,
        |j: int|
            if j < 80 {
                spec_font()[j]
            } else if j < 0x200 {
                0u8
            } else {
                data[j - 0x200]
            },
    )
}

/// The whole initial state for a program image and the two configuration
/// switches.
pub open spec fn initial_view(
    data: Seq<u8>,
    saving_increases_reg_i: bool,
    shift_vy_not_vx: bool,
) -> MachineView {
    MachineView {
        memory: initial_memory(data),
        pc: 0x200,
        regs: Seq::new(16, |i: int| 0u8),
        reg_i: 0,
        delay_timer: 0,
        sound_timer: 0,
        stack: Seq::new(16, |i: int| 0usize),
        sp: 0,
        display: blank_display(),
        keys: Seq::new(16, |i: int| false),
        awaiting_keypress: false,
        awaiting_target: 0,
        saving_increases_reg_i: saving_increases_reg_i,
        shift_vy_not_vx: shift_vy_not_vx,
    }
}

} // verus!
