//! The machine state and the interpreter engine. `Chip8` owns all mutable
//! state of the virtual machine; `cycle` executes one instruction against it
//! and `tick` advances the two timers. Every operation is proved to follow
//! the abstract [`crate::step::step`] function.

use vstd::prelude::*;
use crate::arith::{add_get_carry, bool_to_u8, sub_get_borrow};
use crate::decode::{decode, Instr};
use crate::font::{font_data, spec_font};
use crate::rng::RandomBytes;
use crate::step::{
    blank_display, bump_pc, display_after_draw, draw_collision, draw_collision_before,
    draw_hits_before, first_pressed, initial_memory, initial_view, lemma_collision_before_full,
    lemma_collision_before_row_wrap, lemma_collision_before_step, lemma_hits_before_full,
    lemma_hits_before_row_wrap, lemma_hits_before_step, lemma_pixel_index_bounds,
    lemma_pixel_not_hit_before, pixel_index, skip_pc, sprite_bit, step, target_diag,
    tick_timer, wait_step, with_reg, CycleDiag, Fault, MachineView,
};

verus! {

/// Immutable configuration chosen at construction time: two independent
/// switches, each selecting between two historically divergent behaviors.
pub struct Chip8Options {
    /// The register save/restore opcodes also advance the index register
    /// past the copied range.
    pub saving_increases_reg_i: bool,
    /// The shift opcodes read Vy instead of Vx.
    pub shift_vy_not_vx: bool,
}

/// The virtual machine: registers, memory, program counter, call stack,
/// timers, display buffer and pending-input state, owned exclusively and
/// mutated in place by [`Chip8::cycle`] and [`Chip8::tick`].
pub struct Chip8 {
    /// The 4096-byte address space; the font sits below 0x200, the program
    /// image from 0x200 up.
    pub memory: Vec<u8>,
    /// The program counter.
    pub reg_pc: usize,
    /// The 16 one-byte general registers V0..VF. VF doubles as the
    /// carry/borrow/collision flag.
    pub regs_v: Vec<u8>,
    /// The address register for memory-relative operations.
    pub reg_i: usize,
    /// Decremented toward zero once per `tick`.
    pub delay_timer: u8,
    /// Decremented toward zero once per `tick`.
    pub sound_timer: u8,
    /// The 16 call-stack slots; only the first `stack_pointer` are live.
    pub stack: Vec<usize>,
    /// The call-stack depth, between 0 and 16.
    pub stack_pointer: usize,
    /// The 64x32 display, row-major: the pixel at column `c` of row `r` is
    /// entry `r * 64 + c`, and holds 0 or 1.
    pub display: Vec<usize>,
    /// The entropy source for the random-mask opcode.
    pub rng: RandomBytes,
    /// The 16 key-down flags, written by the input collaborator.
    pub keys: Vec<bool>,
    /// True while execution is paused waiting for a key press.
    pub awaiting_keypress: bool,
    /// The register that receives the key index once one is pressed.
    pub register_awaiting_keypress: usize,
    options: Chip8Options,
}

impl View for Chip8 {
    type V = MachineView;

    closed spec fn view(&self) -> MachineView {
        MachineView {
            memory: self.memory@,
            pc: self.reg_pc,
            regs: self.regs_v@,
            reg_i: self.reg_i,
            delay_timer: self.delay_timer,
            sound_timer: self.sound_timer,
            stack: self.stack@,
            sp: self.stack_pointer,
            display: self.display@,
            keys: self.keys@,
            awaiting_keypress: self.awaiting_keypress,
            awaiting_target: self.register_awaiting_keypress,
            saving_increases_reg_i: self.options.saving_increases_reg_i,
            shift_vy_not_vx: self.options.shift_vy_not_vx,
        }
    }
}

/// A vector of `n` copies of `val`.
fn filled<T: Copy>(n: usize, val: T) -> (r: Vec<T>)
    ensures
        r@ == Seq::new(n as nat, |i: int| val),
{
    let mut r: Vec<T> = Vec::new();
    let mut i: usize = 0;
    while i < n
        invariant
            i <= n,
            r@.len() == i,
            forall|j: int| 0 <= j < i ==> r@[j] == val,
        decreases n - i,
    {
        r.push(val);
        i = i + 1;
    }
    proof {
        assert(r@ =~= Seq::new(n as nat, |i: int| val));
    }
    r
}

impl Chip8 {
    /// Structural well-formedness of the machine (see
    /// [`MachineView::wf`]). Constructors establish it and every operation
    /// preserves it.
    pub open spec fn wf(&self) -> bool {
        self@.wf()
    }

    /// Build a machine from a 3584-byte program image and a configuration:
    /// the font goes to the bottom of memory, the image to 0x200..0x1000,
    /// and everything else starts at zero, with the program counter at
    /// 0x200.
    pub fn new(data: [u8; 3584], options: Chip8Options) -> (r: Chip8)
        ensures
            r.wf(),
            r@ == initial_view(data@, options.saving_increases_reg_i, options.shift_vy_not_vx),
    {
        let font: Vec<u8> = font_data();
        let mut memory: Vec<u8> = Vec::new();
        let mut i: usize = 0;
        while i < 80
            invariant
                i <= 80,
                font@ == spec_font(),
                memory@.len() == i,
                forall|j: int| 0 <= j < i ==> memory@[j] == spec_font()[j],
            decreases 80 - i,
        {
            memory.push(font[i]);
            i = i + 1;
        }
        while i < 0x200
            invariant
                80 <= i <= 0x200,
                memory@.len() == i,
                forall|j: int| 0 <= j < 80 ==> memory@[j] == spec_font()[j],
                forall|j: int| 80 <= j < i ==> memory@[j] == 0u8,
            decreases 0x200 - i,
        {
            memory.push(0u8);
            i = i + 1;
        }
        while i < 0x1000
            invariant
                0x200 <= i <= 0x1000,
                memory@.len() == i,
                forall|j: int| 0 <= j < 80 ==> memory@[j] == spec_font()[j],
                forall|j: int| 80 <= j < 0x200 ==> memory@[j] == 0u8,
                forall|j: int| 0x200 <= j < i ==> memory@[j] == data@[j - 0x200],
            decreases 0x1000 - i,
        {
            memory.push(data[i - 0x200]);
            i = i + 1;
        }
        proof {
            assert(memory@ =~= initial_memory(data@));
        }
        let r = Chip8 {
            memory: memory,
            reg_pc: 0x200,
            regs_v: filled(16, 0u8),
            reg_i: 0,
            delay_timer: 0,
            sound_timer: 0,
            stack: filled(16, 0usize),
            stack_pointer: 0,
            display: filled(2048, 0usize),
            rng: RandomBytes::new(),
            keys: filled(16, false),
            awaiting_keypress: false,
            register_awaiting_keypress: 0,
            options: options,
        };
        proof {
            assert(r@.display =~= blank_display());
            assert(r@ =~= initial_view(
                data@,
                options.saving_increases_reg_i,
                options.shift_vy_not_vx,
            ));
        }
        r
    }

    /// One timer tick: each of the two timers goes down by one, never below
    /// zero; nothing else changes. The frame driver calls this once per
    /// frame.
    pub fn tick(&mut self)
        ensures
            final(self)@ == (MachineView {
                delay_timer: tick_timer(old(self)@.delay_timer),
                sound_timer: tick_timer(old(self)@.sound_timer),
                ..old(self)@
            }),
    {
        if self.delay_timer > 0 {
            self.delay_timer = self.delay_timer - 1;
        }
        if self.sound_timer > 0 {
            self.sound_timer = self.sound_timer - 1;
        }
    }

    /// The value of register `n`.
    fn reg(&self, n: u8) -> (r: u8)
        requires
            self.wf(),
            n < 16,
        ensures
            r == self@.regs[n as int],
    {
        self.regs_v[n as usize]
    }

    /// Set register `n` to `v`.
    fn reg_set(&mut self, n: u8, v: u8)
        requires
            old(self).wf(),
            n < 16,
        ensures
            final(self)@ == with_reg(old(self)@, n as int, v),
    {
        self.regs_v.set(n as usize, v);
    }

    /// Add `v` into register `n` with 8-bit wraparound and no flag effect.
    fn reg_add_noflag(&mut self, n: u8, v: u8)
        requires
            old(self).wf(),
            n < 16,
        ensures
            final(self)@ == with_reg(
                old(self)@,
                n as int,
                crate::arith::spec_add_carry(old(self)@.regs[n as int], v).0,
            ),
    {
        let sum = add_get_carry(self.regs_v[n as usize], v);
        self.regs_v.set(n as usize, sum.0);
    }

    /// Set the flag register VF to `v`.
    fn set_flag(&mut self, v: u8)
        requires
            old(self).wf(),
        ensures
            final(self)@ == with_reg(old(self)@, 15, v),
    {
        self.regs_v.set(15, v);
    }

    /// Add two bytes, store the carry in VF, and return the wrapped sum.
    fn add_with_flag(&mut self, a: u8, b: u8) -> (r: u8)
        requires
            old(self).wf(),
        ensures
            final(self)@ == with_reg(old(self)@, 15, crate::arith::spec_add_carry(a, b).1),
            r == crate::arith::spec_add_carry(a, b).0,
    {
        let sum = add_get_carry(a, b);
        self.set_flag(sum.1);
        sum.0
    }

    /// Subtract `b` from `a`, store the inverted borrow in VF (1 when no
    /// borrow occurred), and return the wrapped difference.
    fn sub_with_flag(&mut self, a: u8, b: u8) -> (r: u8)
        requires
            old(self).wf(),
        ensures
            final(self)@ == with_reg(old(self)@, 15, if a >= b { 1u8 } else { 0u8 }),
            r == crate::arith::spec_sub_borrow(a, b).0,
    {
        let diff = sub_get_borrow(a, b);
        let no_borrow: u8 = diff.1 ^ 1;
        proof {
            assert(0u8 ^ 1 == 1 && 1u8 ^ 1 == 0) by (bit_vector);
        }
        self.set_flag(no_borrow);
        diff.0
    }

    /// Erase the whole display.
    fn clear_display(&mut self)
        ensures
            final(self)@ == (MachineView { display: blank_display(), ..old(self)@ }),
    {
        self.display = filled(2048, 0usize);
        proof {
            assert(self@ =~= (MachineView { display: blank_display(), ..old(self)@ }));
        }
    }

    /// Jump to `addr`, reporting (but not blocking) a target inside the
    /// reserved region below 0x200.
    fn jump_addr(&mut self, addr: u16) -> (d: CycleDiag)
        ensures
            final(self)@ == (MachineView { pc: addr as usize, ..old(self)@ }),
            d == target_diag(addr),
    {
        self.reg_pc = addr as usize;
        if addr < 0x200 {
            CycleDiag::LowTarget(addr)
        } else {
            CycleDiag::Normal
        }
    }

    /// Push the return address and jump to `addr`; a push onto a full stack
    /// is the fatal overflow fault and leaves the machine unchanged.
    fn call_subroutine(&mut self, addr: u16) -> (r: Result<CycleDiag, Fault>)
        requires
            old(self).wf(),
            old(self)@.pc <= 4094,
        ensures
            old(self)@.sp >= 16 ==> r == Err::<CycleDiag, Fault>(Fault::StackOverflow)
                && final(self)@ == old(self)@,
            old(self)@.sp < 16 ==> r == Ok::<CycleDiag, Fault>(target_diag(addr)) && final(self)@
                == (MachineView {
                stack: old(self)@.stack.update(old(self)@.sp as int, (old(self)@.pc + 2) as usize),
                sp: (old(self)@.sp + 1) as usize,
                pc: addr as usize,
                ..old(self)@
            }),
    {
        if self.stack_pointer >= 16 {
            return Err(Fault::StackOverflow);
        }
        self.stack.set(self.stack_pointer, self.reg_pc + 2);
        self.stack_pointer = self.stack_pointer + 1;
        let d = self.jump_addr(addr);
        Ok(d)
    }

    /// Pop the call stack into the program counter; a pop from an empty
    /// stack is the fatal underflow fault and leaves the machine unchanged.
    fn ret_subroutine(&mut self) -> (r: Result<CycleDiag, Fault>)
        requires
            old(self).wf(),
        ensures
            old(self)@.sp == 0 ==> r == Err::<CycleDiag, Fault>(Fault::StackUnderflow)
                && final(self)@ == old(self)@,
            old(self)@.sp > 0 ==> r == Ok::<CycleDiag, Fault>(CycleDiag::Normal) && final(self)@
                == (MachineView {
                sp: (old(self)@.sp - 1) as usize,
                pc: old(self)@.stack[old(self)@.sp - 1],
                ..old(self)@
            }),
    {
        if self.stack_pointer == 0 {
            return Err(Fault::StackUnderflow);
        }
        self.stack_pointer = self.stack_pointer - 1;
        self.reg_pc = self.stack[self.stack_pointer];
        Ok(CycleDiag::Normal)
    }

    /// Advance the program counter by 4 (skipping the next instruction) when
    /// `cond` holds, else by 2.
    fn skip_next(&mut self, cond: bool)
        requires
            old(self)@.pc <= 4094,
        ensures
            final(self)@ == skip_pc(old(self)@, cond),
    {
        if cond {
            self.reg_pc = self.reg_pc + 4;
        } else {
            self.reg_pc = self.reg_pc + 2;
        }
    }

    /// While waiting for a key: scan the 16 key flags in ascending order; on
    /// the first one set, store its index in the recorded register and end
    /// the wait. With no key down, change nothing. (The scan tests "key
    /// currently held", not a press edge: a key already held when the wait
    /// begins satisfies it at once.)
    fn resolve_keypress(&mut self)
        requires
            old(self).wf(),
        ensures
            final(self)@ == wait_step(old(self)@),
            final(self).wf(),
    {
        let ghost pre = self@;
        let mut i: usize = 0;
        while i < 16
            invariant
                pre.wf(),
                pre == old(self)@,
                self@ == pre,
                i <= 16,
                first_pressed(pre.keys, 0) == first_pressed(pre.keys, i as int),
            decreases 16 - i,
        {
            if self.keys[i] {
                proof {
                    assert(first_pressed(pre.keys, i as int) == i);
                }
                self.awaiting_keypress = false;
                let t: usize = self.register_awaiting_keypress;
                self.regs_v.set(t, i as u8);
                proof {
                    assert(self@ =~= wait_step(pre));
                }
                return ;
            }
            proof {
                assert(first_pressed(pre.keys, i as int) == first_pressed(pre.keys, i + 1));
            }
            i = i + 1;
        }
        proof {
            assert(first_pressed(pre.keys, 0) == 16);
            assert(self@ =~= wait_step(pre));
        }
    }

    /// Draw an `height`-row sprite read from memory at the index register,
    /// at screen coordinates (`x`, `y`): each set sprite bit toggles the
    /// display cell it lands on, wrapping around both grid edges, and VF
    /// reports whether some lit cell was erased. A sprite that would be read
    /// from past the end of memory is the fatal memory fault and leaves the
    /// machine unchanged.
    fn draw_sprite(&mut self, x: u8, y: u8, height: u8) -> (r: Result<(), Fault>)
        requires
            old(self).wf(),
            height < 16,
        ensures
            final(self).wf(),
            height > 0 && old(self)@.reg_i + height > 4096 ==> r == Err::<(), Fault>(
                Fault::MemoryOutOfBounds,
            ) && final(self)@ == old(self)@,
            !(height > 0 && old(self)@.reg_i + height > 4096) ==> r == Ok::<(), Fault>(())
                && final(self)@ == with_reg(
                (MachineView {
                    display: display_after_draw(
                        old(self)@.display,
                        old(self)@.memory,
                        old(self)@.reg_i as int,
                        x as int,
                        y as int,
                        height as int,
                    ),
                    ..old(self)@
                }),
                15,
                if draw_collision(
                    old(self)@.display,
                    old(self)@.memory,
                    old(self)@.reg_i as int,
                    x as int,
                    y as int,
                    height as int,
                ) {
                    1u8
                } else {
                    0u8
                },
            ),
    {
        if height > 0 && self.reg_i > 4096 - (height as usize) {
            return Err(Fault::MemoryOutOfBounds);
        }
        let ghost pre = self@;
        let mut erased: bool = false;
        let mut src_y: usize = 0;
        while src_y < height as usize
            invariant
                pre.wf(),
                height < 16,
                src_y <= height as usize,
                height > 0 ==> pre.reg_i + height <= 4096,
                (MachineView { display: pre.display, ..self@ }) == pre,
                self.display@.len() == 2048,
                forall|p: int|
                    0 <= p < 2048 ==> self.display@[p] == (if draw_hits_before(
                        pre.memory,
                        pre.reg_i as int,
                        x as int,
                        y as int,
                        src_y as int,
                        0,
                        p,
                    ) {
                        (1 - pre.display[p]) as usize
                    } else {
                        pre.display[p]
                    }),
                erased == draw_collision_before(
                    pre.display,
                    pre.memory,
                    pre.reg_i as int,
                    x as int,
                    y as int,
                    src_y as int,
                    0,
                ),
            decreases height as usize - src_y,
        {
            let row_byte: u8 = self.memory[self.reg_i + src_y];
            let mut src_x: usize = 0;
            while src_x < 8
                invariant
                    pre.wf(),
                    height < 16,
                    src_y < height as usize,
                    src_x <= 8,
                    pre.reg_i + height <= 4096,
                    (MachineView { display: pre.display, ..self@ }) == pre,
                    self.display@.len() == 2048,
                    row_byte == pre.memory[pre.reg_i + src_y],
                    forall|p: int|
                        0 <= p < 2048 ==> self.display@[p] == (if draw_hits_before(
                            pre.memory,
                            pre.reg_i as int,
                            x as int,
                            y as int,
                            src_y as int,
                            src_x as int,
                            p,
                        ) {
                            (1 - pre.display[p]) as usize
                        } else {
                            pre.display[p]
                        }),
                    erased == draw_collision_before(
                        pre.display,
                        pre.memory,
                        pre.reg_i as int,
                        x as int,
                        y as int,
                        src_y as int,
                        src_x as int,
                    ),
                decreases 8 - src_x,
            {
                let ghost ri = pre.reg_i as int;
                let ghost xi = x as int;
                let ghost yi = y as int;
                let ghost ry = src_y as int;
                let ghost cx = src_x as int;
                let shift: u8 = (7 - src_x) as u8;
                let is_set: bool = ((row_byte >> shift) & 1) == 1;
                proof {
                    assert(is_set == sprite_bit(pre.memory, ri, ry, cx));
                }
                if is_set {
                    let disp_y: usize = ((y as usize) + src_y) % 32;
                    let disp_x: usize = ((x as usize) + src_x) % 64;
                    let p0: usize = disp_y * 64 + disp_x;
                    proof {
                        lemma_pixel_index_bounds(xi, yi, ry, cx);
                        assert(p0 == pixel_index(xi, yi, ry, cx));
                        lemma_pixel_not_hit_before(pre.memory, ri, xi, yi, ry, cx);
                        assert(self.display@[p0 as int] == pre.display[p0 as int]);
                        assert(pre.display[p0 as int] == 0 || pre.display[p0 as int] == 1);
                    }
                    let cur: usize = self.display[p0];
                    let ghost disp_before = self.display@;
                    let ghost erased_before = erased;
                    if cur == 1 {
                        erased = true;
                        self.display.set(p0, 0);
                    } else {
                        self.display.set(p0, 1);
                    }
                    proof {
                        assert forall|p: int| 0 <= p < 2048 implies self.display@[p] == (
                        if draw_hits_before(pre.memory, ri, xi, yi, ry, cx + 1, p) {
                            (1 - pre.display[p]) as usize
                        } else {
                            pre.display[p]
                        }) by {
                            lemma_hits_before_step(pre.memory, ri, xi, yi, ry, cx, p);
                        }
                        lemma_collision_before_step(pre.display, pre.memory, ri, xi, yi, ry, cx);
                        assert(erased == draw_collision_before(
                            pre.display,
                            pre.memory,
                            ri,
                            xi,
                            yi,
                            ry,
                            cx + 1,
                        ));
                    }
                } else {
                    proof {
                        assert forall|p: int| 0 <= p < 2048 implies self.display@[p] == (
                        if draw_hits_before(pre.memory, ri, xi, yi, ry, cx + 1, p) {
                            (1 - pre.display[p]) as usize
                        } else {
                            pre.display[p]
                        }) by {
                            lemma_hits_before_step(pre.memory, ri, xi, yi, ry, cx, p);
                        }
                        lemma_collision_before_step(pre.display, pre.memory, ri, xi, yi, ry, cx);
                        assert(erased == draw_collision_before(
                            pre.display,
                            pre.memory,
                            ri,
                            xi,
                            yi,
                            ry,
                            cx + 1,
                        ));
                    }
                }
                src_x = src_x + 1;
            }
            proof {
                let ri = pre.reg_i as int;
                let xi = x as int;
                let yi = y as int;
                let ry = src_y as int;
                assert forall|p: int| 0 <= p < 2048 implies self.display@[p] == (
                if draw_hits_before(pre.memory, ri, xi, yi, ry + 1, 0, p) {
                    (1 - pre.display[p]) as usize
                } else {
                    pre.display[p]
                }) by {
                    lemma_hits_before_row_wrap(pre.memory, ri, xi, yi, ry, p);
                }
                lemma_collision_before_row_wrap(pre.display, pre.memory, ri, xi, yi, ry);
            }
            src_y = src_y + 1;
        }
        proof {
            let ri = pre.reg_i as int;
            let xi = x as int;
            let yi = y as int;
            let n = height as int;
            assert forall|p: int| 0 <= p < 2048 implies self.display@[p] == (
            if crate::step::draw_hits(pre.memory, ri, xi, yi, n, p) {
                (1 - pre.display[p]) as usize
            } else {
                pre.display[p]
            }) by {
                lemma_hits_before_full(pre.memory, ri, xi, yi, n, p);
            }
            lemma_collision_before_full(pre.display, pre.memory, ri, xi, yi, n);
            assert(self.display@ =~= display_after_draw(pre.display, pre.memory, ri, xi, yi, n));
            assert(erased == draw_collision(pre.display, pre.memory, ri, xi, yi, n));
            assert(self@ =~= (MachineView {
                display: display_after_draw(pre.display, pre.memory, ri, xi, yi, n),
                ..pre
            }));
        }
        let flag: u8 = bool_to_u8(erased);
        self.set_flag(flag);
        Ok(())
    }

    /// Copy registers V0..=Vx into memory starting at the index register,
    /// advancing the index register past the range when the compatibility
    /// switch asks for it. A copy that would run past the end of memory is
    /// the fatal memory fault and leaves the machine unchanged.
    fn save_regs(&mut self, x: u8) -> (r: Result<CycleDiag, Fault>)
        requires
            old(self).wf(),
            x < 16,
            old(self)@.pc <= 4094,
        ensures
            final(self).wf(),
            old(self)@.reg_i + x >= 4096 ==> r == Err::<CycleDiag, Fault>(Fault::MemoryOutOfBounds)
                && final(self)@ == old(self)@,
            old(self)@.reg_i + x < 4096 ==> r == Ok::<CycleDiag, Fault>(CycleDiag::Normal)
                && final(self)@ == bump_pc(
                (MachineView {
                    memory: crate::step::mem_with_saved_regs(
                        old(self)@.memory,
                        old(self)@.regs,
                        old(self)@.reg_i as int,
                        x as int,
                    ),
                    reg_i: if old(self)@.saving_increases_reg_i {
                        old(self)@.reg_i.wrapping_add((x + 1) as usize)
                    } else {
                        old(self)@.reg_i
                    },
                    ..old(self)@
                }),
                2,
            ),
    {
        if self.reg_i > 4095 - (x as usize) {
            return Err(Fault::MemoryOutOfBounds);
        }
        let ghost pre = self@;
        let mut k: usize = 0;
        while k < (x as usize) + 1
            invariant
                pre.wf(),
                pre == old(self)@,
                x < 16,
                k <= x as usize + 1,
                pre.reg_i + x < 4096,
                (MachineView { memory: pre.memory, ..self@ }) == pre,
                self.memory@.len() == 4096,
                forall|j: int|
                    0 <= j < 4096 ==> self.memory@[j] == (if pre.reg_i <= j < pre.reg_i + k {
                        pre.regs[j - pre.reg_i]
                    } else {
                        pre.memory[j]
                    }),
            decreases x as usize + 1 - k,
        {
            let v: u8 = self.regs_v[k];
            self.memory.set(self.reg_i + k, v);
            k = k + 1;
        }
        proof {
            assert(self.memory@ =~= crate::step::mem_with_saved_regs(
                pre.memory,
                pre.regs,
                pre.reg_i as int,
                x as int,
            ));
        }
        if self.options.saving_increases_reg_i {
            self.reg_i = self.reg_i.wrapping_add((x as usize) + 1);
        }
        self.reg_pc = self.reg_pc + 2;
        Ok(CycleDiag::Normal)
    }

    /// Copy memory starting at the index register into registers V0..=Vx,
    /// advancing the index register past the range when the compatibility
    /// switch asks for it. A copy that would read past the end of memory is
    /// the fatal memory fault and leaves the machine unchanged.
    fn load_regs(&mut self, x: u8) -> (r: Result<CycleDiag, Fault>)
        requires
            old(self).wf(),
            x < 16,
            old(self)@.pc <= 4094,
        ensures
            final(self).wf(),
            old(self)@.reg_i + x >= 4096 ==> r == Err::<CycleDiag, Fault>(Fault::MemoryOutOfBounds)
                && final(self)@ == old(self)@,
            old(self)@.reg_i + x < 4096 ==> r == Ok::<CycleDiag, Fault>(CycleDiag::Normal)
                && final(self)@ == bump_pc(
                (MachineView {
                    regs: crate::step::regs_loaded_from_mem(
                        old(self)@.regs,
                        old(self)@.memory,
                        old(self)@.reg_i as int,
                        x as int,
                    ),
                    reg_i: if old(self)@.saving_increases_reg_i {
                        old(self)@.reg_i.wrapping_add((x + 1) as usize)
                    } else {
                        old(self)@.reg_i
                    },
                    ..old(self)@
                }),
                2,
            ),
    {
        if self.reg_i > 4095 - (x as usize) {
            return Err(Fault::MemoryOutOfBounds);
        }
        let ghost pre = self@;
        let mut k: usize = 0;
        while k < (x as usize) + 1
            invariant
                pre.wf(),
                pre == old(self)@,
                x < 16,
                k <= x as usize + 1,
                pre.reg_i + x < 4096,
                (MachineView { regs: pre.regs, ..self@ }) == pre,
                self.regs_v@.len() == 16,
                forall|j: int|
                    0 <= j < 16 ==> self.regs_v@[j] == (if j < k {
                        pre.memory[pre.reg_i + j]
                    } else {
                        pre.regs[j]
                    }),
            decreases x as usize + 1 - k,
        {
            let v: u8 = self.memory[self.reg_i + k];
            self.regs_v.set(k, v);
            k = k + 1;
        }
        proof {
            assert(self.regs_v@ =~= crate::step::regs_loaded_from_mem(
                pre.regs,
                pre.memory,
                pre.reg_i as int,
                x as int,
            ));
        }
        if self.options.saving_increases_reg_i {
            self.reg_i = self.reg_i.wrapping_add((x as usize) + 1);
        }
        self.reg_pc = self.reg_pc + 2;
        Ok(CycleDiag::Normal)
    }

    /// Execute one instruction cycle with `rnd` standing in for the byte the
    /// entropy source would supply: the cycle is then a function of the
    /// machine state and `rnd` alone, and follows [`step`] exactly, for
    /// every value of `rnd`. Only the random-mask opcode reads `rnd`.
    #[verifier::rlimit(50)]
    pub fn cycle_with_random(&mut self, rnd: u8) -> (r: Result<CycleDiag, Fault>)
        requires
            old(self).wf(),
        ensures
            final(self).wf(),
            (final(self)@, r) == step(old(self)@, rnd),
    {
        if self.awaiting_keypress {
            self.resolve_keypress();
            return Ok(CycleDiag::Normal);
        }
        if self.reg_pc >= 4095 {
            return Err(Fault::ProgramCounterOutOfBounds);
        }
        let b1: u8 = self.memory[self.reg_pc];
        let b2: u8 = self.memory[self.reg_pc + 1];
        let instr = decode(b1, b2);
        match instr {
            Instr::ClearScreen => {
                self.clear_display();
                self.reg_pc = self.reg_pc + 2;
                Ok(CycleDiag::Normal)
            },
            Instr::Return => self.ret_subroutine(),
            Instr::Jump(nnn) => {
                let d = self.jump_addr(nnn);
                Ok(d)
            },
            Instr::Call(nnn) => self.call_subroutine(nnn),
            Instr::SkipEqImm(x, kk) => {
                let vx: u8 = self.reg(x);
                self.skip_next(vx == kk);
                Ok(CycleDiag::Normal)
            },
            Instr::SkipNeImm(x, kk) => {
                let vx: u8 = self.reg(x);
                self.skip_next(vx != kk);
                Ok(CycleDiag::Normal)
            },
            Instr::SkipEqReg(x, y) => {
                let vx: u8 = self.reg(x);
                let vy: u8 = self.reg(y);
                self.skip_next(vx == vy);
                Ok(CycleDiag::Normal)
            },
            Instr::SkipNeReg(x, y) => {
                let vx: u8 = self.reg(x);
                let vy: u8 = self.reg(y);
                self.skip_next(vx != vy);
                Ok(CycleDiag::Normal)
            },
            Instr::SetImm(x, kk) => {
                self.reg_set(x, kk);
                self.reg_pc = self.reg_pc + 2;
                Ok(CycleDiag::Normal)
            },
            Instr::AddImm(x, kk) => {
                self.reg_add_noflag(x, kk);
                self.reg_pc = self.reg_pc + 2;
                Ok(CycleDiag::Normal)
            },
            Instr::CopyReg(x, y) => {
                let vy: u8 = self.reg(y);
                self.reg_set(x, vy);
                self.reg_pc = self.reg_pc + 2;
                Ok(CycleDiag::Normal)
            },
            Instr::OrReg(x, y) => {
                let vx: u8 = self.reg(x);
                let vy: u8 = self.reg(y);
                self.reg_set(x, vx | vy);
                self.reg_pc = self.reg_pc + 2;
                Ok(CycleDiag::Normal)
            },
            Instr::AndReg(x, y) => {
                let vx: u8 = self.reg(x);
                let vy: u8 = self.reg(y);
                self.reg_set(x, vx & vy);
                self.reg_pc = self.reg_pc + 2;
                Ok(CycleDiag::Normal)
            },
            Instr::XorReg(x, y) => {
                let vx: u8 = self.reg(x);
                let vy: u8 = self.reg(y);
                self.reg_set(x, vx ^ vy);
                self.reg_pc = self.reg_pc + 2;
                Ok(CycleDiag::Normal)
            },
            Instr::AddReg(x, y) => {
                let vx: u8 = self.reg(x);
                let vy: u8 = self.reg(y);
                let sum: u8 = self.add_with_flag(vx, vy);
                self.reg_set(x, sum);
                self.reg_pc = self.reg_pc + 2;
                Ok(CycleDiag::Normal)
            },
            Instr::SubReg(x, y) => {
                let vx: u8 = self.reg(x);
                let vy: u8 = self.reg(y);
                let diff: u8 = self.sub_with_flag(vx, vy);
                self.reg_set(x, diff);
                self.reg_pc = self.reg_pc + 2;
                Ok(CycleDiag::Normal)
            },
            Instr::ShrReg(x, y) => {
                let vx: u8 = self.reg(x);
                let vy: u8 = self.reg(y);
                let op: u8 = if self.options.shift_vy_not_vx {
                    vy
                } else {
                    vx
                };
                self.set_flag(op & 1);
                self.reg_set(x, op >> 1);
                self.reg_pc = self.reg_pc + 2;
                Ok(CycleDiag::Normal)
            },
            Instr::SubFrom(x, y) => {
                let vx: u8 = self.reg(x);
                let vy: u8 = self.reg(y);
                let diff: u8 = self.sub_with_flag(vy, vx);
                self.reg_set(x, diff);
                self.reg_pc = self.reg_pc + 2;
                Ok(CycleDiag::Normal)
            },
            Instr::ShlReg(x, y) => {
                let vx: u8 = self.reg(x);
                let vy: u8 = self.reg(y);
                let op: u8 = if self.options.shift_vy_not_vx {
                    vy
                } else {
                    vx
                };
                self.set_flag(op >> 7);
                self.reg_set(x, op << 1);
                self.reg_pc = self.reg_pc + 2;
                Ok(CycleDiag::Normal)
            },
            Instr::SetIndex(nnn) => {
                self.reg_i = nnn as usize;
                self.reg_pc = self.reg_pc + 2;
                Ok(CycleDiag::Normal)
            },
            Instr::JumpPlus(nnn) => {
                let v0: u8 = self.reg(0);
                let t: u16 = nnn + (v0 as u16);
                let d = self.jump_addr(t);
                Ok(d)
            },
            Instr::RandomMask(x, kk) => {
                self.reg_set(x, rnd & kk);
                self.reg_pc = self.reg_pc + 2;
                Ok(CycleDiag::Normal)
            },
            Instr::Draw(x, y, n) => {
                let vx: u8 = self.reg(x);
                let vy: u8 = self.reg(y);
                match self.draw_sprite(vx, vy, n) {
                    Ok(_) => {
                        self.reg_pc = self.reg_pc + 2;
                        Ok(CycleDiag::Normal)
                    },
                    Err(f) => Err(f),
                }
            },
            Instr::SkipKey(x) => {
                let vx: u8 = self.reg(x);
                if vx >= 16 {
                    return Err(Fault::KeyOutOfRange);
                }
                let pressed: bool = self.keys[vx as usize];
                self.skip_next(pressed);
                Ok(CycleDiag::Normal)
            },
            Instr::SkipNoKey(x) => {
                let vx: u8 = self.reg(x);
                if vx >= 16 {
                    return Err(Fault::KeyOutOfRange);
                }
                let pressed: bool = self.keys[vx as usize];
                self.skip_next(!pressed);
                Ok(CycleDiag::Normal)
            },
            Instr::GetDelay(x) => {
                let d: u8 = self.delay_timer;
                self.reg_set(x, d);
                self.reg_pc = self.reg_pc + 2;
                Ok(CycleDiag::Normal)
            },
            Instr::WaitKey(x) => {
                self.awaiting_keypress = true;
                self.register_awaiting_keypress = x as usize;
                self.reg_pc = self.reg_pc + 2;
                Ok(CycleDiag::Normal)
            },
            Instr::SetDelay(x) => {
                let vx: u8 = self.reg(x);
                self.delay_timer = vx;
                self.reg_pc = self.reg_pc + 2;
                Ok(CycleDiag::Normal)
            },
            Instr::SetSound(x) => {
                let vx: u8 = self.reg(x);
                self.sound_timer = vx;
                self.reg_pc = self.reg_pc + 2;
                Ok(CycleDiag::Normal)
            },
            Instr::AddIndex(x) => {
                let vx: u8 = self.reg(x);
                self.reg_i = self.reg_i.wrapping_add(vx as usize);
                self.reg_pc = self.reg_pc + 2;
                Ok(CycleDiag::Normal)
            },
            Instr::FontChar(x) => {
                let vx: u8 = self.reg(x);
                let hex_char: u8 = vx & 0xF;
                proof {
                    assert(vx & 0xF < 16) by (bit_vector);
                }
                self.reg_i = (hex_char as usize) * 5;
                self.reg_pc = self.reg_pc + 2;
                Ok(CycleDiag::Normal)
            },
            Instr::StoreDigits(x) => {
                let vx: u8 = self.reg(x);
                if self.reg_i >= 4094 {
                    return Err(Fault::MemoryOutOfBounds);
                }
                self.memory.set(self.reg_i, vx / 100);
                self.memory.set(self.reg_i + 1, (vx / 10) % 10);
                self.memory.set(self.reg_i + 2, vx % 10);
                self.reg_pc = self.reg_pc + 2;
                Ok(CycleDiag::Normal)
            },
            Instr::SaveRegs(x) => self.save_regs(x),
            Instr::LoadRegs(x) => self.load_regs(x),
            Instr::Unknown(a, b) => {
                self.reg_pc = self.reg_pc + 2;
                Ok(CycleDiag::UnknownOpcode(a, b))
            },
        }
    }

    /// Execute one instruction cycle: while a key wait is pending only the
    /// key scan runs; otherwise one instruction is fetched at the program
    /// counter, decoded and executed. The random-mask opcode masks a byte
    /// drawn from the entropy source; since that byte is not a function of
    /// the machine state, the contract holds for whatever byte came back.
    pub fn cycle(&mut self) -> (r: Result<CycleDiag, Fault>)
        requires
            old(self).wf(),
        ensures
            final(self).wf(),
            exists|rnd: u8| (final(self)@, r) == #[trigger] step(old(self)@, rnd),
    {
        let rnd: u8 = self.rng.next();
        let r = self.cycle_with_random(rnd);
        proof {
            assert((self@, r) == step(old(self)@, rnd));
        }
        r
    }
}

} // verus!
