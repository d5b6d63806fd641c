//! The machine's laws: properties of the executor, the timers, and the
//! wait-for-key latch that hold of every state, stated and proved over the
//! spec-level model.

use vstd::prelude::*;

use crate::display::draw_collision;
use crate::instruction::{inst_wf, Instruction};
use crate::{
    cpu_wf, exec_ok, spec_cycle, spec_execute, spec_key_press, spec_tick, Chip8Error, CpuState,
};

verus! {

/// The skip opcodes: those that advance the program counter by two or four
/// bytes depending on a predicate.
pub open spec fn is_skip(inst: Instruction) -> bool {
    ||| inst is SkipIfEqualsByte
    ||| inst is SkipIfNotEqualsByte
    ||| inst is SkipIfEqual
    ||| inst is SkipIfNotEqual
    ||| inst is SkipIfPressed
    ||| inst is SkipIfNotPressed
}

/// The opcodes that choose their successor address themselves: jumps,
/// calls, returns, and the skips.
pub open spec fn is_control_transfer(inst: Instruction) -> bool {
    ||| inst is Jump
    ||| inst is Call
    ||| inst is Return
    ||| inst is JumpPlusZero
    ||| is_skip(inst)
}

/// Every opcode other than the jumps, calls, returns, skips, and
/// `JumpPlusZero` hands back exactly the next sequential address.
pub proof fn lemma_sequential_pc(s: CpuState, inst: Instruction, rnd: u8)
    requires
        cpu_wf(s),
        inst_wf(inst),
        exec_ok(s, inst),
        s.pc + 4 <= 0xFFFF,
        !is_control_transfer(inst),
    ensures
        spec_execute(s, inst, rnd).1 == s.pc + 2,
{
}

/// Every skip opcode hands back either the next sequential address or the
/// one after it.
pub proof fn lemma_skip_pc(s: CpuState, inst: Instruction, rnd: u8)
    requires
        cpu_wf(s),
        inst_wf(inst),
        exec_ok(s, inst),
        s.pc + 4 <= 0xFFFF,
        is_skip(inst),
    ensures
        spec_execute(s, inst, rnd).1 == s.pc + 2 || spec_execute(s, inst, rnd).1 == s.pc + 4,
{
}

/// `RET` pops exactly one frame.
pub proof fn lemma_return_pops(s: CpuState, rnd: u8)
    requires
        cpu_wf(s),
        exec_ok(s, Instruction::Return),
    ensures
        spec_execute(s, Instruction::Return, rnd).0.sp == s.sp - 1,
{
}

/// `CALL` pushes exactly one frame, and the slot it fills holds the
/// address of the `CALL` itself.
pub proof fn lemma_call_pushes(s: CpuState, addr: u16, rnd: u8)
    requires
        cpu_wf(s),
        exec_ok(s, Instruction::Call(addr)),
    ensures
        spec_execute(s, Instruction::Call(addr), rnd).0.sp == s.sp + 1,
        spec_execute(s, Instruction::Call(addr), rnd).0.stack[s.sp as int] == s.pc,
{
}

/// Round trip: `LD [I], VE` then `LD VE, [I]` restores every register,
/// including VF, and the store touches no memory outside `[I, I+15)`.
pub proof fn lemma_store_load_round_trip(s: CpuState, rnd: u8)
    requires
        cpu_wf(s),
        s.i_reg + 14 < 4096,
    ensures
        ({
            let s1 = spec_execute(s, Instruction::StoreRegisters(0xE), rnd).0;
            let s2 = spec_execute(s1, Instruction::LoadRegisters(0xE), rnd).0;
            &&& s2.regs == s.regs
            &&& s2.memory == s1.memory
            &&& forall|j: int|
                0 <= j < 4096 && !(s.i_reg <= j < s.i_reg + 15) ==> s1.memory[j] == s.memory[j]
        }),
{
    let s1 = spec_execute(s, Instruction::StoreRegisters(0xE), rnd).0;
    let s2 = spec_execute(s1, Instruction::LoadRegisters(0xE), rnd).0;
    assert(s2.regs =~= s.regs);
}

/// BCD: the three bytes written are decimal digits, and they weigh up to
/// exactly the register's value.
pub proof fn lemma_bcd_digits(s: CpuState, x: u8, rnd: u8)
    requires
        cpu_wf(s),
        x < 16,
        exec_ok(s, Instruction::BCDRepresentation(x)),
    ensures
        ({
            let m = spec_execute(s, Instruction::BCDRepresentation(x), rnd).0.memory;
            let v = s.regs[x as int];
            &&& m[s.i_reg as int] * 100 + m[s.i_reg + 1] * 10 + m[s.i_reg + 2] == v
            &&& m[s.i_reg as int] <= 9
            &&& m[s.i_reg + 1] <= 9
            &&& m[s.i_reg + 2] <= 9
        }),
{
    let v = s.regs[x as int];
    assert((v / 100) * 100 + ((v / 10) % 10) * 10 + v % 10 == v) by (bit_vector);
    assert(v / 100 <= 9) by (bit_vector);
    assert((v / 10) % 10 <= 9) by (bit_vector);
    assert(v % 10 <= 9) by (bit_vector);
}

/// Collision flag: `DRW` writes 1 into VF exactly when a lit pixel of the
/// clipped sprite footprint was lit before the blit, and 0 otherwise.
pub proof fn lemma_draw_collision_flag(s: CpuState, rx: u8, ry: u8, n: u8, rnd: u8)
    requires
        cpu_wf(s),
        inst_wf(Instruction::Draw(rx, ry, n)),
        exec_ok(s, Instruction::Draw(rx, ry, n)),
    ensures
        ({
            let s2 = spec_execute(s, Instruction::Draw(rx, ry, n), rnd).0;
            let sprite = s.memory.subrange(s.i_reg as int, s.i_reg + n);
            s2.regs[15] == (if draw_collision(
                s.display,
                s.regs[rx as int],
                s.regs[ry as int],
                sprite,
            ) {
                1u8
            } else {
                0u8
            })
        }),
{
}

/// The state after `n` timer ticks.
pub open spec fn iter_tick(s: CpuState, n: nat) -> CpuState
    decreases n,
{
    if n == 0 {
        s
    } else {
        spec_tick(iter_tick(s, (n - 1) as nat))
    }
}

/// Timer ticks change nothing but the two timers.
pub proof fn lemma_iter_tick_frame(s: CpuState, n: nat)
    ensures
        ({
            let t = iter_tick(s, n);
            &&& t.regs == s.regs
            &&& t.i_reg == s.i_reg
            &&& t.sp == s.sp
            &&& t.pc == s.pc
            &&& t.memory == s.memory
            &&& t.stack == s.stack
            &&& t.wait_key == s.wait_key
            &&& t.keyboard == s.keyboard
            &&& t.display == s.display
        }),
    decreases n,
{
    if n > 0 {
        lemma_iter_tick_frame(s, (n - 1) as nat);
    }
}

/// Wait-for-key: while the latch holds a register, any number of timer
/// ticks keeps it held and a cycle is a no-op; the next key press lands in
/// the latched register, clears the latch, and leaves the program counter
/// where the wait left it, so the following cycle runs the instruction
/// after the wait.
pub proof fn lemma_wait_for_key(s: CpuState, n: nat, k: u8, rnd: u8)
    requires
        cpu_wf(s),
        s.wait_key is Some,
        k < 16,
    ensures
        ({
            let sw = iter_tick(s, n);
            &&& sw.wait_key == s.wait_key
            &&& spec_cycle(sw, rnd) == Ok::<CpuState, Chip8Error>(sw)
            &&& (s.wait_key matches Some(reg) ==> spec_key_press(sw, k).regs == s.regs.update(
                reg as int,
                k,
            ))
            &&& spec_key_press(sw, k).wait_key is None
            &&& spec_key_press(sw, k).pc == s.pc
        }),
{
    lemma_iter_tick_frame(s, n);
}

} // verus!
