//! A verified CHIP-8 virtual machine: CPU, instruction decoder, display
//! buffer with XOR-blit sprites, timers, keyboard, and a wait-for-key latch.
//!
//! The host loads a ROM at construction, calls `run_cycle` at the
//! instruction rate and `timer_tick` at the timer rate, pushes key events
//! in, and renders the display buffer at its own cadence.

pub mod display;
pub mod instruction;
pub mod keypad;
pub mod laws;
pub mod output;
pub mod random;

use vstd::prelude::*;

use crate::display::{draw_collision, draw_grid, spec_font, font_sprites, Display};
use crate::instruction::{inst_wf, lemma_decode_wf, spec_decode, Instruction, RawInstruction};
use crate::random::RandomSource;

verus! {

/// Suggested instruction rate for a host scheduler, in Hz.
pub const INSTRUCTION_RATE: u32 = 800;

/// Suggested timer rate for a host scheduler, in Hz.
pub const TIMER_RATE: u32 = 60;

/// Lowest memory address of program code, and the initial program counter.
pub const PROGRAM_CODE_OFFSET: u16 = 0x200;

/// A fatal condition surfaced to the host; the machine state is left
/// unchanged by the call that reports one.
#[derive(Clone, Copy, PartialEq, Eq, Structural, Debug)]
pub enum Chip8Error {
    /// The ROM does not fit between 0x200 and the end of memory.
    RomTooLarge,
    /// The program counter points past the end of memory.
    PcOutOfBounds,
    /// The word at the program counter matches no instruction encoding.
    UnknownInstruction(u16),
    /// `RET` with an empty stack.
    StackUnderflow,
    /// `CALL` with all sixteen stack slots in use.
    StackOverflow,
    /// A sprite, BCD, or bulk register transfer would touch memory past
    /// the end.
    MemoryOutOfBounds,
    /// `SKP`/`SKNP` on a register holding a value that is no key.
    KeyOutOfRange,
}

/// The mathematical state of the machine: everything `run_cycle`,
/// `timer_tick`, and the key handlers read or write.
#[verifier::ext_equal]
pub ghost struct CpuState {
    /// The sixteen general-purpose registers V0..VF.
    pub regs: Seq<u8>,
    /// The 16-bit index register I.
    pub i_reg: u16,
    /// The delay timer DT.
    pub delay: u8,
    /// The sound timer ST.
    pub sound: u8,
    /// The stack pointer: number of return addresses on the stack.
    pub sp: u8,
    /// The program counter.
    pub pc: u16,
    /// The 4096 bytes of memory.
    pub memory: Seq<u8>,
    /// The sixteen stack slots; `stack[sp - 1]` is the youngest call site.
    pub stack: Seq<u16>,
    /// The wait-for-key latch: the register a pressed key goes to.
    pub wait_key: Option<u8>,
    /// Whether each of the sixteen keys is currently held.
    pub keyboard: Seq<bool>,
    /// The display grid, row-major 64x32.
    pub display: Seq<bool>,
}

/// Structural well-formedness of a machine state.
pub open spec fn cpu_wf(s: CpuState) -> bool {
    &&& s.regs.len() == 16
    &&& s.memory.len() == 4096
    &&& s.stack.len() == 16
    &&& s.keyboard.len() == 16
    &&& s.display.len() == 2048
    &&& s.sp <= 16
    &&& (s.wait_key matches Some(r) ==> r < 16)
}

/// An 8-bit value out of an intermediate sum or difference.
pub open spec fn wrap8(v: int) -> u8
    recommends
        -256 < v < 512,
{
    if v >= 256 {
        (v - 256) as u8
    } else if v < 0 {
        (v + 256) as u8
    } else {
        v as u8
    }
}

/// A 16-bit value out of an intermediate sum.
pub open spec fn wrap16(v: int) -> u16
    recommends
        0 <= v < 0x20000,
{
    if v > 0xFFFF {
        (v - 0x10000) as u16
    } else {
        v as u16
    }
}

/// Whether the instruction can execute on state `s`; when it cannot, the
/// machine reports `exec_err` and changes nothing.
pub open spec fn exec_ok(s: CpuState, inst: Instruction) -> bool {
    match inst {
        Instruction::Return => s.sp >= 1,
        Instruction::Call(_) => s.sp < 16,
        Instruction::Draw(_, _, n) => s.i_reg + n <= 4096,
        Instruction::SkipIfPressed(x) => s.regs[x as int] < 16,
        Instruction::SkipIfNotPressed(x) => s.regs[x as int] < 16,
        Instruction::BCDRepresentation(_) => s.i_reg + 3 <= 4096,
        Instruction::StoreRegisters(x) => s.i_reg + x + 1 <= 4096,
        Instruction::LoadRegisters(x) => s.i_reg + x + 1 <= 4096,
        _ => true,
    }
}

/// The error an instruction reports when `exec_ok` fails.
pub open spec fn exec_err(s: CpuState, inst: Instruction) -> Chip8Error {
    match inst {
        Instruction::Return => Chip8Error::StackUnderflow,
        Instruction::Call(_) => Chip8Error::StackOverflow,
        Instruction::SkipIfPressed(_) => Chip8Error::KeyOutOfRange,
        Instruction::SkipIfNotPressed(_) => Chip8Error::KeyOutOfRange,
        _ => Chip8Error::MemoryOutOfBounds,
    }
}

/// Memory after `StoreRegisters(x)`: `V0..=Vx` written at `I..=I+x`.
pub open spec fn store_regs_mem(s: CpuState, x: u8) -> Seq<u8> {
    Seq::new(
        4096,
        |j: int|
            if s.i_reg <= j <= s.i_reg + x {
                s.regs[j - s.i_reg]
            } else {
                s.memory[j]
            },
    )
}

/// Registers after `LoadRegisters(x)`: `V0..=Vx` read from `I..=I+x`.
pub open spec fn load_regs_regs(s: CpuState, x: u8) -> Seq<u8> {
    Seq::new(
        16,
        |r: int|
            if r <= x {
                s.memory[s.i_reg + r]
            } else {
                s.regs[r]
            },
    )
}

/// The executor as a mathematical function: the state after the
/// instruction, and the successor program counter. Sequential opcodes
/// return `pc + 2`, skips `pc + 4` when their predicate holds, and `JP`,
/// `CALL`, `RET` the absolute destination. `rnd` is the byte the random
/// source produced; only `Random` reads it.
pub open spec fn spec_execute(s: CpuState, inst: Instruction, rnd: u8) -> (CpuState, u16)
    recommends
        cpu_wf(s),
        inst_wf(inst),
        exec_ok(s, inst),
        s.pc + 4 <= 0xFFFF,
{
    let next = (s.pc + 2) as u16;
    let skip = (s.pc + 4) as u16;
    match inst {
        Instruction::ClearDisplay => (
            CpuState { display: Seq::new(2048, |i: int| false), ..s },
            next,
        ),
        Instruction::Return => (
            CpuState { sp: (s.sp - 1) as u8, ..s },
            wrap16(s.stack[s.sp - 1] + 2),
        ),
        Instruction::Jump(addr) => (s, addr),
        Instruction::Call(addr) => (
            CpuState { sp: (s.sp + 1) as u8, stack: s.stack.update(s.sp as int, s.pc), ..s },
            addr,
        ),
        Instruction::SkipIfEqualsByte(x, kk) => (
            s,
            if s.regs[x as int] == kk {
                skip
            } else {
                next
            },
        ),
        Instruction::SkipIfNotEqualsByte(x, kk) => (
            s,
            if s.regs[x as int] != kk {
                skip
            } else {
                next
            },
        ),
        Instruction::SkipIfEqual(x, y) => (
            s,
            if s.regs[x as int] == s.regs[y as int] {
                skip
            } else {
                next
            },
        ),
        Instruction::LoadByte(x, kk) => (CpuState { regs: s.regs.update(x as int, kk), ..s }, next),
        Instruction::AddByte(x, kk) => (
            CpuState { regs: s.regs.update(x as int, wrap8(s.regs[x as int] + kk)), ..s },
            next,
        ),
        Instruction::Move(x, y) => (
            CpuState { regs: s.regs.update(x as int, s.regs[y as int]), ..s },
            next,
        ),
        Instruction::Or(x, y) => (
            CpuState { regs: s.regs.update(x as int, s.regs[x as int] | s.regs[y as int]), ..s },
            next,
        ),
        Instruction::And(x, y) => (
            CpuState { regs: s.regs.update(x as int, s.regs[x as int] & s.regs[y as int]), ..s },
            next,
        ),
        Instruction::Xor(x, y) => (
            CpuState { regs: s.regs.update(x as int, s.regs[x as int] ^ s.regs[y as int]), ..s },
            next,
        ),
        Instruction::Add(x, y) => (
            CpuState {
                regs: s.regs.update(x as int, wrap8(s.regs[x as int] + s.regs[y as int])).update(
                    15,
                    if s.regs[x as int] + s.regs[y as int] > 255 {
                        1u8
                    } else {
                        0u8
                    },
                ),
                ..s
            },
            next,
        ),
        Instruction::Sub(x, y) => (
            CpuState {
                regs: s.regs.update(x as int, wrap8(s.regs[x as int] - s.regs[y as int])).update(
                    15,
                    if s.regs[x as int] > s.regs[y as int] {
                        1u8
                    } else {
                        0u8
                    },
                ),
                ..s
            },
            next,
        ),
        Instruction::ShiftRight(x) => (
            CpuState {
                regs: s.regs.update(x as int, s.regs[x as int] >> 1).update(
                    15,
                    s.regs[x as int] & 1,
                ),
                ..s
            },
            next,
        ),
        Instruction::ReverseSub(x, y) => (
            CpuState {
                regs: s.regs.update(x as int, wrap8(s.regs[y as int] - s.regs[x as int])).update(
                    15,
                    if s.regs[y as int] > s.regs[x as int] {
                        1u8
                    } else {
                        0u8
                    },
                ),
                ..s
            },
            next,
        ),
        Instruction::ShiftLeft(x) => (
            CpuState {
                regs: s.regs.update(x as int, s.regs[x as int] << 1).update(
                    15,
                    s.regs[x as int] >> 7,
                ),
                ..s
            },
            next,
        ),
        Instruction::SkipIfNotEqual(x, y) => (
            s,
            if s.regs[x as int] != s.regs[y as int] {
                skip
            } else {
                next
            },
        ),
        Instruction::LoadI(nnn) => (CpuState { i_reg: nnn, ..s }, next),
        Instruction::JumpPlusZero(nnn) => (s, (nnn + s.regs[0]) as u16),
        Instruction::Random(x, kk) => (
            CpuState { regs: s.regs.update(x as int, rnd & kk), ..s },
            next,
        ),
        Instruction::Draw(rx, ry, n) => {
            let sprite = s.memory.subrange(s.i_reg as int, s.i_reg + n);
            let flag: u8 = if draw_collision(
                s.display,
                s.regs[rx as int],
                s.regs[ry as int],
                sprite,
            ) {
                1u8
            } else {
                0u8
            };
            (
                CpuState {
                    display: draw_grid(s.display, s.regs[rx as int], s.regs[ry as int], sprite),
                    regs: s.regs.update(15, flag),
                    ..s
                },
                next,
            )
        },
        Instruction::SkipIfPressed(x) => (
            s,
            if s.keyboard[s.regs[x as int] as int] {
                skip
            } else {
                next
            },
        ),
        Instruction::SkipIfNotPressed(x) => (
            s,
            if !s.keyboard[s.regs[x as int] as int] {
                skip
            } else {
                next
            },
        ),
        Instruction::LoadDelayTimer(x) => (
            CpuState { regs: s.regs.update(x as int, s.delay), ..s },
            next,
        ),
        Instruction::WaitForKeyPress(x) => (CpuState { wait_key: Some(x), ..s }, next),
        Instruction::SetDelayTimer(x) => (CpuState { delay: s.regs[x as int], ..s }, next),
        Instruction::SetSoundTimer(x) => (CpuState { sound: s.regs[x as int], ..s }, next),
        Instruction::AddToI(x) => (
            CpuState { i_reg: wrap16(s.i_reg + s.regs[x as int]), ..s },
            next,
        ),
        Instruction::LoadSprite(x) => (
            CpuState { i_reg: ((s.regs[x as int] & 0xF) * 5) as u16, ..s },
            next,
        ),
        Instruction::BCDRepresentation(x) => {
            let v = s.regs[x as int];
            (
                CpuState {
                    memory: s.memory.update(s.i_reg as int, (v / 100) as u8).update(
                        s.i_reg + 1,
                        ((v / 10) % 10) as u8,
                    ).update(s.i_reg + 2, (v % 10) as u8),
                    ..s
                },
                next,
            )
        },
        Instruction::StoreRegisters(x) => (CpuState { memory: store_regs_mem(s, x), ..s }, next),
        Instruction::LoadRegisters(x) => (CpuState { regs: load_regs_regs(s, x), ..s }, next),
    }
}

/// The big-endian instruction word at the program counter.
pub open spec fn fetch_word(s: CpuState) -> u16 {
    (s.memory[s.pc as int] * 256 + s.memory[s.pc + 1]) as u16
}

/// One `run_cycle` as a mathematical function: a no-op while the wait
/// latch is set; otherwise fetch, decode, execute, and advance the program
/// counter to the successor the instruction returned — or the error that
/// stops all that, with the state unchanged.
pub open spec fn spec_cycle(s: CpuState, rnd: u8) -> Result<CpuState, Chip8Error> {
    if s.wait_key is Some {
        Ok(s)
    } else if s.pc + 1 >= 4096 {
        Err(Chip8Error::PcOutOfBounds)
    } else {
        match spec_decode(fetch_word(s)) {
            Option::None => Err(Chip8Error::UnknownInstruction(fetch_word(s))),
            Option::Some(inst) => if exec_ok(s, inst) {
                let (s2, npc) = spec_execute(s, inst, rnd);
                Ok(CpuState { pc: npc, ..s2 })
            } else {
                Err(exec_err(s, inst))
            },
        }
    }
}

/// Whether the coming cycle draws from the random source: it executes a
/// `Random` opcode. Every other cycle is deterministic.
pub open spec fn cycle_draws_random(s: CpuState) -> bool {
    &&& s.wait_key is None
    &&& s.pc + 1 < 4096
    &&& spec_decode(fetch_word(s)) matches Some(Instruction::Random(_, _))
}

/// How one `run_cycle` call relates the machine states before and after,
/// its result, and the byte `rnd` the random source would have produced.
pub open spec fn cycle_post(
    s0: CpuState,
    s1: CpuState,
    r: Result<(), Chip8Error>,
    rnd: u8,
) -> bool {
    match spec_cycle(s0, rnd) {
        Ok(s2) => r is Ok && s1 == s2,
        Err(e) => r is Err && r->Err_0 == e && s1 == s0,
    }
}

/// State after `timer_tick`: each timer stays at zero or decrements; all
/// else is untouched.
pub open spec fn spec_tick(s: CpuState) -> CpuState {
    CpuState {
        delay: if s.delay > 0 {
            (s.delay - 1) as u8
        } else {
            0u8
        },
        sound: if s.sound > 0 {
            (s.sound - 1) as u8
        } else {
            0u8
        },
        ..s
    }
}

/// State after `handle_key_press(k)`: key `k` is held; if the wait latch
/// named a register, `k` lands in it and the latch clears.
pub open spec fn spec_key_press(s: CpuState, k: u8) -> CpuState {
    let held = CpuState { keyboard: s.keyboard.update(k as int, true), ..s };
    match s.wait_key {
        Option::Some(r) => CpuState {
            regs: held.regs.update(r as int, k),
            wait_key: None,
            ..held
        },
        Option::None => held,
    }
}

/// State after `handle_key_release(k)`: key `k` is no longer held.
pub open spec fn spec_key_release(s: CpuState, k: u8) -> CpuState {
    CpuState { keyboard: s.keyboard.update(k as int, false), ..s }
}

/// The freshly constructed machine: font at 0, ROM at 0x200, everything
/// else zeroed, dark, and released.
pub open spec fn spec_new(rom: Seq<u8>) -> CpuState {
    CpuState {
        regs: Seq::new(16, |i: int| 0u8),
        i_reg: 0,
        delay: 0,
        sound: 0,
        sp: 0,
        pc: 0x200,
        memory: Seq::new(
            4096,
            |j: int|
                if j < 80 {
                    spec_font()[j]
                } else if 0x200 <= j < 0x200 + rom.len() {
                    rom[j - 0x200]
                } else {
                    0u8
                },
        ),
        stack: Seq::new(16, |i: int| 0u16),
        wait_key: None,
        keyboard: Seq::new(16, |i: int| false),
        display: Seq::new(2048, |i: int| false),
    }
}

/// The CHIP-8 machine, generic over the host's random-byte source.
pub struct Chip8<R: RandomSource> {
    regs: Vec<u8>,
    i_reg: u16,
    delay_timer_reg: u8,
    sound_timer_reg: u8,
    stack_pointer_reg: u8,
    program_counter_reg: u16,
    memory: Vec<u8>,
    stack: Vec<u16>,
    key_to_wait_for: Option<u8>,
    keyboard: Vec<bool>,
    random: R,
    display: Display,
}

impl<R: RandomSource> View for Chip8<R> {
    type V = CpuState;

    closed spec fn view(&self) -> CpuState {
        CpuState {
            regs: self.regs@,
            i_reg: self.i_reg,
            delay: self.delay_timer_reg,
            sound: self.sound_timer_reg,
            sp: self.stack_pointer_reg,
            pc: self.program_counter_reg,
            memory: self.memory@,
            stack: self.stack@,
            wait_key: self.key_to_wait_for,
            keyboard: self.keyboard@,
            display: self.display@,
        }
    }
}

impl<R: RandomSource> Chip8<R> {
    /// The machine's invariant, established by `new` and preserved by every
    /// method.
    pub open spec fn wf(&self) -> bool {
        cpu_wf(self@)
    }

    /// Build a machine from a ROM image and a random source: font sprites
    /// at address 0, the ROM at 0x200 where the program counter starts.
    /// Fails with `RomTooLarge` exactly when the ROM does not fit.
    pub fn new(program: &[u8], random: R) -> (r: Result<Chip8<R>, Chip8Error>)
        ensures
            r is Ok <==> program@.len() <= 3584,
            r matches Ok(c) ==> c.wf() && c@ == spec_new(program@),
            r matches Err(e) ==> e == Chip8Error::RomTooLarge,
    {
        if program.len() > 3584 {
            return Err(Chip8Error::RomTooLarge);
        }
        let font = font_sprites();
        let mut memory: Vec<u8> = byte_vec(4096, 0);
        let mut k: usize = 0;
        while k < 80
            invariant
                font@ == spec_font(),
                memory@.len() == 4096,
                k <= 80,
                forall|j: int| 0 <= j < k ==> memory@[j] == spec_font()[j],
                forall|j: int| k <= j < 4096 ==> memory@[j] == 0u8,
            decreases 80 - k,
        {
            memory[k] = font[k];
            k += 1;
        }
        let n = program.len();
        let mut k: usize = 0;
        while k < n
            invariant
                memory@.len() == 4096,
                n == program@.len() <= 3584,
                k <= n,
                forall|j: int| 0 <= j < 80 ==> memory@[j] == spec_font()[j],
                forall|j: int| 0x200 <= j < 0x200 + k ==> memory@[j] == program@[j - 0x200],
                forall|j: int| 80 <= j < 0x200 ==> memory@[j] == 0u8,
                forall|j: int| 0x200 + k <= j < 4096 ==> memory@[j] == 0u8,
            decreases n - k,
        {
            memory[0x200 + k] = program[k];
            k += 1;
        }
        let c = Chip8 {
            regs: byte_vec(16, 0),
            i_reg: 0,
            delay_timer_reg: 0,
            sound_timer_reg: 0,
            stack_pointer_reg: 0,
            program_counter_reg: PROGRAM_CODE_OFFSET,
            memory,
            stack: word_vec(16, 0),
            key_to_wait_for: None,
            keyboard: bool_vec(16, false),
            random,
            display: Display::new(),
        };
        proof {
            assert(c@.memory =~= spec_new(program@).memory);
            assert(c@ =~= spec_new(program@));
        }
        Ok(c)
    }

    /// Decrement each timer that is not already zero. Called at the timer
    /// rate; touches nothing but the two timers.
    pub fn timer_tick(&mut self)
        requires
            old(self).wf(),
        ensures
            final(self).wf(),
            final(self)@ == spec_tick(old(self)@),
            final(self)@.pc == old(self)@.pc,
            final(self)@.memory == old(self)@.memory,
            final(self)@.regs == old(self)@.regs,
            final(self)@.display == old(self)@.display,
            final(self)@.keyboard == old(self)@.keyboard,
            final(self)@.wait_key == old(self)@.wait_key,
            final(self)@.delay == old(self)@.delay || final(self)@.delay == old(self)@.delay - 1,
            old(self)@.delay == 0 ==> final(self)@.delay == 0,
            old(self)@.delay > 0 ==> final(self)@.delay == old(self)@.delay - 1,
            old(self)@.sound == 0 ==> final(self)@.sound == 0,
            old(self)@.sound > 0 ==> final(self)@.sound == old(self)@.sound - 1,
    {
        if self.delay_timer_reg > 0 {
            self.delay_timer_reg = self.delay_timer_reg - 1;
        }
        if self.sound_timer_reg > 0 {
            self.sound_timer_reg = self.sound_timer_reg - 1;
        }
        proof {
            assert(self@ =~= spec_tick(old(self)@));
        }
    }

    /// Record key `key` as held; if the wait latch names a register, the
    /// key value lands there and the latch clears, unfreezing `run_cycle`.
    pub fn handle_key_press(&mut self, key: u8)
        requires
            old(self).wf(),
            key < 16,
        ensures
            final(self).wf(),
            final(self)@ == spec_key_press(old(self)@, key),
    {
        self.keyboard[key as usize] = true;
        if let Some(reg) = self.key_to_wait_for {
            self.regs[reg as usize] = key;
            self.key_to_wait_for = None;
        }
        proof {
            assert(self@ =~= spec_key_press(old(self)@, key));
        }
    }

    /// Record key `key` as released. A release never satisfies the wait
    /// latch.
    pub fn handle_key_release(&mut self, key: u8)
        requires
            old(self).wf(),
            key < 16,
        ensures
            final(self).wf(),
            final(self)@ == spec_key_release(old(self)@, key),
    {
        self.keyboard[key as usize] = false;
        proof {
            assert(self@ =~= spec_key_release(old(self)@, key));
        }
    }

    /// Read-only view of the display buffer, for the host to render.
    pub fn display(&self) -> (d: &Display)
        ensures
            d@ == self@.display,
    {
        &self.display
    }

    /// The value of register `Vreg`.
    pub fn read_reg(&self, reg_number: u8) -> (v: u8)
        requires
            self.wf(),
            reg_number < 16,
        ensures
            v == self@.regs[reg_number as int],
    {
        self.regs[reg_number as usize]
    }

    /// The program counter.
    pub fn program_counter(&self) -> (pc: u16)
        ensures
            pc == self@.pc,
    {
        self.program_counter_reg
    }

    /// The stack pointer: how many return addresses are on the stack.
    pub fn stack_pointer(&self) -> (sp: u8)
        ensures
            sp == self@.sp,
    {
        self.stack_pointer_reg
    }

    /// The delay timer.
    pub fn delay_timer(&self) -> (dt: u8)
        ensures
            dt == self@.delay,
    {
        self.delay_timer_reg
    }

    /// The sound timer.
    pub fn sound_timer(&self) -> (st: u8)
        ensures
            st == self@.sound,
    {
        self.sound_timer_reg
    }

    /// The index register I.
    pub fn i_register(&self) -> (i: u16)
        ensures
            i == self@.i_reg,
    {
        self.i_reg
    }

    /// The byte at memory address `addr`.
    pub fn read_memory(&self, addr: usize) -> (b: u8)
        requires
            self.wf(),
            addr < 4096,
        ensures
            b == self@.memory[addr as int],
    {
        self.memory[addr]
    }

    /// Run one cycle: while the wait latch is empty, fetch the instruction
    /// at the program counter, execute it, and advance the program counter
    /// to the successor it returned; while the latch holds a register, do
    /// nothing. A fatal condition is reported with the state unchanged.
    pub fn run_cycle(&mut self) -> (r: Result<(), Chip8Error>)
        requires
            old(self).wf(),
        ensures
            final(self).wf(),
            exists|b: u8| cycle_post(old(self)@, final(self)@, r, b),
            !cycle_draws_random(old(self)@) ==> cycle_post(old(self)@, final(self)@, r, 0),
    {
        let ghost s0 = old(self)@;
        if self.key_to_wait_for.is_some() {
            proof {
                assert(cycle_post(s0, self@, Result::<(), Chip8Error>::Ok(()), 0));
            }
            return Ok(());
        }
        let inst = match self.instruction() {
            Ok(inst) => inst,
            Err(e) => {
                proof {
                    assert(cycle_post(s0, self@, Result::<(), Chip8Error>::Err(e), 0));
                }
                return Err(e);
            },
        };
        proof {
            lemma_decode_wf(fetch_word(s0));
        }
        match self.run_instruction(&inst) {
            Ok(npc) => {
                let ghost mid = self@;
                self.program_counter_reg = npc;
                proof {
                    if inst matches Instruction::Random(_, _) {
                        let b0 = choose|b: u8| (mid, npc) == spec_execute(s0, inst, b);
                        assert(self@ =~= (CpuState { pc: npc, ..spec_execute(s0, inst, b0).0 }));
                        assert(cycle_post(s0, self@, Result::<(), Chip8Error>::Ok(()), b0));
                    } else {
                        assert(self@ =~= (CpuState { pc: npc, ..spec_execute(s0, inst, 0).0 }));
                        assert(cycle_post(s0, self@, Result::<(), Chip8Error>::Ok(()), 0));
                    }
                }
                Ok(())
            },
            Err(e) => {
                proof {
                    assert(cycle_post(s0, self@, Result::<(), Chip8Error>::Err(e), 0));
                }
                Err(e)
            },
        }
    }

    /// Fetch and decode the instruction word at the program counter.
    fn instruction(&self) -> (r: Result<Instruction, Chip8Error>)
        requires
            self.wf(),
        ensures
            self@.pc + 1 >= 4096 ==> (r matches Err(e) && e == Chip8Error::PcOutOfBounds),
            self@.pc + 1 < 4096 ==> match r {
                Ok(inst) => spec_decode(fetch_word(self@)) == Some(inst),
                Err(e) => spec_decode(fetch_word(self@)) is None && e
                    == Chip8Error::UnknownInstruction(fetch_word(self@)),
            },
    {
        let pc = self.program_counter_reg as usize;
        if pc + 1 >= 4096 {
            return Err(Chip8Error::PcOutOfBounds);
        }
        let hi = self.memory[pc] as u16;
        let lo = self.memory[pc + 1] as u16;
        let w = hi * 256 + lo;
        match RawInstruction::new(w).to_instruction() {
            Some(inst) => Ok(inst),
            None => Err(Chip8Error::UnknownInstruction(w)),
        }
    }

    /// Execute one decoded instruction and return the successor program
    /// counter; the program counter itself is left for the caller to set.
    /// On a fatal condition the state is unchanged and the error says
    /// which rule the instruction broke.
    pub fn run_instruction(&mut self, instruction: &Instruction) -> (r: Result<u16, Chip8Error>)
        requires
            old(self).wf(),
            inst_wf(*instruction),
            old(self)@.pc + 4 <= 0xFFFF,
        ensures
            final(self).wf(),
            match r {
                Ok(npc) => exec_ok(old(self)@, *instruction) && (if (*instruction) matches
                    Instruction::Random(_, _) {
                    exists|b: u8| (final(self)@, npc) == spec_execute(old(self)@, *instruction, b)
                } else {
                    (final(self)@, npc) == spec_execute(old(self)@, *instruction, 0)
                }),
                Err(e) => !exec_ok(old(self)@, *instruction) && final(self)@ == old(self)@ && e
                    == exec_err(old(self)@, *instruction),
            },
    {
        let ghost s0 = old(self)@;
        let pc = self.program_counter_reg;
        match *instruction {
            Instruction::ClearDisplay => {
                self.display.clear();
                proof {
                    assert(self@ =~= spec_execute(s0, *instruction, 0).0);
                }
                Ok(pc + 2)
            },
            Instruction::Return => {
                if self.stack_pointer_reg < 1 {
                    return Err(Chip8Error::StackUnderflow);
                }
                let addr = self.stack[(self.stack_pointer_reg - 1) as usize];
                self.stack_pointer_reg = self.stack_pointer_reg - 1;
                proof {
                    assert(self@ =~= spec_execute(s0, *instruction, 0).0);
                }
                Ok(addr.wrapping_add(2))
            },
            Instruction::Jump(addr) => {
                Ok(addr)
            },
            Instruction::Call(addr) => {
                if self.stack_pointer_reg >= 16 {
                    return Err(Chip8Error::StackOverflow);
                }
                let sp = self.stack_pointer_reg;
                self.stack[sp as usize] = pc;
                self.stack_pointer_reg = sp + 1;
                proof {
                    assert(self@ =~= spec_execute(s0, *instruction, 0).0);
                }
                Ok(addr)
            },
            Instruction::SkipIfEqualsByte(x, kk) => {
                if self.read_reg(x) == kk {
                    Ok(pc + 4)
                } else {
                    Ok(pc + 2)
                }
            },
            Instruction::SkipIfNotEqualsByte(x, kk) => {
                if self.read_reg(x) != kk {
                    Ok(pc + 4)
                } else {
                    Ok(pc + 2)
                }
            },
            Instruction::SkipIfEqual(x, y) => {
                if self.read_reg(x) == self.read_reg(y) {
                    Ok(pc + 4)
                } else {
                    Ok(pc + 2)
                }
            },
            Instruction::LoadByte(x, kk) => {
                self.load_reg(x, kk);
                Ok(pc + 2)
            },
            Instruction::AddByte(x, kk) => {
                let reg_value = self.read_reg(x);
                self.load_reg(x, kk.wrapping_add(reg_value));
                proof {
                    assert(self@ =~= spec_execute(s0, *instruction, 0).0);
                }
                Ok(pc + 2)
            },
            Instruction::Move(x, y) => {
                let value = self.read_reg(y);
                self.load_reg(x, value);
                Ok(pc + 2)
            },
            Instruction::Or(x, y) => {
                let first = self.read_reg(x);
                let second = self.read_reg(y);
                self.load_reg(x, first | second);
                Ok(pc + 2)
            },
            Instruction::And(x, y) => {
                let first = self.read_reg(x);
                let second = self.read_reg(y);
                self.load_reg(x, first & second);
                Ok(pc + 2)
            },
            Instruction::Xor(x, y) => {
                let first = self.read_reg(x);
                let second = self.read_reg(y);
                self.load_reg(x, first ^ second);
                Ok(pc + 2)
            },
            Instruction::Add(x, y) => {
                let first = self.read_reg(x) as u16;
                let second = self.read_reg(y) as u16;
                let answer = first + second;
                let flag: u8 = if answer > 255 {
                    1
                } else {
                    0
                };
                let low: u8 = if answer > 255 {
                    (answer - 256) as u8
                } else {
                    answer as u8
                };
                self.load_reg(x, low);
                self.load_reg(0xF, flag);
                proof {
                    assert(self@ =~= spec_execute(s0, *instruction, 0).0);
                }
                Ok(pc + 2)
            },
            Instruction::Sub(x, y) => {
                let first = self.read_reg(x);
                let second = self.read_reg(y);
                let flag: u8 = if first > second {
                    1
                } else {
                    0
                };
                self.load_reg(x, first.wrapping_sub(second));
                self.load_reg(0xF, flag);
                proof {
                    assert(self@ =~= spec_execute(s0, *instruction, 0).0);
                }
                Ok(pc + 2)
            },
            Instruction::ShiftRight(x) => {
                let value = self.read_reg(x);
                self.load_reg(x, value >> 1);
                self.load_reg(0xF, value & 1);
                proof {
                    assert(self@ =~= spec_execute(s0, *instruction, 0).0);
                }
                Ok(pc + 2)
            },
            Instruction::ReverseSub(x, y) => {
                let first = self.read_reg(x);
                let second = self.read_reg(y);
                let flag: u8 = if second > first {
                    1
                } else {
                    0
                };
                self.load_reg(x, second.wrapping_sub(first));
                self.load_reg(0xF, flag);
                proof {
                    assert(self@ =~= spec_execute(s0, *instruction, 0).0);
                }
                Ok(pc + 2)
            },
            Instruction::ShiftLeft(x) => {
                let value = self.read_reg(x);
                self.load_reg(x, value << 1);
                self.load_reg(0xF, value >> 7);
                proof {
                    assert(self@ =~= spec_execute(s0, *instruction, 0).0);
                }
                Ok(pc + 2)
            },
            Instruction::SkipIfNotEqual(x, y) => {
                if self.read_reg(x) != self.read_reg(y) {
                    Ok(pc + 4)
                } else {
                    Ok(pc + 2)
                }
            },
            Instruction::LoadI(nnn) => {
                self.i_reg = nnn;
                proof {
                    assert(self@ =~= spec_execute(s0, *instruction, 0).0);
                }
                Ok(pc + 2)
            },
            Instruction::JumpPlusZero(nnn) => {
                Ok(nnn + self.read_reg(0) as u16)
            },
            Instruction::Random(x, kk) => {
                let b = self.random.next_byte();
                self.load_reg(x, b & kk);
                proof {
                    assert(self@ =~= spec_execute(s0, *instruction, b).0);
                    assert((self@, (pc + 2) as u16) == spec_execute(s0, *instruction, b));
                }
                Ok(pc + 2)
            },
            Instruction::Draw(rx, ry, n) => {
                let from = self.i_reg as usize;
                let count = n as usize;
                if from + count > 4096 {
                    return Err(Chip8Error::MemoryOutOfBounds);
                }
                let mut sprite: Vec<u8> = Vec::new();
                let mut k: usize = 0;
                while k < count
                    invariant
                        self@ == s0,
                        self.wf(),
                        from == s0.i_reg,
                        count == n < 16,
                        from + count <= 4096,
                        k <= count,
                        sprite@.len() == k,
                        forall|j: int| 0 <= j < k ==> sprite@[j] == s0.memory[from + j],
                    decreases count - k,
                {
                    sprite.push(self.memory[from + k]);
                    k += 1;
                }
                proof {
                    assert(sprite@ =~= s0.memory.subrange(from as int, from + count));
                }
                let xv = self.read_reg(rx);
                let yv = self.read_reg(ry);
                let collision = self.display.draw(xv, yv, &sprite);
                let flag: u8 = if collision {
                    1
                } else {
                    0
                };
                self.load_reg(0xF, flag);
                proof {
                    assert(self@ =~= spec_execute(s0, *instruction, 0).0);
                }
                Ok(pc + 2)
            },
            Instruction::SkipIfPressed(x) => {
                let value = self.read_reg(x);
                if value >= 16 {
                    return Err(Chip8Error::KeyOutOfRange);
                }
                if self.keyboard[value as usize] {
                    Ok(pc + 4)
                } else {
                    Ok(pc + 2)
                }
            },
            Instruction::SkipIfNotPressed(x) => {
                let value = self.read_reg(x);
                if value >= 16 {
                    return Err(Chip8Error::KeyOutOfRange);
                }
                if !self.keyboard[value as usize] {
                    Ok(pc + 4)
                } else {
                    Ok(pc + 2)
                }
            },
            Instruction::LoadDelayTimer(x) => {
                let delay_value = self.delay_timer_reg;
                self.load_reg(x, delay_value);
                Ok(pc + 2)
            },
            Instruction::WaitForKeyPress(x) => {
                self.key_to_wait_for = Some(x);
                proof {
                    assert(self@ =~= spec_execute(s0, *instruction, 0).0);
                }
                Ok(pc + 2)
            },
            Instruction::SetDelayTimer(x) => {
                let value = self.read_reg(x);
                self.delay_timer_reg = value;
                proof {
                    assert(self@ =~= spec_execute(s0, *instruction, 0).0);
                }
                Ok(pc + 2)
            },
            Instruction::SetSoundTimer(x) => {
                let value = self.read_reg(x);
                self.sound_timer_reg = value;
                proof {
                    assert(self@ =~= spec_execute(s0, *instruction, 0).0);
                }
                Ok(pc + 2)
            },
            Instruction::AddToI(x) => {
                let value = self.read_reg(x) as u16;
                self.i_reg = self.i_reg.wrapping_add(value);
                proof {
                    assert(self@ =~= spec_execute(s0, *instruction, 0).0);
                }
                Ok(pc + 2)
            },
            Instruction::LoadSprite(x) => {
                let value = self.read_reg(x);
                let digit = value & 0x0F;
                proof {
                    assert(value & 0x0F <= 15) by (bit_vector);
                }
                self.i_reg = (digit as u16) * 5;
                proof {
                    assert(self@ =~= spec_execute(s0, *instruction, 0).0);
                }
                Ok(pc + 2)
            },
            Instruction::BCDRepresentation(x) => {
                let i0 = self.i_reg as usize;
                if i0 + 3 > 4096 {
                    return Err(Chip8Error::MemoryOutOfBounds);
                }
                let value = self.read_reg(x);
                self.memory[i0] = value / 100;
                self.memory[i0 + 1] = (value / 10) % 10;
                self.memory[i0 + 2] = value % 10;
                proof {
                    assert(self@ =~= spec_execute(s0, *instruction, 0).0);
                }
                Ok(pc + 2)
            },
            Instruction::StoreRegisters(x) => {
                let i0 = self.i_reg as usize;
                let count = x as usize + 1;
                if i0 + count > 4096 {
                    return Err(Chip8Error::MemoryOutOfBounds);
                }
                store_regs_into(&mut self.memory, &self.regs, i0, count);
                proof {
                    assert(self@.memory =~= store_regs_mem(s0, x));
                    assert(self@ =~= spec_execute(s0, *instruction, 0).0);
                }
                Ok(pc + 2)
            },
            Instruction::LoadRegisters(x) => {
                let i0 = self.i_reg as usize;
                let count = x as usize + 1;
                if i0 + count > 4096 {
                    return Err(Chip8Error::MemoryOutOfBounds);
                }
                load_regs_from(&mut self.regs, &self.memory, i0, count);
                proof {
                    assert(self@.regs =~= load_regs_regs(s0, x));
                    assert(self@ =~= spec_execute(s0, *instruction, 0).0);
                }
                Ok(pc + 2)
            },
        }
    }

    /// Write `value` into register `Vreg`.
    fn load_reg(&mut self, reg_number: u8, value: u8)
        requires
            old(self).wf(),
            reg_number < 16,
        ensures
            final(self).wf(),
            final(self)@ == (CpuState {
                regs: old(self)@.regs.update(reg_number as int, value),
                ..old(self)@
            }),
    {
        self.regs[reg_number as usize] = value;
        proof {
            assert(self@ =~= (CpuState {
                regs: old(self)@.regs.update(reg_number as int, value),
                ..old(self)@
            }));
        }
    }
}

/// Write the first `count` registers into memory at `i0..i0+count`.
fn store_regs_into(memory: &mut Vec<u8>, regs: &Vec<u8>, i0: usize, count: usize)
    requires
        old(memory)@.len() == 4096,
        regs@.len() == 16,
        count <= 16,
        i0 + count <= 4096,
    ensures
        final(memory)@.len() == 4096,
        forall|j: int|
            0 <= j < 4096 ==> final(memory)@[j] == (if i0 <= j < i0 + count {
                regs@[j - i0]
            } else {
                old(memory)@[j]
            }),
{
    let mut k: usize = 0;
    while k < count
        invariant
            memory@.len() == 4096,
            regs@.len() == 16,
            count <= 16,
            i0 + count <= 4096,
            k <= count,
            forall|j: int|
                0 <= j < 4096 ==> memory@[j] == (if i0 <= j < i0 + k {
                    regs@[j - i0]
                } else {
                    old(memory)@[j]
                }),
        decreases count - k,
    {
        memory[i0 + k] = regs[k];
        k += 1;
    }
}

/// Load the first `count` registers from memory at `i0..i0+count`.
fn load_regs_from(regs: &mut Vec<u8>, memory: &Vec<u8>, i0: usize, count: usize)
    requires
        old(regs)@.len() == 16,
        memory@.len() == 4096,
        count <= 16,
        i0 + count <= 4096,
    ensures
        final(regs)@.len() == 16,
        forall|j: int|
            0 <= j < 16 ==> final(regs)@[j] == (if j < count {
                memory@[i0 + j]
            } else {
                old(regs)@[j]
            }),
{
    let mut k: usize = 0;
    while k < count
        invariant
            regs@.len() == 16,
            memory@.len() == 4096,
            count <= 16,
            i0 + count <= 4096,
            k <= count,
            forall|j: int|
                0 <= j < 16 ==> regs@[j] == (if j < k {
                    memory@[i0 + j]
                } else {
                    old(regs)@[j]
                }),
        decreases count - k,
    {
        regs[k] = memory[i0 + k];
        k += 1;
    }
}

/// A `u8` vector of `len` copies of `value`.
fn byte_vec(len: usize, value: u8) -> (v: Vec<u8>)
    ensures
        v@.len() == len,
        forall|i: int| 0 <= i < len ==> v@[i] == value,
{
    let mut v: Vec<u8> = Vec::new();
    let mut i: usize = 0;
    while i < len
        invariant
            v@.len() == i,
            i <= len,
            forall|j: int| 0 <= j < i ==> v@[j] == value,
        decreases len - i,
    {
        v.push(value);
        i += 1;
    }
    v
}

/// A `u16` vector of `len` copies of `value`.
fn word_vec(len: usize, value: u16) -> (v: Vec<u16>)
    ensures
        v@.len() == len,
        forall|i: int| 0 <= i < len ==> v@[i] == value,
{
    let mut v: Vec<u16> = Vec::new();
    let mut i: usize = 0;
    while i < len
        invariant
            v@.len() == i,
            i <= len,
            forall|j: int| 0 <= j < i ==> v@[j] == value,
        decreases len - i,
    {
        v.push(value);
        i += 1;
    }
    v
}

/// A `bool` vector of `len` copies of `value`.
fn bool_vec(len: usize, value: bool) -> (v: Vec<bool>)
    ensures
        v@.len() == len,
        forall|i: int| 0 <= i < len ==> v@[i] == value,
{
    let mut v: Vec<bool> = Vec::new();
    let mut i: usize = 0;
    while i < len
        invariant
            v@.len() == i,
            i <= len,
            forall|j: int| 0 <= j < i ==> v@[j] == value,
        decreases len - i,
    {
        v.push(value);
        i += 1;
    }
    v
}

} // verus!
