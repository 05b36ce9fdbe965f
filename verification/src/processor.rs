//! One core: its registers, its two pointers, its inbox, and the
//! fetch-decode-execute cycle.
//!
//! The meaning of every operation is a function from the state of the core
//! and of the address space to their next states and an outcome. The
//! executable cycle is held to that function.

use std::collections::VecDeque;
use vstd::prelude::*;

use crate::cpu::CpuError;
use crate::cpu::CpuErrorSeverity;
use crate::cpu::CpuErrorType;
use crate::cpu::FaultView;
use crate::cpu::Interrupt;
use crate::cpu::InterruptType;
use crate::cpu::Severity;
use crate::mmio::lemma_plain_memory_stores;
use crate::mmio::plain;
use crate::mmio::AddressSpace;
use crate::mmio::Bus;
use crate::mmio::BusView;
use crate::opcodes::decode;
use crate::opcodes::extract_a;
use crate::opcodes::extract_b;
use crate::opcodes::extract_c;
use crate::opcodes::extract_imm20;
use crate::opcodes::extract_imm25;
use crate::opcodes::immediate20;
use crate::opcodes::immediate25;
use crate::opcodes::lemma_fields_in_range;
use crate::opcodes::operand_a;
use crate::opcodes::operand_b;
use crate::opcodes::operand_c;
use crate::opcodes::operation_of;
use crate::opcodes::OpCode;
use crate::word::byte_of;
use crate::word::from_bytes;
use crate::word::lemma_word_round_trip;
use crate::word::to_bytes;
use crate::word::word_of;

verus! {

/// The first address above the code and data region, where the program
/// counter wraps to zero.
pub const CODE_LIMIT: u32 = 0x4000_0000;

/// The lowest address of the stack region.
pub const STACK_BASE: u32 = 0x4000_0000;

/// The highest address of the stack region.
pub const STACK_TOP: u32 = 0x7FFF_FFFF;

/// The first address above the stack region, where the stack pointer wraps to
/// the base of the stack.
pub const STACK_LIMIT: u32 = 0x8000_0000;

/// The number of cores.
pub const CORE_COUNT: u32 = 4;

/// The program counter after one step forward.
pub open spec fn next_pc(pc: u32) -> u32 {
    if pc < CODE_LIMIT {
        (pc + 1) as u32
    } else {
        0
    }
}

/// The stack pointer after one step up.
pub open spec fn next_sp(sp: u32) -> u32 {
    if sp < STACK_LIMIT {
        (sp + 1) as u32
    } else {
        STACK_BASE
    }
}

/// The stack pointer after one step down.
pub open spec fn prev_sp(sp: u32) -> u32 {
    if sp > STACK_BASE {
        (sp - 1) as u32
    } else {
        STACK_TOP
    }
}

/// The program counter after the fetch of one instruction.
pub open spec fn pc_after_fetch(pc: u32) -> u32 {
    next_pc(next_pc(next_pc(next_pc(pc))))
}

/// The stack pointer after a push of one word.
pub open spec fn sp_after_push(sp: u32) -> u32 {
    next_sp(next_sp(next_sp(next_sp(sp))))
}

/// The stack pointer after a pop of one word.
pub open spec fn sp_after_pop(sp: u32) -> u32 {
    prev_sp(prev_sp(prev_sp(prev_sp(sp))))
}

/// The word at `pc`: four bytes, least significant first, each read where the
/// program counter stands after the byte before.
pub open spec fn fetched_word<A: AddressSpace>(space: A::V, pc: u32) -> u32 {
    word_of(
        A::read8_spec(space, pc),
        A::read8_spec(space, next_pc(pc)),
        A::read8_spec(space, next_pc(next_pc(pc))),
        A::read8_spec(space, next_pc(next_pc(next_pc(pc)))),
    )
}

/// The address space after a push of `value` at `sp`: four byte writes, least
/// significant first, each where the stack pointer stands after the byte
/// before.
pub open spec fn pushed<A: AddressSpace>(space: A::V, sp: u32, value: u32) -> A::V {
    A::write8_spec(
        A::write8_spec(
            A::write8_spec(
                A::write8_spec(space, sp, byte_of(value, 0)),
                next_sp(sp),
                byte_of(value, 1),
            ),
            next_sp(next_sp(sp)),
            byte_of(value, 2),
        ),
        next_sp(next_sp(next_sp(sp))),
        byte_of(value, 3),
    )
}

/// The word that a pop at `sp` yields: four bytes, each read after one step
/// down, the first of them the most significant.
pub open spec fn popped<A: AddressSpace>(space: A::V, sp: u32) -> u32 {
    word_of(
        A::read8_spec(space, sp_after_pop(sp)),
        A::read8_spec(space, prev_sp(prev_sp(prev_sp(sp)))),
        A::read8_spec(space, prev_sp(prev_sp(sp))),
        A::read8_spec(space, prev_sp(sp)),
    )
}

/// The address space after `n` bytes below `sp` were read and cleared, one
/// after the other, going down.
pub open spec fn cleared<A: AddressSpace>(space: A::V, sp: u32, n: nat) -> A::V
    decreases n,
{
    if n == 0 {
        space
    } else {
        cleared::<A>(A::write8_spec(space, prev_sp(sp), 0), prev_sp(sp), (n - 1) as nat)
    }
}

/// The word that a clearing pop at `sp` yields: as `popped`, but each byte is
/// read after the bytes above it were cleared.
pub open spec fn popped_clearing<A: AddressSpace>(space: A::V, sp: u32) -> u32 {
    word_of(
        A::read8_spec(cleared::<A>(space, sp, 3), sp_after_pop(sp)),
        A::read8_spec(cleared::<A>(space, sp, 2), prev_sp(prev_sp(prev_sp(sp)))),
        A::read8_spec(cleared::<A>(space, sp, 1), prev_sp(prev_sp(sp))),
        A::read8_spec(space, prev_sp(sp)),
    )
}

/// The interrupt kind that a five-bit field encodes, if any.
pub open spec fn interrupt_kind(field: u32) -> Option<InterruptType> {
    if field == 1 {
        Some(InterruptType::Resume)
    } else if field == 2 {
        Some(InterruptType::Halt)
    } else if field == 3 {
        Some(InterruptType::SoftReset)
    } else if field == 4 {
        Some(InterruptType::HardReset)
    } else {
        None
    }
}

/// Thirty-two cleared registers.
pub open spec fn cleared_registers() -> Seq<u32> {
    Seq::new(32, |i: int| 0u32)
}

/// An interrupt on its way to the inbox of core `target`.
#[derive(Clone, Copy, Debug, PartialEq, Eq, Structural)]
pub struct Dispatch {
    pub target: u32,
    pub interrupt: Interrupt,
}

/// The model of a core.
pub struct CoreState {
    pub program_counter: u32,
    pub stack_pointer: u32,
    pub registers: Seq<u32>,
    pub eq_flag: bool,
    pub index: u32,
    pub busy: bool,
    pub halted: bool,
    pub inbox: Seq<Interrupt>,
}

/// What one tick leads to: the next states of the core and of the address
/// space, and either an interrupt to deliver, if one was sent, or a fault.
pub struct Effect<S> {
    pub core: CoreState,
    pub space: S,
    pub outcome: Result<Option<Dispatch>, FaultView>,
}

impl CoreState {
    /// This state with another program counter.
    pub open spec fn with_pc(self, pc: u32) -> CoreState {
        CoreState { program_counter: pc, ..self }
    }

    /// This state with another stack pointer.
    pub open spec fn with_sp(self, sp: u32) -> CoreState {
        CoreState { stack_pointer: sp, ..self }
    }

    /// This state with `value` in register `r`.
    pub open spec fn with_register(self, r: u32, value: u32) -> CoreState {
        CoreState { registers: self.registers.update(r as int, value), ..self }
    }

    /// The report of a fault raised in this state.
    pub open spec fn fault(self, kind: CpuErrorType) -> FaultView {
        FaultView {
            error_type: kind,
            program_counter: self.program_counter,
            stack_pointer: self.stack_pointer,
            register_snapshot: self.registers,
            core_index: self.index,
        }
    }

    /// Whether the stack pointer lies in the stack region or stands at its
    /// limit, about to wrap.
    pub open spec fn stack_bounded(self) -> bool {
        STACK_BASE <= self.stack_pointer <= STACK_LIMIT
    }
}

/// The effect of an instruction that completes without a message or a fault.
pub open spec fn done<S>(core: CoreState, space: S) -> Effect<S> {
    Effect { core, space, outcome: Ok(None) }
}

/// The effect of an instruction that raises a fault in state `core`.
pub open spec fn failed<S>(core: CoreState, space: S, kind: CpuErrorType) -> Effect<S> {
    Effect { core, space, outcome: Err(core.fault(kind)) }
}

/// The state after a soft reset: the program counter is the word of the reset
/// vector that belongs to the core, the stack is empty, the registers stay.
pub open spec fn soft_reset<A: AddressSpace>(core: CoreState, space: A::V) -> CoreState {
    CoreState {
        program_counter: fetched_word::<A>(space, (core.index * 4) as u32),
        stack_pointer: STACK_BASE,
        ..core
    }
}

/// The state after a hard reset: a soft reset, and every register cleared.
pub open spec fn hard_reset<A: AddressSpace>(core: CoreState, space: A::V) -> CoreState {
    CoreState { registers: cleared_registers(), ..soft_reset::<A>(core, space) }
}

/// The state after an interrupt of the given kind was taken.
pub open spec fn interrupted<A: AddressSpace>(
    core: CoreState,
    kind: InterruptType,
    space: A::V,
) -> CoreState {
    match kind {
        InterruptType::Resume => CoreState { halted: false, ..core },
        InterruptType::Halt => CoreState { halted: true, ..core },
        InterruptType::SoftReset => soft_reset::<A>(core, space),
        InterruptType::HardReset => hard_reset::<A>(core, space),
    }
}

/// The effect of the instruction `word` on a core whose program counter
/// already stands behind it.
pub open spec fn execute<A: AddressSpace>(core: CoreState, space: A::V, word: u32) -> Effect<A::V> {
    let a = operand_a(word);
    let b = operand_b(word);
    let c = operand_c(word);
    let regs = core.registers;
    match operation_of(word) {
        OpCode::NOOP => done(core, space),
        OpCode::LOAD_IMM => done(core.with_register(a, immediate20(word)), space),
        OpCode::LDUP_IMM => done(core.with_register(a, immediate20(word) << 12), space),
        OpCode::STOR_IMM => done(
            core,
            A::write8_spec(space, immediate20(word), byte_of(regs[a as int], 0)),
        ),
        OpCode::LOAD_BYTE => done(
            core.with_register(a, A::read8_spec(space, regs[b as int]) as u32),
            space,
        ),
        OpCode::STOR_BYTE => done(
            core,
            A::write8_spec(space, regs[a as int], byte_of(regs[b as int], 0)),
        ),
        OpCode::JUMP_IMM => done(core.with_pc(immediate25(word)), space),
        OpCode::JUMP_REG => done(core.with_pc(regs[a as int]), space),
        OpCode::BRAN_IMM => done(
            core.with_sp(sp_after_push(core.stack_pointer)).with_pc(immediate25(word)),
            pushed::<A>(space, core.stack_pointer, core.program_counter),
        ),
        OpCode::BRAN_REG => done(
            core.with_sp(sp_after_push(core.stack_pointer)).with_pc(regs[a as int]),
            pushed::<A>(space, core.stack_pointer, core.program_counter),
        ),
        OpCode::ADD => {
            let sum = regs[b as int] + regs[c as int];
            if sum > u32::MAX {
                failed(
                    core.with_register(a, (sum / 2) as u32),
                    space,
                    CpuErrorType::AddWithOverflow,
                )
            } else {
                done(core.with_register(a, sum as u32), space)
            }
        },
        OpCode::SUB => if regs[b as int] >= regs[c as int] {
            done(core.with_register(a, (regs[b as int] - regs[c as int]) as u32), space)
        } else {
            failed(core, space, CpuErrorType::SubWithOverflow)
        },
        OpCode::AND => done(core.with_register(a, regs[b as int] & regs[c as int]), space),
        OpCode::ORR => done(core.with_register(a, regs[b as int] | regs[c as int]), space),
        OpCode::ORI => done(core.with_register(a, regs[a as int] | immediate20(word)), space),
        OpCode::XOR => done(core.with_register(a, regs[b as int] ^ regs[c as int]), space),
        OpCode::RTRN_POP => done(
            core.with_sp(sp_after_pop(core.stack_pointer)).with_pc(
                popped_clearing::<A>(space, core.stack_pointer),
            ),
            cleared::<A>(space, core.stack_pointer, 4),
        ),
        OpCode::RTRN => done(
            core.with_sp(sp_after_pop(core.stack_pointer)).with_pc(
                popped::<A>(space, core.stack_pointer),
            ),
            space,
        ),
        OpCode::RSET_SOFT => done(soft_reset::<A>(core, space), space),
        OpCode::RSET_HARD => done(hard_reset::<A>(core, space), space),
        OpCode::HALT => failed(core, space, CpuErrorType::Halt),
        OpCode::IRPT_SEND => if a < CORE_COUNT {
            match interrupt_kind(b) {
                Some(kind) => Effect {
                    core,
                    space,
                    outcome: Ok(
                        Some(
                            Dispatch {
                                target: a,
                                interrupt: Interrupt { sender_id: core.index, interrupt_type: kind },
                            },
                        ),
                    ),
                },
                None => failed(core, space, CpuErrorType::InvalidInstruction(word)),
            }
        } else {
            done(core, space)
        },
    }
}

/// The effect of one tick. A core with a message in its inbox takes the
/// oldest one and fetches nothing; any other core fetches the word at its
/// program counter and executes it.
pub open spec fn tick_spec<A: AddressSpace>(core: CoreState, space: A::V) -> Effect<A::V> {
    if core.inbox.len() > 0 {
        done(
            interrupted::<A>(
                CoreState { inbox: core.inbox.subrange(1, core.inbox.len() as int), ..core },
                core.inbox[0].interrupt_type,
                space,
            ),
            space,
        )
    } else {
        execute::<A>(
            core.with_pc(pc_after_fetch(core.program_counter)),
            space,
            fetched_word::<A>(space, core.program_counter),
        )
    }
}

/// The model of what a tick hands back: the fault, where there is one, by its
/// view.
pub open spec fn outcome_view(result: Result<Option<Dispatch>, CpuError>) -> Result<
    Option<Dispatch>,
    FaultView,
> {
    match result {
        Ok(sent) => Ok(sent),
        Err(error) => Err(error@),
    }
}

/// One execution context of the machine.
#[derive(Debug)]
pub struct Core {
    pub program_counter: u32,
    pub stack_pointer: u32,
    pub registers: [u32; 32],
    pub eq_flag: bool,
    pub index: u32,
    pub busy: bool,
    pub halted: bool,
    pub inbox: VecDeque<Interrupt>,
}

impl View for Core {
    type V = CoreState;

    open spec fn view(&self) -> CoreState {
        CoreState {
            program_counter: self.program_counter,
            stack_pointer: self.stack_pointer,
            registers: self.registers@,
            eq_flag: self.eq_flag,
            index: self.index,
            busy: self.busy,
            halted: self.halted,
            inbox: self.inbox@,
        }
    }
}

impl Core {
    /// Whether the index names one of the cores of the machine.
    pub open spec fn wf(&self) -> bool {
        self.index < CORE_COUNT
    }

    /// Core `index` as it comes up: idle, not halted, registers cleared, inbox
    /// empty, stack empty, and the program counter taken from the reset
    /// vector.
    pub fn new<A: AddressSpace>(index: u32, space: &A) -> (core: Core)
        requires
            index < CORE_COUNT,
        ensures
            core.wf(),
            core@ == (CoreState {
                program_counter: fetched_word::<A>(space@, (index * 4) as u32),
                stack_pointer: STACK_BASE,
                registers: cleared_registers(),
                eq_flag: false,
                index,
                busy: false,
                halted: false,
                inbox: Seq::empty(),
            }),
    {
        let mut core = Core {
            program_counter: index * 4,
            stack_pointer: STACK_BASE,
            registers: [0u32; 32],
            eq_flag: false,
            index,
            busy: false,
            halted: false,
            inbox: VecDeque::new(),
        };
        core.reset_hard(space);
        core
    }

    /// Performs a soft reset.
    pub fn reset_soft<A: AddressSpace>(&mut self, space: &A)
        requires
            old(self).wf(),
        ensures
            final(self)@ == soft_reset::<A>(old(self)@, space@),
    {
        self.program_counter = self.index * 4;
        let start = self.fetch_u32(space);
        self.program_counter = start;
        self.stack_pointer = STACK_BASE;
    }

    /// Performs a hard reset.
    pub fn reset_hard<A: AddressSpace>(&mut self, space: &A)
        requires
            old(self).wf(),
        ensures
            final(self)@ == hard_reset::<A>(old(self)@, space@),
    {
        self.reset_soft(space);
        self.registers = [0u32; 32];
        assert(self.registers@ =~= cleared_registers());
    }

    /// Moves the program counter one byte forward, or to zero from the end of
    /// the code and data region.
    pub fn advance_pc(&mut self)
        ensures
            final(self)@ == old(self)@.with_pc(next_pc(old(self).program_counter)),
    {
        if self.program_counter < CODE_LIMIT {
            self.program_counter += 1;
        } else {
            self.program_counter = 0;
        }
    }

    /// Moves the stack pointer one byte up, or to the base of the stack from
    /// its limit.
    pub fn advance_sp(&mut self)
        ensures
            final(self)@ == old(self)@.with_sp(next_sp(old(self).stack_pointer)),
    {
        if self.stack_pointer < STACK_LIMIT {
            self.stack_pointer += 1;
        } else {
            self.stack_pointer = STACK_BASE;
        }
    }

    /// Moves the stack pointer one byte down, or to the top of the stack from
    /// its base.
    pub fn decrease_sp(&mut self)
        ensures
            final(self)@ == old(self)@.with_sp(prev_sp(old(self).stack_pointer)),
    {
        if self.stack_pointer > STACK_BASE {
            self.stack_pointer -= 1;
        } else {
            self.stack_pointer = STACK_TOP;
        }
    }

    /// Writes one byte to the address space.
    pub fn write_byte<A: AddressSpace>(&self, space: &mut A, address: u32, value: u8)
        ensures
            final(space)@ == A::write8_spec(old(space)@, address, value),
    {
        space.write8(address, value);
    }

    /// Reads one byte from the address space.
    pub fn read_byte<A: AddressSpace>(&self, space: &A, address: u32) -> (byte: u8)
        ensures
            byte == A::read8_spec(space@, address),
    {
        space.read8(address)
    }

    /// Pushes `value`: four bytes at the stack pointer, least significant
    /// first, the stack pointer moving up after each.
    pub fn write_u32_to_ram<A: AddressSpace>(&mut self, space: &mut A, value: u32)
        ensures
            final(self)@ == old(self)@.with_sp(sp_after_push(old(self).stack_pointer)),
            final(space)@ == pushed::<A>(old(space)@, old(self).stack_pointer, value),
    {
        let bytes = to_bytes(value);
        self.write_byte(space, self.stack_pointer, bytes[0]);
        self.advance_sp();
        self.write_byte(space, self.stack_pointer, bytes[1]);
        self.advance_sp();
        self.write_byte(space, self.stack_pointer, bytes[2]);
        self.advance_sp();
        self.write_byte(space, self.stack_pointer, bytes[3]);
        self.advance_sp();
    }

    /// Pops a word: four bytes, the stack pointer moving down before each,
    /// the first byte read being the most significant. The bytes stay.
    pub fn read_u32_from_ram<A: AddressSpace>(&mut self, space: &A) -> (value: u32)
        ensures
            final(self)@ == old(self)@.with_sp(sp_after_pop(old(self).stack_pointer)),
            value == popped::<A>(space@, old(self).stack_pointer),
    {
        self.decrease_sp();
        let b3 = self.read_byte(space, self.stack_pointer);
        self.decrease_sp();
        let b2 = self.read_byte(space, self.stack_pointer);
        self.decrease_sp();
        let b1 = self.read_byte(space, self.stack_pointer);
        self.decrease_sp();
        let b0 = self.read_byte(space, self.stack_pointer);
        from_bytes(b0, b1, b2, b3)
    }

    /// Pops a word as `read_u32_from_ram` does, and clears each byte once it
    /// is read.
    pub fn pop_u32_from_ram<A: AddressSpace>(&mut self, space: &mut A) -> (value: u32)
        ensures
            final(self)@ == old(self)@.with_sp(sp_after_pop(old(self).stack_pointer)),
            value == popped_clearing::<A>(old(space)@, old(self).stack_pointer),
            final(space)@ == cleared::<A>(old(space)@, old(self).stack_pointer, 4),
    {
        reveal_with_fuel(cleared, 5);
        self.decrease_sp();
        let b3 = self.read_byte(space, self.stack_pointer);
        self.write_byte(space, self.stack_pointer, 0);
        self.decrease_sp();
        let b2 = self.read_byte(space, self.stack_pointer);
        self.write_byte(space, self.stack_pointer, 0);
        self.decrease_sp();
        let b1 = self.read_byte(space, self.stack_pointer);
        self.write_byte(space, self.stack_pointer, 0);
        self.decrease_sp();
        let b0 = self.read_byte(space, self.stack_pointer);
        self.write_byte(space, self.stack_pointer, 0);
        from_bytes(b0, b1, b2, b3)
    }

    /// Fetches the word at the program counter: four bytes, least significant
    /// first, the program counter moving forward after each.
    pub fn fetch_u32<A: AddressSpace>(&mut self, space: &A) -> (word: u32)
        ensures
            final(self)@ == old(self)@.with_pc(pc_after_fetch(old(self).program_counter)),
            word == fetched_word::<A>(space@, old(self).program_counter),
    {
        let b0 = space.read8(self.program_counter);
        self.advance_pc();
        let b1 = space.read8(self.program_counter);
        self.advance_pc();
        let b2 = space.read8(self.program_counter);
        self.advance_pc();
        let b3 = space.read8(self.program_counter);
        self.advance_pc();
        from_bytes(b0, b1, b2, b3)
    }

    /// Takes an interrupt: `Resume` clears the halted flag, `Halt` sets it,
    /// and the two resets reset the core.
    pub fn handle_interrupts<A: AddressSpace>(&mut self, interrupt: Interrupt, space: &A)
        requires
            old(self).wf(),
        ensures
            final(self)@ == interrupted::<A>(old(self)@, interrupt.interrupt_type, space@),
    {
        match interrupt.interrupt_type {
            InterruptType::Resume => {
                self.halted = false;
            },
            InterruptType::Halt => {
                self.halted = true;
            },
            InterruptType::SoftReset => self.reset_soft(space),
            InterruptType::HardReset => self.reset_hard(space),
        }
    }

    /// Whether the core has nothing to do: it is idle and its inbox is empty,
    /// so only an interrupt can make it go on.
    pub fn waits(&self) -> (waiting: bool)
        ensures
            waiting == (self@.inbox.len() == 0 && !self@.busy),
    {
        self.inbox.len() == 0 && !self.busy
    }

    /// The report of a fault of the given kind raised by this core now.
    pub fn fault(&self, kind: CpuErrorType) -> (error: CpuError)
        ensures
            error@ == self@.fault(kind),
    {
        CpuError::new(self.program_counter, self.stack_pointer, self.registers, kind, self.index)
    }

    /// Runs one tick. A core with a message in its inbox takes the oldest one
    /// and fetches nothing. Any other core fetches the word at its program
    /// counter and executes it. An interrupt that the instruction sends is
    /// handed back for delivery; a fault is handed back with the state of the
    /// core at the moment it was raised.
    pub fn tick<A: AddressSpace>(&mut self, space: &mut A) -> (result: Result<
        Option<Dispatch>,
        CpuError,
    >)
        requires
            old(self).wf(),
        ensures
            final(self).wf(),
            final(self)@ == tick_spec::<A>(old(self)@, old(space)@).core,
            final(space)@ == tick_spec::<A>(old(self)@, old(space)@).space,
            outcome_view(result) == tick_spec::<A>(old(self)@, old(space)@).outcome,
    {
        if let Some(interrupt) = self.inbox.pop_front() {
            self.handle_interrupts(interrupt, space);
            return Ok(None);
        }
        let instruction = self.fetch_u32(space);
        match decode(instruction) {
            OpCode::NOOP => {},
            OpCode::LOAD_IMM => {
                let rde = extract_a(instruction);
                self.registers[rde as usize] = extract_imm20(instruction);
            },
            OpCode::LDUP_IMM => {
                let rde = extract_a(instruction);
                self.registers[rde as usize] = extract_imm20(instruction) << 12;
            },
            OpCode::STOR_IMM => {
                let rs1 = extract_a(instruction);
                let value = to_bytes(self.registers[rs1 as usize]);
                self.write_byte(space, extract_imm20(instruction), value[0]);
            },
            OpCode::LOAD_BYTE => {
                let rde = extract_a(instruction);
                let rs1 = extract_b(instruction);
                let value = self.read_byte(space, self.registers[rs1 as usize]);
                self.registers[rde as usize] = value as u32;
            },
            OpCode::STOR_BYTE => {
                let rs1 = extract_a(instruction);
                let rs2 = extract_b(instruction);
                let value = to_bytes(self.registers[rs2 as usize]);
                self.write_byte(space, self.registers[rs1 as usize], value[0]);
            },
            OpCode::JUMP_IMM => {
                self.program_counter = extract_imm25(instruction);
            },
            OpCode::JUMP_REG => {
                let rs1 = extract_a(instruction);
                self.program_counter = self.registers[rs1 as usize];
            },
            OpCode::BRAN_IMM => {
                self.write_u32_to_ram(space, self.program_counter);
                self.program_counter = extract_imm25(instruction);
            },
            OpCode::BRAN_REG => {
                self.write_u32_to_ram(space, self.program_counter);
                let rs1 = extract_a(instruction);
                self.program_counter = self.registers[rs1 as usize];
            },
            OpCode::ADD => {
                let rde = extract_a(instruction);
                let rs1 = extract_b(instruction);
                let rs2 = extract_c(instruction);
                let sum: u64 = self.registers[rs1 as usize] as u64
                    + self.registers[rs2 as usize] as u64;
                if sum > u32::MAX as u64 {
                    assert(sum >> 1 == sum / 2 && sum >> 1 <= 0xFFFF_FFFF) by (bit_vector)
                        requires
                            sum <= 0x1_FFFF_FFFE,
                    ;
                    self.registers[rde as usize] = (sum >> 1) as u32;
                    return Err(self.fault(CpuErrorType::AddWithOverflow));
                } else {
                    self.registers[rde as usize] = sum as u32;
                }
            },
            OpCode::SUB => {
                let rde = extract_a(instruction);
                let rs1 = extract_b(instruction);
                let rs2 = extract_c(instruction);
                if self.registers[rs1 as usize] >= self.registers[rs2 as usize] {
                    self.registers[rde as usize] = self.registers[rs1 as usize]
                        - self.registers[rs2 as usize];
                } else {
                    return Err(self.fault(CpuErrorType::SubWithOverflow));
                }
            },
            OpCode::AND => {
                let rde = extract_a(instruction);
                let rs1 = extract_b(instruction);
                let rs2 = extract_c(instruction);
                self.registers[rde as usize] = self.registers[rs1 as usize]
                    & self.registers[rs2 as usize];
            },
            OpCode::ORR => {
                let rde = extract_a(instruction);
                let rs1 = extract_b(instruction);
                let rs2 = extract_c(instruction);
                self.registers[rde as usize] = self.registers[rs1 as usize]
                    | self.registers[rs2 as usize];
            },
            OpCode::ORI => {
                let rde = extract_a(instruction);
                self.registers[rde as usize] = self.registers[rde as usize] | extract_imm20(
                    instruction,
                );
            },
            OpCode::XOR => {
                let rde = extract_a(instruction);
                let rs1 = extract_b(instruction);
                let rs2 = extract_c(instruction);
                self.registers[rde as usize] = self.registers[rs1 as usize]
                    ^ self.registers[rs2 as usize];
            },
            OpCode::RTRN_POP => {
                let target = self.pop_u32_from_ram(space);
                self.program_counter = target;
            },
            OpCode::RTRN => {
                let target = self.read_u32_from_ram(space);
                self.program_counter = target;
            },
            OpCode::RSET_SOFT => self.reset_soft(space),
            OpCode::RSET_HARD => self.reset_hard(space),
            OpCode::HALT => {
                return Err(self.fault(CpuErrorType::Halt));
            },
            OpCode::IRPT_SEND => {
                let target = extract_a(instruction);
                let kind = extract_b(instruction);
                if target < CORE_COUNT {
                    let interrupt_type = match kind {
                        1 => InterruptType::Resume,
                        2 => InterruptType::Halt,
                        3 => InterruptType::SoftReset,
                        4 => InterruptType::HardReset,
                        _ => {
                            return Err(
                                self.fault(CpuErrorType::InvalidInstruction(instruction)),
                            );
                        },
                    };
                    return Ok(
                        Some(
                            Dispatch {
                                target,
                                interrupt: Interrupt { sender_id: self.index, interrupt_type },
                            },
                        ),
                    );
                }
            },
        }
        Ok(None)
    }
}

/// The highest stack pointer from which a push ends inside the stack region
/// or at its limit without wrapping.
pub const LAST_PUSH: u32 = 0x7FFF_FFFC;

/// The highest program counter from which a fetch does not wrap.
pub const LAST_FETCH: u32 = 0x3FFF_FFFC;

/// Fetches tile memory. A fetch that starts at or below `LAST_FETCH` ends
/// four bytes further, so it starts on a multiple of four exactly if it ends
/// on one. A tick that takes no interrupt and executes neither a jump, a
/// branch, a return nor a reset ends where its fetch ended, which is where
/// the fetch of the next tick begins.
pub proof fn lemma_sequential_ticks_advance_by_four<A: AddressSpace>(core: CoreState, space: A::V)
    requires
        core.inbox.len() == 0,
        !operation_of(fetched_word::<A>(space, core.program_counter)).redirects(),
    ensures
        tick_spec::<A>(core, space).core.program_counter == pc_after_fetch(core.program_counter),
        core.program_counter <= LAST_FETCH ==> pc_after_fetch(core.program_counter)
            == core.program_counter + 4,
        core.program_counter <= LAST_FETCH ==> (pc_after_fetch(core.program_counter) % 4 == 0
            <==> core.program_counter % 4 == 0),
{
}

/// The stack pointer never leaves the stack. From anywhere between the base
/// of the stack and its limit, a tick ends between the base and the limit.
/// From inside the stack region it ends inside the stack region, unless it
/// pushes from `LAST_PUSH`, where the push ends at the limit.
pub proof fn lemma_stack_pointer_stays_in_stack<A: AddressSpace>(core: CoreState, space: A::V)
    requires
        core.stack_bounded(),
    ensures
        tick_spec::<A>(core, space).core.stack_bounded(),
        core.stack_pointer <= STACK_TOP && !(core.inbox.len() == 0 && core.stack_pointer
            == LAST_PUSH && operation_of(fetched_word::<A>(space, core.program_counter)).pushes())
            ==> STACK_BASE <= tick_spec::<A>(core, space).core.stack_pointer <= STACK_TOP,
{
}

/// A tick changes neither the index of a core nor its busy flag nor its
/// equality flag, and it takes at most the oldest message from the inbox.
pub proof fn lemma_tick_keeps_identity<A: AddressSpace>(core: CoreState, space: A::V)
    ensures
        tick_spec::<A>(core, space).core.index == core.index,
        tick_spec::<A>(core, space).core.busy == core.busy,
        tick_spec::<A>(core, space).core.eq_flag == core.eq_flag,
        core.inbox.len() == 0 ==> tick_spec::<A>(core, space).core.inbox == core.inbox,
        core.inbox.len() > 0 ==> tick_spec::<A>(core, space).core.inbox == core.inbox.subrange(
            1,
            core.inbox.len() as int,
        ),
{
}

/// The register file has thirty-two slots and keeps them. Every operand of
/// every instruction word names one of them, a tick leaves thirty-two, and a
/// write to one register changes no other.
pub proof fn lemma_register_file_is_closed<A: AddressSpace>(
    core: CoreState,
    space: A::V,
    word: u32,
    r: u32,
    value: u32,
)
    requires
        core.registers.len() == 32,
    ensures
        operand_a(word) < 32 && operand_b(word) < 32 && operand_c(word) < 32,
        tick_spec::<A>(core, space).core.registers.len() == 32,
        r < 32 ==> core.with_register(r, value).registers.len() == 32,
        r < 32 ==> forall|j: int|
            0 <= j < 32 ==> core.with_register(r, value).registers[j] == if j == r {
                value
            } else {
                core.registers[j]
            },
{
    lemma_fields_in_range(word);
    lemma_fields_in_range(fetched_word::<A>(space, core.program_counter));
}

/// Addition. Where the sum of the two source registers fits in 32 bits, the
/// destination holds the sum and no fault is raised. Where it does not, the
/// destination holds the sum shifted right by one bit and the minor fault
/// `AddWithOverflow` is raised, its snapshot taken after the write.
pub proof fn lemma_add<A: AddressSpace>(core: CoreState, space: A::V)
    requires
        core.inbox.len() == 0,
        core.registers.len() == 32,
        operation_of(fetched_word::<A>(space, core.program_counter)) == OpCode::ADD,
    ensures
        ({
            let word = fetched_word::<A>(space, core.program_counter);
            let sum = core.registers[operand_b(word) as int] + core.registers[operand_c(
                word,
            ) as int];
            let after = tick_spec::<A>(core, space);
            &&& after.space == space
            &&& sum <= u32::MAX ==> after.core.registers[operand_a(word) as int] == sum
                && after.outcome == Ok::<Option<Dispatch>, FaultView>(None)
            &&& sum > u32::MAX ==> after.core.registers[operand_a(word) as int] == sum / 2
                && after.outcome == Err::<Option<Dispatch>, FaultView>(
                after.core.fault(CpuErrorType::AddWithOverflow),
            ) && CpuErrorType::AddWithOverflow.severity_spec() == CpuErrorSeverity::Minor
        }),
{
    lemma_fields_in_range(fetched_word::<A>(space, core.program_counter));
}

/// The reset vectors. A reset of core `i` sets the program counter to the
/// word that the four bytes from address `4 * i` on hold, least significant
/// first.
pub proof fn lemma_reset_reads_the_vector<A: AddressSpace>(core: CoreState, space: A::V)
    requires
        core.index < CORE_COUNT,
    ensures
        soft_reset::<A>(core, space).program_counter == word_at::<A>(
            space,
            (4 * core.index) as u32,
        ),
        hard_reset::<A>(core, space).program_counter == word_at::<A>(
            space,
            (4 * core.index) as u32,
        ),
{
}

/// A second hard reset changes nothing: after one, every register is zero,
/// the stack is empty and the program counter is the word of the reset
/// vector, and the same holds after two. The same is true of the soft reset.
pub proof fn lemma_reset_is_idempotent<A: AddressSpace>(core: CoreState, space: A::V)
    ensures
        hard_reset::<A>(hard_reset::<A>(core, space), space) == hard_reset::<A>(core, space),
        soft_reset::<A>(soft_reset::<A>(core, space), space) == soft_reset::<A>(core, space),
        interrupted::<A>(
            interrupted::<A>(core, InterruptType::HardReset, space),
            InterruptType::HardReset,
            space,
        ) == interrupted::<A>(core, InterruptType::HardReset, space),
        hard_reset::<A>(core, space).registers == cleared_registers(),
        hard_reset::<A>(core, space).stack_pointer == STACK_BASE,
        hard_reset::<A>(core, space).program_counter == fetched_word::<A>(
            space,
            (core.index * 4) as u32,
        ),
{
}

/// The word that the four bytes from `at` on hold, least significant first.
pub open spec fn word_at<A: AddressSpace>(space: A::V, at: u32) -> u32 {
    word_of(
        A::read8_spec(space, at),
        A::read8_spec(space, (at + 1) as u32),
        A::read8_spec(space, (at + 2) as u32),
        A::read8_spec(space, (at + 3) as u32),
    )
}

/// Whether the four bytes from `at` on are plain memory.
pub open spec fn plain_word<S>(bus: BusView<S>, at: u32) -> bool {
    &&& plain(bus, at)
    &&& plain(bus, (at + 1) as u32)
    &&& plain(bus, (at + 2) as u32)
    &&& plain(bus, (at + 3) as u32)
}

/// A pop reads what a push wrote. A push from `sp` ends four bytes above it,
/// and a pop from there ends at `sp` and yields the word that the four bytes
/// from `sp` on hold: the byte order of the pop, most significant first while
/// going down, matches that of the push, least significant first while going
/// up.
pub proof fn lemma_pop_reads_the_pushed_bytes<A: AddressSpace>(space: A::V, sp: u32)
    requires
        STACK_BASE <= sp <= LAST_PUSH,
    ensures
        sp_after_push(sp) == sp + 4,
        sp_after_pop((sp + 4) as u32) == sp,
        popped::<A>(space, (sp + 4) as u32) == word_at::<A>(space, sp),
{
}

/// A return goes back to what the stack holds. Whatever ran since the branch,
/// where no interrupt is pending, the word below the stack pointer is `link`
/// and the instruction is a return that leaves the stack bytes in place, the
/// tick ends at `link` with the stack pointer four bytes lower.
pub proof fn lemma_return_restores<A: AddressSpace>(core: CoreState, space: A::V, link: u32)
    requires
        core.inbox.len() == 0,
        STACK_BASE + 4 <= core.stack_pointer <= STACK_LIMIT,
        word_at::<A>(space, (core.stack_pointer - 4) as u32) == link,
        operation_of(fetched_word::<A>(space, core.program_counter)) == OpCode::RTRN,
    ensures
        tick_spec::<A>(core, space).core.program_counter == link,
        tick_spec::<A>(core, space).core.stack_pointer == core.stack_pointer - 4,
        tick_spec::<A>(core, space).core.registers == core.registers,
        tick_spec::<A>(core, space).space == space,
        tick_spec::<A>(core, space).outcome == Ok::<Option<Dispatch>, FaultView>(None),
{
    lemma_pop_reads_the_pushed_bytes::<A>(space, (core.stack_pointer - 4) as u32);
}

/// On a bus, a push to plain memory stores the word: the four bytes hold it
/// afterwards, every address outside the four reads as before, what was
/// plain memory still is, and the regions are untouched.
pub proof fn lemma_push_stores_on_plain_memory<D: AddressSpace>(
    bus: BusView<D::V>,
    sp: u32,
    value: u32,
    other: u32,
)
    requires
        STACK_BASE <= sp <= LAST_PUSH,
        plain_word(bus, sp),
    ensures
        word_at::<Bus<D>>(pushed::<Bus<D>>(bus, sp, value), sp) == value,
        !(sp <= other < sp + 4) ==> Bus::<D>::read8_spec(pushed::<Bus<D>>(bus, sp, value), other)
            == Bus::<D>::read8_spec(bus, other),
        plain(bus, other) ==> plain(pushed::<Bus<D>>(bus, sp, value), other),
        pushed::<Bus<D>>(bus, sp, value).regions == bus.regions,
{
    let a0 = sp;
    let a1 = (sp + 1) as u32;
    let a2 = (sp + 2) as u32;
    let a3 = (sp + 3) as u32;
    let s1 = Bus::<D>::write8_spec(bus, a0, byte_of(value, 0));
    let s2 = Bus::<D>::write8_spec(s1, a1, byte_of(value, 1));
    let s3 = Bus::<D>::write8_spec(s2, a2, byte_of(value, 2));
    let s4 = Bus::<D>::write8_spec(s3, a3, byte_of(value, 3));
    assert(s4 == pushed::<Bus<D>>(bus, sp, value));
    lemma_plain_memory_stores::<D>(bus, a0, byte_of(value, 0), other);
    lemma_plain_memory_stores::<D>(bus, a0, byte_of(value, 0), a1);
    lemma_plain_memory_stores::<D>(bus, a0, byte_of(value, 0), a2);
    lemma_plain_memory_stores::<D>(bus, a0, byte_of(value, 0), a3);
    lemma_plain_memory_stores::<D>(s1, a1, byte_of(value, 1), other);
    lemma_plain_memory_stores::<D>(s1, a1, byte_of(value, 1), a0);
    lemma_plain_memory_stores::<D>(s1, a1, byte_of(value, 1), a2);
    lemma_plain_memory_stores::<D>(s1, a1, byte_of(value, 1), a3);
    lemma_plain_memory_stores::<D>(s2, a2, byte_of(value, 2), other);
    lemma_plain_memory_stores::<D>(s2, a2, byte_of(value, 2), a0);
    lemma_plain_memory_stores::<D>(s2, a2, byte_of(value, 2), a1);
    lemma_plain_memory_stores::<D>(s2, a2, byte_of(value, 2), a3);
    lemma_plain_memory_stores::<D>(s3, a3, byte_of(value, 3), other);
    lemma_plain_memory_stores::<D>(s3, a3, byte_of(value, 3), a0);
    lemma_plain_memory_stores::<D>(s3, a3, byte_of(value, 3), a1);
    lemma_plain_memory_stores::<D>(s3, a3, byte_of(value, 3), a2);
    lemma_word_round_trip(value, 0, 0, 0, 0);
}

/// Call and return. A core whose stack is plain memory executes a branch and,
/// at the target, a return. The return leaves the stack pointer where it was
/// before the branch and the program counter behind the branch instruction.
pub proof fn lemma_branch_then_return<D: AddressSpace>(core: CoreState, bus: BusView<D::V>)
    requires
        core.inbox.len() == 0,
        core.registers.len() == 32,
        STACK_BASE <= core.stack_pointer <= LAST_PUSH,
        plain_word(bus, core.stack_pointer),
        operation_of(fetched_word::<Bus<D>>(bus, core.program_counter)).pushes(),
        ({
            let branched = tick_spec::<Bus<D>>(core, bus);
            operation_of(
                fetched_word::<Bus<D>>(branched.space, branched.core.program_counter),
            ).pops()
        }),
    ensures
        ({
            let branched = tick_spec::<Bus<D>>(core, bus);
            let returned = tick_spec::<Bus<D>>(branched.core, branched.space);
            &&& branched.outcome == Ok::<Option<Dispatch>, FaultView>(None)
            &&& branched.core.stack_pointer == core.stack_pointer + 4
            &&& returned.outcome == Ok::<Option<Dispatch>, FaultView>(None)
            &&& returned.core.stack_pointer == core.stack_pointer
            &&& returned.core.program_counter == pc_after_fetch(core.program_counter)
            &&& returned.core.registers == core.registers
        }),
{
    let sp = core.stack_pointer;
    let link = pc_after_fetch(core.program_counter);
    let stacked = pushed::<Bus<D>>(bus, sp, link);
    let top = (sp + 4) as u32;
    let a1 = (sp + 1) as u32;
    let a2 = (sp + 2) as u32;
    let a3 = (sp + 3) as u32;
    lemma_push_stores_on_plain_memory::<D>(bus, sp, link, sp);
    lemma_push_stores_on_plain_memory::<D>(bus, sp, link, a1);
    lemma_push_stores_on_plain_memory::<D>(bus, sp, link, a2);
    lemma_push_stores_on_plain_memory::<D>(bus, sp, link, a3);
    lemma_pop_reads_the_pushed_bytes::<Bus<D>>(stacked, sp);
    // A clearing pop reads each byte before it clears it, and clears only
    // bytes that it has read.
    reveal_with_fuel(cleared, 4);
    let c1 = Bus::<D>::write8_spec(stacked, a3, 0);
    let c2 = Bus::<D>::write8_spec(c1, a2, 0);
    lemma_plain_memory_stores::<D>(stacked, a3, 0, a2);
    lemma_plain_memory_stores::<D>(stacked, a3, 0, a1);
    lemma_plain_memory_stores::<D>(stacked, a3, 0, sp);
    lemma_plain_memory_stores::<D>(c1, a2, 0, a1);
    lemma_plain_memory_stores::<D>(c1, a2, 0, sp);
    lemma_plain_memory_stores::<D>(c2, a1, 0, sp);
    assert(popped_clearing::<Bus<D>>(stacked, top) == popped::<Bus<D>>(stacked, top));
}

} // verus!
