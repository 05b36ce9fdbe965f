//! Faults, interrupts and the failure policy of the processor.

use vstd::prelude::*;

use crate::mmio::AddressSpace;
use crate::opcodes::operand_a;
use crate::opcodes::operand_b;
use crate::opcodes::operation_of;
use crate::opcodes::OpCode;
use crate::processor::cleared_registers;
use crate::processor::fetched_word;
use crate::processor::interrupt_kind;
use crate::processor::interrupted;
use crate::processor::tick_spec;
use crate::processor::Core;
use crate::processor::CoreState;
use crate::processor::Dispatch;
use crate::processor::CORE_COUNT;
use crate::processor::STACK_BASE;

verus! {

/// How the machine reacts to faults.
#[derive(Clone, Copy, Debug, PartialEq, Eq, Structural)]
pub enum CpuMode {
    /// Any fault shuts the machine down.
    Safe,
    /// A severe fault shuts the machine down; a minor one is ignored.
    Stable,
    /// Every fault is ignored.
    Unstable,
    /// Every fault pauses the faulting core until the operator releases it.
    Debug,
}

/// How grave a fault is.
#[derive(Clone, Copy, Debug, PartialEq, Eq, Structural)]
pub enum CpuErrorSeverity {
    Severe,
    Minor,
}

/// The kinds of fault.
#[derive(Clone, Copy, Debug, PartialEq, Eq, Structural)]
pub enum CpuErrorType {
    /// A push went beyond the stack region.
    StackOverflow,
    /// The instruction word cannot be carried out.
    InvalidInstruction(u32),
    /// The operation is known but nothing executes it.
    UnimplementedOpCode(OpCode),
    /// The operation number encodes no operation.
    InvalidOpCode(u32),
    /// A `HALT` instruction was executed.
    Halt,
    /// Reserved.
    DivisionByZero,
    /// A pop went below the base of the stack.
    StackOpOutOfBounds,
    /// An unsigned addition did not fit in 32 bits.
    AddWithOverflow,
    /// An unsigned subtraction went below zero.
    SubWithOverflow,
}

/// Anything that has a severity.
pub trait Severity {
    /// The severity, as a function of the value.
    spec fn severity_spec(&self) -> CpuErrorSeverity;

    fn severity(&self) -> (severity: CpuErrorSeverity)
        ensures
            severity == self.severity_spec(),
    ;
}

impl Severity for CpuErrorType {
    open spec fn severity_spec(&self) -> CpuErrorSeverity {
        match self {
            CpuErrorType::StackOverflow => CpuErrorSeverity::Severe,
            CpuErrorType::InvalidInstruction(_) => CpuErrorSeverity::Severe,
            CpuErrorType::UnimplementedOpCode(_) => CpuErrorSeverity::Severe,
            CpuErrorType::InvalidOpCode(_) => CpuErrorSeverity::Severe,
            CpuErrorType::Halt => CpuErrorSeverity::Severe,
            CpuErrorType::DivisionByZero => CpuErrorSeverity::Minor,
            CpuErrorType::StackOpOutOfBounds => CpuErrorSeverity::Minor,
            CpuErrorType::AddWithOverflow => CpuErrorSeverity::Minor,
            CpuErrorType::SubWithOverflow => CpuErrorSeverity::Minor,
        }
    }

    fn severity(&self) -> (severity: CpuErrorSeverity) {
        match self {
            CpuErrorType::StackOverflow => CpuErrorSeverity::Severe,
            CpuErrorType::InvalidInstruction(_) => CpuErrorSeverity::Severe,
            CpuErrorType::UnimplementedOpCode(_) => CpuErrorSeverity::Severe,
            CpuErrorType::InvalidOpCode(_) => CpuErrorSeverity::Severe,
            CpuErrorType::Halt => CpuErrorSeverity::Severe,
            CpuErrorType::DivisionByZero => CpuErrorSeverity::Minor,
            CpuErrorType::StackOpOutOfBounds => CpuErrorSeverity::Minor,
            CpuErrorType::AddWithOverflow => CpuErrorSeverity::Minor,
            CpuErrorType::SubWithOverflow => CpuErrorSeverity::Minor,
        }
    }
}

/// A fault with the state of the core that raised it. The program counter is
/// the one after the fetch of the faulting instruction.
#[derive(Debug)]
pub struct CpuError {
    pub error_type: CpuErrorType,
    pub program_counter: u32,
    pub stack_pointer: u32,
    pub register_snapshot: [u32; 32],
    pub core_index: u32,
}

/// The model of a fault report.
pub struct FaultView {
    pub error_type: CpuErrorType,
    pub program_counter: u32,
    pub stack_pointer: u32,
    pub register_snapshot: Seq<u32>,
    pub core_index: u32,
}

impl View for CpuError {
    type V = FaultView;

    open spec fn view(&self) -> FaultView {
        FaultView {
            error_type: self.error_type,
            program_counter: self.program_counter,
            stack_pointer: self.stack_pointer,
            register_snapshot: self.register_snapshot@,
            core_index: self.core_index,
        }
    }
}

impl CpuError {
    /// A fault report made of its parts.
    pub fn new(
        program_counter: u32,
        stack_pointer: u32,
        register_snapshot: [u32; 32],
        error_type: CpuErrorType,
        core_index: u32,
    ) -> (error: CpuError)
        ensures
            error@ == (FaultView {
                error_type,
                program_counter,
                stack_pointer,
                register_snapshot: register_snapshot@,
                core_index,
            }),
    {
        CpuError { error_type, program_counter, stack_pointer, register_snapshot, core_index }
    }
}

impl Severity for CpuError {
    open spec fn severity_spec(&self) -> CpuErrorSeverity {
        self.error_type.severity_spec()
    }

    fn severity(&self) -> (severity: CpuErrorSeverity) {
        self.error_type.severity()
    }
}

/// The kinds of interrupt.
#[derive(Clone, Copy, Debug, PartialEq, Eq, Structural)]
pub enum InterruptType {
    Resume,
    Halt,
    SoftReset,
    HardReset,
}

/// A message from one core to another.
#[derive(Clone, Copy, Debug, PartialEq, Eq, Structural)]
pub struct Interrupt {
    pub sender_id: u32,
    pub interrupt_type: InterruptType,
}

/// What the machine does about a fault.
#[derive(Clone, Copy, Debug, PartialEq, Eq, Structural)]
pub enum FaultAction {
    /// Stop the machine with a failure status.
    Shutdown,
    /// Record the fault and go on.
    Ignore,
    /// Hold the faulting core until the operator releases it.
    Pause,
}

/// The failure policy: the action that `mode` prescribes for a fault of the
/// given severity.
pub open spec fn policy(mode: CpuMode, severity: CpuErrorSeverity) -> FaultAction {
    match mode {
        CpuMode::Safe => FaultAction::Shutdown,
        CpuMode::Stable => match severity {
            CpuErrorSeverity::Severe => FaultAction::Shutdown,
            CpuErrorSeverity::Minor => FaultAction::Ignore,
        },
        CpuMode::Unstable => FaultAction::Ignore,
        CpuMode::Debug => FaultAction::Pause,
    }
}

impl CpuMode {
    /// The action that this mode prescribes for `error`.
    pub fn action_for(&self, error: &CpuError) -> (action: FaultAction)
        ensures
            action == policy(*self, error.severity_spec()),
    {
        match self {
            CpuMode::Safe => FaultAction::Shutdown,
            CpuMode::Stable => match error.severity() {
                CpuErrorSeverity::Severe => FaultAction::Shutdown,
                CpuErrorSeverity::Minor => FaultAction::Ignore,
            },
            CpuMode::Unstable => FaultAction::Ignore,
            CpuMode::Debug => FaultAction::Pause,
        }
    }
}

/// How one turn of a core ended.
#[derive(Debug)]
pub enum StepOutcome {
    /// The core is idle and its inbox is empty: it waits for an interrupt.
    Idle,
    /// The core took an interrupt or executed an instruction.
    Ran,
    /// The core raised a fault, for which the failure policy prescribes the
    /// action.
    Faulted(CpuError, FaultAction),
}

/// The model of how a turn ended.
pub enum StepView {
    Idle,
    Ran,
    Faulted(FaultView, FaultAction),
}

impl View for StepOutcome {
    type V = StepView;

    open spec fn view(&self) -> StepView {
        match self {
            StepOutcome::Idle => StepView::Idle,
            StepOutcome::Ran => StepView::Ran,
            StepOutcome::Faulted(error, action) => StepView::Faulted(error@, *action),
        }
    }
}

/// The processor: four cores and the failure policy.
#[derive(Debug)]
pub struct CPU {
    pub mode: CpuMode,
    pub cores: Vec<Core>,
}

/// The model of the processor.
pub struct CpuView {
    pub mode: CpuMode,
    pub cores: Seq<CoreState>,
}

impl View for CPU {
    type V = CpuView;

    open spec fn view(&self) -> CpuView {
        CpuView { mode: self.mode, cores: self.cores@.map_values(|c: Core| c@) }
    }
}

/// Core `index` as it comes up over `space`. Core 0 is busy, the others idle.
pub open spec fn booted<A: AddressSpace>(index: int, space: A::V) -> CoreState {
    CoreState {
        program_counter: fetched_word::<A>(space, (index * 4) as u32),
        stack_pointer: STACK_BASE,
        registers: cleared_registers(),
        eq_flag: false,
        index: index as u32,
        busy: index == 0,
        halted: false,
        inbox: Seq::empty(),
    }
}

/// The cores after `sent` was delivered: it stands last in the inbox of its
/// target. A message for a core that does not exist is dropped.
pub open spec fn delivered(cores: Seq<CoreState>, sent: Dispatch) -> Seq<CoreState> {
    if sent.target < cores.len() {
        cores.update(
            sent.target as int,
            CoreState {
                inbox: cores[sent.target as int].inbox.push(sent.interrupt),
                ..cores[sent.target as int]
            },
        )
    } else {
        cores
    }
}

/// What one turn of a core leads to.
pub struct Turn<S> {
    pub cpu: CpuView,
    pub space: S,
    pub outcome: StepView,
}

/// One turn of core `index`. An idle core with an empty inbox waits. Any
/// other core runs one tick; an interrupt that it sends is delivered, and a
/// fault that it raises is paired with the action of the failure policy.
pub open spec fn step_spec<A: AddressSpace>(cpu: CpuView, space: A::V, index: int) -> Turn<A::V> {
    let core = cpu.cores[index];
    if core.inbox.len() == 0 && !core.busy {
        Turn { cpu, space, outcome: StepView::Idle }
    } else {
        let effect = tick_spec::<A>(core, space);
        let cores = cpu.cores.update(index, effect.core);
        match effect.outcome {
            Ok(None) => Turn {
                cpu: CpuView { mode: cpu.mode, cores },
                space: effect.space,
                outcome: StepView::Ran,
            },
            Ok(Some(sent)) => Turn {
                cpu: CpuView { mode: cpu.mode, cores: delivered(cores, sent) },
                space: effect.space,
                outcome: StepView::Ran,
            },
            Err(fault) => Turn {
                cpu: CpuView { mode: cpu.mode, cores },
                space: effect.space,
                outcome: StepView::Faulted(
                    fault,
                    policy(cpu.mode, fault.error_type.severity_spec()),
                ),
            },
        }
    }
}

/// An interrupt that was sent is the next thing that its target does. When a
/// busy core with an empty inbox executes `IRPT_SEND` for a core that exists,
/// with a kind that exists, the message stands in the inbox of the target
/// after that turn, and where that inbox was empty before, the next turn of
/// the target takes the interrupt and fetches nothing.
pub proof fn lemma_sent_interrupt_is_taken<A: AddressSpace>(
    cpu: CpuView,
    space: A::V,
    sender: int,
    target: int,
    kind: InterruptType,
)
    requires
        cpu.cores.len() == CORE_COUNT,
        0 <= sender < CORE_COUNT,
        0 <= target < CORE_COUNT,
        cpu.cores[sender].busy,
        cpu.cores[sender].inbox.len() == 0,
        cpu.cores[target].inbox.len() == 0,
        ({
            let word = fetched_word::<A>(space, cpu.cores[sender].program_counter);
            &&& operation_of(word) == OpCode::IRPT_SEND
            &&& operand_a(word) == target
            &&& interrupt_kind(operand_b(word)) == Some(kind)
        }),
    ensures
        ({
            let message = Interrupt { sender_id: cpu.cores[sender].index, interrupt_type: kind };
            let sent = step_spec::<A>(cpu, space, sender);
            let taken = step_spec::<A>(sent.cpu, sent.space, target);
            &&& sent.outcome == StepView::Ran
            &&& sent.space == space
            &&& sent.cpu.cores.len() == CORE_COUNT
            &&& sent.cpu.cores[target].inbox == seq![message]
            &&& taken.outcome == StepView::Ran
            &&& taken.space == space
            &&& taken.cpu.cores[target] == interrupted::<A>(
                CoreState { inbox: Seq::empty(), ..sent.cpu.cores[target] },
                kind,
                space,
            )
            &&& sender != target ==> taken.cpu.cores[target] == interrupted::<A>(
                cpu.cores[target],
                kind,
                space,
            )
        }),
{
    let message = Interrupt { sender_id: cpu.cores[sender].index, interrupt_type: kind };
    let sent = step_spec::<A>(cpu, space, sender);
    assert(sent.cpu.cores[target].inbox =~= seq![message]);
    let waiting = sent.cpu.cores[target];
    assert(waiting.inbox.subrange(1, waiting.inbox.len() as int) =~= Seq::empty());
    if sender != target {
        assert(cpu.cores[target].inbox =~= Seq::empty());
    }
}

/// Messages to one core arrive in the order in which they were sent: after
/// two deliveries to the same target its inbox ends with the first message
/// followed by the second, and nothing that waited there before has moved.
pub proof fn lemma_delivery_keeps_order(cores: Seq<CoreState>, first: Dispatch, second: Dispatch)
    requires
        first.target == second.target,
        first.target < cores.len(),
    ensures
        delivered(delivered(cores, first), second)[first.target as int].inbox
            == cores[first.target as int].inbox + seq![first.interrupt, second.interrupt],
        forall|i: int|
            0 <= i < cores.len() && i != first.target ==> delivered(
                delivered(cores, first),
                second,
            )[i] == cores[i],
{
    let target = first.target as int;
    assert(delivered(delivered(cores, first), second)[target].inbox =~= cores[target].inbox
        + seq![first.interrupt, second.interrupt]);
}

impl CPU {
    /// Whether the processor has its four cores.
    pub open spec fn wf(&self) -> bool {
        &&& self.cores.len() == CORE_COUNT
        &&& forall|i: int| 0 <= i < self.cores.len() ==> (#[trigger] self.cores[i]).index == i
    }

    /// A processor over `space`: four cores as they come up, the first of
    /// them busy.
    pub fn new<A: AddressSpace>(mode: CpuMode, space: &A) -> (cpu: CPU)
        ensures
            cpu.wf(),
            cpu@.mode == mode,
            cpu@.cores.len() == CORE_COUNT,
            forall|i: int| 0 <= i < CORE_COUNT ==> cpu@.cores[i] == booted::<A>(i, space@),
    {
        let mut cores: Vec<Core> = Vec::new();
        let mut index: u32 = 0;
        while index < CORE_COUNT
            invariant
                index <= CORE_COUNT,
                cores.len() == index,
                forall|i: int| 0 <= i < index ==> (#[trigger] cores[i]).index == i,
                forall|i: int| 0 <= i < index ==> (#[trigger] cores[i])@ == booted::<A>(i, space@),
            decreases CORE_COUNT - index,
        {
            let mut core = Core::new(index, space);
            if index == 0 {
                core.busy = true;
            }
            cores.push(core);
            index = index + 1;
        }
        CPU { mode, cores }
    }

    /// The action that the failure policy prescribes for `error`.
    pub fn handle_errors(&self, error: &CpuError) -> (action: FaultAction)
        ensures
            action == policy(self.mode, error.severity_spec()),
    {
        self.mode.action_for(error)
    }

    /// Puts `sent` last in the inbox of its target. A message for a core that
    /// does not exist is dropped.
    pub fn deliver(&mut self, sent: Dispatch)
        requires
            old(self).wf(),
        ensures
            final(self).wf(),
            final(self)@.mode == old(self)@.mode,
            final(self)@.cores == delivered(old(self)@.cores, sent),
    {
        let target = sent.target as usize;
        if target < self.cores.len() {
            self.cores[target].inbox.push_back(sent.interrupt);
            assert(self@.cores =~= delivered(old(self)@.cores, sent));
        }
    }

    /// Gives core `index` one turn.
    pub fn step<A: AddressSpace>(&mut self, index: usize, space: &mut A) -> (outcome: StepOutcome)
        requires
            old(self).wf(),
            index < CORE_COUNT,
        ensures
            final(self).wf(),
            final(self)@ == step_spec::<A>(old(self)@, old(space)@, index as int).cpu,
            final(space)@ == step_spec::<A>(old(self)@, old(space)@, index as int).space,
            outcome@ == step_spec::<A>(old(self)@, old(space)@, index as int).outcome,
    {
        if self.cores[index].waits() {
            return StepOutcome::Idle;
        }
        let result = self.cores[index].tick(space);
        assert(self@.cores =~= old(self)@.cores.update(
            index as int,
            tick_spec::<A>(old(self)@.cores[index as int], old(space)@).core,
        ));
        match result {
            Ok(None) => StepOutcome::Ran,
            Ok(Some(sent)) => {
                self.deliver(sent);
                StepOutcome::Ran
            },
            Err(error) => {
                let action = self.mode.action_for(&error);
                StepOutcome::Faulted(error, action)
            },
        }
    }
}

} // verus!
