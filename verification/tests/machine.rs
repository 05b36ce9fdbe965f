use rustyvm::cpu::{
    CpuError, CpuErrorType, CpuMode, FaultAction, Interrupt, InterruptType, StepOutcome, CPU,
};
use rustyvm::gpu::GPU;
use rustyvm::memory::MemoryError;
use rustyvm::mmio::{AddressSpace, Bus};
use rustyvm::processor::Dispatch;
use rustyvm::vm::VM;
use rustyvm::OpCode;

fn fault_of(kind: CpuErrorType) -> CpuError {
    CpuError::new(0x104, 0x4000_0000, [0; 32], kind, 0)
}

fn ram_with_vectors(vectors: [u32; 4]) -> Bus<GPU> {
    let mut bus: Bus<GPU> = Bus::new_empty(0x2000).unwrap();
    for (i, v) in vectors.iter().enumerate() {
        bus.write32(4 * i as u32, *v);
    }
    bus
}

#[test]
fn a_fault_report_keeps_its_parts() {
    let mut registers = [0u32; 32];
    registers[31] = 31;
    let error = CpuError::new(0x10, 0x4000_0004, registers, CpuErrorType::InvalidOpCode(9), 3);
    assert_eq!(error.program_counter, 0x10);
    assert_eq!(error.stack_pointer, 0x4000_0004);
    assert_eq!(error.register_snapshot, registers);
    assert_eq!(error.error_type, CpuErrorType::InvalidOpCode(9));
    assert_eq!(error.core_index, 3);
}

#[test]
fn the_failure_policy() {
    let severe = fault_of(CpuErrorType::Halt);
    let minor = fault_of(CpuErrorType::AddWithOverflow);
    assert_eq!(CpuMode::Safe.action_for(&severe), FaultAction::Shutdown);
    assert_eq!(CpuMode::Safe.action_for(&minor), FaultAction::Shutdown);
    assert_eq!(CpuMode::Stable.action_for(&severe), FaultAction::Shutdown);
    assert_eq!(CpuMode::Stable.action_for(&minor), FaultAction::Ignore);
    assert_eq!(CpuMode::Unstable.action_for(&severe), FaultAction::Ignore);
    assert_eq!(CpuMode::Unstable.action_for(&minor), FaultAction::Ignore);
    assert_eq!(CpuMode::Debug.action_for(&severe), FaultAction::Pause);
    assert_eq!(CpuMode::Debug.action_for(&minor), FaultAction::Pause);
    let bus = ram_with_vectors([0; 4]);
    let cpu = CPU::new(CpuMode::Stable, &bus);
    assert_eq!(cpu.handle_errors(&severe), FaultAction::Shutdown);
    assert_eq!(cpu.handle_errors(&minor), FaultAction::Ignore);
}

#[test]
fn a_new_processor_has_four_cores_and_one_is_busy() {
    let bus = ram_with_vectors([0x100, 0x200, 0x300, 0x400]);
    let cpu = CPU::new(CpuMode::Unstable, &bus);
    assert_eq!(cpu.mode, CpuMode::Unstable);
    assert_eq!(cpu.cores.len(), 4);
    for (i, core) in cpu.cores.iter().enumerate() {
        assert_eq!(core.index, i as u32);
        assert_eq!(core.program_counter, 0x100 * (i as u32 + 1));
        assert_eq!(core.stack_pointer, 0x4000_0000);
        assert_eq!(core.registers, [0u32; 32]);
        assert_eq!(core.busy, i == 0);
        assert!(!core.halted);
        assert!(core.inbox.is_empty());
    }
}

#[test]
fn an_idle_core_with_an_empty_inbox_waits() {
    let mut bus = ram_with_vectors([0x100, 0x200, 0x300, 0x400]);
    bus.write32(0x200, (OpCode::LOAD_IMM.code() << 25) | 5);
    let mut cpu = CPU::new(CpuMode::Safe, &bus);
    assert!(matches!(cpu.step(1, &mut bus), StepOutcome::Idle));
    assert_eq!(cpu.cores[1].program_counter, 0x200);
    assert_eq!(cpu.cores[1].registers[0], 0);
}

#[test]
fn a_busy_core_executes() {
    let mut bus = ram_with_vectors([0x100, 0x200, 0x300, 0x400]);
    bus.write32(0x100, (OpCode::LOAD_IMM.code() << 25) | (4 << 20) | 0x77);
    let mut cpu = CPU::new(CpuMode::Safe, &bus);
    assert!(matches!(cpu.step(0, &mut bus), StepOutcome::Ran));
    assert_eq!(cpu.cores[0].program_counter, 0x104);
    assert_eq!(cpu.cores[0].registers[4], 0x77);
    for i in 1..4 {
        assert_eq!(cpu.cores[i].program_counter, 0x100 * (i as u32 + 1));
    }
}

#[test]
fn an_interrupt_crosses_to_another_core() {
    let mut bus = ram_with_vectors([0x100, 0x200, 0x300, 0x400]);
    bus.write32(0x100, (OpCode::IRPT_SEND.code() << 25) | (2 << 20) | (3 << 15));
    let mut cpu = CPU::new(CpuMode::Safe, &bus);
    cpu.cores[2].program_counter = 0x999;
    cpu.cores[2].stack_pointer = 0x4000_0020;
    cpu.cores[2].registers[6] = 66;
    bus.write32(8, 0x0000_0ABC);
    assert!(matches!(cpu.step(0, &mut bus), StepOutcome::Ran));
    assert_eq!(cpu.cores[0].program_counter, 0x104);
    assert_eq!(cpu.cores[2].inbox.len(), 1);
    assert_eq!(
        cpu.cores[2].inbox[0],
        Interrupt { sender_id: 0, interrupt_type: InterruptType::SoftReset }
    );
    assert!(cpu.cores[1].inbox.is_empty());
    assert!(cpu.cores[3].inbox.is_empty());
    assert_eq!(cpu.cores[2].program_counter, 0x999);
    assert!(matches!(cpu.step(2, &mut bus), StepOutcome::Ran));
    assert!(cpu.cores[2].inbox.is_empty());
    assert_eq!(cpu.cores[2].program_counter, 0xABC);
    assert_eq!(cpu.cores[2].stack_pointer, 0x4000_0000);
    assert_eq!(cpu.cores[2].registers[6], 66);
    assert!(matches!(cpu.step(2, &mut bus), StepOutcome::Idle));
}

#[test]
fn a_core_may_interrupt_itself() {
    let mut bus = ram_with_vectors([0x100, 0, 0, 0]);
    bus.write32(0x100, (OpCode::IRPT_SEND.code() << 25) | (2 << 15));
    let mut cpu = CPU::new(CpuMode::Safe, &bus);
    assert!(matches!(cpu.step(0, &mut bus), StepOutcome::Ran));
    assert_eq!(cpu.cores[0].inbox.len(), 1);
    assert!(!cpu.cores[0].halted);
    assert!(matches!(cpu.step(0, &mut bus), StepOutcome::Ran));
    assert!(cpu.cores[0].halted);
    assert_eq!(cpu.cores[0].program_counter, 0x104);
}

#[test]
fn messages_from_one_sender_arrive_in_order() {
    let bus = ram_with_vectors([0; 4]);
    let mut cpu = CPU::new(CpuMode::Safe, &bus);
    let first = Interrupt { sender_id: 1, interrupt_type: InterruptType::Halt };
    let second = Interrupt { sender_id: 1, interrupt_type: InterruptType::Resume };
    cpu.deliver(Dispatch { target: 3, interrupt: first });
    cpu.deliver(Dispatch { target: 3, interrupt: second });
    cpu.deliver(Dispatch { target: 4, interrupt: second });
    cpu.deliver(Dispatch { target: u32::MAX, interrupt: second });
    assert_eq!(cpu.cores[3].inbox.len(), 2);
    assert_eq!(cpu.cores[3].inbox[0], first);
    assert_eq!(cpu.cores[3].inbox[1], second);
    for i in 0..3 {
        assert!(cpu.cores[i].inbox.is_empty());
    }
}

#[test]
fn a_fault_comes_with_the_action_of_the_policy() {
    let mut bus = ram_with_vectors([0x100, 0, 0, 0]);
    bus.write32(0x100, OpCode::HALT.code() << 25);
    bus.write32(0x104, (OpCode::SUB.code() << 25) | (1 << 20) | (2 << 15) | (3 << 10));
    let mut cpu = CPU::new(CpuMode::Stable, &bus);
    cpu.cores[0].registers[3] = 1;
    match cpu.step(0, &mut bus) {
        StepOutcome::Faulted(error, action) => {
            assert_eq!(error.error_type, CpuErrorType::Halt);
            assert_eq!(error.core_index, 0);
            assert_eq!(error.program_counter, 0x104);
            assert_eq!(action, FaultAction::Shutdown);
        }
        _ => panic!("a halt is a fault"),
    }
    match cpu.step(0, &mut bus) {
        StepOutcome::Faulted(error, action) => {
            assert_eq!(error.error_type, CpuErrorType::SubWithOverflow);
            assert_eq!(error.program_counter, 0x108);
            assert_eq!(action, FaultAction::Ignore);
        }
        _ => panic!("an underflow is a fault"),
    }
}

#[test]
fn the_machine_boots_its_program() {
    let mut vm = VM::with_memory(0x2000).unwrap();
    assert!(vm.running);
    assert_eq!(vm.cpu.mode, CpuMode::Debug);
    assert_eq!(vm.cpu.cores.len(), 4);
    assert_eq!(vm.cpu.cores[0].program_counter, 0x20);
    assert!(vm.cpu.cores[0].busy);
    for i in 1..4 {
        assert_eq!(vm.cpu.cores[i].program_counter, 0);
        assert!(!vm.cpu.cores[i].busy);
    }
    assert_eq!(vm.bus.regions.len(), 1);
    assert_eq!(vm.bus.regions[0].name, "GPU");
    assert_eq!(vm.bus.regions[0].base, 0x1000);
    assert_eq!(vm.bus.regions[0].size, 0x10);
    assert_eq!(vm.bus.read8(0), 0x20);
    assert_eq!(vm.bus.read8(0x23), 0x02);
    assert_eq!(vm.bus.read8(0x50), 0x48);
    assert_eq!(vm.bus.read8(0x53), 0x20);
    assert_eq!(vm.bus.read8(0x54), 0);
    assert_eq!(vm.bus.ram.len(), 0x2000);

    for _ in 0..12 {
        assert!(matches!(vm.cpu.step(0, &mut vm.bus), StepOutcome::Ran));
    }
    assert_eq!(vm.cpu.cores[0].program_counter, 0x50);
    let gpu = &vm.bus.regions[0].device;
    assert_eq!(gpu.registers[2], 1);
    assert_eq!(gpu.registers[1], 0);
    assert_eq!(gpu.registers[0], 1);
    for round in 2..5u32 {
        for _ in 0..3 {
            assert!(matches!(vm.cpu.step(0, &mut vm.bus), StepOutcome::Ran));
        }
        assert_eq!(vm.cpu.cores[0].program_counter, 0x50);
        assert_eq!(vm.cpu.cores[0].registers[0], round);
        assert_eq!(vm.bus.regions[0].device.registers[0], round);
    }
    for i in 1..4 {
        assert!(matches!(vm.cpu.step(i, &mut vm.bus), StepOutcome::Idle));
    }
}

#[test]
fn the_machine_spans_the_whole_address_space_or_fails() {
    match VM::new() {
        Ok(mut vm) => {
            assert_eq!(vm.bus.ram.len() as u64, 0x1_0000_0000);
            assert_eq!(vm.cpu.cores[0].program_counter, 0x20);
            vm.bus.write8(0xFFFF_FFFF, 0xEE);
            assert_eq!(vm.bus.read8(0xFFFF_FFFF), 0xEE);
        }
        Err(e) => assert_eq!(e, MemoryError::MapFailed),
    }
    assert_eq!(VM::with_memory(usize::MAX).err(), Some(MemoryError::MapFailed));
}

#[test]
fn a_machine_too_small_for_its_program_still_comes_up() {
    let vm = VM::with_memory(0x22).unwrap();
    assert_eq!(vm.bus.ram.len(), 0x22);
    assert_eq!(vm.cpu.cores[0].program_counter, 0x20);
    assert_eq!(vm.bus.read8(0x20), 0x01);
    assert_eq!(vm.bus.read8(0x21), 0x00);
    assert_eq!(vm.bus.read8(0x22), 0x00);
    let none = VM::with_memory(0).unwrap();
    assert_eq!(none.cpu.cores[0].program_counter, 0);
}

#[test]
fn a_machine_over_a_bus_starts_from_what_the_bus_holds() {
    let mut bus: Bus<GPU> = Bus::new_empty(0x2000).unwrap();
    bus.write32(0, 0x0000_0400);
    bus.write32(4, 0x0000_0500);
    bus.write32(0x400, (OpCode::STOR_IMM.code() << 25) | (7 << 20) | 0x1002);
    bus.register("aux".to_string(), 0x1800, 0x10, GPU::init(0x1800));
    let mut vm = VM::over(bus);
    assert!(vm.running);
    assert_eq!(vm.cpu.mode, CpuMode::Debug);
    assert_eq!(vm.bus.regions.len(), 2);
    assert_eq!(vm.bus.regions[0].name, "aux");
    assert_eq!(vm.bus.regions[1].name, "GPU");
    assert_eq!(vm.bus.regions[1].base, 0x1000);
    assert_eq!(vm.bus.regions[1].size, 0x10);
    assert_eq!(vm.bus.regions[1].device.map_base, 0x1000);
    assert_eq!(vm.cpu.cores[0].program_counter, 0x400);
    assert_eq!(vm.cpu.cores[1].program_counter, 0x500);
    assert_eq!(vm.cpu.cores[2].program_counter, 0);
    assert!(vm.cpu.cores[0].busy);
    vm.cpu.cores[0].registers[7] = 0x0000_01FF;
    assert!(matches!(vm.cpu.step(0, &mut vm.bus), StepOutcome::Ran));
    assert_eq!(vm.bus.regions[1].device.registers[2], 0xFF);
    assert_eq!(vm.bus.regions[0].device.registers, [0u32; 10]);
    assert_eq!(vm.bus.ram.read8(0x1002), 0);
}

#[test]
fn booting_writes_the_program_through_the_bus() {
    let mut bus: Bus<GPU> = Bus::new_empty(0x2000).unwrap();
    bus.write8(0x60, 0x99);
    bus.write32(4, 0x0000_0700);
    bus.register("low".to_string(), 0x30, 0x08, GPU::init(0x30));
    let vm = VM::boot(Ok(bus)).unwrap();
    assert!(vm.running);
    assert_eq!(vm.cpu.mode, CpuMode::Debug);
    assert_eq!(vm.bus.regions.len(), 2);
    assert_eq!(vm.bus.regions[0].name, "low");
    assert_eq!(vm.bus.regions[1].name, "GPU");
    assert_eq!(vm.bus.regions[1].device.registers, [0u32; 10]);
    assert_eq!(vm.cpu.cores[0].program_counter, 0x20);
    assert_eq!(vm.cpu.cores[1].program_counter, 0x700);
    assert_eq!(vm.bus.ram.read8(0x00), 0x20);
    assert_eq!(vm.bus.ram.read8(0x20), 0x01);
    assert_eq!(vm.bus.ram.read8(0x2C), 0x00);
    assert_eq!(vm.bus.ram.read8(0x2F), 0x02);
    assert_eq!(vm.bus.ram.read8(0x30), 0x00);
    assert_eq!(vm.bus.ram.read8(0x33), 0x00);
    assert_eq!(vm.bus.ram.read8(0x37), 0x00);
    assert_eq!(vm.bus.ram.read8(0x38), 0x00);
    assert_eq!(vm.bus.ram.read8(0x39), 0x10);
    assert_eq!(vm.bus.ram.read8(0x3B), 0x02);
    assert_eq!(vm.bus.ram.read8(0x50), 0x48);
    assert_eq!(vm.bus.ram.read8(0x60), 0x99);
    let low = &vm.bus.regions[0].device;
    assert_eq!(low.registers[0], 0x0200_0000);
    assert_eq!(low.registers[4], 0x0240_0001);
    assert_eq!(low.registers[1], 0);
    assert_eq!(low.registers[8], 0);
}

#[test]
fn a_refused_bus_boots_no_machine() {
    assert_eq!(VM::boot(Err(MemoryError::MapFailed)).err(), Some(MemoryError::MapFailed));
}
