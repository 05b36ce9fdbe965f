//! The machine: a bus over the whole address space, the frame buffer device
//! registered on it, and the processor.

use vstd::prelude::*;

use crate::cpu::booted;
use crate::cpu::CpuMode;
use crate::cpu::CPU;
use crate::gpu::GpuGraphicsMode;
use crate::gpu::GpuView;
use crate::gpu::GPU;
use crate::gpu::PIXEL_COUNT;
use crate::gpu::REGISTER_COUNT;
use crate::memory::zeros;
use crate::memory::MemoryError;
use crate::mmio::bus_read8;
use crate::mmio::lemma_first_cover;
use crate::mmio::lemma_load_is_local;
use crate::mmio::lemma_load_keeps_layout;
use crate::mmio::programmed;
use crate::mmio::Bus;
use crate::mmio::BusView;
use crate::mmio::RegionView;
use crate::processor::CORE_COUNT;
use crate::word::byte_of;
use crate::word::word_of;

verus! {

/// The number of bytes of the address space.
pub const ADDRESS_SPACE: u64 = 0x1_0000_0000;

/// Where the boot program starts, and the value of the first reset vector.
pub const BOOT_ENTRY: u32 = 0x20;

/// Where the frame buffer device is registered.
pub const GPU_BASE: u32 = 0x1000;

/// The number of addresses that the frame buffer device owns.
pub const GPU_SIZE: u32 = 0x10;

/// The boot program. It enables pixel writes on the frame buffer device,
/// clears the index and pixel registers, and then counts the index register
/// up in an endless loop.
pub open spec fn boot_program() -> Seq<u32> {
    seq![
        0x0230_0001u32,
        0x0220_1002u32,
        0x0A21_8000u32,
        0x0210_0000u32,
        0x0200_0000u32,
        0x0240_0001u32,
        0x0250_1000u32,
        0x0A50_0000u32,
        0x0260_1001u32,
        0x0A60_8000u32,
        0x4002_0000u32,
        0x0A50_0000u32,
        0x2000_0048u32,
    ]
}

/// The region of the frame buffer device as it is registered.
pub open spec fn gpu_region() -> RegionView<GpuView> {
    RegionView {
        name: "GPU"@,
        base: GPU_BASE,
        size: GPU_SIZE,
        device: GpuView {
            mode: GpuGraphicsMode::Full,
            frame_buffer: Seq::new(PIXEL_COUNT as nat, |i: int| 0u32),
            registers: Seq::new(REGISTER_COUNT as nat, |i: int| 0u32),
            map_base: GPU_BASE,
        },
    }
}

/// The bus of a machine with `size` bytes of memory that was just built: the
/// first reset vector and the boot program in otherwise cleared memory, and
/// the frame buffer device as the only region.
pub open spec fn boot_bus(size: nat) -> BusView<GpuView> {
    let blank = BusView::<GpuView> { ram: zeros(size), regions: Seq::empty() };
    let vectors = programmed::<GPU>(blank, 0, seq![BOOT_ENTRY], 1);
    let loaded = programmed::<GPU>(vectors, BOOT_ENTRY, boot_program(), boot_program().len());
    BusView { ram: loaded.ram, regions: seq![gpu_region()] }
}

/// The bus after the first reset vector and the boot program were written
/// through it.
pub open spec fn boot_loaded(bus: BusView<GpuView>) -> BusView<GpuView> {
    programmed::<GPU>(
        programmed::<GPU>(bus, 0, seq![BOOT_ENTRY], 1),
        BOOT_ENTRY,
        boot_program(),
        boot_program().len(),
    )
}

/// Whether every device on the bus is well formed.
pub open spec fn devices_wf(bus: BusView<GpuView>) -> bool {
    forall|i: int| 0 <= i < bus.regions.len() ==> (#[trigger] bus.regions[i]).device.wf()
}

/// Writes through the bus leave every frame buffer device well formed: they
/// reach registers only.
pub proof fn lemma_load_keeps_devices(bus: BusView<GpuView>, at: u32, words: Seq<u32>, n: nat)
    requires
        devices_wf(bus),
    ensures
        devices_wf(programmed::<GPU>(bus, at, words, n)),
    decreases n,
{
    if n > 0 {
        let before = programmed::<GPU>(bus, at, words, (n - 1) as nat);
        lemma_load_keeps_devices(bus, at, words, (n - 1) as nat);
        lemma_first_cover(before.regions, (at + 4 * (n - 1)) as u32, 0);
    }
}

/// A machine that was just built starts where its reset vectors point: the
/// first core at the boot program, the others at address zero.
pub proof fn lemma_machine_boots_at_entry(size: nat)
    requires
        size >= 16,
    ensures
        booted::<Bus<GPU>>(0, boot_bus(size)).program_counter == BOOT_ENTRY,
        booted::<Bus<GPU>>(1, boot_bus(size)).program_counter == 0,
        booted::<Bus<GPU>>(2, boot_bus(size)).program_counter == 0,
        booted::<Bus<GPU>>(3, boot_bus(size)).program_counter == 0,
{
    let blank = BusView::<GpuView> { ram: zeros(size), regions: Seq::empty() };
    let vectors = programmed::<GPU>(blank, 0, seq![BOOT_ENTRY], 1);
    let bus = boot_bus(size);
    reveal_with_fuel(programmed, 2);
    assert forall|a: u32| a < 16 implies #[trigger] bus_read8::<GPU>(bus, a)
        == vectors.ram[a as int] by {
        lemma_first_cover(bus.regions, a, 0);
        lemma_load_is_local::<GPU>(
            vectors,
            BOOT_ENTRY,
            boot_program(),
            boot_program().len(),
            a as int,
        );
    }
    assert(word_of(0x20, 0, 0, 0) == 0x20 && word_of(0, 0, 0, 0) == 0 && byte_of(0x20, 0) == 0x20
        && byte_of(0x20, 1) == 0 && byte_of(0x20, 2) == 0 && byte_of(0x20, 3) == 0)
        by (bit_vector);
}

/// The machine.
pub struct VM {
    pub cpu: CPU,
    pub bus: Bus<GPU>,
    pub running: bool,
}

impl VM {
    /// Whether the processor and every device on the bus are well formed.
    pub open spec fn wf(&self) -> bool {
        &&& self.cpu.wf()
        &&& devices_wf(self.bus@)
    }

    /// Builds a machine over `bus`: the frame buffer device registered behind
    /// the regions that the bus has, the processor in debug mode with its
    /// cores as they come up over that bus, and the running flag set.
    pub fn over(bus: Bus<GPU>) -> (vm: VM)
        requires
            devices_wf(bus@),
        ensures
            vm.wf(),
            vm.running,
            vm.bus@.ram == bus@.ram,
            vm.bus@.regions == bus@.regions.push(gpu_region()),
            vm.cpu@.mode == CpuMode::Debug,
            vm.cpu@.cores.len() == CORE_COUNT,
            forall|i: int|
                0 <= i < CORE_COUNT ==> vm.cpu@.cores[i] == booted::<Bus<GPU>>(i, vm.bus@),
    {
        let mut bus = bus;
        bus.register("GPU".to_string(), GPU_BASE, GPU_SIZE, GPU::init(GPU_BASE));
        let cpu = CPU::new(CpuMode::Debug, &bus);
        VM { cpu, bus, running: true }
    }

    /// Boots a machine over the bus that a memory request yielded: the first
    /// reset vector and the boot program are written through the bus, the
    /// frame buffer device is registered behind the regions that the bus has,
    /// and the processor comes up in debug mode over the result. A refusal is
    /// passed on.
    pub fn boot(bus: Result<Bus<GPU>, MemoryError>) -> (vm: Result<VM, MemoryError>)
        requires
            bus matches Ok(b) ==> devices_wf(b@),
        ensures
            bus matches Ok(b) ==> vm matches Ok(m) && {
                &&& m.wf()
                &&& m.running
                &&& m.bus@.ram == boot_loaded(b@).ram
                &&& m.bus@.regions == boot_loaded(b@).regions.push(gpu_region())
                &&& m.cpu@.mode == CpuMode::Debug
                &&& m.cpu@.cores.len() == CORE_COUNT
                &&& forall|i: int|
                    0 <= i < CORE_COUNT ==> m.cpu@.cores[i] == booted::<Bus<GPU>>(i, m.bus@)
            },
            bus matches Err(e) ==> vm == Err::<VM, MemoryError>(e),
    {
        match bus {
            Ok(mut bus) => {
                let ghost before = bus@;
                let vectors: Vec<u32> = vec![BOOT_ENTRY];
                bus.load(0, &vectors);
                let program: Vec<u32> = vec![
                    0x0230_0001,
                    0x0220_1002,
                    0x0A21_8000,
                    0x0210_0000,
                    0x0200_0000,
                    0x0240_0001,
                    0x0250_1000,
                    0x0A50_0000,
                    0x0260_1001,
                    0x0A60_8000,
                    0x4002_0000,
                    0x0A50_0000,
                    0x2000_0048,
                ];
                assert(program@ =~= boot_program());
                assert(vectors@ =~= seq![BOOT_ENTRY]);
                bus.load(BOOT_ENTRY, &program);
                proof {
                    let vectors = programmed::<GPU>(before, 0, seq![BOOT_ENTRY], 1);
                    lemma_load_keeps_devices(before, 0, seq![BOOT_ENTRY], 1);
                    lemma_load_keeps_devices(
                        vectors,
                        BOOT_ENTRY,
                        boot_program(),
                        boot_program().len(),
                    );
                }
                Ok(VM::over(bus))
            },
            Err(e) => Err(e),
        }
    }

    /// Builds a machine with `size` bytes of memory, if the operating system
    /// grants them: the boot program loaded and the frame buffer device
    /// registered.
    pub fn with_memory(size: usize) -> (vm: Result<VM, MemoryError>)
        ensures
            vm matches Ok(m) ==> {
                &&& m.wf()
                &&& m.running
                &&& m.bus@ == boot_bus(size as nat)
                &&& m.cpu@.mode == CpuMode::Debug
                &&& m.cpu@.cores.len() == CORE_COUNT
                &&& forall|i: int|
                    0 <= i < CORE_COUNT ==> m.cpu@.cores[i] == booted::<Bus<GPU>>(
                        i,
                        boot_bus(size as nat),
                    )
            },
            vm matches Err(e) ==> e == MemoryError::MapFailed,
            size > isize::MAX ==> vm is Err,
    {
        let bus = Bus::<GPU>::new_empty(size);
        proof {
            if bus is Ok {
                let b = bus->Ok_0;
                let blank = BusView::<GpuView> {
                    ram: zeros(size as nat),
                    regions: Seq::empty(),
                };
                assert(b@.regions =~= Seq::empty());
                assert(b@ == blank);
                lemma_load_keeps_layout::<GPU>(blank, 0, seq![BOOT_ENTRY], 1);
                lemma_load_keeps_layout::<GPU>(
                    programmed::<GPU>(blank, 0, seq![BOOT_ENTRY], 1),
                    BOOT_ENTRY,
                    boot_program(),
                    boot_program().len(),
                );
                assert(boot_loaded(blank).regions =~= Seq::empty());
                assert(boot_loaded(blank).regions.push(gpu_region()) =~= boot_bus(
                    size as nat,
                ).regions);
            }
        }
        VM::boot(bus)
    }

    /// Builds the machine over the whole address space, if the host can index
    /// it and the operating system grants the memory.
    pub fn new() -> (vm: Result<VM, MemoryError>)
        ensures
            vm matches Ok(m) ==> {
                &&& m.wf()
                &&& m.running
                &&& m.bus@ == boot_bus(ADDRESS_SPACE as nat)
                &&& m.cpu@.mode == CpuMode::Debug
                &&& m.cpu@.cores.len() == CORE_COUNT
                &&& forall|i: int|
                    0 <= i < CORE_COUNT ==> m.cpu@.cores[i] == booted::<Bus<GPU>>(
                        i,
                        boot_bus(ADDRESS_SPACE as nat),
                    )
            },
            vm matches Err(e) ==> e == MemoryError::MapFailed,
            ADDRESS_SPACE > usize::MAX ==> vm is Err,
    {
        if ADDRESS_SPACE > usize::MAX as u64 {
            return Err(MemoryError::MapFailed);
        }
        VM::with_memory(ADDRESS_SPACE as usize)
    }
}

} // verus!
