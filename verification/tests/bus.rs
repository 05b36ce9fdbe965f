use memmap2::MmapMut;
use rustyvm::gpu::GPU;
use rustyvm::memory::{Memory, MemoryError};
use rustyvm::mmio::{AddressSpace, Bus, MmioRegion};
use rustyvm::processor::Core;
use rustyvm::word::{from_bytes, to_bytes};
use rustyvm::OpCode;

fn bus_with_gpu_at(base: u32, size: u32) -> Bus<GPU> {
    let mut bus: Bus<GPU> = Bus::new_empty(0x4000).unwrap();
    bus.register("GPU".to_string(), base, size, GPU::init(base));
    bus
}

#[test]
fn empty_memory_is_zeroed_and_has_its_length() {
    let memory = Memory::empty(16).unwrap();
    assert_eq!(memory.len(), 16);
    for addr in 0..16 {
        assert_eq!(memory.read8(addr), 0);
    }
    assert_eq!(Memory::empty(0).unwrap().len(), 0);
}

#[test]
fn a_mapping_longer_than_the_address_range_is_refused() {
    assert_eq!(Memory::empty(usize::MAX).err(), Some(MemoryError::MapFailed));
    assert!(Bus::<GPU>::new_empty(usize::MAX).is_err());
}

#[test]
fn memory_keeps_what_was_written() {
    let mut memory = Memory::empty(8).unwrap();
    memory.write8(3, 0xAB);
    memory.write8(7, 0xCD);
    assert_eq!(memory.read8(3), 0xAB);
    assert_eq!(memory.read8(7), 0xCD);
    assert_eq!(memory.read8(2), 0);
    assert_eq!(memory.read8(4), 0);
    memory.write8(3, 0x01);
    assert_eq!(memory.read8(3), 0x01);
    assert_eq!(memory.len(), 8);
}

#[test]
fn a_granted_mapping_becomes_the_store() {
    let mut map = MmapMut::map_anon(4).unwrap();
    map[2] = 0x77;
    let memory = Memory::from_mapping(Ok(map)).unwrap();
    assert_eq!(memory.len(), 4);
    assert_eq!(memory.read8(2), 0x77);
    assert_eq!(memory.read8(0), 0);
}

#[test]
fn a_refused_mapping_becomes_map_failed() {
    let refused = MmapMut::map_anon(usize::MAX);
    assert!(refused.is_err());
    assert_eq!(Memory::from_mapping(refused).err(), Some(MemoryError::MapFailed));
    let bus: Result<Bus<GPU>, MemoryError> = Bus::over(Err(MemoryError::MapFailed));
    assert_eq!(bus.err(), Some(MemoryError::MapFailed));
}

#[test]
fn a_rom_stands_at_the_start_of_memory() {
    let rom = vec![0xDE, 0xAD, 0xBE, 0xEF];
    let memory = Memory::from_rom(&rom, 10).unwrap();
    assert_eq!(memory.len(), 10);
    assert_eq!(memory.read8(0), 0xDE);
    assert_eq!(memory.read8(1), 0xAD);
    assert_eq!(memory.read8(2), 0xBE);
    assert_eq!(memory.read8(3), 0xEF);
    for addr in 4..10 {
        assert_eq!(memory.read8(addr), 0);
    }
    let full = Memory::from_rom(&rom, 4).unwrap();
    assert_eq!(full.read8(3), 0xEF);
    let blank = Memory::from_rom(&Vec::new(), 3).unwrap();
    assert_eq!(blank.read8(2), 0);
}

#[test]
fn words_split_and_assemble() {
    assert_eq!(to_bytes(0x1234_5678), [0x78, 0x56, 0x34, 0x12]);
    assert_eq!(from_bytes(0x78, 0x56, 0x34, 0x12), 0x1234_5678);
    assert_eq!(to_bytes(0), [0, 0, 0, 0]);
    assert_eq!(from_bytes(0xFF, 0xFF, 0xFF, 0xFF), u32::MAX);
    for word in [0u32, 1, 0x8000_0000, 0xDEAD_BEEF, u32::MAX] {
        let b = to_bytes(word);
        assert_eq!(from_bytes(b[0], b[1], b[2], b[3]), word);
    }
}

#[test]
fn a_new_bus_has_no_regions_and_cleared_memory() {
    let bus: Bus<GPU> = Bus::new_empty(32).unwrap();
    assert_eq!(bus.regions.len(), 0);
    assert_eq!(bus.ram.len(), 32);
    for addr in 0..32 {
        assert_eq!(bus.read8(addr), 0);
        assert_eq!(bus.region_of(addr), None);
    }
}

#[test]
fn plain_addresses_go_to_memory() {
    let mut bus = bus_with_gpu_at(0x1000, 0x10);
    bus.write8(0x0FFF, 0x11);
    bus.write8(0x1010, 0x22);
    assert_eq!(bus.read8(0x0FFF), 0x11);
    assert_eq!(bus.read8(0x1010), 0x22);
    assert_eq!(bus.ram.read8(0x0FFF), 0x11);
    assert_eq!(bus.ram.read8(0x1010), 0x22);
    assert_eq!(bus.regions[0].device.registers, [0u32; 10]);
}

#[test]
fn a_region_shadows_memory() {
    let mut bus: Bus<GPU> = Bus::new_empty(0x4000).unwrap();
    bus.write8(0x1002, 0x99);
    bus.register("GPU".to_string(), 0x1000, 0x10, GPU::init(0x1000));
    assert_eq!(bus.region_of(0x1000), Some(0));
    assert_eq!(bus.region_of(0x100F), Some(0));
    assert_eq!(bus.region_of(0x0FFF), None);
    assert_eq!(bus.region_of(0x1010), None);
    assert_eq!(bus.read8(0x1002), 0);
    bus.write8(0x1002, 0x5A);
    assert_eq!(bus.regions[0].device.registers[2], 0x5A);
    assert_eq!(bus.ram.read8(0x1002), 0x99);
    bus.write32(0x1001, 0xCAFE_F00D);
    assert_eq!(bus.regions[0].device.registers[1], 0xCAFE_F00D);
    assert_eq!(bus.ram.read8(0x1001), 0);
    assert_eq!(bus.ram.read8(0x1003), 0);
}

#[test]
fn stor_byte_into_a_region_reaches_the_device() {
    let mut bus = bus_with_gpu_at(0x1000, 0x10);
    let word = (OpCode::STOR_BYTE.code() << 25) | (1 << 20) | (2 << 15);
    bus.write32(0x100, word);
    let mut core = Core::new(0, &bus);
    core.program_counter = 0x100;
    core.registers[1] = 0x1002;
    core.registers[2] = 0x5A;
    assert!(matches!(core.tick(&mut bus), Ok(None)));
    assert_eq!(bus.regions[0].device.registers[2], 0x5A);
    assert_eq!(bus.regions[0].device.registers[0], 0);
    assert_eq!(bus.regions[0].device.registers[1], 0);
    assert_eq!(bus.ram.read8(0x1002), 0);
}

#[test]
fn the_first_region_registered_wins() {
    let mut bus: Bus<GPU> = Bus::new_empty(0x4000).unwrap();
    bus.register("first".to_string(), 0x2000, 0x10, GPU::init(0x2000));
    bus.register("second".to_string(), 0x200A, 0x10, GPU::init(0x200A));
    assert_eq!(bus.region_of(0x2009), Some(0));
    assert_eq!(bus.region_of(0x200A), Some(0));
    assert_eq!(bus.region_of(0x200F), Some(0));
    assert_eq!(bus.region_of(0x2010), Some(1));
    assert_eq!(bus.region_of(0x2019), Some(1));
    assert_eq!(bus.region_of(0x201A), None);
    bus.write8(0x2005, 0x42);
    assert_eq!(bus.regions[0].device.registers[5], 0x42);
    assert_eq!(bus.regions[1].device.registers, [0u32; 10]);
    bus.write8(0x2011, 0x43);
    assert_eq!(bus.regions[1].device.registers[7], 0x43);
    assert_eq!(bus.regions[0].device.registers[5], 0x42);
    assert_eq!(bus.regions[0].name, "first");
    assert_eq!(bus.regions[1].name, "second");
    assert_eq!(bus.regions[1].base, 0x200A);
    assert_eq!(bus.regions[1].size, 0x10);
}

#[test]
fn a_region_may_reach_the_top_of_the_address_space() {
    let region = MmioRegion {
        name: "top".to_string(),
        base: 0xFFFF_FFF0,
        size: 0x20,
        device: GPU::init(0),
    };
    assert!(region.covers(0xFFFF_FFF0));
    assert!(region.covers(0xFFFF_FFFF));
    assert!(!region.covers(0xFFFF_FFEF));
    assert!(!region.covers(0));
    let empty = MmioRegion { name: "none".to_string(), base: 0x10, size: 0, device: GPU::init(0) };
    assert!(!empty.covers(0x10));
}

#[test]
fn a_word_write_to_memory_is_little_endian() {
    let mut bus: Bus<GPU> = Bus::new_empty(0x100).unwrap();
    bus.write32(0x10, 0x1122_3344);
    assert_eq!(bus.read8(0x10), 0x44);
    assert_eq!(bus.read8(0x11), 0x33);
    assert_eq!(bus.read8(0x12), 0x22);
    assert_eq!(bus.read8(0x13), 0x11);
    assert_eq!(bus.read8(0x0F), 0);
    assert_eq!(bus.read8(0x14), 0);
}

#[test]
fn addresses_behind_memory_read_zero_and_drop_writes() {
    let mut bus: Bus<GPU> = Bus::new_empty(0x10).unwrap();
    assert_eq!(bus.read8(0x10), 0);
    assert_eq!(bus.read8(u32::MAX), 0);
    bus.write8(0x10, 0xFF);
    bus.write8(u32::MAX, 0xFF);
    assert_eq!(bus.read8(0x10), 0);
    bus.write32(0x0E, 0xAABB_CCDD);
    assert_eq!(bus.read8(0x0E), 0xDD);
    assert_eq!(bus.read8(0x0F), 0xCC);
    assert_eq!(bus.read8(0x10), 0);
    bus.write32(u32::MAX, 0x0102_0304);
    assert_eq!(bus.ram.len(), 0x10);
    for addr in 0..0x0E {
        assert_eq!(bus.read8(addr), 0);
    }
}

#[test]
fn loading_words_fills_consecutive_addresses() {
    let mut bus: Bus<GPU> = Bus::new_empty(0x100).unwrap();
    bus.load(0x20, &vec![0x0000_0001, 0xA0B0_C0D0, 0xFFFF_FFFF]);
    assert_eq!(bus.read8(0x20), 0x01);
    assert_eq!(bus.read8(0x23), 0x00);
    assert_eq!(bus.read8(0x24), 0xD0);
    assert_eq!(bus.read8(0x27), 0xA0);
    assert_eq!(bus.read8(0x28), 0xFF);
    assert_eq!(bus.read8(0x2B), 0xFF);
    assert_eq!(bus.read8(0x2C), 0x00);
    assert_eq!(bus.read8(0x1F), 0x00);
    bus.load(0, &Vec::new());
    assert_eq!(bus.read8(0), 0);
}

#[test]
fn a_rom_is_copied_over_what_the_memory_held() {
    let mut memory = Memory::empty(6).unwrap();
    for addr in 0..6 {
        memory.write8(addr, 0xF0 + addr as u8);
    }
    let loaded = Memory::with_rom(Ok(memory), &vec![1, 2, 3]).unwrap();
    assert_eq!(loaded.len(), 6);
    assert_eq!(loaded.read8(0), 1);
    assert_eq!(loaded.read8(1), 2);
    assert_eq!(loaded.read8(2), 3);
    assert_eq!(loaded.read8(3), 0xF3);
    assert_eq!(loaded.read8(4), 0xF4);
    assert_eq!(loaded.read8(5), 0xF5);
    let untouched = Memory::with_rom(Ok(loaded), &Vec::new()).unwrap();
    assert_eq!(untouched.read8(0), 1);
    assert_eq!(untouched.read8(5), 0xF5);
}

#[test]
fn a_refused_memory_takes_no_rom() {
    let refused = Memory::with_rom(Err(MemoryError::MapFailed), &vec![1, 2, 3]);
    assert_eq!(refused.err(), Some(MemoryError::MapFailed));
}
