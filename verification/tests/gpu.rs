use rustyvm::gpu::{
    decode_char_u32, decode_rgba_u32, Color, Coordinates, GpuError, GpuGraphicsMode, GPU,
    PIXEL_COUNT, SCREEN_HEIGHT, SCREEN_WIDTH,
};
use rustyvm::mmio::AddressSpace;

#[test]
fn a_new_device_is_cleared() {
    let gpu = GPU::init(0x1000);
    assert_eq!(gpu.map_base, 0x1000);
    assert_eq!(gpu.mode, GpuGraphicsMode::Full);
    assert_eq!(gpu.registers, [0u32; 10]);
    assert_eq!(gpu.frame_buffer.len(), 1280 * 720);
    assert_eq!(SCREEN_WIDTH * SCREEN_HEIGHT, PIXEL_COUNT);
    assert!(gpu.frame_buffer.iter().all(|p| *p == 0));
}

#[test]
fn a_byte_write_sets_the_whole_register() {
    let mut gpu = GPU::init(0);
    gpu.write32(1, 0xFFFF_FFFF);
    gpu.write8(1, 0x5A);
    assert_eq!(gpu.registers[1], 0x5A);
    gpu.write8(9, 0x01);
    assert_eq!(gpu.registers[9], 0x01);
    assert_eq!(gpu.registers[0], 0);
}

#[test]
fn a_word_write_sets_the_register() {
    let mut gpu = GPU::init(0);
    gpu.write32(0, 0x0001_0000);
    gpu.write32(2, 0xDEAD_BEEF);
    assert_eq!(gpu.registers[0], 0x0001_0000);
    assert_eq!(gpu.registers[2], 0xDEAD_BEEF);
    assert_eq!(gpu.registers[1], 0);
}

#[test]
fn writes_behind_the_registers_change_nothing() {
    let mut gpu = GPU::init(0);
    for offset in [10u32, 11, 15, 0x10, 0x11, 0x1000, u32::MAX] {
        gpu.write8(offset, 0xFF);
        gpu.write32(offset, 0xFFFF_FFFF);
    }
    assert_eq!(gpu.registers, [0u32; 10]);
    assert!(gpu.frame_buffer.iter().all(|p| *p == 0));
}

#[test]
fn the_device_reads_as_zero() {
    let mut gpu = GPU::init(0);
    gpu.write32(0, 0xFFFF_FFFF);
    for offset in [0u32, 1, 2, 9, 0x10, u32::MAX] {
        assert_eq!(gpu.read8(offset), 0);
    }
}

#[test]
fn an_update_with_writes_enabled_stores_one_pixel() {
    let mut gpu = GPU::init(0);
    gpu.write32(0, 1281);
    gpu.write32(1, 0xFF11_2233);
    gpu.write8(2, 1);
    assert_eq!(gpu.update(), Ok(()));
    assert_eq!(gpu.frame_buffer[1281], 0xFF11_2233);
    assert_eq!(gpu.frame_buffer[1280], 0);
    assert_eq!(gpu.frame_buffer[1282], 0);
    assert_eq!(gpu.frame_buffer.iter().filter(|p| **p != 0).count(), 1);
    assert_eq!(gpu.registers[0], 1281);
    gpu.write32(0, (PIXEL_COUNT - 1) as u32);
    gpu.render();
    assert_eq!(gpu.frame_buffer[PIXEL_COUNT - 1], 0xFF11_2233);
}

#[test]
fn an_update_with_the_index_out_of_range_fails_and_changes_nothing() {
    let mut gpu = GPU::init(0);
    gpu.write32(0, PIXEL_COUNT as u32);
    gpu.write32(1, 0xFFFF_FFFF);
    gpu.write32(2, 7);
    assert_eq!(gpu.update(), Err(GpuError::Error));
    assert!(gpu.frame_buffer.iter().all(|p| *p == 0));
    assert_eq!(gpu.registers[0], PIXEL_COUNT as u32);
    gpu.write32(0, u32::MAX);
    assert_eq!(gpu.update(), Err(GpuError::Error));
    gpu.handle_errors(Err(GpuError::Error));
    assert!(gpu.frame_buffer.iter().all(|p| *p == 0));
}

#[test]
fn an_update_with_writes_disabled_shows_the_test_pattern() {
    let mut gpu = GPU::init(0);
    gpu.write32(0, u32::MAX);
    assert_eq!(gpu.update(), Ok(()));
    assert_eq!(gpu.frame_buffer.len(), PIXEL_COUNT);
    for y in [0usize, 1, 100, 254] {
        for x in 0..255usize {
            let grey = x as u32;
            assert_eq!(
                gpu.frame_buffer[y * SCREEN_WIDTH + x],
                0xFF00_0000 | (grey << 16) | (grey << 8) | grey
            );
        }
    }
    assert_eq!(gpu.frame_buffer[0], 0xFF00_0000);
    assert_eq!(gpu.frame_buffer[254 * SCREEN_WIDTH + 254], 0xFFFE_FEFE);
    assert_eq!(gpu.registers[0], u32::MAX);
    gpu.show_life();
    assert_eq!(gpu.frame_buffer[17 * SCREEN_WIDTH + 3], 0xFF03_0303);
}

#[test]
fn blit_pixel_stores_at_the_row_and_column() {
    let mut gpu = GPU::init(0);
    gpu.blit_pixel(5, 2, Color::from_argb(1, 2, 3, 4));
    assert_eq!(gpu.frame_buffer[2 * 1280 + 5], 0x0102_0304);
    gpu.blit_pixel(1279, 719, Color::from_u32(0xAABB_CCDD));
    assert_eq!(gpu.frame_buffer[PIXEL_COUNT - 1], 0xAABB_CCDD);
    gpu.blit_pixel(0, 0, Color::from_argb(255, 0, 0, 0));
    assert_eq!(gpu.frame_buffer[0], 0xFF00_0000);
    assert_eq!(gpu.frame_buffer.iter().filter(|p| **p != 0).count(), 3);
}

#[test]
fn draw_letter_draws_nothing() {
    let mut gpu = GPU::init(0);
    gpu.draw_letter('A', 10, 10);
    assert!(gpu.frame_buffer.iter().all(|p| *p == 0));
    assert_eq!(gpu.registers, [0u32; 10]);
}

#[test]
fn colours_round_trip_through_pixel_words() {
    for word in [0u32, 0xFF00_0000, 0x0102_0304, 0xDEAD_BEEF, u32::MAX] {
        assert_eq!(Color::from_u32(word).to_argb_u32(), word);
    }
    assert_eq!(Color::from_argb(0x12, 0x34, 0x56, 0x78).to_argb_u32(), 0x1234_5678);
    assert_eq!(Color::from_argb(255, 0, 0, 0).to_argb_u32(), 0xFF00_0000);
    assert_eq!(Color::from_argb(0, 0, 0, 1).to_argb_u32(), 1);
}

#[test]
fn coordinates_of_an_index() {
    let at = Coordinates::from_index(1280 * 3 + 17, 1280, 720);
    assert_eq!(at.x(), 17);
    assert_eq!(at.y(), 3);
    let origin = Coordinates::from_index(0, 1280, 720);
    assert_eq!((origin.x(), origin.y()), (0, 0));
    let last = Coordinates::from_index(PIXEL_COUNT - 1, SCREEN_WIDTH, SCREEN_HEIGHT);
    assert_eq!((last.x(), last.y()), (1279, 719));
    let narrow = Coordinates::from_index(9, 1, 0);
    assert_eq!((narrow.x(), narrow.y()), (0, 9));
}

#[test]
fn character_words() {
    let (letter, color) = decode_char_u32(0x4112_3456);
    assert_eq!(letter, 'A');
    assert_eq!(color.to_argb_u32(), 0xFF12_3456);
    let (letter, color) = decode_char_u32(0xE9FF_FFFF);
    assert_eq!(letter, '\u{E9}');
    assert_eq!(color.to_argb_u32(), 0xFFFF_FFFF);
    let (letter, color) = decode_char_u32(0);
    assert_eq!(letter, '\0');
    assert_eq!(color.to_argb_u32(), 0xFF00_0000);
}

#[test]
fn rgba_words() {
    assert_eq!(decode_rgba_u32(0x1122_3344).to_argb_u32(), 0x4411_2233);
    assert_eq!(decode_rgba_u32(0x0000_00FF).to_argb_u32(), 0xFF00_0000);
    assert_eq!(decode_rgba_u32(0xFFFF_FF00).to_argb_u32(), 0x00FF_FFFF);
}

#[test]
fn the_enable_register_switches_the_test_pattern_off() {
    let mut gpu = GPU::init(0);
    assert!(gpu.shows_test_pattern());
    gpu.write8(2, 1);
    assert!(!gpu.shows_test_pattern());
    gpu.write32(2, 0);
    assert!(gpu.shows_test_pattern());
}
