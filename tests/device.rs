use chip8::{
    random, ExecutionStatus, IODevice, IOInterface, Machine, CPU, DISPLAY_SIZE, DISPLAY_WIDTH,
    NO_KEY,
};

fn lit(device: &IODevice) -> Vec<usize> {
    let update = device.get_display_update();
    assert_eq!(update.buffer_size, DISPLAY_SIZE);
    (0..DISPLAY_SIZE).filter(|&i| update.display[i] == 1).collect()
}

#[test]
fn test_draw_pixel() {
    let mut device = IODevice::new();
    let (x, y) = (17u8, 26u8);
    let i = 26 * DISPLAY_WIDTH + 17;
    assert_eq!(device.draw_pixel(x, y), 0);
    assert_eq!(lit(&device), vec![i]);
    assert_eq!(device.draw_pixel(x, y), 1);
    assert!(lit(&device).is_empty());
    let update = device.get_display_update();
    assert!(update.updated[i]);
    assert!(update.display_updated);
    assert!(!update.display_cleared);
}

#[test]
fn test_to_index_wraps() {
    let mut device = IODevice::new();
    device.draw_pixel(64 + 3, 32 + 5);
    assert_eq!(lit(&device), vec![5 * DISPLAY_WIDTH + 3]);
    device.draw_pixel(255, 255);
    assert_eq!(lit(&device), vec![5 * DISPLAY_WIDTH + 3, 31 * DISPLAY_WIDTH + 63]);
}

#[test]
fn clear_display_blanks_and_marks_everything() {
    let mut device = IODevice::new();
    device.draw_pixel(1, 1);
    device.clear_display();
    assert!(lit(&device).is_empty());
    let update = device.get_display_update();
    assert!(update.updated.iter().all(|&d| d));
    assert!(update.display_cleared);
    assert!(update.display_updated);
}

#[test]
fn reset_display_flags_clears_dirty_tracking() {
    let mut device = IODevice::new();
    device.draw_pixel(3, 4);
    device.reset_display_flags();
    let update = device.get_display_update();
    assert!(update.updated.iter().all(|&d| !d));
    assert!(!update.display_updated);
    assert!(!update.display_cleared);
    assert_eq!(lit(&device).len(), 1);
}

#[test]
fn read_any_key_reports_lowest_and_consumes_all() {
    let mut device = IODevice::new();
    device.set_keys(0, 0x0004);
    assert_eq!(device.read_any_key(), 2);
    assert_eq!(device.read_any_key(), NO_KEY);
    device.set_keys(0, 0b1010_0000_0000);
    assert_eq!(device.read_any_key(), 9);
    assert_eq!(device.read_any_key(), NO_KEY);
    device.set_keys(0, 0x8000);
    assert_eq!(device.read_any_key(), 15);
}

#[test]
fn key_pressed_tests_one_bit() {
    let mut device = IODevice::new();
    device.set_keys(1 << 5, 0);
    assert!(device.key_pressed(5));
    assert!(!device.key_pressed(4));
    assert!(!device.key_pressed(21));
}

fn load(program: &[u8]) -> (CPU, IODevice) {
    let mut cpu = CPU::new();
    assert!(cpu.load_rom(program));
    (cpu, IODevice::new())
}

#[test]
fn drawing_a_sprite_twice_restores_the_screen() {
    // V0 = 0, V1 = 0, I = glyph 0, draw 5 rows at (V0, V1), twice
    let (mut cpu, mut dev) = load(&[0x60, 0x00, 0x61, 0x00, 0xF0, 0x29, 0xD0, 0x15, 0xD0, 0x15]);
    for _ in 0..4 {
        assert_eq!(cpu.tick(&mut dev, 0), ExecutionStatus::OK);
    }
    assert_eq!(cpu.register(0xF), 0);
    // glyph 0 is F0 90 90 90 F0: 4 + 2 + 2 + 2 + 4 cells
    assert_eq!(lit(&dev).len(), 14);
    assert!(lit(&dev).contains(&(2 * DISPLAY_WIDTH + 3)));
    assert_eq!(cpu.tick(&mut dev, 0), ExecutionStatus::OK);
    assert_eq!(cpu.register(0xF), 1);
    assert!(lit(&dev).is_empty());
}

#[test]
fn sprite_wraps_around_the_edges() {
    // V0 = 62, V1 = 30, I = glyph 0 (V2 is 0), draw 5 rows
    let (mut cpu, mut dev) = load(&[0x60, 62, 0x61, 30, 0xF2, 0x29, 0xD0, 0x15]);
    for _ in 0..4 {
        assert_eq!(cpu.tick(&mut dev, 0), ExecutionStatus::OK);
    }
    let cells = lit(&dev);
    assert_eq!(cells.len(), 14);
    // top row F0 at (62..66, 30): 62, 63, 0, 1
    assert!(cells.contains(&(30 * DISPLAY_WIDTH + 63)));
    assert!(cells.contains(&(30 * DISPLAY_WIDTH + 1)));
    // last row F0 wraps to y = 2
    assert!(cells.contains(&(2 * DISPLAY_WIDTH + 0)));
}

#[test]
fn overlapping_sprites_report_collision() {
    // draw glyph 0 at (0, 0), then glyph 1 at (0, 0): their cells overlap
    let (mut cpu, mut dev) = load(&[0x60, 0x00, 0xD0, 0x05, 0x61, 0x01, 0xF1, 0x29, 0xD0, 0x05]);
    for _ in 0..5 {
        assert_eq!(cpu.tick(&mut dev, 0), ExecutionStatus::OK);
    }
    assert_eq!(cpu.register(0xF), 1);
}

#[test]
fn draw_past_end_of_memory_is_runtime_error() {
    let (mut cpu, mut dev) = load(&[0xAF, 0xFE, 0xD0, 0x03]);
    assert_eq!(cpu.tick(&mut dev, 0), ExecutionStatus::OK);
    assert_eq!(cpu.tick(&mut dev, 0), ExecutionStatus::RuntimeError);
    assert!(lit(&dev).is_empty());
}

#[test]
fn test_op_00e0_cls() {
    let (mut cpu, mut dev) = load(&[0xD0, 0x05, 0x00, 0xE0]);
    assert_eq!(cpu.tick(&mut dev, 0), ExecutionStatus::OK);
    assert!(!lit(&dev).is_empty());
    assert_eq!(cpu.tick(&mut dev, 0), ExecutionStatus::OK);
    assert!(lit(&dev).is_empty());
    assert!(dev.get_display_update().display_cleared);
}

#[test]
fn test_op_ex9e_exa1_key_skips() {
    let (mut cpu, mut dev) = load(&[0x60, 0x05, 0xE0, 0x9E, 0x00, 0x00, 0xE0, 0xA1]);
    dev.set_keys(1 << 5, 0);
    for _ in 0..3 {
        assert_eq!(cpu.tick(&mut dev, 0), ExecutionStatus::OK);
    }
    assert_eq!(cpu.pc(), 0x208);
    let (mut cpu, mut dev) = load(&[0x60, 0x05, 0xE0, 0xA1]);
    for _ in 0..2 {
        assert_eq!(cpu.tick(&mut dev, 0), ExecutionStatus::OK);
    }
    assert_eq!(cpu.pc(), 0x206);
}

#[test]
fn test_op_fx0a_waitkey() {
    let (mut cpu, mut dev) = load(&[0xF3, 0x0A]);
    assert_eq!(cpu.tick(&mut dev, 0), ExecutionStatus::WaitForKey);
    assert_eq!(cpu.pc(), 0x200);
    assert_eq!(cpu.tick(&mut dev, 0), ExecutionStatus::WaitForKey);
    dev.set_keys(0, 0x0004);
    assert_eq!(cpu.tick(&mut dev, 0), ExecutionStatus::OK);
    assert_eq!(cpu.register(3), 2);
    assert_eq!(cpu.pc(), 0x202);
    assert_eq!(dev.read_any_key(), NO_KEY);
}

#[test]
fn machine_frame_runs_ticks_and_counts_timers_down() {
    let mut m = Machine::new();
    // V0 = 5, DT = V0, ST = V0, then trap
    assert!(m.load_rom(&[0x60, 0x05, 0xF0, 0x15, 0xF0, 0x18, 0x12, 0x06]));
    assert_eq!(m.update([0; 9]), ExecutionStatus::Halt);
    assert_eq!(m.cpu().delay_timer(), 4);
    assert!(m.is_beeping());
    assert_eq!(m.update([0; 9]), ExecutionStatus::Halt);
    assert_eq!(m.cpu().delay_timer(), 3);
}

#[test]
fn machine_frame_stops_at_key_wait_without_error() {
    let mut m = Machine::new();
    assert!(m.load_rom(&[0x70, 0x01, 0xF1, 0x0A, 0x12, 0x00]));
    assert_eq!(m.update([0; 9]), ExecutionStatus::OK);
    assert_eq!(m.cpu().register(0), 1);
    assert_eq!(m.cpu().pc(), 0x202);
    m.set_keys(0, 1 << 7);
    assert_eq!(m.update([0; 9]), ExecutionStatus::OK);
    assert_eq!(m.cpu().register(1), 7);
    assert_eq!(m.cpu().register(0), 2);
}

#[test]
fn machine_frame_runs_nine_steps() {
    let mut m = Machine::new();
    // a loop incrementing V0: V0 += 1; jump to start
    assert!(m.load_rom(&[0x70, 0x01, 0x12, 0x00]));
    assert_eq!(m.update([0; 9]), ExecutionStatus::OK);
    assert_eq!(m.cpu().register(0), 5);
}

#[test]
fn machine_uses_one_random_byte_per_step() {
    let mut m = Machine::new();
    assert!(m.load_rom(&[0xC0, 0xFF, 0xC1, 0xFF, 0x12, 0x04]));
    let mut bytes = [0u8; 9];
    bytes[0] = 0x12;
    bytes[1] = 0x34;
    assert_eq!(m.update(bytes), ExecutionStatus::Halt);
    assert_eq!(m.cpu().register(0), 0x12);
    assert_eq!(m.cpu().register(1), 0x34);
}

#[test]
fn machine_reset_and_frame_flags() {
    let mut m = Machine::new();
    assert!(m.load_rom(&[0xD0, 0x05, 0x12, 0x02]));
    m.set_quirks(true, false);
    assert_eq!(m.update([0; 9]), ExecutionStatus::Halt);
    let update = m.get_display_update();
    assert!(update.display_updated);
    assert_eq!(update.display.iter().filter(|&&p| p == 1).count(), 14);
    m.reset();
    let update = m.get_display_update();
    assert!(!update.display_updated);
    assert!(update.display.iter().all(|&p| p == 0));
    assert_eq!(m.cpu().pc(), 0x200);
    assert_eq!(m.max_rom_size(), 3584);
    assert!(!m.load_rom(&vec![0u8; 3585]));
}

#[test]
fn random_scales_a_fraction_to_a_byte() {
    assert_eq!(random(0), 0);
    assert_eq!(random(u32::MAX), 254);
    assert_eq!(random(0x8000_0000), 127);
    assert_eq!(random(0x4000_0000), 63);
}
