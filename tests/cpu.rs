use chip8::{ExecutionStatus, IODevice, RunState, CPU, PROGRAM_START, STACK_SIZE};

fn load(program: &[u8]) -> (CPU, IODevice) {
    let mut cpu = CPU::new();
    assert!(cpu.load_rom(program));
    (cpu, IODevice::new())
}

fn tick(cpu: &mut CPU, device: &mut IODevice) -> ExecutionStatus {
    cpu.tick(device, 0xBD)
}

fn run(cpu: &mut CPU, device: &mut IODevice, steps: usize) {
    for _ in 0..steps {
        assert_eq!(tick(cpu, device), ExecutionStatus::OK);
    }
}

#[test]
fn test_op_00ee_ret() {
    let (mut cpu, mut dev) = load(&[0x22, 0x06, 0x00, 0x00, 0x00, 0x00, 0x00, 0xEE]);
    run(&mut cpu, &mut dev, 1);
    assert_eq!(cpu.pc(), 0x206);
    assert_eq!(cpu.stack_depth(), 1);
    run(&mut cpu, &mut dev, 1);
    assert_eq!(cpu.pc(), 0x202);
    assert_eq!(cpu.stack_depth(), 0);
}

#[test]
fn ret_on_empty_stack_is_runtime_error() {
    let (mut cpu, mut dev) = load(&[0x00, 0xEE]);
    assert_eq!(tick(&mut cpu, &mut dev), ExecutionStatus::RuntimeError);
    assert_eq!(cpu.run_state(), RunState::Failed);
    assert_eq!(tick(&mut cpu, &mut dev), ExecutionStatus::RuntimeError);
}

#[test]
fn test_op_1nnn_jump() {
    let (mut cpu, mut dev) = load(&[0x14, 0x56]);
    run(&mut cpu, &mut dev, 1);
    assert_eq!(cpu.pc(), 0x456);
}

#[test]
fn trap_jump_halts_and_stays_halted() {
    let (mut cpu, mut dev) = load(&[0x60, 0x07, 0x12, 0x02, 0x60, 0x09]);
    run(&mut cpu, &mut dev, 1);
    assert_eq!(tick(&mut cpu, &mut dev), ExecutionStatus::Halt);
    assert_eq!(cpu.run_state(), RunState::Halted);
    let pc = cpu.pc();
    assert_eq!(tick(&mut cpu, &mut dev), ExecutionStatus::Halt);
    assert_eq!(tick(&mut cpu, &mut dev), ExecutionStatus::Halt);
    assert_eq!(cpu.pc(), pc);
    assert_eq!(cpu.register(0), 0x07);
}

#[test]
fn reset_resumes_after_halt() {
    let (mut cpu, mut dev) = load(&[0x12, 0x00]);
    assert_eq!(tick(&mut cpu, &mut dev), ExecutionStatus::Halt);
    cpu.reset();
    assert_eq!(cpu.run_state(), RunState::Running);
    assert_eq!(cpu.pc(), PROGRAM_START);
    assert_eq!(tick(&mut cpu, &mut dev), ExecutionStatus::Halt);
}

#[test]
fn test_op_2nnn_call() {
    let (mut cpu, mut dev) = load(&[0x24, 0x56]);
    run(&mut cpu, &mut dev, 1);
    assert_eq!(cpu.pc(), 0x456);
    assert_eq!(cpu.stack_depth(), 1);
}

// subroutine at 0x300: V0 += 1; skip the call when V0 == limit; call itself; return
fn recursion(limit: u8) -> (CPU, IODevice) {
    let mut rom = vec![0u8; 0x108];
    rom[0] = 0x23;
    rom[1] = 0x00;
    rom[2] = 0x12;
    rom[3] = 0x02;
    rom[0x100..0x108].copy_from_slice(&[0x70, 0x01, 0x30, limit, 0x23, 0x00, 0x00, 0xEE]);
    load(&rom)
}

#[test]
fn stack_holds_exactly_its_capacity() {
    let (mut cpu, mut dev) = recursion(STACK_SIZE as u8);
    let mut deepest = 0;
    let mut status = ExecutionStatus::OK;
    for _ in 0..10_000 {
        status = tick(&mut cpu, &mut dev);
        deepest = deepest.max(cpu.stack_depth());
        if status != ExecutionStatus::OK {
            break;
        }
    }
    assert_eq!(status, ExecutionStatus::Halt);
    assert_eq!(deepest, STACK_SIZE);
    assert_eq!(cpu.stack_depth(), 0);
    assert_eq!(cpu.register(0), STACK_SIZE as u8);
    assert_eq!(cpu.pc(), 0x204);
}

#[test]
fn call_beyond_capacity_is_runtime_error() {
    let (mut cpu, mut dev) = recursion(STACK_SIZE as u8 + 1);
    let mut status = ExecutionStatus::OK;
    for _ in 0..10_000 {
        status = tick(&mut cpu, &mut dev);
        if status != ExecutionStatus::OK {
            break;
        }
    }
    assert_eq!(status, ExecutionStatus::RuntimeError);
    assert_eq!(cpu.stack_depth(), STACK_SIZE);
    assert_eq!(cpu.register(0), STACK_SIZE as u8);
}

#[test]
fn test_op_3xkk_skipeq() {
    let (mut cpu, mut dev) = load(&[0x60, 0xAF, 0x30, 0xAF]);
    run(&mut cpu, &mut dev, 2);
    assert_eq!(cpu.pc(), 0x206);
    let (mut cpu, mut dev) = load(&[0x60, 0xAF, 0x31, 0xAF]);
    run(&mut cpu, &mut dev, 2);
    assert_eq!(cpu.pc(), 0x204);
}

#[test]
fn test_op_4xkk_skipneq() {
    let (mut cpu, mut dev) = load(&[0x60, 0xAF, 0x40, 0xAF]);
    run(&mut cpu, &mut dev, 2);
    assert_eq!(cpu.pc(), 0x204);
    let (mut cpu, mut dev) = load(&[0x60, 0xAF, 0x41, 0xAF]);
    run(&mut cpu, &mut dev, 2);
    assert_eq!(cpu.pc(), 0x206);
}

#[test]
fn test_op_5xy0_skipeqv() {
    let (mut cpu, mut dev) = load(&[0x60, 0x33, 0x62, 0x33, 0x50, 0x20]);
    run(&mut cpu, &mut dev, 3);
    assert_eq!(cpu.pc(), 0x208);
    let (mut cpu, mut dev) = load(&[0x60, 0x33, 0x62, 0x33, 0x50, 0x10]);
    run(&mut cpu, &mut dev, 3);
    assert_eq!(cpu.pc(), 0x206);
}

#[test]
fn test_op_9xy0_skipnev() {
    let (mut cpu, mut dev) = load(&[0x60, 0x33, 0x62, 0x33, 0x90, 0x10]);
    run(&mut cpu, &mut dev, 3);
    assert_eq!(cpu.pc(), 0x208);
    let (mut cpu, mut dev) = load(&[0x60, 0x33, 0x62, 0x33, 0x90, 0x20]);
    run(&mut cpu, &mut dev, 3);
    assert_eq!(cpu.pc(), 0x206);
}

#[test]
fn test_op_6xkk_load() {
    let (mut cpu, mut dev) = load(&[0x60, 0x56, 0x63, 0x52]);
    run(&mut cpu, &mut dev, 2);
    assert_eq!(cpu.register(0), 0x56);
    assert_eq!(cpu.register(3), 0x52);
}

#[test]
fn test_op_7xkk_incr() {
    let (mut cpu, mut dev) = load(&[0x60, 0xCA, 0x70, 0x02, 0x63, 0xFF, 0x73, 0x03]);
    run(&mut cpu, &mut dev, 4);
    assert_eq!(cpu.register(0), 0xCC);
    assert_eq!(cpu.register(3), 0x02);
    assert_eq!(cpu.register(0xF), 0);
}

fn alu(vx: u8, vy: u8, op: u8) -> CPU {
    let (mut cpu, mut dev) = load(&[0x60, vx, 0x61, vy, 0x80, 0x10 | op]);
    run(&mut cpu, &mut dev, 3);
    cpu
}

#[test]
fn test_op_8xy0_to_8xy3() {
    assert_eq!(alu(0x12, 0x34, 0x0).register(0), 0x34);
    assert_eq!(alu(0xF0, 0x0F, 0x1).register(0), 0xFF);
    assert_eq!(alu(0xF3, 0x3F, 0x2).register(0), 0x33);
    assert_eq!(alu(0xFA, 0xAF, 0x3).register(0), 0x55);
}

#[test]
fn test_op_8xy4_add() {
    let cpu = alu(10, 20, 0x4);
    assert_eq!(cpu.register(0), 30);
    assert_eq!(cpu.register(0xF), 0);
    let cpu = alu(200, 100, 0x4);
    assert_eq!(cpu.register(0), 44);
    assert_eq!(cpu.register(0xF), 1);
    let cpu = alu(0xFF, 0x01, 0x4);
    assert_eq!(cpu.register(0), 0);
    assert_eq!(cpu.register(0xF), 1);
    let cpu = alu(0x80, 0x7F, 0x4);
    assert_eq!(cpu.register(0), 0xFF);
    assert_eq!(cpu.register(0xF), 0);
}

#[test]
fn test_op_8xy5_sub() {
    let cpu = alu(50, 20, 0x5);
    assert_eq!(cpu.register(0), 30);
    assert_eq!(cpu.register(0xF), 1);
    let cpu = alu(20, 50, 0x5);
    assert_eq!(cpu.register(0), 226);
    assert_eq!(cpu.register(0xF), 0);
    let cpu = alu(77, 77, 0x5);
    assert_eq!(cpu.register(0), 0);
    assert_eq!(cpu.register(0xF), 1);
}

#[test]
fn test_op_8xy7_subn() {
    let cpu = alu(20, 50, 0x7);
    assert_eq!(cpu.register(0), 30);
    assert_eq!(cpu.register(0xF), 1);
    let cpu = alu(50, 20, 0x7);
    assert_eq!(cpu.register(0), 226);
    assert_eq!(cpu.register(0xF), 0);
}

#[test]
fn test_op_8xy6_shr() {
    let cpu = alu(0x05, 0x00, 0x6);
    assert_eq!(cpu.register(0), 0x02);
    assert_eq!(cpu.register(0xF), 1);
    let cpu = alu(0xFE, 0x00, 0x6);
    assert_eq!(cpu.register(0), 0x7F);
    assert_eq!(cpu.register(0xF), 0);
}

#[test]
fn test_op_8xye_shl() {
    let cpu = alu(0x81, 0x00, 0xE);
    assert_eq!(cpu.register(0), 0x02);
    assert_eq!(cpu.register(0xF), 1);
    let cpu = alu(0x41, 0x00, 0xE);
    assert_eq!(cpu.register(0), 0x82);
    assert_eq!(cpu.register(0xF), 0);
}

#[test]
fn legacy_shifts_read_vy() {
    let (mut cpu, mut dev) = load(&[0x60, 0xFF, 0x61, 0x06, 0x80, 0x16, 0x82, 0x1E]);
    cpu.set_quirks(false, false);
    run(&mut cpu, &mut dev, 4);
    assert_eq!(cpu.register(0), 0x03);
    assert_eq!(cpu.register(2), 0x0C);
    assert_eq!(cpu.register(0xF), 0);
}

#[test]
fn unknown_opcodes_are_runtime_errors() {
    for program in [[0x80, 0x18], [0xE0, 0x00], [0xF0, 0xFF]] {
        let (mut cpu, mut dev) = load(&program);
        assert_eq!(tick(&mut cpu, &mut dev), ExecutionStatus::RuntimeError);
        assert_eq!(cpu.run_state(), RunState::Failed);
    }
}

#[test]
fn system_calls_are_ignored() {
    let (mut cpu, mut dev) = load(&[0x01, 0x23]);
    run(&mut cpu, &mut dev, 1);
    assert_eq!(cpu.pc(), 0x202);
}

#[test]
fn test_op_annn_loadi() {
    let (mut cpu, mut dev) = load(&[0xA3, 0x56]);
    run(&mut cpu, &mut dev, 1);
    assert_eq!(cpu.ir(), 0x356);
}

#[test]
fn test_op_bnnn_jumpv() {
    let (mut cpu, mut dev) = load(&[0x60, 0x10, 0xB4, 0x56]);
    run(&mut cpu, &mut dev, 2);
    assert_eq!(cpu.pc(), 0x466);
}

#[test]
fn running_off_the_end_halts() {
    let (mut cpu, mut dev) = load(&[0xBF, 0xFF]);
    run(&mut cpu, &mut dev, 1);
    assert_eq!(cpu.pc(), 0xFFF);
    assert_eq!(tick(&mut cpu, &mut dev), ExecutionStatus::Halt);
}

#[test]
fn test_op_cxkk_rand() {
    let (mut cpu, mut dev) = load(&[0xC0, 0x56, 0xC3, 0x4A]);
    run(&mut cpu, &mut dev, 2);
    assert_eq!(cpu.register(0), 0xBD & 0x56);
    assert_eq!(cpu.register(3), 0xBD & 0x4A);
}

#[test]
fn test_op_fx07_fx15_delay_timer() {
    let (mut cpu, mut dev) = load(&[0x60, 0x2A, 0xF0, 0x15, 0xF3, 0x07]);
    run(&mut cpu, &mut dev, 3);
    assert_eq!(cpu.delay_timer(), 0x2A);
    assert_eq!(cpu.register(3), 0x2A);
    cpu.update_timer();
    assert_eq!(cpu.delay_timer(), 0x29);
}

#[test]
fn test_op_fx18_sound_timer() {
    let (mut cpu, mut dev) = load(&[0x60, 0x01, 0xF0, 0x18]);
    assert!(!cpu.beeping());
    run(&mut cpu, &mut dev, 2);
    assert_eq!(cpu.sound_timer(), 1);
    assert!(cpu.beeping());
    cpu.update_timer();
    assert!(!cpu.beeping());
    cpu.update_timer();
    assert_eq!(cpu.sound_timer(), 0);
    assert_eq!(cpu.delay_timer(), 0);
}

#[test]
fn test_op_fx1e_addi() {
    let (mut cpu, mut dev) = load(&[0xA1, 0x23, 0x60, 0x45, 0xF0, 0x1E]);
    run(&mut cpu, &mut dev, 3);
    assert_eq!(cpu.ir(), 0x123 + 0x45);
}

#[test]
fn test_op_fx29_digit() {
    let (mut cpu, mut dev) = load(&[0x63, 0x0B, 0xF3, 0x29]);
    run(&mut cpu, &mut dev, 2);
    assert_eq!(cpu.ir(), 55);
    assert_eq!(cpu.memory_at(55), 0xE0);
}

fn bcd_of(v: u8) -> [u8; 3] {
    let (mut cpu, mut dev) = load(&[0x65, v, 0xA3, 0x00, 0xF5, 0x33]);
    run(&mut cpu, &mut dev, 3);
    [cpu.memory_at(0x300), cpu.memory_at(0x301), cpu.memory_at(0x302)]
}

#[test]
fn test_op_fx33_bcd() {
    assert_eq!(bcd_of(205), [2, 0, 5]);
    assert_eq!(bcd_of(0), [0, 0, 0]);
    assert_eq!(bcd_of(9), [0, 0, 9]);
    assert_eq!(bcd_of(10), [0, 1, 0]);
    assert_eq!(bcd_of(99), [0, 9, 9]);
    assert_eq!(bcd_of(255), [2, 5, 5]);
}

#[test]
fn bcd_then_register_load_gives_digits() {
    for v in 0..=255u8 {
        let (mut cpu, mut dev) = load(&[0x65, v, 0xA3, 0x00, 0xF5, 0x33, 0xF2, 0x65]);
        run(&mut cpu, &mut dev, 4);
        let digits = [cpu.register(0), cpu.register(1), cpu.register(2)];
        assert_eq!(digits, [v / 100, (v / 10) % 10, v % 10]);
        assert_eq!(digits[0] as u32 * 100 + digits[1] as u32 * 10 + digits[2] as u32, v as u32);
    }
}

#[test]
fn bcd_past_end_of_memory_is_runtime_error() {
    let (mut cpu, mut dev) = load(&[0xAF, 0xFE, 0xF0, 0x33]);
    run(&mut cpu, &mut dev, 1);
    assert_eq!(tick(&mut cpu, &mut dev), ExecutionStatus::RuntimeError);
}

#[test]
fn test_op_fx55_storeg() {
    let (mut cpu, mut dev) =
        load(&[0x60, 0x11, 0x61, 0x22, 0x62, 0x33, 0x63, 0x44, 0xA3, 0x00, 0xF2, 0x55]);
    run(&mut cpu, &mut dev, 6);
    assert_eq!(cpu.memory_at(0x300), 0x11);
    assert_eq!(cpu.memory_at(0x301), 0x22);
    assert_eq!(cpu.memory_at(0x302), 0x33);
    assert_eq!(cpu.memory_at(0x303), 0x00);
    assert_eq!(cpu.ir(), 0x303);
}

#[test]
fn storeg_with_load_store_quirk_keeps_index() {
    let (mut cpu, mut dev) = load(&[0x60, 0x11, 0xA3, 0x00, 0xF0, 0x55]);
    cpu.set_quirks(true, true);
    run(&mut cpu, &mut dev, 3);
    assert_eq!(cpu.memory_at(0x300), 0x11);
    assert_eq!(cpu.ir(), 0x300);
}

#[test]
fn test_op_fx65_ldreg() {
    let (mut cpu, mut dev) = load(&[0xA2, 0x08, 0xF2, 0x65, 0x12, 0x04, 0x00, 0x00, 0x0A, 0x0B, 0x0C, 0x0D]);
    run(&mut cpu, &mut dev, 2);
    assert_eq!(cpu.register(0), 0x0A);
    assert_eq!(cpu.register(1), 0x0B);
    assert_eq!(cpu.register(2), 0x0C);
    assert_eq!(cpu.register(3), 0x00);
    assert_eq!(cpu.ir(), 0x20B);
}

#[test]
fn register_block_past_end_of_memory_is_runtime_error() {
    let (mut cpu, mut dev) = load(&[0xAF, 0xFF, 0xF1, 0x55]);
    run(&mut cpu, &mut dev, 1);
    assert_eq!(tick(&mut cpu, &mut dev), ExecutionStatus::RuntimeError);
    let (mut cpu, mut dev) = load(&[0xAF, 0xFF, 0xF1, 0x65]);
    run(&mut cpu, &mut dev, 1);
    assert_eq!(tick(&mut cpu, &mut dev), ExecutionStatus::RuntimeError);
    let (mut cpu, mut dev) = load(&[0xAF, 0xFF, 0xF0, 0x55]);
    run(&mut cpu, &mut dev, 2);
}

#[test]
fn load_rom_refuses_oversized_programs() {
    let mut cpu = CPU::new();
    assert!(!cpu.load_rom(&vec![1u8; 3585]));
    assert_eq!(cpu.memory_at(PROGRAM_START), 0);
    assert!(cpu.load_rom(&vec![1u8; 3584]));
    assert_eq!(cpu.memory_at(0xFFF), 1);
}

#[test]
fn font_is_loaded_at_zero() {
    let cpu = CPU::new();
    assert_eq!(cpu.memory_at(0), 0xF0);
    assert_eq!(cpu.memory_at(4), 0xF0);
    assert_eq!(cpu.memory_at(79), 0x80);
    assert_eq!(cpu.memory_at(80), 0);
    assert_eq!(cpu.pc(), PROGRAM_START);
}
