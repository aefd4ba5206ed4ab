use vstd::prelude::*;
use crate::iodevice::{pixel_index, DeviceModel, IOInterface, NO_KEY};
use crate::isa::{
    address, collides_within, draw_within, exec_alu, exec_bcd, exec_call, exec_draw, exec_dump,
    exec_jump, exec_key_skip, exec_load, exec_misc, exec_return, exec_wait_key, execute, family,
    fault, lemma_draw_none, lemma_draw_step, lemma_draw_wf, nibble, ok, reg_x, reg_y, sprite_bit,
    sprite_cell, step, CpuModel, ExecutionStatus, RunState, FLAG_REGISTER, REGISTER_COUNT,
    STACK_SIZE,
};
use crate::memory::{allocate_memory, initial_memory, MEM_SIZE, PROGRAM_START};

verus! {

/// Longest program that fits in memory above the program origin.
pub const MAX_ROM_SIZE: usize = 3584;

/// The interpreter: memory, registers, index register, program counter,
/// call stack, timers and quirk flags.
pub struct CPU {
    memory: Vec<u8>,
    register: Vec<u8>,
    ir: u16,
    pc: usize,
    stack: Vec<usize>,
    dt: u8,
    st: u8,
    shift_quirk: bool,
    load_store_quirk: bool,
    run: RunState,
}

impl View for CPU {
    type V = CpuModel;

    closed spec fn view(&self) -> CpuModel {
        CpuModel {
            memory: self.memory@,
            registers: self.register@,
            ir: self.ir,
            pc: self.pc,
            stack: self.stack@,
            dt: self.dt,
            st: self.st,
            shift_quirk: self.shift_quirk,
            load_store_quirk: self.load_store_quirk,
            run: self.run,
        }
    }
}

/// The state of a freshly built interpreter over `memory`: modern shifts,
/// advancing register dump and load.
pub open spec fn power_on(memory: Seq<u8>) -> CpuModel {
    CpuModel {
        memory,
        registers: Seq::new(REGISTER_COUNT as nat, |i: int| 0u8),
        ir: 0,
        pc: PROGRAM_START,
        stack: Seq::empty(),
        dt: 0,
        st: 0,
        shift_quirk: true,
        load_store_quirk: false,
        run: RunState::Running,
    }
}

/// `memory` with `rom` written at the program origin.
pub open spec fn with_rom(memory: Seq<u8>, rom: Seq<u8>) -> Seq<u8> {
    Seq::new(
        memory.len(),
        |a: int|
            if PROGRAM_START <= a < PROGRAM_START + rom.len() {
                rom[a - PROGRAM_START]
            } else {
                memory[a]
            },
    )
}

fn get1(high: u8, _low: u8) -> (r: u8)
    ensures
        r == family(high),
{
    assert((high >> 4u8) & 0x0Fu8 == high / 16) by (bit_vector);
    (high >> 4) & 0x0F
}

fn get2(high: u8, _low: u8) -> (r: u8)
    ensures
        r == reg_x(high),
{
    assert(high & 0x0Fu8 == high % 16) by (bit_vector);
    high & 0x0F
}

fn get3(_high: u8, low: u8) -> (r: u8)
    ensures
        r == reg_y(low),
{
    assert((low >> 4u8) & 0x0Fu8 == low / 16) by (bit_vector);
    (low >> 4) & 0x0F
}

fn get4(_high: u8, low: u8) -> (r: u8)
    ensures
        r == nibble(low),
{
    assert(low & 0x0Fu8 == low % 16) by (bit_vector);
    low & 0x0F
}

fn get_kk(_high: u8, low: u8) -> (r: u8)
    ensures
        r == low,
{
    low
}

fn get_nnn(high: u8, low: u8) -> (r: u16)
    ensures
        r == address(high, low),
{
    let front = get2(high, low) as u16;
    let back = get_kk(high, low) as u16;
    assert(front < 16 && back < 256 ==> (front << 8u16) | back == front * 256 + back)
        by (bit_vector);
    (front << 8) | back
}

/// Draws row `dy` of a sprite, one position at a time.
fn draw_sprite_row<D: IOInterface>(
    device: &mut D,
    d0: Ghost<DeviceModel>,
    rows: Ghost<Seq<u8>>,
    x_start: u8,
    y_start: u8,
    dy: u8,
    row: u8,
    vf: u8,
) -> (vf2: u8)
    requires
        dy < rows@.len() <= 16,
        row == rows@[dy as int],
        d0@.wf(),
        old(device).inv(),
        old(device).model() == draw_within(d0@, rows@, x_start, y_start, dy * 8),
        vf == (if collides_within(d0@.screen, rows@, x_start, y_start, dy * 8) {
            1u8
        } else {
            0u8
        }),
    ensures
        final(device).inv(),
        final(device).model() == draw_within(d0@, rows@, x_start, y_start, dy * 8 + 8),
        vf2 == (if collides_within(d0@.screen, rows@, x_start, y_start, dy * 8 + 8) {
            1u8
        } else {
            0u8
        }),
{
    let mut vf = vf;
    let mut dx: u8 = 0;
    while dx < 8
        invariant
            dx <= 8,
            dy < rows@.len() <= 16,
            row == rows@[dy as int],
            d0@.wf(),
            device.inv(),
            device.model() == draw_within(d0@, rows@, x_start, y_start, dy * 8 + dx),
            vf == (if collides_within(d0@.screen, rows@, x_start, y_start, dy * 8 + dx) {
                1u8
            } else {
                0u8
            }),
        decreases 8 - dx,
    {
        vf = draw_sprite_pixel(device, d0, rows, x_start, y_start, dx, dy, row, vf);
        dx = dx + 1;
    }
    vf
}

/// Draws position `(dx, dy)` of a sprite when its bit is set.
fn draw_sprite_pixel<D: IOInterface>(
    device: &mut D,
    d0: Ghost<DeviceModel>,
    rows: Ghost<Seq<u8>>,
    x_start: u8,
    y_start: u8,
    dx: u8,
    dy: u8,
    row: u8,
    vf: u8,
) -> (vf2: u8)
    requires
        dx < 8,
        dy < rows@.len() <= 16,
        row == rows@[dy as int],
        d0@.wf(),
        old(device).inv(),
        old(device).model() == draw_within(d0@, rows@, x_start, y_start, dy * 8 + dx),
        vf == (if collides_within(d0@.screen, rows@, x_start, y_start, dy * 8 + dx) {
            1u8
        } else {
            0u8
        }),
    ensures
        final(device).inv(),
        final(device).model() == draw_within(d0@, rows@, x_start, y_start, dy * 8 + dx + 1),
        vf2 == (if collides_within(d0@.screen, rows@, x_start, y_start, dy * 8 + dx + 1) {
            1u8
        } else {
            0u8
        }),
{
    proof {
        lemma_draw_step(d0@, rows@, x_start, y_start, dx as int, dy as int);
        lemma_draw_wf(d0@, rows@, x_start, y_start, dy * 8 + dx);
    }
    let xw = x_start.wrapping_add(dx);
    let yw = y_start.wrapping_add(dy);
    assert(pixel_index(xw as int, yw as int) == sprite_cell(x_start, y_start, dx as int, dy as int));
    let bit = (row >> (7 - dx)) & 1;
    assert((bit == 1) == sprite_bit(rows@[dy as int], dx as int));
    if bit == 1 {
        let erased = device.draw_pixel(xw, yw);
        if erased == 1 {
            return 1;
        }
    }
    vf
}

impl CPU {
    pub open spec fn wf(&self) -> bool {
        self@.wf()
    }

    pub fn new() -> (c: CPU)
        ensures
            c.wf(),
            initial_memory(c@.memory),
            c@ == power_on(c@.memory),
    {
        let c = CPU {
            memory: allocate_memory(),
            register: vec![0u8; REGISTER_COUNT],
            ir: 0,
            pc: PROGRAM_START,
            stack: Vec::new(),
            dt: 0,
            st: 0,
            shift_quirk: true,
            load_store_quirk: false,
            run: RunState::Running,
        };
        assert(c@.registers =~= power_on(c@.memory).registers);
        c
    }

    /// Chooses the shift and the register dump/load variants.
    pub fn set_quirks(&mut self, shift: bool, loadstore: bool)
        requires
            old(self).wf(),
        ensures
            final(self).wf(),
            final(self)@ == (CpuModel {
                shift_quirk: shift,
                load_store_quirk: loadstore,
                ..old(self)@
            }),
    {
        self.shift_quirk = shift;
        self.load_store_quirk = loadstore;
    }

    /// Back to the start of the program with cleared registers, stack and
    /// timers; memory and the quirk flags are kept.
    pub fn reset(&mut self)
        requires
            old(self).wf(),
        ensures
            final(self).wf(),
            final(self)@ == old(self)@.restarted(),
    {
        self.ir = 0;
        self.pc = PROGRAM_START;
        self.stack = Vec::new();
        self.dt = 0;
        self.st = 0;
        self.run = RunState::Running;
        let mut i: usize = 0;
        while i < REGISTER_COUNT
            invariant
                i <= REGISTER_COUNT,
                self.register@.len() == REGISTER_COUNT,
                forall|j: int| 0 <= j < i ==> self.register@[j] == 0,
                self.memory@ == old(self)@.memory,
                self.ir == 0,
                self.pc == PROGRAM_START,
                self.stack@ == Seq::<usize>::empty(),
                self.dt == 0,
                self.st == 0,
                self.run == RunState::Running,
                self.shift_quirk == old(self)@.shift_quirk,
                self.load_store_quirk == old(self)@.load_store_quirk,
            decreases REGISTER_COUNT - i,
        {
            self.register.set(i, 0);
            i = i + 1;
        }
        assert(self@.registers =~= old(self)@.restarted().registers);
    }

    /// Writes `rom` at the program origin; refuses a program longer than
    /// `MAX_ROM_SIZE` and then changes nothing.
    pub fn load_rom(&mut self, rom: &[u8]) -> (loaded: bool)
        requires
            old(self).wf(),
        ensures
            final(self).wf(),
            loaded == (rom@.len() <= MAX_ROM_SIZE),
            loaded ==> final(self)@ == (CpuModel {
                memory: with_rom(old(self)@.memory, rom@),
                ..old(self)@
            }),
            !loaded ==> final(self)@ == old(self)@,
    {
        if rom.len() > MAX_ROM_SIZE {
            return false;
        }
        let mut i: usize = 0;
        while i < rom.len()
            invariant
                i <= rom@.len() <= MAX_ROM_SIZE,
                self.wf(),
                self@ == (CpuModel { memory: self@.memory, ..old(self)@ }),
                forall|a: int|
                    0 <= a < MEM_SIZE ==> #[trigger] self@.memory[a] == if PROGRAM_START <= a
                        < PROGRAM_START + i {
                        rom@[a - PROGRAM_START]
                    } else {
                        old(self)@.memory[a]
                    },
            decreases rom@.len() - i,
        {
            self.memory.set(PROGRAM_START + i, rom[i]);
            i = i + 1;
        }
        assert(self@.memory =~= with_rom(old(self)@.memory, rom@));
        true
    }

    /// Counts both timers down by one, stopping at zero.
    pub fn update_timer(&mut self)
        requires
            old(self).wf(),
        ensures
            final(self).wf(),
            final(self)@ == old(self)@.timers_ticked(),
    {
        if self.dt > 0 {
            self.dt = self.dt - 1;
        }
        if self.st > 0 {
            self.st = self.st - 1;
        }
    }

    /// Whether the sound timer is running.
    pub fn beeping(&self) -> (r: bool)
        ensures
            r == (self@.st > 0),
    {
        self.st > 0
    }

    pub fn register(&self, i: usize) -> (r: u8)
        requires
            self.wf(),
            i < REGISTER_COUNT,
        ensures
            r == self@.registers[i as int],
    {
        self.register[i]
    }

    pub fn memory_at(&self, addr: usize) -> (r: u8)
        requires
            self.wf(),
            addr < MEM_SIZE,
        ensures
            r == self@.memory[addr as int],
    {
        self.memory[addr]
    }

    pub fn pc(&self) -> (r: usize)
        ensures
            r == self@.pc,
    {
        self.pc
    }

    pub fn ir(&self) -> (r: u16)
        ensures
            r == self@.ir,
    {
        self.ir
    }

    pub fn delay_timer(&self) -> (r: u8)
        ensures
            r == self@.dt,
    {
        self.dt
    }

    pub fn sound_timer(&self) -> (r: u8)
        ensures
            r == self@.st,
    {
        self.st
    }

    pub fn stack_depth(&self) -> (r: usize)
        ensures
            r == self@.stack.len(),
    {
        self.stack.len()
    }

    pub fn run_state(&self) -> (r: RunState)
        ensures
            r == self@.run,
    {
        self.run
    }

    fn fail(&mut self) -> (r: ExecutionStatus)
        requires
            old(self).wf(),
        ensures
            final(self).wf(),
            (final(self)@, r) == fault(old(self)@),
    {
        self.run = RunState::Failed;
        ExecutionStatus::RuntimeError
    }
}

impl CPU {
    fn op_00e0_cls<D: IOInterface>(&mut self, device: &mut D) -> (r: ExecutionStatus)
        requires
            old(self).wf(),
            old(device).inv(),
        ensures
            final(self).wf(),
            final(self)@ == old(self)@,
            final(device).inv(),
            final(device).model().wf(),
            final(device).model() == old(device).model().clear_display(),
            r == ExecutionStatus::OK,
    {
        device.clear_display();
        ExecutionStatus::OK
    }

    fn op_00ee_ret(&mut self) -> (r: ExecutionStatus)
        requires
            old(self).wf(),
        ensures
            final(self).wf(),
            (final(self)@, r) == exec_return(old(self)@),
    {
        match self.stack.pop() {
            Some(addr) => {
                self.pc = addr;
                ExecutionStatus::OK
            },
            None => self.fail(),
        }
    }

    fn op_1nnn_jump(&mut self, high: u8, low: u8) -> (r: ExecutionStatus)
        requires
            old(self).wf(),
        ensures
            final(self).wf(),
            (final(self)@, r) == exec_jump(old(self)@, address(high, low)),
    {
        let addr = get_nnn(high, low) as usize;
        // a jump to the jump itself would loop forever: it stops the machine
        if self.pc == addr + 2 {
            self.run = RunState::Halted;
            return ExecutionStatus::Halt;
        }
        self.pc = addr;
        ExecutionStatus::OK
    }

    fn op_2nnn_call(&mut self, high: u8, low: u8) -> (r: ExecutionStatus)
        requires
            old(self).wf(),
        ensures
            final(self).wf(),
            (final(self)@, r) == exec_call(old(self)@, address(high, low)),
    {
        if self.stack.len() >= STACK_SIZE {
            return self.fail();
        }
        self.stack.push(self.pc);
        self.pc = get_nnn(high, low) as usize;
        ExecutionStatus::OK
    }

    fn op_3xkk_skipeq(&mut self, high: u8, low: u8) -> (r: ExecutionStatus)
        requires
            old(self).wf(),
            old(self)@.pc <= MEM_SIZE,
        ensures
            final(self).wf(),
            (final(self)@, r) == ok(old(self)@.skip_if(old(self)@.reg(reg_x(high)) == low)),
    {
        let x = get2(high, low) as usize;
        let kk = get_kk(high, low);
        if self.register[x] == kk {
            self.pc = self.pc + 2;
        }
        ExecutionStatus::OK
    }

    fn op_4xkk_skipneq(&mut self, high: u8, low: u8) -> (r: ExecutionStatus)
        requires
            old(self).wf(),
            old(self)@.pc <= MEM_SIZE,
        ensures
            final(self).wf(),
            (final(self)@, r) == ok(old(self)@.skip_if(old(self)@.reg(reg_x(high)) != low)),
    {
        let x = get2(high, low) as usize;
        let kk = get_kk(high, low);
        if self.register[x] != kk {
            self.pc = self.pc + 2;
        }
        ExecutionStatus::OK
    }

    fn op_5xy0_skipeqv(&mut self, high: u8, low: u8) -> (r: ExecutionStatus)
        requires
            old(self).wf(),
            old(self)@.pc <= MEM_SIZE,
        ensures
            final(self).wf(),
            (final(self)@, r) == ok(
                old(self)@.skip_if(old(self)@.reg(reg_x(high)) == old(self)@.reg(reg_y(low))),
            ),
    {
        let x = get2(high, low) as usize;
        let y = get3(high, low) as usize;
        if self.register[x] == self.register[y] {
            self.pc = self.pc + 2;
        }
        ExecutionStatus::OK
    }

    fn op_6xkk_load(&mut self, high: u8, low: u8) -> (r: ExecutionStatus)
        requires
            old(self).wf(),
        ensures
            final(self).wf(),
            (final(self)@, r) == ok(old(self)@.set_reg(reg_x(high), low)),
    {
        let x = get2(high, low) as usize;
        let kk = get_kk(high, low);
        self.register.set(x, kk);
        ExecutionStatus::OK
    }

    fn op_7xkk_incr(&mut self, high: u8, low: u8) -> (r: ExecutionStatus)
        requires
            old(self).wf(),
        ensures
            final(self).wf(),
            (final(self)@, r) == ok(
                old(self)@.set_reg(reg_x(high), ((old(self)@.reg(reg_x(high)) + low) % 256) as u8),
            ),
    {
        let x = get2(high, low) as usize;
        let kk = get_kk(high, low);
        let v = self.register[x].wrapping_add(kk);
        self.register.set(x, v);
        ExecutionStatus::OK
    }

    fn op_8xy0_set(&mut self, x: usize, y: usize) -> (r: ExecutionStatus)
        requires
            old(self).wf(),
            x < REGISTER_COUNT,
            y < REGISTER_COUNT,
        ensures
            final(self).wf(),
            (final(self)@, r) == exec_alu(old(self)@, x as int, y as int, 0),
    {
        proof {
            reveal(exec_alu);
        }
        let v = self.register[y];
        self.register.set(x, v);
        ExecutionStatus::OK
    }

    fn op_8xy1_or(&mut self, x: usize, y: usize) -> (r: ExecutionStatus)
        requires
            old(self).wf(),
            x < REGISTER_COUNT,
            y < REGISTER_COUNT,
        ensures
            final(self).wf(),
            (final(self)@, r) == exec_alu(old(self)@, x as int, y as int, 1),
    {
        proof {
            reveal(exec_alu);
        }
        let v = self.register[x] | self.register[y];
        self.register.set(x, v);
        ExecutionStatus::OK
    }

    fn op_8xy2_and(&mut self, x: usize, y: usize) -> (r: ExecutionStatus)
        requires
            old(self).wf(),
            x < REGISTER_COUNT,
            y < REGISTER_COUNT,
        ensures
            final(self).wf(),
            (final(self)@, r) == exec_alu(old(self)@, x as int, y as int, 2),
    {
        proof {
            reveal(exec_alu);
        }
        let v = self.register[x] & self.register[y];
        self.register.set(x, v);
        ExecutionStatus::OK
    }

    fn op_8xy3_xor(&mut self, x: usize, y: usize) -> (r: ExecutionStatus)
        requires
            old(self).wf(),
            x < REGISTER_COUNT,
            y < REGISTER_COUNT,
        ensures
            final(self).wf(),
            (final(self)@, r) == exec_alu(old(self)@, x as int, y as int, 3),
    {
        proof {
            reveal(exec_alu);
        }
        let v = self.register[x] ^ self.register[y];
        self.register.set(x, v);
        ExecutionStatus::OK
    }

    fn op_8xy4_add(&mut self, x: usize, y: usize) -> (r: ExecutionStatus)
        requires
            old(self).wf(),
            x < REGISTER_COUNT,
            y < REGISTER_COUNT,
        ensures
            final(self).wf(),
            (final(self)@, r) == exec_alu(old(self)@, x as int, y as int, 4),
    {
        proof {
            reveal(exec_alu);
        }
        let temp = self.register[x] as u16 + self.register[y] as u16;
        self.register.set(x, (temp % 256) as u8);
        self.register.set(FLAG_REGISTER, (temp / 256) as u8);
        ExecutionStatus::OK
    }

    fn op_8xy5_sub(&mut self, x: usize, y: usize) -> (r: ExecutionStatus)
        requires
            old(self).wf(),
            x < REGISTER_COUNT,
            y < REGISTER_COUNT,
        ensures
            final(self).wf(),
            (final(self)@, r) == exec_alu(old(self)@, x as int, y as int, 5),
    {
        proof {
            reveal(exec_alu);
        }
        let vx = self.register[x];
        let vy = self.register[y];
        let diff = vx.wrapping_sub(vy);
        assert(diff == ((vx - vy + 256) % 256) as u8);
        self.register.set(x, diff);
        self.register.set(FLAG_REGISTER, if vx >= vy { 1 } else { 0 });
        ExecutionStatus::OK
    }

    fn op_8xy6_shr(&mut self, x: usize, y: usize) -> (r: ExecutionStatus)
        requires
            old(self).wf(),
            x < REGISTER_COUNT,
            y < REGISTER_COUNT,
        ensures
            final(self).wf(),
            (final(self)@, r) == exec_alu(old(self)@, x as int, y as int, 6),
    {
        proof {
            reveal(exec_alu);
        }
        let src = if self.shift_quirk { self.register[x] } else { self.register[y] };
        self.register.set(FLAG_REGISTER, src % 2);
        self.register.set(x, src / 2);
        ExecutionStatus::OK
    }

    fn op_8xy7_subn(&mut self, x: usize, y: usize) -> (r: ExecutionStatus)
        requires
            old(self).wf(),
            x < REGISTER_COUNT,
            y < REGISTER_COUNT,
        ensures
            final(self).wf(),
            (final(self)@, r) == exec_alu(old(self)@, x as int, y as int, 7),
    {
        proof {
            reveal(exec_alu);
        }
        let vx = self.register[x];
        let vy = self.register[y];
        let diff = vy.wrapping_sub(vx);
        assert(diff == ((vy - vx + 256) % 256) as u8);
        self.register.set(x, diff);
        self.register.set(FLAG_REGISTER, if vy >= vx { 1 } else { 0 });
        ExecutionStatus::OK
    }

    fn op_8xye_shl(&mut self, x: usize, y: usize) -> (r: ExecutionStatus)
        requires
            old(self).wf(),
            x < REGISTER_COUNT,
            y < REGISTER_COUNT,
        ensures
            final(self).wf(),
            (final(self)@, r) == exec_alu(old(self)@, x as int, y as int, 14),
    {
        proof {
            reveal(exec_alu);
        }
        let src = if self.shift_quirk { self.register[x] } else { self.register[y] };
        self.register.set(FLAG_REGISTER, src / 128);
        self.register.set(x, ((src as u16 * 2) % 256) as u8);
        ExecutionStatus::OK
    }

    fn op_9xy0_skipnev(&mut self, high: u8, low: u8) -> (r: ExecutionStatus)
        requires
            old(self).wf(),
            old(self)@.pc <= MEM_SIZE,
        ensures
            final(self).wf(),
            (final(self)@, r) == ok(
                old(self)@.skip_if(old(self)@.reg(reg_x(high)) != old(self)@.reg(reg_y(low))),
            ),
    {
        let x = get2(high, low) as usize;
        let y = get3(high, low) as usize;
        if self.register[x] != self.register[y] {
            self.pc = self.pc + 2;
        }
        ExecutionStatus::OK
    }

    fn op_annn_loadi(&mut self, high: u8, low: u8) -> (r: ExecutionStatus)
        requires
            old(self).wf(),
        ensures
            final(self).wf(),
            (final(self)@, r) == ok(old(self)@.set_ir(address(high, low))),
    {
        self.ir = get_nnn(high, low);
        ExecutionStatus::OK
    }

    fn op_bnnn_jumpv(&mut self, high: u8, low: u8) -> (r: ExecutionStatus)
        requires
            old(self).wf(),
        ensures
            final(self).wf(),
            (final(self)@, r) == ok(old(self)@.jump(old(self)@.reg(0) + address(high, low))),
    {
        let addr = self.register[0] as usize + get_nnn(high, low) as usize;
        self.pc = addr;
        ExecutionStatus::OK
    }

    fn op_cxkk_rand(&mut self, high: u8, low: u8, rnd: u8) -> (r: ExecutionStatus)
        requires
            old(self).wf(),
        ensures
            final(self).wf(),
            (final(self)@, r) == ok(old(self)@.set_reg(reg_x(high), rnd & low)),
    {
        let x = get2(high, low) as usize;
        let kk = get_kk(high, low);
        self.register.set(x, rnd & kk);
        ExecutionStatus::OK
    }

    fn op_ex9e_skp<D: IOInterface>(&mut self, device: &D, x: usize) -> (r: ExecutionStatus)
        requires
            old(self).wf(),
            old(self)@.pc <= MEM_SIZE,
            device.inv(),
            x < REGISTER_COUNT,
        ensures
            final(self).wf(),
            (final(self)@, r) == exec_key_skip(old(self)@, device.model(), x as int, 0x9E),
    {
        proof {
            reveal(exec_key_skip);
        }
        if device.key_pressed(self.register[x]) {
            self.pc = self.pc + 2;
        }
        ExecutionStatus::OK
    }

    fn op_exa1_sknp<D: IOInterface>(&mut self, device: &D, x: usize) -> (r: ExecutionStatus)
        requires
            old(self).wf(),
            old(self)@.pc <= MEM_SIZE,
            device.inv(),
            x < REGISTER_COUNT,
        ensures
            final(self).wf(),
            (final(self)@, r) == exec_key_skip(old(self)@, device.model(), x as int, 0xA1),
    {
        proof {
            reveal(exec_key_skip);
        }
        if !device.key_pressed(self.register[x]) {
            self.pc = self.pc + 2;
        }
        ExecutionStatus::OK
    }

    fn op_fx07_readdt(&mut self, x: usize) -> (r: ExecutionStatus)
        requires
            old(self).wf(),
            x < REGISTER_COUNT,
        ensures
            final(self).wf(),
            (final(self)@, r) == ok(old(self)@.set_reg(x as int, old(self)@.dt)),
    {
        let dt = self.dt;
        self.register.set(x, dt);
        ExecutionStatus::OK
    }

    fn op_fx0a_waitkey<D: IOInterface>(&mut self, device: &mut D, x: usize) -> (r: ExecutionStatus)
        requires
            old(self).wf(),
            old(self)@.pc >= 2,
            old(device).inv(),
            old(device).model().wf(),
            x < REGISTER_COUNT,
        ensures
            final(self).wf(),
            final(device).inv(),
            final(device).model().wf(),
            (final(self)@, final(device).model(), r) == exec_wait_key(
                old(self)@,
                old(device).model(),
                x as int,
            ),
    {
        let key = device.read_any_key();
        if key == NO_KEY {
            // run this instruction again on the next step
            self.pc = self.pc - 2;
            return ExecutionStatus::WaitForKey;
        }
        self.register.set(x, key);
        ExecutionStatus::OK
    }

    fn op_fx15_loaddt(&mut self, x: usize) -> (r: ExecutionStatus)
        requires
            old(self).wf(),
            x < REGISTER_COUNT,
        ensures
            final(self).wf(),
            (final(self)@, r) == ok(CpuModel { dt: old(self)@.reg(x as int), ..old(self)@ }),
    {
        self.dt = self.register[x];
        ExecutionStatus::OK
    }

    fn op_fx18_loadst(&mut self, x: usize) -> (r: ExecutionStatus)
        requires
            old(self).wf(),
            x < REGISTER_COUNT,
        ensures
            final(self).wf(),
            (final(self)@, r) == ok(CpuModel { st: old(self)@.reg(x as int), ..old(self)@ }),
    {
        self.st = self.register[x];
        ExecutionStatus::OK
    }

    fn op_fx1e_addi(&mut self, x: usize) -> (r: ExecutionStatus)
        requires
            old(self).wf(),
            x < REGISTER_COUNT,
        ensures
            final(self).wf(),
            (final(self)@, r) == ok(
                old(self)@.set_ir((old(self)@.ir + old(self)@.reg(x as int)) % 0x10000),
            ),
    {
        self.ir = self.ir.wrapping_add(self.register[x] as u16);
        ExecutionStatus::OK
    }

    fn op_fx29_digit(&mut self, x: usize) -> (r: ExecutionStatus)
        requires
            old(self).wf(),
            x < REGISTER_COUNT,
        ensures
            final(self).wf(),
            (final(self)@, r) == ok(old(self)@.set_ir(5 * old(self)@.reg(x as int))),
    {
        self.ir = 5 * (self.register[x] as u16);
        ExecutionStatus::OK
    }

    fn op_fx33_bcd(&mut self, x: usize) -> (r: ExecutionStatus)
        requires
            old(self).wf(),
            x < REGISTER_COUNT,
        ensures
            final(self).wf(),
            (final(self)@, r) == exec_bcd(old(self)@, x as int),
    {
        let ir = self.ir as usize;
        if ir + 3 > MEM_SIZE {
            return self.fail();
        }
        let vx = self.register[x];
        self.memory.set(ir + 2, vx % 10);
        self.memory.set(ir + 1, (vx / 10) % 10);
        self.memory.set(ir, vx / 100);
        assert(self@.memory =~= exec_bcd(old(self)@, x as int).0.memory);
        ExecutionStatus::OK
    }

    fn op_fx55_storeg(&mut self, x: usize) -> (r: ExecutionStatus)
        requires
            old(self).wf(),
            x < REGISTER_COUNT,
        ensures
            final(self).wf(),
            (final(self)@, r) == exec_dump(old(self)@, x as int),
    {
        let ir = self.ir as usize;
        if ir + x >= MEM_SIZE {
            return self.fail();
        }
        let mut i: usize = 0;
        while i <= x
            invariant
                x < REGISTER_COUNT,
                ir == old(self)@.ir,
                ir + x < MEM_SIZE,
                i <= x + 1,
                self.wf(),
                self@ == (CpuModel { memory: self@.memory, ..old(self)@ }),
                forall|a: int|
                    0 <= a < MEM_SIZE ==> #[trigger] self@.memory[a] == if ir <= a < ir + i {
                        old(self)@.registers[a - ir]
                    } else {
                        old(self)@.memory[a]
                    },
            decreases x + 1 - i,
        {
            let v = self.register[i];
            self.memory.set(ir + i, v);
            i = i + 1;
        }
        if !self.load_store_quirk {
            self.ir = (ir + x + 1) as u16;
        }
        assert(self@.memory =~= exec_dump(old(self)@, x as int).0.memory);
        ExecutionStatus::OK
    }

    fn op_fx65_ldreg(&mut self, x: usize) -> (r: ExecutionStatus)
        requires
            old(self).wf(),
            x < REGISTER_COUNT,
        ensures
            final(self).wf(),
            (final(self)@, r) == exec_load(old(self)@, x as int),
    {
        let ir = self.ir as usize;
        if ir + x >= MEM_SIZE {
            return self.fail();
        }
        let mut i: usize = 0;
        while i <= x
            invariant
                x < REGISTER_COUNT,
                ir == old(self)@.ir,
                ir + x < MEM_SIZE,
                i <= x + 1,
                self.wf(),
                self@ == (CpuModel { registers: self@.registers, ..old(self)@ }),
                forall|r: int|
                    0 <= r < REGISTER_COUNT ==> #[trigger] self@.registers[r] == if r < i {
                        old(self)@.memory[ir + r]
                    } else {
                        old(self)@.registers[r]
                    },
            decreases x + 1 - i,
        {
            let v = self.memory[ir + i];
            self.register.set(i, v);
            i = i + 1;
        }
        if !self.load_store_quirk {
            self.ir = (ir + x + 1) as u16;
        }
        assert(self@.registers =~= exec_load(old(self)@, x as int).0.registers);
        ExecutionStatus::OK
    }
}

impl CPU {
    fn op_dxyn_draw<D: IOInterface>(&mut self, device: &mut D, x: usize, y: usize, n: u8) -> (r:
        ExecutionStatus)
        requires
            old(self).wf(),
            old(device).inv(),
            old(device).model().wf(),
            x < REGISTER_COUNT,
            y < REGISTER_COUNT,
            n < 16,
        ensures
            final(self).wf(),
            final(device).inv(),
            final(device).model().wf(),
            (final(self)@, final(device).model(), r) == exec_draw(
                old(self)@,
                old(device).model(),
                x as int,
                y as int,
                n,
            ),
    {
        proof {
            reveal(exec_draw);
        }
        let ir = self.ir as usize;
        if ir + n as usize > MEM_SIZE {
            return self.fail();
        }
        let x_start = self.register[x];
        let y_start = self.register[y];
        let ghost rows = self@.memory.subrange(ir as int, ir + n);
        let ghost d0 = device.model();
        let mut vf: u8 = 0;
        let mut dy: u8 = 0;
        proof {
            lemma_draw_none(d0, rows, x_start, y_start);
        }
        while dy < n
            invariant
                dy <= n < 16,
                ir == self@.ir,
                ir + n <= MEM_SIZE,
                self.wf(),
                self@ == old(self)@,
                rows == self@.memory.subrange(ir as int, ir + n),
                d0.wf(),
                device.inv(),
                device.model() == draw_within(d0, rows, x_start, y_start, dy * 8),
                vf == (if collides_within(d0.screen, rows, x_start, y_start, dy * 8) {
                    1u8
                } else {
                    0u8
                }),
            decreases n - dy,
        {
            let row = self.memory[ir + dy as usize];
            vf = draw_sprite_row(device, Ghost(d0), Ghost(rows), x_start, y_start, dy, row, vf);
            dy = dy + 1;
        }
        proof {
            lemma_draw_wf(d0, rows, x_start, y_start, n * 8);
        }
        self.register.set(FLAG_REGISTER, vf);
        ExecutionStatus::OK
    }
}

impl CPU {
    fn op_8xyk_alu(&mut self, x: usize, y: usize, op: u8) -> (r: ExecutionStatus)
        requires
            old(self).wf(),
            x < REGISTER_COUNT,
            y < REGISTER_COUNT,
        ensures
            final(self).wf(),
            (final(self)@, r) == exec_alu(old(self)@, x as int, y as int, op),
    {
        proof {
            reveal(exec_alu);
        }
        match op {
            0x0 => self.op_8xy0_set(x, y),
            0x1 => self.op_8xy1_or(x, y),
            0x2 => self.op_8xy2_and(x, y),
            0x3 => self.op_8xy3_xor(x, y),
            0x4 => self.op_8xy4_add(x, y),
            0x5 => self.op_8xy5_sub(x, y),
            0x6 => self.op_8xy6_shr(x, y),
            0x7 => self.op_8xy7_subn(x, y),
            0xE => self.op_8xye_shl(x, y),
            _ => self.fail(),
        }
    }

    fn op_exkk_keys<D: IOInterface>(&mut self, device: &D, x: usize, low: u8) -> (r:
        ExecutionStatus)
        requires
            old(self).wf(),
            old(self)@.pc <= MEM_SIZE,
            device.inv(),
            x < REGISTER_COUNT,
        ensures
            final(self).wf(),
            (final(self)@, r) == exec_key_skip(old(self)@, device.model(), x as int, low),
    {
        proof {
            reveal(exec_key_skip);
        }
        match low {
            0x9E => self.op_ex9e_skp(device, x),
            0xA1 => self.op_exa1_sknp(device, x),
            _ => self.fail(),
        }
    }

    fn op_fxkk_misc<D: IOInterface>(&mut self, device: &mut D, x: usize, low: u8) -> (r:
        ExecutionStatus)
        requires
            old(self).wf(),
            old(self)@.pc >= 2,
            old(device).inv(),
            old(device).model().wf(),
            x < REGISTER_COUNT,
        ensures
            final(self).wf(),
            final(device).inv(),
            final(device).model().wf(),
            (final(self)@, final(device).model(), r) == exec_misc(
                old(self)@,
                old(device).model(),
                x as int,
                low,
            ),
    {
        proof {
            reveal(exec_misc);
        }
        match low {
            0x07 => self.op_fx07_readdt(x),
            0x0A => self.op_fx0a_waitkey(device, x),
            0x15 => self.op_fx15_loaddt(x),
            0x18 => self.op_fx18_loadst(x),
            0x1E => self.op_fx1e_addi(x),
            0x29 => self.op_fx29_digit(x),
            0x33 => self.op_fx33_bcd(x),
            0x55 => self.op_fx55_storeg(x),
            0x65 => self.op_fx65_ldreg(x),
            _ => self.fail(),
        }
    }

    /// Executes the instruction `high low`; the program counter already
    /// points past it.
    fn execute<D: IOInterface>(&mut self, device: &mut D, high: u8, low: u8, rnd: u8) -> (r:
        ExecutionStatus)
        requires
            old(self).wf(),
            2 <= old(self)@.pc <= MEM_SIZE,
            old(device).inv(),
            old(device).model().wf(),
        ensures
            final(self).wf(),
            final(device).inv(),
            final(device).model().wf(),
            (final(self)@, final(device).model(), r) == execute(
                old(self)@,
                old(device).model(),
                high,
                low,
                rnd,
            ),
    {
        let x = get2(high, low) as usize;
        let y = get3(high, low) as usize;
        match get1(high, low) {
            0x0 => if high == 0 && low == 0xE0 {
                self.op_00e0_cls(device)
            } else if high == 0 && low == 0xEE {
                self.op_00ee_ret()
            } else {
                // other system calls are ignored
                ExecutionStatus::OK
            },
            0x1 => self.op_1nnn_jump(high, low),
            0x2 => self.op_2nnn_call(high, low),
            0x3 => self.op_3xkk_skipeq(high, low),
            0x4 => self.op_4xkk_skipneq(high, low),
            0x5 => self.op_5xy0_skipeqv(high, low),
            0x6 => self.op_6xkk_load(high, low),
            0x7 => self.op_7xkk_incr(high, low),
            0x8 => self.op_8xyk_alu(x, y, get4(high, low)),
            0x9 => self.op_9xy0_skipnev(high, low),
            0xA => self.op_annn_loadi(high, low),
            0xB => self.op_bnnn_jumpv(high, low),
            0xC => self.op_cxkk_rand(high, low, rnd),
            0xD => self.op_dxyn_draw(device, x, y, get4(high, low)),
            0xE => self.op_exkk_keys(device, x, low),
            _ => self.op_fxkk_misc(device, x, low),
        }
    }

    /// Runs one fetch-decode-execute cycle against `device`. `rnd` is the
    /// random byte that the random instruction masks. A halted or failed
    /// interpreter reports its state again and changes nothing.
    pub fn tick<D: IOInterface>(&mut self, device: &mut D, rnd: u8) -> (r: ExecutionStatus)
        requires
            old(self).wf(),
            old(device).inv(),
            old(device).model().wf(),
        ensures
            final(self).wf(),
            final(device).inv(),
            final(device).model().wf(),
            (final(self)@, final(device).model(), r) == step(old(self)@, old(device).model(), rnd),
    {
        match self.run {
            RunState::Halted => {
                return ExecutionStatus::Halt;
            },
            RunState::Failed => {
                return ExecutionStatus::RuntimeError;
            },
            RunState::Running => {},
        }
        if self.pc > MEM_SIZE - 2 {
            self.run = RunState::Halted;
            return ExecutionStatus::Halt;
        }
        let high = self.memory[self.pc];
        let low = self.memory[self.pc + 1];
        self.pc = self.pc + 2;
        self.execute(device, high, low, rnd)
    }
}

} // verus!
