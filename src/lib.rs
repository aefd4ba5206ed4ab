//! An interpreter for a small 8-bit virtual machine with a monochrome
//! XOR-blit display, a sixteen-key keypad, a call stack and two timers.

mod cpu;
mod iodevice;
mod isa;
mod laws;
mod memory;
mod utils;

pub use cpu::{power_on, with_rom, CPU, MAX_ROM_SIZE};
pub use iodevice::{
    key_bit, lowest_key, pixel_index, DeviceModel, DisplayUpdate, IODevice, IOInterface,
    DISPLAY_HEIGHT, DISPLAY_SIZE, DISPLAY_WIDTH, KEY_COUNT, NO_KEY,
};
pub use isa::{
    bcd_digits, covers, draw_sprite, exec_alu, exec_bcd, exec_call, exec_draw, exec_load,
    exec_return, execute, sprite_collides, step, CpuModel, DeviceStepResult, ExecutionStatus,
    RunState, FLAG_REGISTER, REGISTER_COUNT, STACK_SIZE,
};
pub use laws::{
    about_to_run, call_chain, law_add_carry, law_bcd_round_trip, law_draw_twice, law_shift_left,
    law_shift_right, law_stack_capacity, law_sub_borrow, law_subn_borrow, law_trap_jump,
    return_chain, shift_source,
};
pub use memory::{allocate_memory, initial_memory, FONT_SET, FONT_SIZE, MEM_SIZE, PROGRAM_START};
pub use utils::random;

use vstd::prelude::*;

verus! {

/// Interpreter steps run per display frame.
pub const CPU_TICK_PER_FRAME: usize = 9;

/// Steps `i..` of a frame: stop at a halt or a fault, and end the frame
/// early, without error, at a key wait.
pub open spec fn run_ticks(c: CpuModel, d: DeviceModel, rnd: Seq<u8>, i: nat) -> DeviceStepResult
    decreases CPU_TICK_PER_FRAME - i,
{
    if i >= CPU_TICK_PER_FRAME {
        (c, d, ExecutionStatus::OK)
    } else {
        let (c1, d1, s) = step(c, d, rnd[i as int]);
        match s {
            ExecutionStatus::OK => run_ticks(c1, d1, rnd, i + 1),
            ExecutionStatus::WaitForKey => (c1, d1, ExecutionStatus::OK),
            _ => (c1, d1, s),
        }
    }
}

/// One display frame: the dirty tracking is reset, up to
/// `CPU_TICK_PER_FRAME` steps run, then the timers count down once.
pub open spec fn run_frame(c: CpuModel, d: DeviceModel, rnd: Seq<u8>) -> DeviceStepResult {
    let (c1, d1, s) = run_ticks(c, d.flags_reset(), rnd, 0);
    (c1.timers_ticked(), d1, s)
}

/// The whole machine: interpreter and device.
pub struct Machine {
    cpu: CPU,
    device: IODevice,
}

impl Machine {
    pub closed spec fn wf(&self) -> bool {
        self.cpu.wf() && self.device.wf()
    }

    pub closed spec fn cpu_state(&self) -> CpuModel {
        self.cpu@
    }

    pub closed spec fn device_state(&self) -> DeviceModel {
        self.device.model()
    }

    pub fn new() -> (m: Machine)
        ensures
            m.wf(),
            initial_memory(m.cpu_state().memory),
            m.cpu_state() == power_on(m.cpu_state().memory),
            m.device_state() == DeviceModel::blank(),
    {
        Machine { cpu: CPU::new(), device: IODevice::new() }
    }

    /// Chooses the shift variant (`shift`: `Vx` alone) and the register
    /// dump/load variant (`loadstore`: index register left alone).
    pub fn set_quirks(&mut self, shift: bool, loadstore: bool)
        requires
            old(self).wf(),
        ensures
            final(self).wf(),
            final(self).cpu_state() == (CpuModel {
                shift_quirk: shift,
                load_store_quirk: loadstore,
                ..old(self).cpu_state()
            }),
            final(self).device_state() == old(self).device_state(),
    {
        self.cpu.set_quirks(shift, loadstore);
    }

    /// Restarts the interpreter and blanks the device; memory is kept.
    pub fn reset(&mut self)
        requires
            old(self).wf(),
        ensures
            final(self).wf(),
            final(self).cpu_state() == old(self).cpu_state().restarted(),
            final(self).device_state() == DeviceModel::blank(),
    {
        self.cpu.reset();
        self.device.reset();
    }

    /// Runs one display frame; `random_bytes[i]` is the random byte for
    /// step `i`.
    pub fn update(&mut self, random_bytes: [u8; CPU_TICK_PER_FRAME]) -> (r: ExecutionStatus)
        requires
            old(self).wf(),
        ensures
            final(self).wf(),
            (final(self).cpu_state(), final(self).device_state(), r) == run_frame(
                old(self).cpu_state(),
                old(self).device_state(),
                random_bytes@,
            ),
    {
        self.device.reset_display_flags();
        let status = self.update_cpu(random_bytes);
        status
    }

    fn update_cpu(&mut self, random_bytes: [u8; CPU_TICK_PER_FRAME]) -> (r: ExecutionStatus)
        requires
            old(self).wf(),
        ensures
            final(self).wf(),
            ({
                let (c1, d1, s) = run_ticks(
                    old(self).cpu_state(),
                    old(self).device_state(),
                    random_bytes@,
                    0,
                );
                (final(self).cpu_state(), final(self).device_state(), r) == (
                    c1.timers_ticked(),
                    d1,
                    s,
                )
            }),
    {
        let ghost target = run_ticks(self.cpu@, self.device.model(), random_bytes@, 0);
        let mut status = ExecutionStatus::OK;
        let mut i: usize = 0;
        while i < CPU_TICK_PER_FRAME
            invariant_except_break
                self.wf(),
                i <= CPU_TICK_PER_FRAME,
                random_bytes@.len() == CPU_TICK_PER_FRAME,
                status == ExecutionStatus::OK,
                run_ticks(self.cpu@, self.device.model(), random_bytes@, i as nat) == target,
            ensures
                self.wf(),
                (self.cpu@, self.device.model(), status) == target,
            decreases CPU_TICK_PER_FRAME - i,
        {
            proof {
                self.device.lemma_model_wf();
            }
            status = self.cpu.tick(&mut self.device, random_bytes[i]);
            match status {
                ExecutionStatus::OK => {},
                ExecutionStatus::Halt => {
                    break ;
                },
                ExecutionStatus::RuntimeError => {
                    break ;
                },
                ExecutionStatus::WaitForKey => {
                    status = ExecutionStatus::OK;
                    break ;
                },
            }
            i = i + 1;
        }
        self.cpu.update_timer();
        status
    }

    /// Writes a program at the program origin; refuses one longer than
    /// `max_rom_size()`.
    pub fn load_rom(&mut self, rom: &[u8]) -> (loaded: bool)
        requires
            old(self).wf(),
        ensures
            final(self).wf(),
            loaded == (rom@.len() <= MAX_ROM_SIZE),
            loaded ==> final(self).cpu_state() == (CpuModel {
                memory: with_rom(old(self).cpu_state().memory, rom@),
                ..old(self).cpu_state()
            }),
            !loaded ==> final(self).cpu_state() == old(self).cpu_state(),
            final(self).device_state() == old(self).device_state(),
    {
        self.cpu.load_rom(rom)
    }

    pub fn max_rom_size(&self) -> (r: usize)
        ensures
            r == MAX_ROM_SIZE,
            r == MEM_SIZE - PROGRAM_START,
    {
        MAX_ROM_SIZE
    }

    pub fn get_display_update(&self) -> (u: DisplayUpdate)
        requires
            self.wf(),
        ensures
            u.buffer_size == DISPLAY_SIZE,
            u.display@.len() == DISPLAY_SIZE,
            forall|i: int|
                0 <= i < DISPLAY_SIZE ==> (u.display@[i] == 1) == self.device_state().screen[i]
                    && u.display@[i] <= 1,
            u.updated@ == self.device_state().dirty,
            u.display_updated == self.device_state().updated,
            u.display_cleared == self.device_state().cleared,
    {
        self.device.get_display_update()
    }

    pub fn set_keys(&mut self, pressed_keys: u16, released_keys: u16)
        requires
            old(self).wf(),
        ensures
            final(self).wf(),
            final(self).cpu_state() == old(self).cpu_state(),
            final(self).device_state() == (DeviceModel {
                pressed: pressed_keys,
                released: released_keys,
                ..old(self).device_state()
            }),
    {
        self.device.set_keys(pressed_keys, released_keys);
    }

    /// Whether the sound timer is running.
    pub fn is_beeping(&self) -> (r: bool)
        ensures
            r == (self.cpu_state().st > 0),
    {
        self.cpu.beeping()
    }

    /// The interpreter, for inspection.
    pub fn cpu(&self) -> (c: &CPU)
        ensures
            c@ == self.cpu_state(),
    {
        &self.cpu
    }

    /// The device, for inspection.
    pub fn device(&self) -> (d: &IODevice)
        ensures
            d.model() == self.device_state(),
            self.wf() ==> d.wf(),
    {
        &self.device
    }
}

} // verus!
