//! Properties of the instruction set that hold for every state.

use vstd::prelude::*;
use crate::iodevice::DeviceModel;
use crate::isa::{
    address, bcd_digits, covers, draw_within, collides_within, exec_alu, exec_bcd, exec_call,
    exec_draw, exec_load, exec_return, family, nibble, reg_x, reg_y, step, CpuModel,
    ExecutionStatus, RunState, FLAG_REGISTER, STACK_SIZE,
};
use crate::memory::MEM_SIZE;

verus! {

/// Whether `c` is running and the instruction at its program counter is in
/// family `f` with last nibble `n`, its first operand not the flag register.
pub open spec fn about_to_run(c: CpuModel, f: u8, n: u8) -> bool {
    &&& c.wf()
    &&& c.run == RunState::Running
    &&& c.pc + 2 <= MEM_SIZE
    &&& family(c.memory[c.pc as int]) == f
    &&& nibble(c.memory[c.pc + 1]) == n
    &&& reg_x(c.memory[c.pc as int]) != FLAG_REGISTER
}

/// Adding registers: `Vx` gets the sum modulo 256, and the flag register
/// is 1 exactly when the unsigned sum exceeds 255.
pub proof fn law_add_carry(c: CpuModel, d: DeviceModel, rnd: u8)
    requires
        about_to_run(c, 8, 4),
    ensures
        ({
            let x = reg_x(c.memory[c.pc as int]);
            let y = reg_y(c.memory[c.pc + 1]);
            let sum = c.reg(x) + c.reg(y);
            let (c2, d2, s) = step(c, d, rnd);
            &&& s == ExecutionStatus::OK
            &&& c2.reg(x) == sum % 256
            &&& c2.reg(FLAG_REGISTER as int) == (if sum > 255 { 1int } else { 0int })
        }),
{
    reveal(exec_alu);
}

/// Subtracting `Vy` from `Vx`: `Vx` gets the wrapped difference, and the
/// flag register is 1 exactly when `Vx >= Vy` (no borrow).
pub proof fn law_sub_borrow(c: CpuModel, d: DeviceModel, rnd: u8)
    requires
        about_to_run(c, 8, 5),
    ensures
        ({
            let x = reg_x(c.memory[c.pc as int]);
            let y = reg_y(c.memory[c.pc + 1]);
            let (c2, d2, s) = step(c, d, rnd);
            &&& s == ExecutionStatus::OK
            &&& c2.reg(x) == (c.reg(x) - c.reg(y) + 256) % 256
            &&& c2.reg(FLAG_REGISTER as int) == (if c.reg(x) >= c.reg(y) { 1int } else { 0int })
        }),
{
    reveal(exec_alu);
}

/// Subtracting `Vx` from `Vy` into `Vx`: `Vx` gets the wrapped difference,
/// and the flag register is 1 exactly when `Vy >= Vx` (no borrow).
pub proof fn law_subn_borrow(c: CpuModel, d: DeviceModel, rnd: u8)
    requires
        about_to_run(c, 8, 7),
    ensures
        ({
            let x = reg_x(c.memory[c.pc as int]);
            let y = reg_y(c.memory[c.pc + 1]);
            let (c2, d2, s) = step(c, d, rnd);
            &&& s == ExecutionStatus::OK
            &&& c2.reg(x) == (c.reg(y) - c.reg(x) + 256) % 256
            &&& c2.reg(FLAG_REGISTER as int) == (if c.reg(y) >= c.reg(x) { 1int } else { 0int })
        }),
{
    reveal(exec_alu);
}

/// The register a shift reads: `Vx` under the shift quirk, `Vy` otherwise.
pub open spec fn shift_source(c: CpuModel) -> u8 {
    if c.shift_quirk {
        c.reg(reg_x(c.memory[c.pc as int]))
    } else {
        c.reg(reg_y(c.memory[c.pc + 1]))
    }
}

/// Shifting right: the flag register gets the bit shifted out (the lowest
/// bit) and `Vx` the shifted value.
pub proof fn law_shift_right(c: CpuModel, d: DeviceModel, rnd: u8)
    requires
        about_to_run(c, 8, 6),
    ensures
        ({
            let x = reg_x(c.memory[c.pc as int]);
            let v = shift_source(c);
            let (c2, d2, s) = step(c, d, rnd);
            &&& s == ExecutionStatus::OK
            &&& c2.reg(x) == v / 2
            &&& c2.reg(FLAG_REGISTER as int) == v % 2
        }),
{
    reveal(exec_alu);
}

/// Shifting left: the flag register gets the bit shifted out (the highest
/// bit) and `Vx` the shifted value modulo 256.
pub proof fn law_shift_left(c: CpuModel, d: DeviceModel, rnd: u8)
    requires
        about_to_run(c, 8, 14),
    ensures
        ({
            let x = reg_x(c.memory[c.pc as int]);
            let v = shift_source(c);
            let (c2, d2, s) = step(c, d, rnd);
            &&& s == ExecutionStatus::OK
            &&& c2.reg(x) == (v * 2) % 256
            &&& c2.reg(FLAG_REGISTER as int) == v / 128
        }),
{
    reveal(exec_alu);
}

/// Drawing a sprite twice at the same place restores the framebuffer, and
/// when the first drawing erased nothing, the second reports an erasure as
/// soon as the sprite has a lit bit.
pub proof fn law_draw_twice(c: CpuModel, d: DeviceModel, x: int, y: int, n: u8)
    requires
        c.wf(),
        d.wf(),
        0 <= x < FLAG_REGISTER,
        0 <= y < FLAG_REGISTER,
        n < 16,
        c.ir + n <= MEM_SIZE,
    ensures
        ({
            let (c1, d1, s1) = exec_draw(c, d, x, y, n);
            let (c2, d2, s2) = exec_draw(c1, d1, x, y, n);
            let rows = c.memory.subrange(c.ir as int, c.ir + n);
            &&& s1 == ExecutionStatus::OK
            &&& s2 == ExecutionStatus::OK
            &&& d2.screen == d.screen
            &&& c1.reg(FLAG_REGISTER as int) == 0 && (exists|j: int|
                covers(rows, c.reg(x), c.reg(y), j)) ==> c2.reg(FLAG_REGISTER as int) == 1
        }),
{
    reveal(exec_draw);
    reveal(draw_within);
    reveal(collides_within);
    let rows = c.memory.subrange(c.ir as int, c.ir + n);
    let (c1, d1, s1) = exec_draw(c, d, x, y, n);
    let (c2, d2, s2) = exec_draw(c1, d1, x, y, n);
    assert(c1.memory == c.memory);
    assert(c1.reg(x) == c.reg(x));
    assert(c1.reg(y) == c.reg(y));
    assert(d2.screen =~= d.screen);
    if c1.reg(FLAG_REGISTER as int) == 0 && (exists|j: int| covers(rows, c.reg(x), c.reg(y), j)) {
        let j = choose|j: int| covers(rows, c.reg(x), c.reg(y), j);
        assert(!d.screen[j]);
        assert(d1.screen[j]);
    }
}

/// Writing `Vx` in decimal and loading `V0..=V2` back from the same place
/// gives its three digits, hundreds first, which spell out the value.
pub proof fn law_bcd_round_trip(c: CpuModel, x: int)
    requires
        c.wf(),
        0 <= x < 16,
        c.ir + 3 <= MEM_SIZE,
    ensures
        ({
            let (c1, s1) = exec_bcd(c, x);
            let (c2, s2) = exec_load(c1, 2);
            let v = c.reg(x);
            &&& s1 == ExecutionStatus::OK
            &&& s2 == ExecutionStatus::OK
            &&& c2.registers.subrange(0, 3) == bcd_digits(v)
            &&& 100 * c2.reg(0) + 10 * c2.reg(1) + c2.reg(2) == v
            &&& c2.reg(0) < 10 && c2.reg(1) < 10 && c2.reg(2) < 10
        }),
{
    let (c1, s1) = exec_bcd(c, x);
    let (c2, s2) = exec_load(c1, 2);
    assert(c2.registers.subrange(0, 3) =~= bcd_digits(c.reg(x)));
}

/// `n` calls to `addr` in a row, stopping at the first that fails.
pub open spec fn call_chain(c: CpuModel, addr: int, n: nat) -> (CpuModel, ExecutionStatus)
    decreases n,
{
    if n == 0 {
        (c, ExecutionStatus::OK)
    } else {
        let (c1, s) = call_chain(c, addr, (n - 1) as nat);
        if s == ExecutionStatus::OK {
            exec_call(c1, addr)
        } else {
            (c1, s)
        }
    }
}

/// `n` returns in a row, stopping at the first that fails.
pub open spec fn return_chain(c: CpuModel, n: nat) -> (CpuModel, ExecutionStatus)
    decreases n,
{
    if n == 0 {
        (c, ExecutionStatus::OK)
    } else {
        let (c1, s) = return_chain(c, (n - 1) as nat);
        if s == ExecutionStatus::OK {
            exec_return(c1)
        } else {
            (c1, s)
        }
    }
}

proof fn lemma_call_chain(c: CpuModel, addr: int, n: nat)
    requires
        c.wf(),
        c.stack.len() == 0,
        0 <= addr,
        n <= STACK_SIZE,
    ensures
        ({
            let (c1, s) = call_chain(c, addr, n);
            &&& s == ExecutionStatus::OK
            &&& c1.wf()
            &&& c1.stack.len() == n
            &&& n > 0 ==> c1.stack[0] == c.pc
            &&& c1.memory == c.memory
            &&& c1.run == c.run
        }),
    decreases n,
{
    if n > 0 {
        lemma_call_chain(c, addr, (n - 1) as nat);
    }
}

proof fn lemma_return_chain(c: CpuModel, n: nat)
    requires
        c.wf(),
        n <= c.stack.len(),
    ensures
        ({
            let (c1, s) = return_chain(c, n);
            &&& s == ExecutionStatus::OK
            &&& c1.wf()
            &&& c1.stack == c.stack.subrange(0, c.stack.len() - n)
            &&& n > 0 ==> c1.pc == c.stack[c.stack.len() - n]
        }),
    decreases n,
{
    if n > 0 {
        lemma_return_chain(c, (n - 1) as nat);
        let (c1, s) = return_chain(c, (n - 1) as nat);
        assert(c1.stack.drop_last() =~= c.stack.subrange(0, c.stack.len() - n));
    }
}

/// From an empty stack, `STACK_SIZE` nested calls succeed and one more
/// fails; `STACK_SIZE` returns after the calls that succeeded all succeed,
/// empty the stack and come back to where the first call was made.
pub proof fn law_stack_capacity(c: CpuModel, addr: int)
    requires
        c.wf(),
        c.stack.len() == 0,
        0 <= addr,
    ensures
        forall|n: nat| n <= STACK_SIZE ==> (#[trigger] call_chain(c, addr, n)).1
            == ExecutionStatus::OK,
        call_chain(c, addr, (STACK_SIZE + 1) as nat).1 == ExecutionStatus::RuntimeError,
        ({
            let (c2, s) = return_chain(call_chain(c, addr, STACK_SIZE as nat).0, STACK_SIZE as nat);
            &&& s == ExecutionStatus::OK
            &&& c2.stack.len() == 0
            &&& c2.pc == c.pc
        }),
{
    assert forall|n: nat| n <= STACK_SIZE implies (#[trigger] call_chain(
        c,
        addr,
        n,
    )).1 == ExecutionStatus::OK by {
        lemma_call_chain(c, addr, n);
    }
    lemma_call_chain(c, addr, STACK_SIZE as nat);
    let full = call_chain(c, addr, STACK_SIZE as nat).0;
    lemma_return_chain(full, STACK_SIZE as nat);
}

/// A jump to its own address halts instead of looping, and the halted
/// machine stays halted, unchanged, on every later step.
pub proof fn law_trap_jump(c: CpuModel, d: DeviceModel, rnd: u8, rnd2: u8)
    requires
        c.wf(),
        c.run == RunState::Running,
        c.pc + 2 <= MEM_SIZE,
        family(c.memory[c.pc as int]) == 1,
        address(c.memory[c.pc as int], c.memory[c.pc + 1]) == c.pc,
    ensures
        ({
            let (c1, d1, s1) = step(c, d, rnd);
            &&& s1 == ExecutionStatus::Halt
            &&& c1.run == RunState::Halted
            &&& d1 == d
            &&& step(c1, d1, rnd2) == (c1, d1, ExecutionStatus::Halt)
        }),
{
}

} // verus!
