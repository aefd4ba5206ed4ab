//! The instruction set as spec functions: what one step of the interpreter
//! does to the machine state and to the device.

use vstd::prelude::*;
use crate::iodevice::{
    DeviceModel, DISPLAY_SIZE, DISPLAY_WIDTH, DISPLAY_HEIGHT, NO_KEY, key_bit, pixel_index,
};
use crate::memory::MEM_SIZE;
use vstd::arithmetic::div_mod::{
    lemma_fundamental_div_mod, lemma_fundamental_div_mod_converse, lemma_mod_mod,
};

verus! {

/// Depth of the call stack.
pub const STACK_SIZE: usize = 64;

/// Number of general-purpose registers.
pub const REGISTER_COUNT: usize = 16;

/// The register that arithmetic, shifts and drawing write their flag to.
pub const FLAG_REGISTER: usize = 15;

/// Outcome of one step.
#[derive(Clone, Copy, Debug, PartialEq, Eq, Structural)]
pub enum ExecutionStatus {
    /// The step completed.
    OK,
    /// The machine stopped on purpose (a jump to itself, or the program
    /// counter ran off the end of memory).
    Halt,
    /// The machine stopped on a fault: stack overflow or underflow, a memory
    /// block out of range, or an unknown opcode.
    RuntimeError,
    /// A key wait found no released key; the same instruction runs again on
    /// the next step.
    WaitForKey,
}

/// Whether the interpreter still runs. A stopped interpreter stays stopped
/// until it is reset.
#[derive(Clone, Copy, Debug, PartialEq, Eq, Structural)]
pub enum RunState {
    Running,
    Halted,
    Failed,
}

/// The interpreter's state.
pub struct CpuModel {
    pub memory: Seq<u8>,
    pub registers: Seq<u8>,
    /// Index register.
    pub ir: u16,
    /// Address of the next instruction.
    pub pc: usize,
    /// Saved return addresses, innermost last.
    pub stack: Seq<usize>,
    /// Delay timer.
    pub dt: u8,
    /// Sound timer.
    pub st: u8,
    /// When set, the shifts act on `Vx` alone; otherwise they shift `Vy` into `Vx`.
    pub shift_quirk: bool,
    /// When set, register dump and load leave the index register alone;
    /// otherwise they advance it past the block.
    pub load_store_quirk: bool,
    pub run: RunState,
}

/// Result of one step: the new interpreter state, the new device state and
/// the status reported.
pub type DeviceStepResult = (CpuModel, DeviceModel, ExecutionStatus);

/// Top nibble of an instruction.
pub open spec fn family(high: u8) -> u8 {
    high / 16
}

/// Second nibble: the first register operand.
pub open spec fn reg_x(high: u8) -> int {
    (high % 16) as int
}

/// Third nibble: the second register operand.
pub open spec fn reg_y(low: u8) -> int {
    (low / 16) as int
}

/// Last nibble.
pub open spec fn nibble(low: u8) -> u8 {
    low % 16
}

/// Low twelve bits: an address.
pub open spec fn address(high: u8, low: u8) -> int {
    (high % 16) as int * 256 + low as int
}

/// `v` in three decimal digits, hundreds first.
pub open spec fn bcd_digits(v: u8) -> Seq<u8> {
    seq![(v / 100) as u8, ((v / 10) % 10) as u8, (v % 10) as u8]
}

/// Bit `dx` of a sprite row, counting from the most significant.
pub open spec fn sprite_bit(row: u8, dx: int) -> bool {
    (row >> ((7 - dx) as u8)) & 1u8 == 1u8
}

/// Column of cell `j` relative to `x0`, wrapping.
pub open spec fn col_offset(j: int, x0: u8) -> int {
    (j % (DISPLAY_WIDTH as int) - x0 as int) % (DISPLAY_WIDTH as int)
}

/// Row of cell `j` relative to `y0`, wrapping.
pub open spec fn row_offset(j: int, y0: u8) -> int {
    (j / (DISPLAY_WIDTH as int) - y0 as int) % (DISPLAY_HEIGHT as int)
}

/// Whether cell `j` is one of the first `k` sprite positions (eight per row,
/// row by row) of a sprite drawn at `(x0, y0)`, and its bit is set.
pub open spec fn covers_within(rows: Seq<u8>, x0: u8, y0: u8, j: int, k: int) -> bool {
    let dx = col_offset(j, x0);
    let dy = row_offset(j, y0);
    &&& 0 <= j < DISPLAY_SIZE
    &&& dx < 8
    &&& dy < rows.len()
    &&& dy * 8 + dx < k
    &&& sprite_bit(rows[dy], dx)
}

/// Whether the sprite `rows` drawn at `(x0, y0)` lights cell `j`.
pub open spec fn covers(rows: Seq<u8>, x0: u8, y0: u8, j: int) -> bool {
    covers_within(rows, x0, y0, j, 8 * rows.len() as int)
}

/// The device after drawing the first `k` sprite positions.
#[verifier::opaque]
pub open spec fn draw_within(d: DeviceModel, rows: Seq<u8>, x0: u8, y0: u8, k: int) -> DeviceModel {
    DeviceModel {
        screen: Seq::new(
            d.screen.len(),
            |j: int| d.screen[j] != covers_within(rows, x0, y0, j, k),
        ),
        dirty: Seq::new(d.dirty.len(), |j: int| d.dirty[j] || covers_within(rows, x0, y0, j, k)),
        updated: d.updated || exists|j: int| covers_within(rows, x0, y0, j, k),
        ..d
    }
}

/// Whether the first `k` sprite positions hit a lit cell of `screen`.
#[verifier::opaque]
pub open spec fn collides_within(screen: Seq<bool>, rows: Seq<u8>, x0: u8, y0: u8, k: int) -> bool {
    exists|j: int| covers_within(rows, x0, y0, j, k) && screen[j]
}

/// The device after XOR-drawing the sprite `rows` at `(x0, y0)`.
pub open spec fn draw_sprite(d: DeviceModel, rows: Seq<u8>, x0: u8, y0: u8) -> DeviceModel {
    draw_within(d, rows, x0, y0, 8 * rows.len() as int)
}

/// Whether drawing the sprite `rows` at `(x0, y0)` turns a lit cell off.
pub open spec fn sprite_collides(screen: Seq<bool>, rows: Seq<u8>, x0: u8, y0: u8) -> bool {
    collides_within(screen, rows, x0, y0, 8 * rows.len() as int)
}

/// The cell that sprite position `(dx, dy)` lands on, as the interpreter
/// addresses it: coordinates are bytes and wrap at 256 before the display
/// wraps them again.
pub open spec fn sprite_cell(x0: u8, y0: u8, dx: int, dy: int) -> int {
    pixel_index((x0 + dx) % 256, (y0 + dy) % 256)
}

/// Offset `off` from `base` on a ring of `m` cells: the cell reached is
/// `off` ahead of `base`, and no other cell is.
proof fn lemma_ring_offset(base: int, off: int, m: int, c: int)
    requires
        0 < m,
        0 <= base,
        0 <= off < m,
    ensures
        ((base + off) % m - base) % m == off,
        0 <= c < m && (c - base) % m == off ==> c == (base + off) % m,
{
    let q = (base + off) / m;
    let r = (base + off) % m;
    lemma_fundamental_div_mod(base + off, m);
    assert(r - base == off + (-q) * m) by (nonlinear_arith)
        requires
            base + off == m * q + r,
    ;
    lemma_fundamental_div_mod_converse(r - base, m, -q, off);
    if 0 <= c < m && (c - base) % m == off {
        let q2 = (c - base) / m;
        lemma_fundamental_div_mod(c - base, m);
        assert(base + off == c + (-q2) * m) by (nonlinear_arith)
            requires
                c - base == m * q2 + off,
        ;
        lemma_fundamental_div_mod_converse(base + off, m, -q2, c);
    }
}

/// Sprite position `(dx, dy)` is the one position that lands on its cell.
proof fn lemma_sprite_cell(x0: u8, y0: u8, dx: int, dy: int, j: int)
    requires
        0 <= dx < 8,
        0 <= dy < 16,
    ensures
        0 <= sprite_cell(x0, y0, dx, dy) < DISPLAY_SIZE,
        col_offset(sprite_cell(x0, y0, dx, dy), x0) == dx,
        row_offset(sprite_cell(x0, y0, dx, dy), y0) == dy,
        0 <= j < DISPLAY_SIZE && col_offset(j, x0) == dx && row_offset(j, y0) == dy ==> j
            == sprite_cell(x0, y0, dx, dy),
{
    let a = (y0 + dy) % 32;
    let b = (x0 + dx) % 64;
    lemma_mod_mod(y0 + dy, 32, 8);
    lemma_mod_mod(x0 + dx, 64, 4);
    let p = sprite_cell(x0, y0, dx, dy);
    assert(p == a * 64 + b);
    lemma_fundamental_div_mod_converse(p, 64, a, b);
    lemma_ring_offset(x0 as int, dx, 64, j % 64);
    lemma_ring_offset(y0 as int, dy, 32, j / 64);
    if 0 <= j < DISPLAY_SIZE && col_offset(j, x0) == dx && row_offset(j, y0) == dy {
        lemma_fundamental_div_mod(j, 64);
    }
}

/// Drawing keeps the framebuffer's shape.
pub proof fn lemma_draw_wf(d: DeviceModel, rows: Seq<u8>, x0: u8, y0: u8, k: int)
    requires
        d.wf(),
    ensures
        draw_within(d, rows, x0, y0, k).wf(),
{
    reveal(draw_within);
}

/// Drawing none of the sprite changes nothing.
pub proof fn lemma_draw_none(d: DeviceModel, rows: Seq<u8>, x0: u8, y0: u8)
    requires
        d.wf(),
    ensures
        draw_within(d, rows, x0, y0, 0) == d,
        !collides_within(d.screen, rows, x0, y0, 0),
{
    reveal(draw_within);
    reveal(collides_within);
    assert(draw_within(d, rows, x0, y0, 0).screen =~= d.screen);
    assert(draw_within(d, rows, x0, y0, 0).dirty =~= d.dirty);
}

/// Drawing one more sprite position toggles its cell when its bit is set,
/// and changes nothing otherwise; the cell was untouched before.
pub proof fn lemma_draw_step(d: DeviceModel, rows: Seq<u8>, x0: u8, y0: u8, dx: int, dy: int)
    requires
        d.wf(),
        0 <= dx < 8,
        0 <= dy < rows.len() <= 16,
    ensures
        ({
            let k = dy * 8 + dx;
            let p = sprite_cell(x0, y0, dx, dy);
            &&& 0 <= p < DISPLAY_SIZE
            &&& draw_within(d, rows, x0, y0, k).screen[p] == d.screen[p]
            &&& sprite_bit(rows[dy], dx) ==> draw_within(d, rows, x0, y0, k + 1) == draw_within(
                d,
                rows,
                x0,
                y0,
                k,
            ).toggle(p)
            &&& sprite_bit(rows[dy], dx) ==> (collides_within(d.screen, rows, x0, y0, k + 1) <==> (
            collides_within(d.screen, rows, x0, y0, k) || d.screen[p]))
            &&& !sprite_bit(rows[dy], dx) ==> draw_within(d, rows, x0, y0, k + 1) == draw_within(
                d,
                rows,
                x0,
                y0,
                k,
            )
            &&& !sprite_bit(rows[dy], dx) ==> (collides_within(d.screen, rows, x0, y0, k + 1)
                <==> collides_within(d.screen, rows, x0, y0, k))
        }),
{
    reveal(draw_within);
    reveal(collides_within);
    let k = dy * 8 + dx;
    let k1 = k + 1;
    let p = sprite_cell(x0, y0, dx, dy);
    lemma_sprite_cell(x0, y0, dx, dy, p);
    let bit = sprite_bit(rows[dy], dx);
    assert forall|j: int|
        #![trigger covers_within(rows, x0, y0, j, k1)]
        covers_within(rows, x0, y0, j, k1) == (covers_within(rows, x0, y0, j, k) || (j == p
            && bit)) by {
        lemma_sprite_cell(x0, y0, dx, dy, j);
    }
    assert(!covers_within(rows, x0, y0, p, k));
    let before = draw_within(d, rows, x0, y0, k);
    let after = draw_within(d, rows, x0, y0, k1);
    if bit {
        assert(covers_within(rows, x0, y0, p, k1));
        assert(after.screen =~= before.toggle(p).screen);
        assert(after.dirty =~= before.toggle(p).dirty);
        assert(after.updated == before.toggle(p).updated);
        if d.screen[p] {
            assert(collides_within(d.screen, rows, x0, y0, k1));
        }
        if collides_within(d.screen, rows, x0, y0, k) {
            let j = choose|j: int| covers_within(rows, x0, y0, j, k) && d.screen[j];
            assert(covers_within(rows, x0, y0, j, k1));
        }
    } else {
        assert(after.screen =~= before.screen);
        assert(after.dirty =~= before.dirty);
        if exists|j: int| covers_within(rows, x0, y0, j, k1) {
            let j = choose|j: int| covers_within(rows, x0, y0, j, k1);
            assert(covers_within(rows, x0, y0, j, k));
        }
        if exists|j: int| covers_within(rows, x0, y0, j, k) {
            let j = choose|j: int| covers_within(rows, x0, y0, j, k);
            assert(covers_within(rows, x0, y0, j, k1));
        }
        if collides_within(d.screen, rows, x0, y0, k1) {
            let j = choose|j: int| covers_within(rows, x0, y0, j, k1) && d.screen[j];
            assert(covers_within(rows, x0, y0, j, k));
        }
        if collides_within(d.screen, rows, x0, y0, k) {
            let j = choose|j: int| covers_within(rows, x0, y0, j, k) && d.screen[j];
            assert(covers_within(rows, x0, y0, j, k1));
        }
    }
}

impl CpuModel {
    pub open spec fn wf(self) -> bool {
        &&& self.memory.len() == MEM_SIZE
        &&& self.registers.len() == REGISTER_COUNT
        &&& self.stack.len() <= STACK_SIZE
    }

    pub open spec fn reg(self, i: int) -> u8 {
        self.registers[i]
    }

    pub open spec fn set_reg(self, i: int, v: u8) -> CpuModel {
        CpuModel { registers: self.registers.update(i, v), ..self }
    }

    pub open spec fn jump(self, pc: int) -> CpuModel {
        CpuModel { pc: pc as usize, ..self }
    }

    /// Skips the next instruction when `cond` holds.
    pub open spec fn skip_if(self, cond: bool) -> CpuModel {
        if cond {
            self.jump(self.pc + 2)
        } else {
            self
        }
    }

    pub open spec fn set_ir(self, ir: int) -> CpuModel {
        CpuModel { ir: ir as u16, ..self }
    }

    /// Both timers one lower, stopping at zero.
    pub open spec fn timers_ticked(self) -> CpuModel {
        CpuModel {
            dt: if self.dt > 0 { (self.dt - 1) as u8 } else { 0 },
            st: if self.st > 0 { (self.st - 1) as u8 } else { 0 },
            ..self
        }
    }

    /// The state right after construction or reset, keeping `memory` and
    /// the quirk flags.
    pub open spec fn restarted(self) -> CpuModel {
        CpuModel {
            registers: Seq::new(REGISTER_COUNT as nat, |i: int| 0u8),
            ir: 0,
            pc: crate::memory::PROGRAM_START,
            stack: Seq::empty(),
            dt: 0,
            st: 0,
            run: RunState::Running,
            ..self
        }
    }
}

/// Stops the interpreter on a fault.
pub open spec fn fault(c: CpuModel) -> (CpuModel, ExecutionStatus) {
    (CpuModel { run: RunState::Failed, ..c }, ExecutionStatus::RuntimeError)
}

/// Stops the interpreter on purpose.
pub open spec fn halt(c: CpuModel) -> (CpuModel, ExecutionStatus) {
    (CpuModel { run: RunState::Halted, ..c }, ExecutionStatus::Halt)
}

pub open spec fn ok(c: CpuModel) -> (CpuModel, ExecutionStatus) {
    (c, ExecutionStatus::OK)
}

/// Return from a subroutine.
pub open spec fn exec_return(c: CpuModel) -> (CpuModel, ExecutionStatus) {
    if c.stack.len() == 0 {
        fault(c)
    } else {
        ok(CpuModel { pc: c.stack.last(), stack: c.stack.drop_last(), ..c })
    }
}

/// Jump to `addr`; a jump to the jump itself halts.
pub open spec fn exec_jump(c: CpuModel, addr: int) -> (CpuModel, ExecutionStatus) {
    if addr + 2 == c.pc {
        halt(c)
    } else {
        ok(c.jump(addr))
    }
}

/// Call the subroutine at `addr`.
pub open spec fn exec_call(c: CpuModel, addr: int) -> (CpuModel, ExecutionStatus) {
    if c.stack.len() >= STACK_SIZE {
        fault(c)
    } else {
        ok(CpuModel { stack: c.stack.push(c.pc), pc: addr as usize, ..c })
    }
}

/// The register-to-register family, selected by the last nibble `op`.
#[verifier::opaque]
pub open spec fn exec_alu(c: CpuModel, x: int, y: int, op: u8) -> (CpuModel, ExecutionStatus) {
    let vx = c.reg(x);
    let vy = c.reg(y);
    let src = if c.shift_quirk { vx } else { vy };
    if op == 0 {
        ok(c.set_reg(x, vy))
    } else if op == 1 {
        ok(c.set_reg(x, vx | vy))
    } else if op == 2 {
        ok(c.set_reg(x, vx & vy))
    } else if op == 3 {
        ok(c.set_reg(x, vx ^ vy))
    } else if op == 4 {
        ok(
            c.set_reg(x, ((vx + vy) % 256) as u8).set_reg(
                FLAG_REGISTER as int,
                if vx + vy > 255 { 1 } else { 0 },
            ),
        )
    } else if op == 5 {
        ok(
            c.set_reg(x, ((vx - vy + 256) % 256) as u8).set_reg(
                FLAG_REGISTER as int,
                if vx >= vy { 1 } else { 0 },
            ),
        )
    } else if op == 6 {
        ok(c.set_reg(FLAG_REGISTER as int, src % 2).set_reg(x, src / 2))
    } else if op == 7 {
        ok(
            c.set_reg(x, ((vy - vx + 256) % 256) as u8).set_reg(
                FLAG_REGISTER as int,
                if vy >= vx { 1 } else { 0 },
            ),
        )
    } else if op == 14 {
        ok(c.set_reg(FLAG_REGISTER as int, src / 128).set_reg(x, ((src * 2) % 256) as u8))
    } else {
        fault(c)
    }
}

/// Draw the `n`-row sprite at the index register at `(Vx, Vy)`; the flag
/// register reports whether a lit cell was turned off.
#[verifier::opaque]
pub open spec fn exec_draw(c: CpuModel, d: DeviceModel, x: int, y: int, n: u8) -> DeviceStepResult {
    if c.ir + n > MEM_SIZE {
        (fault(c).0, d, ExecutionStatus::RuntimeError)
    } else {
        let rows = c.memory.subrange(c.ir as int, c.ir + n);
        let x0 = c.reg(x);
        let y0 = c.reg(y);
        let flag: u8 = if sprite_collides(d.screen, rows, x0, y0) { 1 } else { 0 };
        (c.set_reg(FLAG_REGISTER as int, flag), draw_sprite(d, rows, x0, y0), ExecutionStatus::OK)
    }
}

/// The key-skip family.
#[verifier::opaque]
pub open spec fn exec_key_skip(c: CpuModel, d: DeviceModel, x: int, low: u8) -> (CpuModel, ExecutionStatus) {
    if low == 0x9E {
        ok(c.skip_if(key_bit(d.pressed, c.reg(x))))
    } else if low == 0xA1 {
        ok(c.skip_if(!key_bit(d.pressed, c.reg(x))))
    } else {
        fault(c)
    }
}

/// Wait for a key: a released key goes to `Vx`; with none, the instruction
/// is set to run again.
pub open spec fn exec_wait_key(c: CpuModel, d: DeviceModel, x: int) -> DeviceStepResult {
    let k = d.any_key();
    if k == NO_KEY {
        (c.jump(c.pc - 2), d, ExecutionStatus::WaitForKey)
    } else {
        (c.set_reg(x, k), d.consume_released(), ExecutionStatus::OK)
    }
}

/// Write `Vx` in decimal at the index register.
pub open spec fn exec_bcd(c: CpuModel, x: int) -> (CpuModel, ExecutionStatus) {
    let i = c.ir as int;
    if i + 3 > MEM_SIZE {
        fault(c)
    } else {
        let digits = bcd_digits(c.reg(x));
        ok(
            CpuModel {
                memory: c.memory.update(i, digits[0]).update(i + 1, digits[1]).update(
                    i + 2,
                    digits[2],
                ),
                ..c
            },
        )
    }
}

/// Index register after a dump or load of `V0..=Vx`.
pub open spec fn ir_after_block(c: CpuModel, x: int) -> int {
    if c.load_store_quirk {
        c.ir as int
    } else {
        c.ir + x + 1
    }
}

/// Write `V0..=Vx` to memory at the index register.
pub open spec fn exec_dump(c: CpuModel, x: int) -> (CpuModel, ExecutionStatus) {
    let i = c.ir as int;
    if i + x >= MEM_SIZE {
        fault(c)
    } else {
        ok(
            CpuModel {
                memory: Seq::new(
                    c.memory.len(),
                    |a: int|
                        if i <= a <= i + x {
                            c.registers[a - i]
                        } else {
                            c.memory[a]
                        },
                ),
                ir: ir_after_block(c, x) as u16,
                ..c
            },
        )
    }
}

/// Read `V0..=Vx` from memory at the index register.
pub open spec fn exec_load(c: CpuModel, x: int) -> (CpuModel, ExecutionStatus) {
    let i = c.ir as int;
    if i + x >= MEM_SIZE {
        fault(c)
    } else {
        ok(
            CpuModel {
                registers: Seq::new(
                    c.registers.len(),
                    |r: int|
                        if r <= x {
                            c.memory[i + r]
                        } else {
                            c.registers[r]
                        },
                ),
                ir: ir_after_block(c, x) as u16,
                ..c
            },
        )
    }
}

/// The `F` family, selected by the low byte.
#[verifier::opaque]
pub open spec fn exec_misc(c: CpuModel, d: DeviceModel, x: int, low: u8) -> DeviceStepResult {
    let vx = c.reg(x);
    if low == 0x0A {
        exec_wait_key(c, d, x)
    } else {
        let (c2, s) = if low == 0x07 {
            ok(c.set_reg(x, c.dt))
        } else if low == 0x15 {
            ok(CpuModel { dt: vx, ..c })
        } else if low == 0x18 {
            ok(CpuModel { st: vx, ..c })
        } else if low == 0x1E {
            ok(c.set_ir((c.ir + vx) % 0x10000))
        } else if low == 0x29 {
            ok(c.set_ir(5 * vx))
        } else if low == 0x33 {
            exec_bcd(c, x)
        } else if low == 0x55 {
            exec_dump(c, x)
        } else if low == 0x65 {
            exec_load(c, x)
        } else {
            fault(c)
        };
        (c2, d, s)
    }
}

/// Executes the instruction `high low`; `c.pc` already points past it.
/// `rnd` is the random byte that the random instruction masks.
pub open spec fn execute(c: CpuModel, d: DeviceModel, high: u8, low: u8, rnd: u8) -> DeviceStepResult {
    let x = reg_x(high);
    let y = reg_y(low);
    let kk = low;
    let nnn = address(high, low);
    let f = family(high);
    if f == 0xD {
        exec_draw(c, d, x, y, nibble(low))
    } else if f == 0xF {
        exec_misc(c, d, x, low)
    } else if f == 0 && high == 0 && low == 0xE0 {
        (c, d.clear_display(), ExecutionStatus::OK)
    } else {
        let (c2, s) = if f == 0 {
            if high == 0 && low == 0xEE {
                exec_return(c)
            } else {
                ok(c)
            }
        } else if f == 1 {
            exec_jump(c, nnn)
        } else if f == 2 {
            exec_call(c, nnn)
        } else if f == 3 {
            ok(c.skip_if(c.reg(x) == kk))
        } else if f == 4 {
            ok(c.skip_if(c.reg(x) != kk))
        } else if f == 5 {
            ok(c.skip_if(c.reg(x) == c.reg(y)))
        } else if f == 6 {
            ok(c.set_reg(x, kk))
        } else if f == 7 {
            ok(c.set_reg(x, ((c.reg(x) + kk) % 256) as u8))
        } else if f == 8 {
            exec_alu(c, x, y, nibble(low))
        } else if f == 9 {
            ok(c.skip_if(c.reg(x) != c.reg(y)))
        } else if f == 0xA {
            ok(c.set_ir(nnn))
        } else if f == 0xB {
            ok(c.jump(c.reg(0) + nnn))
        } else if f == 0xC {
            ok(c.set_reg(x, rnd & kk))
        } else {
            exec_key_skip(c, d, x, low)
        };
        (c2, d, s)
    }
}

/// One step: fetch the instruction at the program counter, advance past it
/// and execute it. A stopped interpreter reports why and changes nothing.
pub open spec fn step(c: CpuModel, d: DeviceModel, rnd: u8) -> DeviceStepResult {
    match c.run {
        RunState::Halted => (c, d, ExecutionStatus::Halt),
        RunState::Failed => (c, d, ExecutionStatus::RuntimeError),
        RunState::Running => if c.pc + 2 > MEM_SIZE {
            (halt(c).0, d, ExecutionStatus::Halt)
        } else {
            execute(
                c.jump(c.pc + 2),
                d,
                c.memory[c.pc as int],
                c.memory[c.pc + 1],
                rnd,
            )
        },
    }
}

} // verus!
