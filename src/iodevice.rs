use vstd::prelude::*;

verus! {

pub const DISPLAY_WIDTH: usize = 64;

pub const DISPLAY_HEIGHT: usize = 32;

pub const DISPLAY_SIZE: usize = 2048;

/// Number of keys on the keypad.
pub const KEY_COUNT: u8 = 16;

/// Returned by `read_any_key` when no key has been released.
pub const NO_KEY: u8 = 0xFF;

/// Cell of the framebuffer that coordinates `(x, y)` land on; both wrap.
pub open spec fn pixel_index(x: int, y: int) -> int {
    (y % (DISPLAY_HEIGHT as int)) * (DISPLAY_WIDTH as int) + x % (DISPLAY_WIDTH as int)
}

/// Whether `key` is one of the sixteen keys and its bit is set in `keys`.
pub open spec fn key_bit(keys: u16, key: u8) -> bool {
    key < KEY_COUNT && (keys >> (key as u16)) & 1u16 == 1u16
}

/// The lowest key at or above `k` whose bit is set in `keys`, or `NO_KEY`.
pub open spec fn lowest_key_from(keys: u16, k: u8) -> u8
    decreases KEY_COUNT - k,
{
    if k >= KEY_COUNT {
        NO_KEY
    } else if key_bit(keys, k) {
        k
    } else {
        lowest_key_from(keys, (k + 1) as u8)
    }
}

/// The lowest-numbered key whose bit is set in `keys`, or `NO_KEY`.
pub open spec fn lowest_key(keys: u16) -> u8 {
    lowest_key_from(keys, 0)
}

/// What a display and keypad device holds, as the interpreter sees it.
pub struct DeviceModel {
    /// Lit cells of the framebuffer, row by row.
    pub screen: Seq<bool>,
    /// Cells changed since the last flag reset.
    pub dirty: Seq<bool>,
    /// Whether any cell changed since the last flag reset.
    pub updated: bool,
    /// Whether the display was cleared since the last flag reset.
    pub cleared: bool,
    /// Keys held down, one bit per key.
    pub pressed: u16,
    /// Keys released since they were last consumed, one bit per key.
    pub released: u16,
}

impl DeviceModel {
    pub open spec fn wf(self) -> bool {
        &&& self.screen.len() == DISPLAY_SIZE
        &&& self.dirty.len() == DISPLAY_SIZE
    }

    /// Every cell off and marked dirty, with both flags raised.
    pub open spec fn clear_display(self) -> DeviceModel {
        DeviceModel {
            screen: Seq::new(DISPLAY_SIZE as nat, |i: int| false),
            dirty: Seq::new(DISPLAY_SIZE as nat, |i: int| true),
            updated: true,
            cleared: true,
            ..self
        }
    }

    /// Cell `i` toggled and marked dirty.
    pub open spec fn toggle(self, i: int) -> DeviceModel {
        DeviceModel {
            screen: self.screen.update(i, !self.screen[i]),
            dirty: self.dirty.update(i, true),
            updated: true,
            ..self
        }
    }

    /// What `draw_pixel(x, y)` returns: 1 when it turns a lit cell off.
    pub open spec fn erases(self, x: u8, y: u8) -> u8 {
        if self.screen[pixel_index(x as int, y as int)] {
            1
        } else {
            0
        }
    }

    /// The key that `read_any_key` reports.
    pub open spec fn any_key(self) -> u8 {
        if self.released == 0 {
            NO_KEY
        } else {
            lowest_key(self.released)
        }
    }

    /// The device after `read_any_key`: a report consumes every release.
    pub open spec fn consume_released(self) -> DeviceModel {
        DeviceModel { released: 0, ..self }
    }

    /// Dirty markers and both flags cleared.
    pub open spec fn flags_reset(self) -> DeviceModel {
        DeviceModel {
            dirty: Seq::new(DISPLAY_SIZE as nat, |i: int| false),
            updated: false,
            cleared: false,
            ..self
        }
    }

    /// A blank device: nothing lit, nothing dirty, no key down.
    pub open spec fn blank() -> DeviceModel {
        DeviceModel {
            screen: Seq::new(DISPLAY_SIZE as nat, |i: int| false),
            dirty: Seq::new(DISPLAY_SIZE as nat, |i: int| false),
            updated: false,
            cleared: false,
            pressed: 0,
            released: 0,
        }
    }
}

/// The display and keypad that the interpreter drives.
pub trait IOInterface {
    /// The device's state.
    spec fn model(&self) -> DeviceModel;

    /// The implementation's own well-formedness.
    spec fn inv(&self) -> bool;

    /// Turns every cell off.
    fn clear_display(&mut self)
        requires
            old(self).inv(),
        ensures
            final(self).inv(),
            final(self).model() == old(self).model().clear_display(),
    ;

    /// Toggles the cell at `(x, y)`, coordinates wrapping; returns 1 when the
    /// cell was lit, 0 otherwise.
    fn draw_pixel(&mut self, x: u8, y: u8) -> (r: u8)
        requires
            old(self).inv(),
            old(self).model().wf(),
        ensures
            final(self).inv(),
            final(self).model() == old(self).model().toggle(pixel_index(x as int, y as int)),
            r == old(self).model().erases(x, y),
    ;

    /// Whether `key` is held down.
    fn key_pressed(&self, key: u8) -> (r: bool)
        requires
            self.inv(),
        ensures
            r == key_bit(self.model().pressed, key),
    ;

    /// The lowest released key, consuming all releases; `NO_KEY` when none
    /// was released.
    fn read_any_key(&mut self) -> (r: u8)
        requires
            old(self).inv(),
        ensures
            final(self).inv(),
            r == old(self).model().any_key(),
            r == NO_KEY ==> final(self).model() == old(self).model(),
            r != NO_KEY ==> final(self).model() == old(self).model().consume_released(),
    ;
}

/// Snapshot of the framebuffer for the host.
pub struct DisplayUpdate {
    /// One byte per cell, 1 when lit.
    pub display: Vec<u8>,
    /// One flag per cell, set when it changed since the last flag reset.
    pub updated: Vec<bool>,
    pub buffer_size: usize,
    pub display_updated: bool,
    pub display_cleared: bool,
}

/// The framebuffer and keypad state.
pub struct IODevice {
    display_buffer: Vec<u8>,
    updated: Vec<bool>,
    pressed_keys: u16,
    released_keys: u16,
    display_cleared: bool,
    display_updated: bool,
}

/// Index of the cell that `(x, y)` lands on.
fn to_index(x: usize, y: usize) -> (r: usize)
    ensures
        r == pixel_index(x as int, y as int),
        r < DISPLAY_SIZE,
{
    (y % DISPLAY_HEIGHT) * DISPLAY_WIDTH + (x % DISPLAY_WIDTH)
}

/// Whether `key` is one of the sixteen keys and is set in `keys`.
fn check_key(keys: u16, key: u8) -> (r: bool)
    ensures
        r == key_bit(keys, key),
{
    if key >= KEY_COUNT {
        return false;
    }
    let k = key as u16;
    assert((keys & (1u16 << k) != 0) == ((keys >> k) & 1u16 == 1u16)) by (bit_vector)
        requires
            k < 16,
    ;
    keys & (1u16 << k) != 0
}

proof fn lemma_lowest_key_from(keys: u16, k: u8)
    requires
        k < KEY_COUNT,
        (keys >> (k as u16)) != 0,
    ensures
        lowest_key_from(keys, k) < KEY_COUNT,
        key_bit(keys, lowest_key_from(keys, k)),
    decreases KEY_COUNT - k,
{
    let s = k as u16;
    if !key_bit(keys, k) {
        if k == 15 {
            assert((keys >> s) != 0 && s == 15 ==> (keys >> s) & 1u16 == 1u16) by (bit_vector);
        } else {
            assert((keys >> s) != 0 && (keys >> s) & 1u16 != 1u16 && s < 15 ==> (keys >> ((s
                + 1) as u16)) != 0) by (bit_vector);
            lemma_lowest_key_from(keys, (k + 1) as u8);
        }
    }
}

/// A non-empty key mask has a lowest key.
proof fn lemma_lowest_key(keys: u16)
    requires
        keys != 0,
    ensures
        lowest_key(keys) < KEY_COUNT,
        key_bit(keys, lowest_key(keys)),
{
    assert(keys != 0 ==> (keys >> 0u16) != 0) by (bit_vector);
    lemma_lowest_key_from(keys, 0);
}

impl IODevice {
    pub closed spec fn wf(&self) -> bool {
        &&& self.display_buffer@.len() == DISPLAY_SIZE
        &&& self.updated@.len() == DISPLAY_SIZE
        &&& forall|i: int| 0 <= i < DISPLAY_SIZE ==> #[trigger] self.display_buffer@[i] <= 1
        &&& !self.display_updated ==> !self.display_cleared
        &&& !self.display_updated ==> forall|i: int|
            0 <= i < DISPLAY_SIZE ==> !#[trigger] self.updated@[i]
    }

    pub closed spec fn view_model(&self) -> DeviceModel {
        DeviceModel {
            screen: Seq::new(
                self.display_buffer@.len(),
                |i: int| self.display_buffer@[i] == 1,
            ),
            dirty: self.updated@,
            updated: self.display_updated,
            cleared: self.display_cleared,
            pressed: self.pressed_keys,
            released: self.released_keys,
        }
    }

    /// A well-formed device has a framebuffer of the display's size.
    pub proof fn lemma_model_wf(&self)
        requires
            self.wf(),
        ensures
            self.view_model().wf(),
    {
    }

    pub fn new() -> (d: IODevice)
        ensures
            d.wf(),
            d.view_model() == DeviceModel::blank(),
    {
        let d = IODevice {
            display_buffer: vec![0u8; DISPLAY_SIZE],
            updated: vec![false; DISPLAY_SIZE],
            pressed_keys: 0,
            released_keys: 0,
            display_cleared: false,
            display_updated: false,
        };
        assert(d.view_model().screen =~= DeviceModel::blank().screen);
        assert(d.view_model().dirty =~= DeviceModel::blank().dirty);
        d
    }

    /// Returns the device to its blank state.
    pub fn reset(&mut self)
        requires
            old(self).wf(),
        ensures
            final(self).wf(),
            final(self).view_model() == DeviceModel::blank(),
    {
        let mut i: usize = 0;
        while i < DISPLAY_SIZE
            invariant
                i <= DISPLAY_SIZE,
                self.display_buffer@.len() == DISPLAY_SIZE,
                self.updated@.len() == DISPLAY_SIZE,
                forall|j: int| 0 <= j < i ==> self.display_buffer@[j] == 0,
                forall|j: int| 0 <= j < i ==> !self.updated@[j],
            decreases DISPLAY_SIZE - i,
        {
            self.display_buffer.set(i, 0);
            self.updated.set(i, false);
            i = i + 1;
        }
        self.pressed_keys = 0;
        self.released_keys = 0;
        self.display_cleared = false;
        self.display_updated = false;
        assert(self.view_model().screen =~= DeviceModel::blank().screen);
        assert(self.view_model().dirty =~= DeviceModel::blank().dirty);
    }

    /// Clears the dirty markers and both flags, once the host has consumed
    /// an update. Nothing to do when nothing changed.
    pub fn reset_display_flags(&mut self)
        requires
            old(self).wf(),
        ensures
            final(self).wf(),
            final(self).view_model() == old(self).view_model().flags_reset(),
    {
        if !self.display_updated {
            assert(self.view_model().dirty =~= old(self).view_model().flags_reset().dirty);
            return;
        }
        let mut i: usize = 0;
        while i < DISPLAY_SIZE
            invariant
                i <= DISPLAY_SIZE,
                self.display_buffer@ == old(self).display_buffer@,
                self.updated@.len() == DISPLAY_SIZE,
                forall|j: int| 0 <= j < i ==> !self.updated@[j],
                self.pressed_keys == old(self).pressed_keys,
                self.released_keys == old(self).released_keys,
            decreases DISPLAY_SIZE - i,
        {
            self.updated.set(i, false);
            i = i + 1;
        }
        self.display_cleared = false;
        self.display_updated = false;
        assert(self.view_model().dirty =~= old(self).view_model().flags_reset().dirty);
    }

    /// A copy of the framebuffer, the dirty markers and both flags.
    pub fn get_display_update(&self) -> (u: DisplayUpdate)
        requires
            self.wf(),
        ensures
            u.buffer_size == DISPLAY_SIZE,
            u.display@.len() == DISPLAY_SIZE,
            forall|i: int|
                0 <= i < DISPLAY_SIZE ==> (u.display@[i] == 1) == self.view_model().screen[i]
                    && u.display@[i] <= 1,
            u.updated@ == self.view_model().dirty,
            u.display_updated == self.view_model().updated,
            u.display_cleared == self.view_model().cleared,
    {
        let mut display: Vec<u8> = Vec::new();
        let mut updated: Vec<bool> = Vec::new();
        let mut i: usize = 0;
        while i < DISPLAY_SIZE
            invariant
                i <= DISPLAY_SIZE,
                self.wf(),
                display@ == self.display_buffer@.subrange(0, i as int),
                updated@ == self.updated@.subrange(0, i as int),
            decreases DISPLAY_SIZE - i,
        {
            display.push(self.display_buffer[i]);
            updated.push(self.updated[i]);
            i = i + 1;
        }
        assert(display@ =~= self.display_buffer@);
        assert(updated@ =~= self.updated@);
        DisplayUpdate {
            display,
            updated,
            buffer_size: DISPLAY_SIZE,
            display_updated: self.display_updated,
            display_cleared: self.display_cleared,
        }
    }

    /// Records the host's key state for the coming frame.
    pub fn set_keys(&mut self, pressed_keys: u16, released_keys: u16)
        requires
            old(self).wf(),
        ensures
            final(self).wf(),
            final(self).view_model() == (DeviceModel {
                pressed: pressed_keys,
                released: released_keys,
                ..old(self).view_model()
            }),
    {
        self.pressed_keys = pressed_keys;
        self.released_keys = released_keys;
    }
}

impl IOInterface for IODevice {
    open spec fn model(&self) -> DeviceModel {
        self.view_model()
    }

    open spec fn inv(&self) -> bool {
        self.wf()
    }

    fn clear_display(&mut self) {
        let mut i: usize = 0;
        while i < DISPLAY_SIZE
            invariant
                i <= DISPLAY_SIZE,
                self.display_buffer@.len() == DISPLAY_SIZE,
                self.updated@.len() == DISPLAY_SIZE,
                forall|j: int| 0 <= j < i ==> self.display_buffer@[j] == 0,
                forall|j: int| 0 <= j < i ==> self.updated@[j],
                forall|j: int| i <= j < DISPLAY_SIZE ==> self.display_buffer@[j] <= 1,
                self.pressed_keys == old(self).pressed_keys,
                self.released_keys == old(self).released_keys,
            decreases DISPLAY_SIZE - i,
        {
            self.display_buffer.set(i, 0);
            self.updated.set(i, true);
            i = i + 1;
        }
        self.display_cleared = true;
        self.display_updated = true;
        assert(self.view_model().screen =~= old(self).view_model().clear_display().screen);
        assert(self.view_model().dirty =~= old(self).view_model().clear_display().dirty);
    }

    fn draw_pixel(&mut self, x: u8, y: u8) -> (r: u8) {
        let i = to_index(x as usize, y as usize);
        let before = self.display_buffer[i];
        let color = before ^ 1;
        assert(before <= 1 ==> (before ^ 1u8) == 1 - before && (!(before ^ 1u8)) & 1u8 == before)
            by (bit_vector);
        self.display_buffer.set(i, color);
        self.updated.set(i, true);
        self.display_updated = true;
        assert(self.view_model().screen =~= old(self).view_model().toggle(i as int).screen);
        !color & 1
    }

    fn key_pressed(&self, key: u8) -> (r: bool) {
        check_key(self.pressed_keys, key)
    }

    fn read_any_key(&mut self) -> (r: u8) {
        if self.released_keys == 0 {
            return NO_KEY;
        }
        proof {
            lemma_lowest_key(self.released_keys);
        }
        let keys = self.released_keys;
        let mut key: u8 = 0;
        while key < KEY_COUNT - 1 && !check_key(keys, key)
            invariant
                key < KEY_COUNT,
                lowest_key(keys) == lowest_key_from(keys, key),
                lowest_key(keys) < KEY_COUNT,
            decreases KEY_COUNT - key,
        {
            key = key + 1;
        }
        proof {
            reveal_with_fuel(lowest_key_from, 2);
        }
        self.released_keys = 0;
        key
    }
}

} // verus!
