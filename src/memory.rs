use vstd::prelude::*;

verus! {

/// Number of addressable bytes.
pub const MEM_SIZE: usize = 4096;

/// Address at which programs are loaded; everything below is reserved.
pub const PROGRAM_START: usize = 0x200;

/// Number of bytes of the built-in font (sixteen glyphs of five rows).
pub const FONT_SIZE: usize = 80;

/// Bytes per font glyph.
pub const GLYPH_STRIDE: usize = 5;

/// The built-in hexadecimal font, stored at address 0.
pub const FONT_SET: [u8; FONT_SIZE] = [
    0xF0, 0x90, 0x90, 0x90, 0xF0, // 0
    0x20, 0x60, 0x20, 0x20, 0x70, // 1
    0xF0, 0x10, 0xF0, 0x80, 0xF0, // 2
    0xF0, 0x10, 0xF0, 0x10, 0xF0, // 3
    0x90, 0x90, 0xF0, 0x10, 0x10, // 4
    0xF0, 0x80, 0xF0, 0x10, 0xF0, // 5
    0xF0, 0x80, 0xF0, 0x90, 0xF0, // 6
    0xF0, 0x10, 0x20, 0x40, 0x40, // 7
    0xF0, 0x90, 0xF0, 0x90, 0xF0, // 8
    0xF0, 0x90, 0xF0, 0x10, 0xF0, // 9
    0xF0, 0x90, 0xF0, 0x90, 0x90, // A
    0xE0, 0x90, 0xE0, 0x90, 0xE0, // B
    0xF0, 0x80, 0x80, 0x80, 0xF0, // C
    0xE0, 0x90, 0x90, 0x90, 0xE0, // D
    0xF0, 0x80, 0xF0, 0x80, 0xF0, // E
    0xF0, 0x80, 0xF0, 0x80, 0x80, // F
];

/// The contents of freshly allocated memory: the font at address 0,
/// zero everywhere else.
pub open spec fn initial_memory(m: Seq<u8>) -> bool {
    &&& m.len() == MEM_SIZE
    &&& forall|i: int| 0 <= i < FONT_SIZE ==> m[i] == FONT_SET@[i]
    &&& forall|i: int| FONT_SIZE <= i < MEM_SIZE ==> m[i] == 0
}

/// Allocates the machine's memory with the font loaded.
pub fn allocate_memory() -> (m: Vec<u8>)
    ensures
        initial_memory(m@),
{
    let mut m: Vec<u8> = vec![0u8; MEM_SIZE];
    let mut i: usize = 0;
    while i < FONT_SIZE
        invariant
            i <= FONT_SIZE,
            m@.len() == MEM_SIZE,
            forall|j: int| 0 <= j < i ==> m@[j] == FONT_SET@[j],
            forall|j: int| FONT_SIZE <= j < MEM_SIZE ==> m@[j] == 0,
        decreases FONT_SIZE - i,
    {
        m.set(i, FONT_SET[i]);
        i = i + 1;
    }
    m
}

} // verus!
