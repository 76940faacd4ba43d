//! The fields of a 16-bit instruction word.

use vstd::prelude::*;

verus! {

/// The highest four bits of an instruction: its group.
pub open spec fn op_of(w: u16) -> int {
    w as int / 4096
}

/// The second four bits: the register index `x`.
pub open spec fn x_of(w: u16) -> int {
    (w as int / 256) % 16
}

/// The third four bits: the register index `y`.
pub open spec fn y_of(w: u16) -> int {
    (w as int / 16) % 16
}

/// The lowest four bits.
pub open spec fn n_of(w: u16) -> int {
    w as int % 16
}

/// The low byte.
pub open spec fn nn_of(w: u16) -> u8 {
    (w % 256) as u8
}

/// The low twelve bits: an address.
pub open spec fn nnn_of(w: u16) -> u16 {
    (w % 4096) as u16
}

/// The word made of two bytes, the first one high.
pub open spec fn word_of(high: u8, low: u8) -> u16 {
    (high as int * 256 + low as int) as u16
}

/// An instruction word taken apart.
#[derive(Clone, Copy, Debug, PartialEq, Eq, Structural)]
pub struct Fields {
    /// The group, `0x0..=0xF`.
    pub op: u8,
    /// The register index `x`.
    pub x: usize,
    /// The register index `y`.
    pub y: usize,
    /// The lowest four bits.
    pub n: u8,
    /// The low byte.
    pub nn: u8,
    /// The low twelve bits.
    pub nnn: u16,
}

/// Splits an instruction word into its four 4-bit fields, its low byte and
/// its low twelve bits.
pub fn split(word: u16) -> (fields: Fields)
    ensures
        fields.op == op_of(word),
        fields.x == x_of(word),
        fields.y == y_of(word),
        fields.n == n_of(word),
        fields.nn == nn_of(word),
        fields.nnn == nnn_of(word),
        fields.op < 16,
        fields.x < 16,
        fields.y < 16,
        fields.n < 16,
        fields.nnn < 4096,
{
    assert(word >> 12 == word / 4096 && (word >> 12) < 16) by (bit_vector);
    assert((word >> 8) & 0xF == (word / 256) % 16) by (bit_vector);
    assert((word >> 4) & 0xF == (word / 16) % 16) by (bit_vector);
    assert(word & 0xF == word % 16) by (bit_vector);
    assert(word & 0xFF == word % 256) by (bit_vector);
    assert(word & 0xFFF == word % 4096) by (bit_vector);
    Fields {
        op: (word >> 12) as u8,
        x: ((word >> 8) & 0xF) as usize,
        y: ((word >> 4) & 0xF) as usize,
        n: (word & 0xF) as u8,
        nn: (word & 0xFF) as u8,
        nnn: word & 0xFFF,
    }
}

/// Joins two bytes into a word, the first one high.
pub fn join(high: u8, low: u8) -> (word: u16)
    ensures
        word == word_of(high, low),
{
    let high16 = high as u16;
    let low16 = low as u16;
    assert((high16 << 8) | low16 == high16 * 256 + low16) by (bit_vector)
        requires
            high16 < 256,
            low16 < 256,
    ;
    (high16 << 8) | low16
}

} // verus!
