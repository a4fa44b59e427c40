//! A 32-bit immediate and the fields that the RISC-V formats cut from it.
use vstd::prelude::*;

use crate::bits::{
    bit, bit_at, bits_at, branch_high, branch_high_indices, branch_low, branch_low_indices, field_text,
    high_20_indices, index_vec, jal_form, jal_indices, low_12_indices, select_bits, select_field,
    store_high_indices, store_low_indices, valid_indices,
};

verus! {

/// An immediate operand, held as its 32-bit two's complement pattern.
pub struct Immediate {
    pub content: u32,
}

impl From<i32> for Immediate {
    fn from(content: i32) -> (r: Immediate)
        ensures
            r.content == content as u32,
    {
        Immediate { content: content as u32 }
    }
}

impl vstd::std_specs::convert::FromSpecImpl<i32> for Immediate {
    open spec fn obeys_from_spec() -> bool {
        true
    }

    open spec fn from_spec(content: i32) -> Immediate {
        Immediate { content: content as u32 }
    }
}

impl Immediate {
    /// Whether bit `i` of the immediate is set.
    pub fn bit_at(&self, i: usize) -> (r: bool)
        requires
            i < 32,
        ensures
            r == bit(self.content, i),
    {
        bit_at(self.content, i)
    }

    /// Packs the bits named by `range`: output bit `i` is bit `range[i]` of the immediate.
    pub fn bits_at(&self, range: &[usize]) -> (r: u32)
        requires
            valid_indices(range@),
        ensures
            r == select_bits(self.content, range@),
    {
        bits_at(self.content, range)
    }

    fn field(&self, indices: &Vec<usize>) -> (r: String)
        requires
            valid_indices(indices@),
        ensures
            r@ == field_text(self.content, indices@),
    {
        select_field(self.content, indices)
    }

    /// Bits 12..32: the U-type field.
    pub fn high_20(&self) -> (r: String)
        ensures
            r@ == field_text(self.content, high_20_indices()),
    {
        self.field(&index_vec(12, 32))
    }

    /// Bits 0..12: the I-type field.
    pub fn low_12(&self) -> (r: String)
        ensures
            r@ == field_text(self.content, low_12_indices()),
    {
        self.field(&index_vec(0, 12))
    }

    /// Bits 12..20, 11, 1..11, 20: the J-type field.
    pub fn jal_form(&self) -> (r: String)
        ensures
            r@ == field_text(self.content, jal_indices()),
    {
        jal_form(self.content)
    }

    /// Bits 5..11, 12: the upper B-type field.
    pub fn branch_high(&self) -> (r: String)
        ensures
            r@ == field_text(self.content, branch_high_indices()),
    {
        branch_high(self.content)
    }

    /// Bits 11, 1..5: the lower B-type field.
    pub fn branch_low(&self) -> (r: String)
        ensures
            r@ == field_text(self.content, branch_low_indices()),
    {
        branch_low(self.content)
    }

    /// Bits 5..12: the upper S-type field.
    pub fn store_high(&self) -> (r: String)
        ensures
            r@ == field_text(self.content, store_high_indices()),
    {
        self.field(&index_vec(5, 12))
    }

    /// Bits 0..5: the lower S-type field.
    pub fn store_low(&self) -> (r: String)
        ensures
            r@ == field_text(self.content, store_low_indices()),
    {
        self.field(&index_vec(0, 5))
    }

    /// Bits 0..5: a shift amount, the same field as `store_low`.
    pub fn shift_amount(&self) -> (r: String)
        ensures
            r@ == field_text(self.content, store_low_indices()),
    {
        self.store_low()
    }
}

} // verus!
