//! Register and CSR operand fields.
use vstd::prelude::*;

use crate::bits::{binary_string, binary_text, binary_value};

verus! {

/// One of the 32 integer registers, by number.
#[derive(Clone, Copy)]
pub struct Register {
    pub id: u8,
}

impl Register {
    /// The register's number as a 5-digit binary field.
    pub fn binary_form(&self) -> (r: String)
        requires
            self.id < 32,
        ensures
            r@ == binary_text(self.id as u32, 5),
            binary_value(r@) == self.id as u32,
    {
        let v = self.id as u32;
        assert(v >> 5u32 == 0) by (bit_vector)
            requires
                v < 32,
        ;
        binary_string(v, 5)
    }
}

/// A CSR address as a 12-digit binary field.
pub fn csr_form(address: u16) -> (r: String)
    requires
        address < 4096,
    ensures
        r@ == binary_text(address as u32, 12),
        binary_value(r@) == address as u32,
{
    let v = address as u32;
    assert(v >> 12u32 == 0) by (bit_vector)
        requires
            v < 4096,
    ;
    binary_string(address as u32, 12)
}

} // verus!
