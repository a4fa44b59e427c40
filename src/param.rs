//! Resolved instruction operands.
use vstd::prelude::*;

verus! {

/// An operand after resolution: a register number, a CSR address or an immediate.
#[derive(Debug, PartialEq, Eq, Clone, Copy, Structural)]
pub enum ParsedParam {
    Register(u8),
    Csr(u16),
    Immediate(i32),
}

impl ParsedParam {
    /// The value of an immediate operand; `None` for any other kind.
    pub fn unwrap_immediate(&self) -> (r: Option<i32>)
        ensures
            r == (match *self {
                ParsedParam::Immediate(i) => Some(i),
                _ => None::<i32>,
            }),
    {
        match self {
            ParsedParam::Immediate(i) => Some(*i),
            _ => None,
        }
    }

    /// The number of a register operand; `None` for any other kind.
    pub fn unwrap_register(&self) -> (r: Option<u8>)
        ensures
            r == (match *self {
                ParsedParam::Register(i) => Some(i),
                _ => None::<u8>,
            }),
    {
        match self {
            ParsedParam::Register(r) => Some(*r),
            _ => None,
        }
    }

    /// The address of a CSR operand; `None` for any other kind.
    pub fn unwrap_csr(&self) -> (r: Option<u16>)
        ensures
            r == (match *self {
                ParsedParam::Csr(i) => Some(i),
                _ => None::<u16>,
            }),
    {
        match self {
            ParsedParam::Csr(r) => Some(*r),
            _ => None,
        }
    }
}

} // verus!
