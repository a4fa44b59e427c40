//! The ways assembling can fail.
use vstd::prelude::*;

verus! {

/// The kind of operand that an encoding field asks for.
#[derive(Debug, PartialEq, Eq, Clone, Copy, Structural)]
pub enum ParamKind {
    Register,
    Csr,
    Immediate,
}

/// Why a program could not be assembled.
#[derive(Debug, PartialEq, Eq, Clone)]
pub enum AsmError {
    /// A token that is no register, CSR, numeric literal or known label.
    UnknownParameter(String),
    /// A mnemonic that reaches the encoder with no encoding.
    UnknownMnemonic(String),
    /// A literal whose digits do not read as a number in range.
    MalformedImmediateLiteral(String),
    /// An encoding field asked for one kind of operand and found another, or none.
    TypeMismatch(ParamKind, String),
    /// An encoding or pseudo-instruction template that did not produce what it must.
    InvalidTemplateOutput(String),
    /// A label defined a second time.
    DuplicateLabel(String),
    /// More lines than 32-bit addresses can hold.
    ProgramTooLarge,
}

/// The contents of an `AsmError`.
pub enum ErrorView {
    UnknownParameter(Seq<char>),
    UnknownMnemonic(Seq<char>),
    MalformedImmediateLiteral(Seq<char>),
    TypeMismatch(ParamKind, Seq<char>),
    InvalidTemplateOutput(Seq<char>),
    DuplicateLabel(Seq<char>),
    ProgramTooLarge,
}

impl View for AsmError {
    type V = ErrorView;

    open spec fn view(&self) -> ErrorView {
        match self {
            AsmError::UnknownParameter(s) => ErrorView::UnknownParameter(s@),
            AsmError::UnknownMnemonic(s) => ErrorView::UnknownMnemonic(s@),
            AsmError::MalformedImmediateLiteral(s) => ErrorView::MalformedImmediateLiteral(s@),
            AsmError::TypeMismatch(k, s) => ErrorView::TypeMismatch(*k, s@),
            AsmError::InvalidTemplateOutput(s) => ErrorView::InvalidTemplateOutput(s@),
            AsmError::DuplicateLabel(s) => ErrorView::DuplicateLabel(s@),
            AsmError::ProgramTooLarge => ErrorView::ProgramTooLarge,
        }
    }
}

} // verus!
