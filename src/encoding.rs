//! Field layouts: how an instruction's operands are laid out in its 32-bit word.
use vstd::prelude::*;

use crate::bits::{
    binary_value,    binary_text, branch_high_indices, branch_low_indices, field_text, high_20_indices,
    jal_indices, low_12_indices, select_field, store_high_indices, store_low_indices,
    valid_indices,
};
use crate::error::{AsmError, ErrorView, ParamKind};
use crate::immediate::Immediate;
use crate::line::texts;
use crate::param::ParsedParam;
use crate::pseudo::text_option;
use crate::register::{Register, csr_form};

verus! {

/// The bits that a field takes from a 32-bit value.
pub enum Extractor {
    High20,
    Low12,
    JalForm,
    BranchHigh,
    BranchLow,
    StoreHigh,
    StoreLow,
    ShiftAmount,
    /// Output bit `i` is bit `indices[i]` of the value.
    Bits(Vec<usize>),
}

/// The indices of the bits that an extractor selects, low output bit first.
pub open spec fn extractor_indices(e: Extractor) -> Seq<usize> {
    match e {
        Extractor::High20 => high_20_indices(),
        Extractor::Low12 => low_12_indices(),
        Extractor::JalForm => jal_indices(),
        Extractor::BranchHigh => branch_high_indices(),
        Extractor::BranchLow => branch_low_indices(),
        Extractor::StoreHigh => store_high_indices(),
        Extractor::StoreLow => store_low_indices(),
        Extractor::ShiftAmount => store_low_indices(),
        Extractor::Bits(v) => v@,
    }
}

/// One field of an encoding, written most significant field first.
pub enum Field {
    /// Fixed text, normally `0`s and `1`s.
    Literal(String),
    /// The 5-bit number of the register operand at this position.
    Register(usize),
    /// The 12-bit address of the CSR operand at this position.
    Csr(usize),
    /// Bits of the immediate operand at this position.
    Immediate(usize, Extractor),
    /// Bits of the distance from the instruction's address to the immediate operand at
    /// this position.
    Offset(usize, Extractor),
}

/// The raw token at position `k`, or empty text when there is none.
pub open spec fn token_at(raw: Seq<Seq<char>>, k: int) -> Seq<char> {
    if 0 <= k < raw.len() {
        raw[k]
    } else {
        Seq::<char>::empty()
    }
}

/// The text of one field for an instruction named `name` at `address`, with operands
/// `params` resolved from the tokens `raw`.
pub open spec fn field_spec(
    f: Field,
    params: Seq<ParsedParam>,
    raw: Seq<Seq<char>>,
    address: i32,
    name: Seq<char>,
) -> Result<Seq<char>, ErrorView> {
    match f {
        Field::Literal(s) => Ok(s@),
        Field::Register(k) => if k < params.len() && params[k as int] is Register {
            Ok(binary_text(params[k as int]->Register_0 as u32, 5))
        } else {
            Err(ErrorView::TypeMismatch(ParamKind::Register, token_at(raw, k as int)))
        },
        Field::Csr(k) => if k < params.len() && params[k as int] is Csr {
            Ok(binary_text(params[k as int]->Csr_0 as u32, 12))
        } else {
            Err(ErrorView::TypeMismatch(ParamKind::Csr, token_at(raw, k as int)))
        },
        Field::Immediate(k, e) => if !valid_indices(extractor_indices(e)) {
            Err(ErrorView::InvalidTemplateOutput(name))
        } else if k < params.len() && params[k as int] is Immediate {
            Ok(field_text(params[k as int]->Immediate_0 as u32, extractor_indices(e)))
        } else {
            Err(ErrorView::TypeMismatch(ParamKind::Immediate, token_at(raw, k as int)))
        },
        Field::Offset(k, e) => if !valid_indices(extractor_indices(e)) {
            Err(ErrorView::InvalidTemplateOutput(name))
        } else if k < params.len() && params[k as int] is Immediate {
            Ok(
                field_text(
                    (params[k as int]->Immediate_0 - address) as u32,
                    extractor_indices(e),
                ),
            )
        } else {
            Err(ErrorView::TypeMismatch(ParamKind::Immediate, token_at(raw, k as int)))
        },
    }
}

/// The fields' texts joined in order, or the first field's error.
pub open spec fn layout_text(
    fs: Seq<Field>,
    params: Seq<ParsedParam>,
    raw: Seq<Seq<char>>,
    address: i32,
    name: Seq<char>,
) -> Result<Seq<char>, ErrorView>
    decreases fs.len(),
{
    if fs.len() == 0 {
        Ok(Seq::<char>::empty())
    } else {
        match field_spec(fs[0], params, raw, address, name) {
            Err(e) => Err(e),
            Ok(t) => match layout_text(fs.drop_first(), params, raw, address, name) {
                Err(e) => Err(e),
                Ok(rest) => Ok(t + rest),
            },
        }
    }
}

/// Exactly 32 binary digits.
pub open spec fn is_word_text(t: Seq<char>) -> bool {
    &&& t.len() == 32
    &&& forall|i: int| 0 <= i < t.len() ==> #[trigger] t[i] == '0' || t[i] == '1'
}

/// The bits that `e` selects from `n`, as a binary field; `None` when `e` names a bit
/// outside the word or more than 32 bits.
pub fn filter_bits_at(n: u32, e: &Extractor) -> (r: Option<String>)
    ensures
        match r {
            Some(s) => valid_indices(extractor_indices(*e)) && s@ == field_text(
                n,
                extractor_indices(*e),
            ),
            None => !valid_indices(extractor_indices(*e)),
        },
{
    let imm = Immediate { content: n };
    match e {
        Extractor::High20 => Some(imm.high_20()),
        Extractor::Low12 => Some(imm.low_12()),
        Extractor::JalForm => Some(imm.jal_form()),
        Extractor::BranchHigh => Some(imm.branch_high()),
        Extractor::BranchLow => Some(imm.branch_low()),
        Extractor::StoreHigh => Some(imm.store_high()),
        Extractor::StoreLow => Some(imm.store_low()),
        Extractor::ShiftAmount => Some(imm.shift_amount()),
        Extractor::Bits(v) => {
            if v.len() > 32 {
                return None;
            }
            let mut i: usize = 0;
            assert(extractor_indices(*e) == v@);
            while i < v.len()
                invariant
                    i <= v.len() <= 32,
                    extractor_indices(*e) == v@,
                    forall|j: int| 0 <= j < i ==> #[trigger] v@[j] < 32,
                decreases v.len() - i,
            {
                if v[i] >= 32 {
                    assert(!(extractor_indices(*e)[i as int] < 32));
                    return None;
                }
                i += 1;
            }
            Some(select_field(n, v))
        },
    }
}

/// The number of a register operand as a 5-digit binary field; `None` for an operand
/// of another kind.
pub fn register_filter(p: &ParsedParam) -> (r: Option<String>)
    requires
        *p is Register ==> p->Register_0 < 32,
    ensures
        text_option(r) == match *p {
            ParsedParam::Register(id) => Some(binary_text(id as u32, 5)),
            _ => None::<Seq<char>>,
        },
        r is Some ==> binary_value(r->Some_0@) == p->Register_0 as u32,
{
    match p {
        ParsedParam::Register(id) => Some(Register { id: *id }.binary_form()),
        _ => None,
    }
}

/// The address of a CSR operand as a 12-digit binary field; `None` for an operand of
/// another kind.
pub fn csr_filter(p: &ParsedParam) -> (r: Option<String>)
    requires
        *p is Csr ==> p->Csr_0 < 4096,
    ensures
        text_option(r) == match *p {
            ParsedParam::Csr(a) => Some(binary_text(a as u32, 12)),
            _ => None::<Seq<char>>,
        },
        r is Some ==> binary_value(r->Some_0@) == p->Csr_0 as u32,
{
    match p {
        ParsedParam::Csr(a) => Some(csr_form(*a)),
        _ => None,
    }
}

/// The text of one field; `Err` carries what went wrong.
pub fn field_text_of(
    f: &Field,
    params: &Vec<ParsedParam>,
    raw: &Vec<String>,
    address: i32,
    name: &String,
) -> (r: Result<String, AsmError>)
    requires
        forall|i: int|
            0 <= i < params@.len() && (#[trigger] params@[i]) is Register ==> params@[i]->Register_0
                < 32,
        forall|i: int|
            0 <= i < params@.len() && (#[trigger] params@[i]) is Csr ==> params@[i]->Csr_0 < 4096,
        0 <= address,
    ensures
        match r {
            Ok(s) => field_spec(*f, params@, texts(raw@), address, name@) == Ok::<
                Seq<char>,
                ErrorView,
            >(s@),
            Err(e) => field_spec(*f, params@, texts(raw@), address, name@) == Err::<
                Seq<char>,
                ErrorView,
            >(e@),
        },
{
    match f {
        Field::Literal(s) => Ok(s.clone()),
        Field::Register(k) => {
            if *k < params.len() {
                if let Some(s) = register_filter(&params[*k]) {
                    return Ok(s);
                }
            }
            Err(AsmError::TypeMismatch(ParamKind::Register, token(raw, *k)))
        },
        Field::Csr(k) => {
            if *k < params.len() {
                if let Some(s) = csr_filter(&params[*k]) {
                    return Ok(s);
                }
            }
            Err(AsmError::TypeMismatch(ParamKind::Csr, token(raw, *k)))
        },
        Field::Immediate(k, e) => {
            if *k < params.len() {
                if let ParsedParam::Immediate(v) = params[*k] {
                    return match filter_bits_at(v as u32, e) {
                        Some(s) => Ok(s),
                        None => Err(AsmError::InvalidTemplateOutput(name.clone())),
                    };
                }
            }
            match filter_bits_at(0, e) {
                Some(_) => Err(
                    AsmError::TypeMismatch(ParamKind::Immediate, token(raw, *k)),
                ),
                None => Err(AsmError::InvalidTemplateOutput(name.clone())),
            }
        },
        Field::Offset(k, e) => {
            if *k < params.len() {
                if let ParsedParam::Immediate(v) = params[*k] {
                    let d: u32 = #[verifier::truncate] ((v as i64 - address as i64) as u32);
                    return match filter_bits_at(d, e) {
                        Some(s) => Ok(s),
                        None => Err(AsmError::InvalidTemplateOutput(name.clone())),
                    };
                }
            }
            match filter_bits_at(0, e) {
                Some(_) => Err(
                    AsmError::TypeMismatch(ParamKind::Immediate, token(raw, *k)),
                ),
                None => Err(AsmError::InvalidTemplateOutput(name.clone())),
            }
        },
    }
}

fn token(raw: &Vec<String>, k: usize) -> (r: String)
    ensures
        r@ == token_at(texts(raw@), k as int),
{
    if k < raw.len() {
        raw[k].clone()
    } else {
        String::new()
    }
}

} // verus!
