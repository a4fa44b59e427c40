//! Pass 2: operand resolution and the encoding of each instruction into its word.
use vstd::prelude::*;
use vstd::string::StringExecFns;

use crate::address::{Label, label_address, label_names, labels_view};
use crate::bits::{binary_text, binary_value, lemma_binary_value_bit, field_text, jal_indices, jal_offset, lemma_jal_displacement, select_bits};
use crate::encoding::{Extractor, Field, extractor_indices, field_spec, field_text_of, is_word_text, layout_text};
use crate::error::{AsmError, ErrorView};
use crate::isa::InstructionSet;
use crate::line::{InstructionView, UnparsedInstruction, texts};
use crate::number::{begins_negative, i32_literal, parse_i32, parse_unsigned, unsigned_literal};
use crate::param::ParsedParam;
use crate::table::{entry, find, keys, lemma_first_index_bounds};
use crate::text::chars_of;

verus! {

broadcast use vstd::seq_lib::group_seq_properties;

/// The value of an unsigned literal that fits in 32 bits.
pub open spec fn u32_literal(tok: Seq<char>) -> Option<u32> {
    if begins_negative(tok) {
        None
    } else {
        match unsigned_literal(tok) {
            Some(m) => if m <= u32::MAX {
                Some(m as u32)
            } else {
                None
            },
            None => None,
        }
    }
}

/// What a token stands for, tried in this order: a register name, a CSR name, a signed
/// literal when it begins with `-`, an unsigned 32-bit literal (read as signed), a label
/// (its absolute address); anything else is unknown.
pub open spec fn resolve_spec(
    set: &InstructionSet,
    labels: Seq<(Seq<char>, i32)>,
    tok: Seq<char>,
) -> Result<ParsedParam, ErrorView> {
    match set.register_of(tok) {
        Some(id) => Ok(ParsedParam::Register(id)),
        None => match set.csr_of(tok) {
            Some(a) => Ok(ParsedParam::Csr(a)),
            None => if tok.len() > 0 && tok[0] == '-' {
                match i32_literal(tok) {
                    Some(v) => Ok(ParsedParam::Immediate(v)),
                    None => Err(ErrorView::MalformedImmediateLiteral(tok)),
                }
            } else {
                match u32_literal(tok) {
                    Some(m) => Ok(ParsedParam::Immediate(m as i32)),
                    None => match label_address(labels, tok) {
                        Some(a) => Ok(ParsedParam::Immediate(a)),
                        None => Err(ErrorView::UnknownParameter(tok)),
                    },
                }
            },
        },
    }
}

/// Every token resolved in order, or the first failure.
pub open spec fn resolve_all(
    set: &InstructionSet,
    labels: Seq<(Seq<char>, i32)>,
    toks: Seq<Seq<char>>,
) -> Result<Seq<ParsedParam>, ErrorView>
    decreases toks.len(),
{
    if toks.len() == 0 {
        Ok(Seq::<ParsedParam>::empty())
    } else {
        match resolve_spec(set, labels, toks[0]) {
            Err(e) => Err(e),
            Ok(p) => match resolve_all(set, labels, toks.drop_first()) {
                Err(e) => Err(e),
                Ok(rest) => Ok(seq![p] + rest),
            },
        }
    }
}

/// The word of one instruction at `address`: its operands resolved, then its encoding's
/// fields joined, which must be exactly 32 binary digits.
pub open spec fn encode_spec(
    set: &InstructionSet,
    labels: Seq<(Seq<char>, i32)>,
    ins: InstructionView,
    address: i32,
) -> Result<u32, ErrorView> {
    match resolve_all(set, labels, ins.params) {
        Err(e) => Err(e),
        Ok(ps) => match entry(set.encodings@, ins.name) {
            None => Err(ErrorView::UnknownMnemonic(ins.name)),
            Some(enc) => match layout_text(enc.fields@, ps, ins.params, address, ins.name) {
                Err(e) => Err(e),
                Ok(t) => if is_word_text(t) {
                    Ok(binary_value(t))
                } else {
                    Err(ErrorView::InvalidTemplateOutput(ins.name))
                },
            },
        },
    }
}

/// The words of the instructions from position `i` on, the one at position `k` placed
/// at address `4 * k`.
pub open spec fn encode_from(
    set: &InstructionSet,
    labels: Seq<(Seq<char>, i32)>,
    ins: Seq<InstructionView>,
    i: int,
) -> Result<Seq<u32>, ErrorView>
    decreases ins.len() - i,
{
    if i < 0 || i >= ins.len() {
        Ok(Seq::<u32>::empty())
    } else {
        match encode_spec(set, labels, ins[i], (4 * i) as i32) {
            Err(e) => Err(e),
            Ok(w) => match encode_from(set, labels, ins, i + 1) {
                Err(e) => Err(e),
                Ok(rest) => Ok(seq![w] + rest),
            },
        }
    }
}

/// The contents of a result of one operand.
pub open spec fn param_result(r: Result<ParsedParam, AsmError>) -> Result<ParsedParam, ErrorView> {
    match r {
        Ok(p) => Ok(p),
        Err(e) => Err(e@),
    }
}

/// Operands that fit their fields: register numbers below 32, CSR addresses below 4096.
pub open spec fn params_in_range(ps: Seq<ParsedParam>) -> bool {
    &&& forall|i: int|
        0 <= i < ps.len() && (#[trigger] ps[i]) is Register ==> ps[i]->Register_0 < 32
    &&& forall|i: int| 0 <= i < ps.len() && (#[trigger] ps[i]) is Csr ==> ps[i]->Csr_0 < 4096
}

/// Resolves one operand token against the tables and the label map.
pub fn parse_param(set: &InstructionSet, labels: &Vec<Label>, code_param: &String) -> (r: Result<
    ParsedParam,
    AsmError,
>)
    requires
        set.wf(),
    ensures
        param_result(r) == resolve_spec(set, labels_view(labels@), code_param@),
        r matches Ok(p) ==> params_in_range(seq![p]),
{
    match find(&set.registers, code_param) {
        Some(k) => {
            proof {
                lemma_first_index_bounds(keys(set.registers@), code_param@);
            }
            let id = set.registers[k].id;
            let p = ParsedParam::Register(id);
            assert(seq![p][0] == p);
            return Ok(p);
        },
        None => {},
    }
    match find(&set.csrs, code_param) {
        Some(k) => {
            proof {
                lemma_first_index_bounds(keys(set.csrs@), code_param@);
            }
            let p = ParsedParam::Csr(set.csrs[k].address);
            assert(seq![p][0] == p);
            return Ok(p);
        },
        None => {},
    }
    let cs = chars_of(code_param.as_str());
    if cs.len() > 0 && cs[0] == '-' {
        return match parse_i32(code_param.as_str()) {
            Some(v) => Ok(ParsedParam::Immediate(v)),
            None => Err(AsmError::MalformedImmediateLiteral(code_param.clone())),
        };
    }
    match parse_unsigned(code_param.as_str()) {
        Some(m) => {
            if m <= 0xffff_ffff {
                if !begins_negative_exec(code_param) {
                    return Ok(ParsedParam::Immediate((m as u32) as i32));
                }
            }
        },
        None => {},
    }
    proof {
        assert(keys(labels@) =~= label_names(labels_view(labels@)));
    }
    match find(labels, code_param) {
        Some(k) => {
            proof {
                lemma_first_index_bounds(keys(labels@), code_param@);
            }
            Ok(ParsedParam::Immediate(labels[k].address))
        },
        None => Err(AsmError::UnknownParameter(code_param.clone())),
    }
}

fn begins_negative_exec(s: &String) -> (r: bool)
    ensures
        r == begins_negative(s@),
{
    crate::number::starts_negative(s.as_str())
}

/// Resolves every operand token in order; the first failure is the result.
pub fn resolve_params(set: &InstructionSet, labels: &Vec<Label>, raw: &Vec<String>) -> (r: Result<
    Vec<ParsedParam>,
    AsmError,
>)
    requires
        set.wf(),
    ensures
        match r {
            Ok(ps) => resolve_all(set, labels_view(labels@), texts(raw@)) == Ok::<
                Seq<ParsedParam>,
                ErrorView,
            >(ps@) && params_in_range(ps@),
            Err(e) => resolve_all(set, labels_view(labels@), texts(raw@)) == Err::<
                Seq<ParsedParam>,
                ErrorView,
            >(e@),
        },
{
    let ghost toks = texts(raw@);
    let ghost lv = labels_view(labels@);
    let mut out: Vec<ParsedParam> = Vec::new();
    let mut i: usize = 0;
    while i < raw.len()
        invariant
            i <= raw.len(),
            set.wf(),
            toks == texts(raw@),
            lv == labels_view(labels@),
            params_in_range(out@),
            resolve_all(set, lv, toks) == match resolve_all(set, lv, toks.skip(i as int)) {
                Err(e) => Err(e),
                Ok(rest) => Ok(out@ + rest),
            },
        decreases raw.len() - i,
    {
        proof {
            assert(toks.skip(i as int).drop_first() =~= toks.skip(i + 1));
            assert(toks.skip(i as int)[0] == raw@[i as int]@);
        }
        match parse_param(set, labels, &raw[i]) {
            Err(e) => {
                return Err(e);
            },
            Ok(p) => {
                proof {
                    match resolve_all(set, lv, toks.skip(i + 1)) {
                        Err(e) => {},
                        Ok(rest) => {
                            assert(out@ + (seq![p] + rest) =~= out@.push(p) + rest);
                        },
                    }
                    assert(seq![p][0] == p);
                }
                out.push(p);
            },
        }
        i += 1;
    }
    proof {
        assert(toks.skip(i as int) =~= Seq::<Seq<char>>::empty());
        assert(out@ + Seq::<ParsedParam>::empty() =~= out@);
    }
    Ok(out)
}

/// The fields of a layout rendered and joined; the first failing field's error otherwise.
pub fn layout_string(
    fields: &Vec<Field>,
    params: &Vec<ParsedParam>,
    raw: &Vec<String>,
    address: i32,
    name: &String,
) -> (r: Result<String, AsmError>)
    requires
        params_in_range(params@),
        0 <= address,
    ensures
        match r {
            Ok(s) => layout_text(fields@, params@, texts(raw@), address, name@) == Ok::<
                Seq<char>,
                ErrorView,
            >(s@),
            Err(e) => layout_text(fields@, params@, texts(raw@), address, name@) == Err::<
                Seq<char>,
                ErrorView,
            >(e@),
        },
{
    let ghost toks = texts(raw@);
    let ghost fs = fields@;
    let mut text = String::new();
    let mut i: usize = 0;
    while i < fields.len()
        invariant
            i <= fields.len(),
            fs == fields@,
            toks == texts(raw@),
            params_in_range(params@),
            0 <= address,
            layout_text(fs, params@, toks, address, name@) == match layout_text(
                fs.skip(i as int),
                params@,
                toks,
                address,
                name@,
            ) {
                Err(e) => Err(e),
                Ok(rest) => Ok(text@ + rest),
            },
        decreases fields.len() - i,
    {
        proof {
            assert(fs.skip(i as int).drop_first() =~= fs.skip(i + 1));
            assert(fs.skip(i as int)[0] == fields@[i as int]);
        }
        match field_text_of(&fields[i], params, raw, address, name) {
            Err(e) => {
                return Err(e);
            },
            Ok(t) => {
                proof {
                    match layout_text(fs.skip(i + 1), params@, toks, address, name@) {
                        Err(e) => {},
                        Ok(rest) => {
                            assert(text@ + (t@ + rest) =~= (text@ + t@) + rest);
                        },
                    }
                }
                text.append(t.as_str());
            },
        }
        i += 1;
    }
    proof {
        assert(fs.skip(i as int) =~= Seq::<Field>::empty());
        assert(text@ + Seq::<char>::empty() =~= text@);
    }
    Ok(text)
}

/// The word that 32 binary digits write; `None` for any other text.
pub fn word_of(t: &String) -> (r: Option<u32>)
    ensures
        match r {
            Some(w) => is_word_text(t@) && w == binary_value(t@),
            None => !is_word_text(t@),
        },
{
    let cs = chars_of(t.as_str());
    if cs.len() != 32 {
        return None;
    }
    let mut w: u32 = 0;
    let mut i: usize = 0;
    while i < cs.len()
        invariant
            i <= cs.len() == 32,
            cs@ == t@,
            forall|j: int| 0 <= j < i ==> #[trigger] cs@[j] == '0' || cs@[j] == '1',
            w == binary_value(cs@.take(i as int)),
        decreases cs.len() - i,
    {
        let c = cs[i];
        if c != '0' && c != '1' {
            assert(!(cs@[i as int] == '0' || cs@[i as int] == '1'));
            return None;
        }
        proof {
            assert(cs@.take(i + 1).drop_last() =~= cs@.take(i as int));
        }
        w = (w << 1u32) | (if c == '1' {
            1u32
        } else {
            0u32
        });
        i += 1;
    }
    proof {
        assert(cs@.take(i as int) =~= cs@);
    }
    Some(w)
}

/// The contents of an encoding's fields.
pub open spec fn layout_of(set: &InstructionSet, name: Seq<char>) -> Option<Seq<Field>> {
    match entry(set.encodings@, name) {
        Some(e) => Some(e.fields@),
        None => None,
    }
}

/// Encodes one instruction placed at `address`.
pub fn encode_instruction(
    set: &InstructionSet,
    labels: &Vec<Label>,
    ins: &UnparsedInstruction,
    address: i32,
) -> (r: Result<u32, AsmError>)
    requires
        set.wf(),
        0 <= address,
    ensures
        match r {
            Ok(w) => encode_spec(set, labels_view(labels@), ins@, address) == Ok::<u32, ErrorView>(
                w,
            ),
            Err(e) => encode_spec(set, labels_view(labels@), ins@, address) == Err::<
                u32,
                ErrorView,
            >(e@),
        },
{
    let params = resolve_params(set, labels, &ins.params)?;
    match find(&set.encodings, &ins.name) {
        None => Err(AsmError::UnknownMnemonic(ins.name.clone())),
        Some(k) => {
            proof {
                lemma_first_index_bounds(keys(set.encodings@), ins.name@);
            }
            let text = layout_string(&set.encodings[k].fields, &params, &ins.params, address, &ins.name)?;
            match word_of(&text) {
                Some(w) => Ok(w),
                None => Err(AsmError::InvalidTemplateOutput(ins.name.clone())),
            }
        },
    }
}

/// A word written as 32 binary digits reads back as those digits.
pub proof fn lemma_word_text(t: Seq<char>)
    requires
        is_word_text(t),
    ensures
        binary_text(binary_value(t), 32) == t,
{
    let w = binary_value(t);
    assert forall|j: int| 0 <= j < 32 implies #[trigger] binary_text(w, 32)[j] == t[j] by {
        lemma_binary_value_bit(t, 31 - j);
        assert(31 - j < t.len());
        assert(((32 - 1 - j) as usize) == (31 - j) as usize);
        assert(t[j] == '0' || t[j] == '1');
    }
    assert(binary_text(w, 32) =~= t);
}

/// A layout's text holds each field's text right after the text of the fields before it.
pub proof fn lemma_layout_split(
    fs: Seq<Field>,
    params: Seq<ParsedParam>,
    raw: Seq<Seq<char>>,
    address: i32,
    name: Seq<char>,
    j: int,
)
    requires
        layout_text(fs, params, raw, address, name) is Ok,
        0 <= j < fs.len(),
    ensures
        layout_text(fs.take(j), params, raw, address, name) is Ok,
        field_spec(fs[j], params, raw, address, name) is Ok,
        ({
            let pre = layout_text(fs.take(j), params, raw, address, name)->Ok_0;
            let f = field_spec(fs[j], params, raw, address, name)->Ok_0;
            let t = layout_text(fs, params, raw, address, name)->Ok_0;
            pre.len() + f.len() <= t.len() && t.subrange(pre.len() as int, (pre.len() + f.len()) as int)
                == f
        }),
    decreases j,
{
    let rest = fs.drop_first();
    let f0 = field_spec(fs[0], params, raw, address, name)->Ok_0;
    let r = layout_text(rest, params, raw, address, name)->Ok_0;
    if j == 0 {
        assert(fs.take(0) =~= Seq::<Field>::empty());
        assert((f0 + r).subrange(0, f0.len() as int) =~= f0);
    } else {
        lemma_layout_split(rest, params, raw, address, name, j - 1);
        assert(fs.take(j).drop_first() =~= rest.take(j - 1));
        assert(fs.take(j)[0] == fs[0]);
        assert(rest[j - 1] == fs[j]);
        let pre = layout_text(rest.take(j - 1), params, raw, address, name)->Ok_0;
        let f = field_spec(fs[j], params, raw, address, name)->Ok_0;
        let a = (f0.len() + pre.len()) as int;
        let b = (f0.len() + pre.len() + f.len()) as int;
        assert((f0 + r).subrange(a, b) =~= r.subrange(
            pre.len() as int,
            (pre.len() + f.len()) as int,
        ));
    }
}

/// Resolution keeps one operand per token.
pub proof fn lemma_resolve_all_len(
    set: &InstructionSet,
    labels: Seq<(Seq<char>, i32)>,
    toks: Seq<Seq<char>>,
)
    ensures
        resolve_all(set, labels, toks) matches Ok(ps) ==> ps.len() == toks.len(),
    decreases toks.len(),
{
    if toks.len() > 0 {
        lemma_resolve_all_len(set, labels, toks.drop_first());
    }
}

/// Each resolved operand is what its own token resolves to.
pub proof fn lemma_resolve_all_index(
    set: &InstructionSet,
    labels: Seq<(Seq<char>, i32)>,
    toks: Seq<Seq<char>>,
    k: int,
)
    requires
        resolve_all(set, labels, toks) is Ok,
        0 <= k < toks.len(),
    ensures
        resolve_all(set, labels, toks)->Ok_0.len() == toks.len(),
        resolve_spec(set, labels, toks[k]) == Ok::<ParsedParam, ErrorView>(
            resolve_all(set, labels, toks)->Ok_0[k],
        ),
    decreases toks.len(),
{
    let rest = toks.drop_first();
    if rest.len() > 0 {
        if k > 0 {
            lemma_resolve_all_index(set, labels, rest, k - 1);
        } else {
            lemma_resolve_all_index(set, labels, rest, 0);
        }
    } else {
        assert(resolve_all(set, labels, rest) == Ok::<Seq<ParsedParam>, ErrorView>(
            Seq::<ParsedParam>::empty(),
        ));
    }
}

/// Where field `j` of an instruction's layout starts in its word: the length of the
/// text of the fields before it.
pub open spec fn field_offset(
    set: &InstructionSet,
    labels: Seq<(Seq<char>, i32)>,
    ins: InstructionView,
    address: i32,
    j: int,
) -> int {
    let ps = resolve_all(set, labels, ins.params)->Ok_0;
    let fs = layout_of(set, ins.name)->Some_0;
    layout_text(fs.take(j), ps, ins.params, address, ins.name)->Ok_0.len() as int
}

/// For every name in the register table: in an instruction whose operand `k` is that
/// name and whose encoding has the field `Register(k)` at position `j`, the word holds
/// the register's number as five zero-padded binary digits exactly where that field
/// stands.
pub proof fn lemma_register_placement(
    set: &InstructionSet,
    labels: Seq<(Seq<char>, i32)>,
    ins: InstructionView,
    address: i32,
    k: usize,
    j: int,
)
    requires
        set.wf(),
        k < ins.params.len(),
        set.register_of(ins.params[k as int]) is Some,
        layout_of(set, ins.name) is Some,
        0 <= j < layout_of(set, ins.name)->Some_0.len(),
        layout_of(set, ins.name)->Some_0[j] is Register,
        layout_of(set, ins.name)->Some_0[j]->Register_0 == k,
        encode_spec(set, labels, ins, address) is Ok,
    ensures
        ({
            let off = field_offset(set, labels, ins, address, j);
            let w = encode_spec(set, labels, ins, address)->Ok_0;
            let id = set.register_of(ins.params[k as int])->Some_0;
            0 <= off && off + 5 <= 32 && binary_text(w, 32).subrange(off, off + 5)
                == binary_text(id as u32, 5)
        }),
{
    let ps = resolve_all(set, labels, ins.params)->Ok_0;
    let fs = layout_of(set, ins.name)->Some_0;
    let t = layout_text(fs, ps, ins.params, address, ins.name)->Ok_0;
    lemma_resolve_all_index(set, labels, ins.params, k as int);
    lemma_layout_split(fs, ps, ins.params, address, ins.name, j);
    lemma_word_text(t);
    let id = set.register_of(ins.params[k as int])->Some_0;
    assert(ps[k as int] == ParsedParam::Register(id));
}

/// In an instruction whose encoding has the field `Offset(k, e)` at position `j`, the
/// word holds, exactly where that field stands, the bits that `e` selects from the
/// distance from the instruction's address to the value of operand `k` (for a label,
/// its address).
pub proof fn lemma_offset_placement(
    set: &InstructionSet,
    labels: Seq<(Seq<char>, i32)>,
    ins: InstructionView,
    address: i32,
    k: usize,
    j: int,
)
    requires
        set.wf(),
        layout_of(set, ins.name) is Some,
        0 <= j < layout_of(set, ins.name)->Some_0.len(),
        layout_of(set, ins.name)->Some_0[j] is Offset,
        layout_of(set, ins.name)->Some_0[j]->Offset_0 == k,
        encode_spec(set, labels, ins, address) is Ok,
    ensures
        ({
            let off = field_offset(set, labels, ins, address, j);
            let w = encode_spec(set, labels, ins, address)->Ok_0;
            let ps = resolve_all(set, labels, ins.params)->Ok_0;
            let idx = extractor_indices(layout_of(set, ins.name)->Some_0[j]->Offset_1);
            &&& k < ins.params.len()
            &&& ps[k as int] is Immediate
            &&& resolve_spec(set, labels, ins.params[k as int]) == Ok::<ParsedParam, ErrorView>(
                ps[k as int],
            )
            &&& 0 <= off && off + idx.len() <= 32
            &&& binary_text(w, 32).subrange(off, off + idx.len()) == field_text(
                (ps[k as int]->Immediate_0 - address) as u32,
                idx,
            )
        }),
{
    let ps = resolve_all(set, labels, ins.params)->Ok_0;
    let fs = layout_of(set, ins.name)->Some_0;
    let t = layout_text(fs, ps, ins.params, address, ins.name)->Ok_0;
    lemma_layout_split(fs, ps, ins.params, address, ins.name, j);
    lemma_word_text(t);
    lemma_resolve_all_len(set, labels, ins.params);
    lemma_resolve_all_index(set, labels, ins.params, k as int);
}

/// A jump's target field, for every even distance in range from the jump's address to
/// its target: the word holds the 20-bit J-type field of the distance where the field
/// stands, and that field decodes to exactly the distance, negative ones included.
pub proof fn lemma_jump_field(
    set: &InstructionSet,
    labels: Seq<(Seq<char>, i32)>,
    ins: InstructionView,
    address: i32,
    k: usize,
    j: int,
)
    requires
        set.wf(),
        layout_of(set, ins.name) is Some,
        0 <= j < layout_of(set, ins.name)->Some_0.len(),
        layout_of(set, ins.name)->Some_0[j] == Field::Offset(k, Extractor::JalForm),
        encode_spec(set, labels, ins, address) is Ok,
        ({
            let target = resolve_all(set, labels, ins.params)->Ok_0[k as int]->Immediate_0;
            -0x100000 <= target - address < 0x100000 && (target - address) % 2 == 0
        }),
    ensures
        ({
            let off = field_offset(set, labels, ins, address, j);
            let w = encode_spec(set, labels, ins, address)->Ok_0;
            let target = resolve_all(set, labels, ins.params)->Ok_0[k as int]->Immediate_0;
            let f = select_bits((target - address) as u32, jal_indices());
            &&& 0 <= off && off + 20 <= 32
            &&& binary_text(w, 32).subrange(off, off + 20) == binary_text(f, 20)
            &&& jal_offset(f) == target - address
        }),
{
    lemma_offset_placement(set, labels, ins, address, k, j);
    let target = resolve_all(set, labels, ins.params)->Ok_0[k as int]->Immediate_0;
    lemma_jal_displacement(address, target);
}

} // verus!
