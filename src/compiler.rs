//! The pipeline: text to lines, pseudo-instruction expansion, two passes, words.
use vstd::prelude::*;

use crate::address::{Label, assign_address, assign_spec, instructions_view, labels_view, lemma_assign_len};
use crate::encoder::{encode_from, encode_instruction};
use crate::error::{AsmError, ErrorView};
use crate::isa::InstructionSet;
use crate::line::{UnparsedInstruction, lines_view, preprocess, preprocess_spec};
use crate::isa::{csr_entries, register_entries};
use crate::standard::{rv32i, standard_csrs, standard_encodings, standard_registers};
use crate::table::keys;
use crate::pseudo::{expand_complex, expand_simple, replace_complex_pseudo, replace_simple_pseudo};

verus! {

broadcast use vstd::seq_lib::group_seq_properties;

/// The most lines a program may have once expanded: their addresses must fit in 31 bits.
pub const MAX_LINES: usize = 0x2000_0000;

/// The contents of a result of words.
pub open spec fn words_result(r: Result<Vec<u32>, AsmError>) -> Result<Seq<u32>, ErrorView> {
    match r {
        Ok(v) => Ok(v@),
        Err(e) => Err(e@),
    }
}

/// What assembling `code` with the tables `set` gives: the stages in order, each
/// failing on the first line it cannot handle.
pub open spec fn compile_spec(set: &InstructionSet, code: Seq<char>) -> Result<Seq<u32>, ErrorView> {
    match expand_complex(preprocess_spec(code)) {
        Err(e) => Err(e),
        Ok(expanded) => match expand_simple(set, expanded) {
            Err(e) => Err(e),
            Ok(lines) => if lines.len() >= MAX_LINES {
                Err(ErrorView::ProgramTooLarge)
            } else {
                match assign_spec(lines) {
                    Err(e) => Err(e),
                    Ok((ins, labels)) => encode_from(set, labels, ins, 0),
                }
            },
        },
    }
}

/// Pass 2: the word of each instruction, the one at position `k` placed at `4 * k`.
pub fn render(set: &InstructionSet, instructions: &Vec<UnparsedInstruction>, labels: &Vec<Label>) -> (r:
    Result<Vec<u32>, AsmError>)
    requires
        set.wf(),
        instructions.len() < MAX_LINES,
    ensures
        words_result(r) == encode_from(
            set,
            labels_view(labels@),
            instructions_view(instructions@),
            0,
        ),
{
    let ghost ins = instructions_view(instructions@);
    let ghost lv = labels_view(labels@);
    let mut out: Vec<u32> = Vec::new();
    let mut i: usize = 0;
    while i < instructions.len()
        invariant
            i <= instructions.len() < MAX_LINES,
            set.wf(),
            ins == instructions_view(instructions@),
            lv == labels_view(labels@),
            encode_from(set, lv, ins, 0) == match encode_from(set, lv, ins, i as int) {
                Err(e) => Err(e),
                Ok(rest) => Ok(out@ + rest),
            },
        decreases instructions.len() - i,
    {
        let address: i32 = (4 * i) as i32;
        match encode_instruction(set, labels, &instructions[i], address) {
            Err(e) => {
                return Err(e);
            },
            Ok(w) => {
                proof {
                    match encode_from(set, lv, ins, i + 1) {
                        Err(e) => {},
                        Ok(rest) => {
                            assert(out@ + (seq![w] + rest) =~= out@.push(w) + rest);
                        },
                    }
                }
                out.push(w);
            },
        }
        i += 1;
    }
    proof {
        assert(out@ + Seq::<u32>::empty() =~= out@);
    }
    Ok(out)
}

/// Assembles `code` with the tables `set` into its words.
pub fn compile(set: &InstructionSet, code: &str) -> (r: Result<Vec<u32>, AsmError>)
    requires
        set.wf(),
    ensures
        words_result(r) == compile_spec(set, code@),
{
    let preprocessed = preprocess(code);
    let expanded = replace_complex_pseudo(&preprocessed)?;
    let lines = replace_simple_pseudo(set, &expanded)?;
    if lines.len() >= MAX_LINES {
        return Err(AsmError::ProgramTooLarge);
    }
    let (instructions, labels) = assign_address(&lines)?;
    proof {
        lemma_assign_len(lines_view(lines@));
    }
    render(set, &instructions, &labels)
}

/// An assembler over a fixed set of tables.
pub struct ASMCompiler {
    pub tables: InstructionSet,
}

impl ASMCompiler {
    /// An assembler for RV32I with the M and Zicsr extensions.
    pub fn new() -> (r: ASMCompiler)
        ensures
            r.tables.wf(),
            register_entries(r.tables.registers@) == standard_registers(),
            csr_entries(r.tables.csrs@) == standard_csrs(),
            keys(r.tables.encodings@) == standard_encodings(),
    {
        ASMCompiler { tables: rv32i() }
    }

    /// Assembles `code` into its words, failing on the first line that cannot be
    /// assembled.
    pub fn compile(&self, code: &str) -> (r: Result<Vec<u32>, AsmError>)
        requires
            self.tables.wf(),
        ensures
            words_result(r) == compile_spec(&self.tables, code@),
    {
        compile(&self.tables, code)
    }
}

} // verus!
