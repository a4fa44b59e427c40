//! The RV32I base instruction set with the M and Zicsr extensions.
use vstd::prelude::*;

use crate::encoding::{Extractor, Field};
use crate::isa::{InstructionSet, csr_entries, register_entries};
use crate::table::keys;
use crate::number::{decimal_literal, write_digits};
use crate::bits::index_vec;

verus! {

/// The register names of RV32I: `x0` to `x31`, then the ABI names.
pub open spec fn standard_registers() -> Seq<(Seq<char>, u8)> {
    Seq::new(32, |i: int| ("x"@ + decimal_literal(i as u32), i as u8))
        .push(("zero"@, 0u8))
        .push(("ra"@, 1u8))
        .push(("sp"@, 2u8))
        .push(("gp"@, 3u8))
        .push(("tp"@, 4u8))
        .push(("t0"@, 5u8))
        .push(("t1"@, 6u8))
        .push(("t2"@, 7u8))
        .push(("s0"@, 8u8))
        .push(("fp"@, 8u8))
        .push(("s1"@, 9u8))
        .push(("a0"@, 10u8))
        .push(("a1"@, 11u8))
        .push(("a2"@, 12u8))
        .push(("a3"@, 13u8))
        .push(("a4"@, 14u8))
        .push(("a5"@, 15u8))
        .push(("a6"@, 16u8))
        .push(("a7"@, 17u8))
        .push(("s2"@, 18u8))
        .push(("s3"@, 19u8))
        .push(("s4"@, 20u8))
        .push(("s5"@, 21u8))
        .push(("s6"@, 22u8))
        .push(("s7"@, 23u8))
        .push(("s8"@, 24u8))
        .push(("s9"@, 25u8))
        .push(("s10"@, 26u8))
        .push(("s11"@, 27u8))
        .push(("t3"@, 28u8))
        .push(("t4"@, 29u8))
        .push(("t5"@, 30u8))
        .push(("t6"@, 31u8))
}

/// The CSR names and addresses.
pub open spec fn standard_csrs() -> Seq<(Seq<char>, u16)> {
    Seq::<(Seq<char>, u16)>::empty()
        .push(("fflags"@, 0x001u16))
        .push(("frm"@, 0x002u16))
        .push(("fcsr"@, 0x003u16))
        .push(("sstatus"@, 0x100u16))
        .push(("sie"@, 0x104u16))
        .push(("stvec"@, 0x105u16))
        .push(("scounteren"@, 0x106u16))
        .push(("sscratch"@, 0x140u16))
        .push(("sepc"@, 0x141u16))
        .push(("scause"@, 0x142u16))
        .push(("stval"@, 0x143u16))
        .push(("sip"@, 0x144u16))
        .push(("satp"@, 0x180u16))
        .push(("mstatus"@, 0x300u16))
        .push(("misa"@, 0x301u16))
        .push(("medeleg"@, 0x302u16))
        .push(("mideleg"@, 0x303u16))
        .push(("mie"@, 0x304u16))
        .push(("mtvec"@, 0x305u16))
        .push(("mcounteren"@, 0x306u16))
        .push(("mscratch"@, 0x340u16))
        .push(("mepc"@, 0x341u16))
        .push(("mcause"@, 0x342u16))
        .push(("mtval"@, 0x343u16))
        .push(("mip"@, 0x344u16))
        .push(("mcycle"@, 0xb00u16))
        .push(("minstret"@, 0xb02u16))
        .push(("mcycleh"@, 0xb80u16))
        .push(("minstreth"@, 0xb82u16))
        .push(("cycle"@, 0xc00u16))
        .push(("time"@, 0xc01u16))
        .push(("instret"@, 0xc02u16))
        .push(("cycleh"@, 0xc80u16))
        .push(("timeh"@, 0xc81u16))
        .push(("instreth"@, 0xc82u16))
        .push(("mvendorid"@, 0xf11u16))
        .push(("marchid"@, 0xf12u16))
        .push(("mimpid"@, 0xf13u16))
        .push(("mhartid"@, 0xf14u16))
}

/// The mnemonics that have an encoding, in order.
pub open spec fn standard_encodings() -> Seq<Seq<char>> {
    Seq::<Seq<char>>::empty()
        .push("add"@)
        .push("sub"@)
        .push("sll"@)
        .push("slt"@)
        .push("sltu"@)
        .push("xor"@)
        .push("srl"@)
        .push("sra"@)
        .push("or"@)
        .push("and"@)
        .push("mul"@)
        .push("mulh"@)
        .push("mulhsu"@)
        .push("mulhu"@)
        .push("div"@)
        .push("divu"@)
        .push("rem"@)
        .push("remu"@)
        .push("addi"@)
        .push("slti"@)
        .push("sltiu"@)
        .push("xori"@)
        .push("ori"@)
        .push("andi"@)
        .push("slli"@)
        .push("srli"@)
        .push("srai"@)
        .push("lb"@)
        .push("lh"@)
        .push("lw"@)
        .push("lbu"@)
        .push("lhu"@)
        .push("sb"@)
        .push("sh"@)
        .push("sw"@)
        .push("beq"@)
        .push("bne"@)
        .push("blt"@)
        .push("bge"@)
        .push("bltu"@)
        .push("bgeu"@)
        .push("lui"@)
        .push("auipc"@)
        .push("jal"@)
        .push("jalr"@)
        .push("csrrw"@)
        .push("csrrs"@)
        .push("csrrc"@)
        .push("csrrwi"@)
        .push("csrrsi"@)
        .push("csrrci"@)
        .push("ecall"@)
        .push("ebreak"@)
        .push("fence"@)
}

fn lit(bits: &str) -> Field {
    Field::Literal(bits.to_owned())
}

/// `funct7 rs2 rs1 funct3 rd opcode`, operands `rd, rs1, rs2`.
fn r_type(funct7: &str, funct3: &str, opcode: &str) -> Vec<Field> {
    vec![lit(funct7), Field::Register(2), Field::Register(1), lit(funct3), Field::Register(0), lit(opcode)]
}

/// `imm[11:0] rs1 funct3 rd opcode`, operands `rd, rs1, imm`.
fn i_type(funct3: &str, opcode: &str) -> Vec<Field> {
    vec![Field::Immediate(2, Extractor::Low12), Field::Register(1), lit(funct3), Field::Register(0), lit(opcode)]
}

/// A shift by a constant, operands `rd, rs1, shamt`.
fn shift(funct7: &str, funct3: &str) -> Vec<Field> {
    vec![lit(funct7), Field::Immediate(2, Extractor::ShiftAmount), Field::Register(1), lit(funct3), Field::Register(0), lit("0010011")]
}

/// A load, operands `rd, imm(rs1)`.
fn load(funct3: &str) -> Vec<Field> {
    vec![Field::Immediate(1, Extractor::Low12), Field::Register(2), lit(funct3), Field::Register(0), lit("0000011")]
}

/// A store, operands `rs2, imm(rs1)`.
fn store(funct3: &str) -> Vec<Field> {
    vec![Field::Immediate(1, Extractor::StoreHigh), Field::Register(0), Field::Register(2), lit(funct3), Field::Immediate(1, Extractor::StoreLow), lit("0100011")]
}

/// A conditional branch, operands `rs1, rs2, target`.
fn branch(funct3: &str) -> Vec<Field> {
    vec![Field::Offset(2, Extractor::BranchHigh), Field::Register(1), Field::Register(0), lit(funct3), Field::Offset(2, Extractor::BranchLow), lit("1100011")]
}

/// An upper-immediate instruction, operands `rd, imm20`.
fn u_type(opcode: &str) -> Vec<Field> {
    vec![Field::Immediate(1, Extractor::Bits(index_vec(0, 20))), Field::Register(0), lit(opcode)]
}

/// A CSR access with a register source, operands `rd, csr, rs1`.
fn csr(funct3: &str) -> Vec<Field> {
    vec![Field::Csr(1), Field::Register(2), lit(funct3), Field::Register(0), lit("1110011")]
}

/// A CSR access with a 5-bit immediate source, operands `rd, csr, uimm`.
fn csr_immediate(funct3: &str) -> Vec<Field> {
    vec![Field::Csr(1), Field::Immediate(2, Extractor::StoreLow), lit(funct3), Field::Register(0), lit("1110011")]
}

/// The registers `x0` to `x31` under their numeric and ABI names.
fn add_registers(set: &mut InstructionSet)
    requires
        old(set).wf(),
        old(set).registers@.len() == 0,
    ensures
        final(set).wf(),
        register_entries(final(set).registers@) == standard_registers(),
        final(set).csrs == old(set).csrs,
        final(set).encodings == old(set).encodings,
{
    let mut i: u8 = 0;
    assert(register_entries(set.registers@) =~= Seq::<(Seq<char>, u8)>::empty());
    while i < 32
        invariant
            set.wf(),
            i <= 32,
            register_entries(set.registers@) =~= Seq::new(
                i as nat,
                |j: int| ("x"@ + decimal_literal(j as u32), j as u8),
            ),
            set.csrs == old(set).csrs,
            set.encodings == old(set).encodings,
        decreases 32 - i,
    {
        let mut name = "x".to_owned();
        let digits = write_digits(i as u32, 10);
        name.append(digits.as_str());
        set.add_register(name.as_str(), i);
        proof {
            reveal_strlit("x");
        }
        i += 1;
    }
    let ghost numbered = register_entries(set.registers@);
    assert(numbered == Seq::new(32, |i: int| ("x"@ + decimal_literal(i as u32), i as u8)));
    set.add_register("zero", 0);
    set.add_register("ra", 1);
    set.add_register("sp", 2);
    set.add_register("gp", 3);
    set.add_register("tp", 4);
    set.add_register("t0", 5);
    set.add_register("t1", 6);
    set.add_register("t2", 7);
    set.add_register("s0", 8);
    set.add_register("fp", 8);
    set.add_register("s1", 9);
    set.add_register("a0", 10);
    set.add_register("a1", 11);
    set.add_register("a2", 12);
    set.add_register("a3", 13);
    set.add_register("a4", 14);
    set.add_register("a5", 15);
    set.add_register("a6", 16);
    set.add_register("a7", 17);
    set.add_register("s2", 18);
    set.add_register("s3", 19);
    set.add_register("s4", 20);
    set.add_register("s5", 21);
    set.add_register("s6", 22);
    set.add_register("s7", 23);
    set.add_register("s8", 24);
    set.add_register("s9", 25);
    set.add_register("s10", 26);
    set.add_register("s11", 27);
    set.add_register("t3", 28);
    set.add_register("t4", 29);
    set.add_register("t5", 30);
    set.add_register("t6", 31);
}

/// The standard CSRs of the user, supervisor and machine levels.
fn add_csrs(set: &mut InstructionSet)
    requires
        old(set).wf(),
        old(set).csrs@.len() == 0,
    ensures
        final(set).wf(),
        csr_entries(final(set).csrs@) == standard_csrs(),
        final(set).registers == old(set).registers,
        final(set).encodings == old(set).encodings,
{
    assert(csr_entries(set.csrs@) =~= Seq::<(Seq<char>, u16)>::empty());
    set.add_csr("fflags", 0x001);
    set.add_csr("frm", 0x002);
    set.add_csr("fcsr", 0x003);
    set.add_csr("sstatus", 0x100);
    set.add_csr("sie", 0x104);
    set.add_csr("stvec", 0x105);
    set.add_csr("scounteren", 0x106);
    set.add_csr("sscratch", 0x140);
    set.add_csr("sepc", 0x141);
    set.add_csr("scause", 0x142);
    set.add_csr("stval", 0x143);
    set.add_csr("sip", 0x144);
    set.add_csr("satp", 0x180);
    set.add_csr("mstatus", 0x300);
    set.add_csr("misa", 0x301);
    set.add_csr("medeleg", 0x302);
    set.add_csr("mideleg", 0x303);
    set.add_csr("mie", 0x304);
    set.add_csr("mtvec", 0x305);
    set.add_csr("mcounteren", 0x306);
    set.add_csr("mscratch", 0x340);
    set.add_csr("mepc", 0x341);
    set.add_csr("mcause", 0x342);
    set.add_csr("mtval", 0x343);
    set.add_csr("mip", 0x344);
    set.add_csr("mcycle", 0xb00);
    set.add_csr("minstret", 0xb02);
    set.add_csr("mcycleh", 0xb80);
    set.add_csr("minstreth", 0xb82);
    set.add_csr("cycle", 0xc00);
    set.add_csr("time", 0xc01);
    set.add_csr("instret", 0xc02);
    set.add_csr("cycleh", 0xc80);
    set.add_csr("timeh", 0xc81);
    set.add_csr("instreth", 0xc82);
    set.add_csr("mvendorid", 0xf11);
    set.add_csr("marchid", 0xf12);
    set.add_csr("mimpid", 0xf13);
    set.add_csr("mhartid", 0xf14);
}

/// The common aliases that stand for one instruction each.
fn add_pseudo_instructions(set: &mut InstructionSet)
    requires
        old(set).wf(),
    ensures
        final(set).wf(),
        final(set).registers == old(set).registers,
        final(set).csrs == old(set).csrs,
        final(set).encodings == old(set).encodings,
{
    set.add_pseudo("nop", "addi x0, x0, 0");
    set.add_pseudo("mv", "addi {{ params[0] }}, {{ params[1] }}, 0");
    set.add_pseudo("not", "xori {{ params[0] }}, {{ params[1] }}, -1");
    set.add_pseudo("neg", "sub {{ params[0] }}, x0, {{ params[1] }}");
    set.add_pseudo("seqz", "sltiu {{ params[0] }}, {{ params[1] }}, 1");
    set.add_pseudo("snez", "sltu {{ params[0] }}, x0, {{ params[1] }}");
    set.add_pseudo("sltz", "slt {{ params[0] }}, {{ params[1] }}, x0");
    set.add_pseudo("sgtz", "slt {{ params[0] }}, x0, {{ params[1] }}");
    set.add_pseudo("beqz", "beq {{ params[0] }}, x0, {{ params[1] }}");
    set.add_pseudo("bnez", "bne {{ params[0] }}, x0, {{ params[1] }}");
    set.add_pseudo("blez", "bge x0, {{ params[0] }}, {{ params[1] }}");
    set.add_pseudo("bgez", "bge {{ params[0] }}, x0, {{ params[1] }}");
    set.add_pseudo("bltz", "blt {{ params[0] }}, x0, {{ params[1] }}");
    set.add_pseudo("bgtz", "blt x0, {{ params[0] }}, {{ params[1] }}");
    set.add_pseudo("bgt", "blt {{ params[1] }}, {{ params[0] }}, {{ params[2] }}");
    set.add_pseudo("ble", "bge {{ params[1] }}, {{ params[0] }}, {{ params[2] }}");
    set.add_pseudo("bgtu", "bltu {{ params[1] }}, {{ params[0] }}, {{ params[2] }}");
    set.add_pseudo("bleu", "bgeu {{ params[1] }}, {{ params[0] }}, {{ params[2] }}");
    set.add_pseudo("j", "jal x0, {{ params[0] }}");
    set.add_pseudo("jr", "jalr x0, 0({{ params[0] }})");
    set.add_pseudo("ret", "jalr x0, 0(x1)");
    set.add_pseudo("csrr", "csrrs {{ params[0] }}, {{ params[1] }}, x0");
    set.add_pseudo("csrw", "csrrw x0, {{ params[0] }}, {{ params[1] }}");
    set.add_pseudo("csrs", "csrrs x0, {{ params[0] }}, {{ params[1] }}");
    set.add_pseudo("csrc", "csrrc x0, {{ params[0] }}, {{ params[1] }}");
}

/// The encodings of RV32I, M and Zicsr.
fn add_encodings(set: &mut InstructionSet)
    requires
        old(set).wf(),
        old(set).encodings@.len() == 0,
    ensures
        final(set).wf(),
        keys(final(set).encodings@) == standard_encodings(),
        final(set).registers == old(set).registers,
        final(set).csrs == old(set).csrs,
{
    assert(keys(set.encodings@) =~= Seq::<Seq<char>>::empty());
    set.add_encoding("add", r_type("0000000", "000", "0110011"));
    set.add_encoding("sub", r_type("0100000", "000", "0110011"));
    set.add_encoding("sll", r_type("0000000", "001", "0110011"));
    set.add_encoding("slt", r_type("0000000", "010", "0110011"));
    set.add_encoding("sltu", r_type("0000000", "011", "0110011"));
    set.add_encoding("xor", r_type("0000000", "100", "0110011"));
    set.add_encoding("srl", r_type("0000000", "101", "0110011"));
    set.add_encoding("sra", r_type("0100000", "101", "0110011"));
    set.add_encoding("or", r_type("0000000", "110", "0110011"));
    set.add_encoding("and", r_type("0000000", "111", "0110011"));
    set.add_encoding("mul", r_type("0000001", "000", "0110011"));
    set.add_encoding("mulh", r_type("0000001", "001", "0110011"));
    set.add_encoding("mulhsu", r_type("0000001", "010", "0110011"));
    set.add_encoding("mulhu", r_type("0000001", "011", "0110011"));
    set.add_encoding("div", r_type("0000001", "100", "0110011"));
    set.add_encoding("divu", r_type("0000001", "101", "0110011"));
    set.add_encoding("rem", r_type("0000001", "110", "0110011"));
    set.add_encoding("remu", r_type("0000001", "111", "0110011"));
    set.add_encoding("addi", i_type("000", "0010011"));
    set.add_encoding("slti", i_type("010", "0010011"));
    set.add_encoding("sltiu", i_type("011", "0010011"));
    set.add_encoding("xori", i_type("100", "0010011"));
    set.add_encoding("ori", i_type("110", "0010011"));
    set.add_encoding("andi", i_type("111", "0010011"));
    set.add_encoding("slli", shift("0000000", "001"));
    set.add_encoding("srli", shift("0000000", "101"));
    set.add_encoding("srai", shift("0100000", "101"));
    set.add_encoding("lb", load("000"));
    set.add_encoding("lh", load("001"));
    set.add_encoding("lw", load("010"));
    set.add_encoding("lbu", load("100"));
    set.add_encoding("lhu", load("101"));
    set.add_encoding("sb", store("000"));
    set.add_encoding("sh", store("001"));
    set.add_encoding("sw", store("010"));
    set.add_encoding("beq", branch("000"));
    set.add_encoding("bne", branch("001"));
    set.add_encoding("blt", branch("100"));
    set.add_encoding("bge", branch("101"));
    set.add_encoding("bltu", branch("110"));
    set.add_encoding("bgeu", branch("111"));
    set.add_encoding("lui", u_type("0110111"));
    set.add_encoding("auipc", u_type("0010111"));
    set.add_encoding("jal", vec![Field::Offset(1, Extractor::JalForm), Field::Register(0), lit("1101111")]);
    set.add_encoding("jalr", vec![Field::Immediate(1, Extractor::Low12), Field::Register(2), lit("000"), Field::Register(0), lit("1100111")]);
    set.add_encoding("csrrw", csr("001"));
    set.add_encoding("csrrs", csr("010"));
    set.add_encoding("csrrc", csr("011"));
    set.add_encoding("csrrwi", csr_immediate("101"));
    set.add_encoding("csrrsi", csr_immediate("110"));
    set.add_encoding("csrrci", csr_immediate("111"));
    set.add_encoding("ecall", vec![lit("00000000000000000000000001110011")]);
    set.add_encoding("ebreak", vec![lit("00000000000100000000000001110011")]);
    set.add_encoding("fence", vec![lit("00001111111100000000000000001111")]);
}

/// RV32I with M and Zicsr: registers, CSRs, aliases and encodings.
pub fn rv32i() -> (r: InstructionSet)
    ensures
        r.wf(),
        register_entries(r.registers@) == standard_registers(),
        csr_entries(r.csrs@) == standard_csrs(),
        keys(r.encodings@) == standard_encodings(),
{
    let mut set = InstructionSet::new();
    add_registers(&mut set);
    add_csrs(&mut set);
    add_pseudo_instructions(&mut set);
    add_encodings(&mut set);
    set
}

} // verus!
