use riscv_asm::bits::{bit_at, bits_at, branch_high, branch_low, displacement, jal_form};
use riscv_asm::encoding::{csr_filter, filter_bits_at, register_filter, Extractor};
use riscv_asm::immediate::Immediate;
use riscv_asm::isa::is_plain_template;
use riscv_asm::line::{parse_instruction_line, preprocess, Line, UnparsedInstruction};
use riscv_asm::number::{parse_i32, parse_unsigned, write_digits};
use riscv_asm::param::ParsedParam;
use riscv_asm::register::Register;

fn instr(name: &str, params: &[&str]) -> Line {
    Line::Instruction(UnparsedInstruction {
        name: name.to_string(),
        params: params.iter().map(|p| p.to_string()).collect(),
    })
}

#[test]
fn bit_selection() {
    assert!(bit_at(0b1000, 3));
    assert!(!bit_at(0b1000, 2));
    assert_eq!(bits_at(0b1010, &[1, 3]), 0b11);
    assert_eq!(bits_at(0b1010, &[3, 0, 1]), 0b101);
    assert_eq!(bits_at(0xffff_ffff, &[]), 0);
}

#[test]
fn immediate_fields() {
    let imm = Immediate { content: 0x1234_5678 };
    assert_eq!(imm.high_20(), "00010010001101000101");
    assert_eq!(imm.low_12(), "011001111000");
    assert_eq!(imm.store_high(), "0110011");
    assert_eq!(imm.store_low(), "11000");
    assert_eq!(imm.shift_amount(), "11000");
    assert!(imm.bit_at(3));
    assert_eq!(imm.bits_at(&[3, 4, 5, 6]), 0b1111);
    assert_eq!(Immediate::from(-4).content, 0xffff_fffc);
}

#[test]
fn jump_and_branch_fields() {
    // +8: imm[10:1] = 0000000100
    assert_eq!(jal_form(8), "00000000100000000000");
    assert_eq!(Immediate { content: 8 }.jal_form(), "00000000100000000000");
    // -8: every high bit set, imm[10:1] = 1111111100
    assert_eq!(jal_form(-8i32 as u32), "11111111100111111111");
    assert_eq!(branch_high(8), "0000000");
    assert_eq!(branch_low(8), "01000");
    assert_eq!(branch_high(-4i32 as u32), "1111111");
    assert_eq!(branch_low(-4i32 as u32), "11101");
    assert_eq!(Immediate { content: -4i32 as u32 }.branch_low(), "11101");
    assert_eq!(Immediate { content: -4i32 as u32 }.branch_high(), "1111111");
    assert_eq!(displacement(8, 0), -8);
    assert_eq!(displacement(0, 8), 8);
}

#[test]
fn register_and_operand_kinds() {
    assert_eq!(Register { id: 5 }.binary_form(), "00101");
    assert_eq!(Register { id: 31 }.binary_form(), "11111");
    assert_eq!(ParsedParam::Immediate(-3).unwrap_immediate(), Some(-3));
    assert_eq!(ParsedParam::Register(3).unwrap_immediate(), None);
    assert_eq!(ParsedParam::Register(3).unwrap_register(), Some(3));
    assert_eq!(ParsedParam::Csr(0x300).unwrap_register(), None);
    assert_eq!(ParsedParam::Csr(0x300).unwrap_csr(), Some(0x300));
    assert_eq!(ParsedParam::Immediate(1).unwrap_csr(), None);
}

#[test]
fn literals() {
    assert_eq!(parse_unsigned("0x1f"), Some(31));
    assert_eq!(parse_unsigned("0X1F"), Some(31));
    assert_eq!(parse_unsigned("0b101"), Some(5));
    assert_eq!(parse_unsigned("0o17"), Some(15));
    assert_eq!(parse_unsigned("1_000"), Some(1000));
    assert_eq!(parse_unsigned("_1"), None);
    assert_eq!(parse_unsigned("0x"), None);
    assert_eq!(parse_unsigned("12a"), None);
    assert_eq!(parse_unsigned("-1"), None);
    assert_eq!(parse_i32("-0x10"), Some(-16));
    assert_eq!(parse_i32("-2147483648"), Some(i32::MIN));
    assert_eq!(parse_i32("2147483647"), Some(i32::MAX));
    assert_eq!(parse_i32("2147483648"), None);
    assert_eq!(parse_i32("--5"), None);
    assert_eq!(write_digits(0, 10), "0");
    assert_eq!(write_digits(4095, 10), "4095");
    assert_eq!(write_digits(0xfff8_0000, 16), "fff80000");
}

#[test]
fn line_parsing() {
    assert_eq!(parse_instruction_line("lw x5, 8(x2)"), instr("lw", &["x5", "8", "x2"]));
    assert_eq!(parse_instruction_line("add\tx1 ,x2,  x3"), instr("add", &["x1", "x2", "x3"]));
    assert_eq!(parse_instruction_line("ecall"), instr("ecall", &[]));
    assert_eq!(parse_instruction_line("add x1,,x2,"), instr("add", &["x1", "x2"]));
    let lines = preprocess("  start:\n\n  addi x1, x0, 1  \r\n\tloop::\nret");
    assert_eq!(
        lines,
        vec![
            Line::Tag("start".to_string()),
            instr("addi", &["x1", "x0", "1"]),
            Line::Tag("loop".to_string()),
            instr("ret", &[]),
        ]
    );
    assert_eq!(preprocess(""), vec![]);
    assert_eq!(preprocess(" \n\t\n"), vec![]);
}

#[test]
fn operand_filters() {
    assert_eq!(register_filter(&ParsedParam::Register(5)), Some("00101".to_string()));
    assert_eq!(register_filter(&ParsedParam::Immediate(5)), None);
    assert_eq!(csr_filter(&ParsedParam::Csr(0x300)), Some("001100000000".to_string()));
    assert_eq!(csr_filter(&ParsedParam::Register(1)), None);
    assert_eq!(filter_bits_at(0b1010, &Extractor::Bits(vec![1, 3])), Some("11".to_string()));
    assert_eq!(filter_bits_at(0b1010, &Extractor::Bits(vec![32])), None);
    assert_eq!(
        filter_bits_at(0x1234_5678, &Extractor::High20),
        Some("00010010001101000101".to_string())
    );
    assert_eq!(filter_bits_at(8, &Extractor::BranchLow), Some("01000".to_string()));
}

#[test]
fn standard_table_sizes() {
    let set = riscv_asm::standard::rv32i();
    assert_eq!(set.registers.len(), 65);
    assert_eq!(set.csrs.len(), 39);
    assert_eq!(set.encodings.len(), 54);
    assert_eq!(set.pseudo.len(), 25);
    assert!(set.check());
}

#[test]
fn plain_templates() {
    assert!(is_plain_template(""));
    assert!(is_plain_template("ret"));
    assert!(is_plain_template("jalr x0, 0({{ params[0] }})"));
    assert!(!is_plain_template("{{ params }}"));
    assert!(!is_plain_template("{ x }"));
    assert!(!is_plain_template("{{ params[0] | upper }}"));
}

#[test]
fn binary_fields_read_back() {
    for id in 0u8..32 {
        let s = Register { id }.binary_form();
        assert_eq!(s.len(), 5);
        assert_eq!(u8::from_str_radix(&s, 2), Ok(id));
    }
    let s = riscv_asm::register::csr_form(0xf14);
    assert_eq!(u16::from_str_radix(&s, 2), Ok(0xf14));
    for d in [-0x100000i32, -8, -2, 0, 2, 8, 0xffffe] {
        let f = u32::from_str_radix(&jal_form(d as u32), 2).unwrap();
        let imm = ((f >> 19) & 1) << 20 | (f & 0xff) << 12 | ((f >> 8) & 1) << 11 | ((f >> 9) & 0x3ff) << 1;
        assert_eq!(((imm << 11) as i32) >> 11, d);
    }
    for d in [-4096i32, -4, 0, 4, 4094] {
        let hi = u32::from_str_radix(&branch_high(d as u32), 2).unwrap();
        let lo = u32::from_str_radix(&branch_low(d as u32), 2).unwrap();
        let imm = ((hi >> 6) & 1) << 12 | (lo & 1) << 11 | (hi & 0x3f) << 5 | ((lo >> 1) & 0xf) << 1;
        assert_eq!(((imm << 19) as i32) >> 19, d);
    }
}
