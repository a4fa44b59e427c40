use riscv_asm::compiler::ASMCompiler;
use riscv_asm::error::AsmError;

fn words(code: &str) -> Vec<u32> {
    ASMCompiler::new().compile(code).unwrap()
}

#[test]
fn addi_fields() {
    let w = words("addi x1, x0, 5");
    assert_eq!(w.len(), 1);
    let text = format!("{:032b}", w[0]);
    assert_eq!(&text[0..12], "000000000101");
    assert_eq!(&text[12..17], "00000");
    assert_eq!(&text[20..25], "00001");
    assert_eq!(w, vec![0x00500093]);
}

#[test]
fn li_with_negative_low_part() {
    assert_eq!(words("li x1, 0x8fff"), words("lui x1, 0x9\naddi x1, x1, -1"));
    assert_eq!(words("li x1, 0x8fff"), vec![0x000090b7, 0xfff08093]);
}

#[test]
fn li_zero_is_mv() {
    assert_eq!(words("li x5, 0"), words("mv x5, zero"));
    assert_eq!(words("li x5, 0"), vec![0x00000293]);
}

#[test]
fn branch_forward_eight() {
    let w = words("beq x0, x0, L\nnop\nL:\nnop");
    assert_eq!(w[0], 0x00000463);
}

#[test]
fn unknown_parameter() {
    let r = ASMCompiler::new().compile("addi x1, x0, xyz123");
    assert_eq!(r, Err(AsmError::UnknownParameter("xyz123".to_string())));
}

#[test]
fn empty_program() {
    assert_eq!(ASMCompiler::new().compile(""), Ok(vec![]));
    assert_eq!(ASMCompiler::new().compile("\n  \nonly_a_label:\n"), Ok(vec![]));
}

#[test]
fn largest_displacements() {
    assert_eq!(words("jal x0, 1048574"), vec![0x7ffff06f]);
    assert_eq!(words("blt a0, a1, -4096"), vec![0x80b54063]);
}

#[test]
fn register_aliases_share_a_number() {
    assert_eq!(words("addi fp, s0, 1"), words("addi x8, x8, 1"));
    assert_eq!(words("add zero, ra, sp"), words("add x0, x1, x2"));
}

#[test]
fn label_used_before_and_after_definition() {
    let w = words("j forward\nback:\nnop\nforward:\nj back");
    assert_eq!(w, vec![0x0080006f, 0x00000013, 0xffdff06f]);
}
