use riscv_asm::compiler::{compile, ASMCompiler};
use riscv_asm::encoding::{Extractor, Field};
use riscv_asm::error::{AsmError, ParamKind};
use riscv_asm::isa::InstructionSet;
use riscv_asm::standard::rv32i;

fn run(code: &str) -> Result<Vec<u32>, AsmError> {
    ASMCompiler::new().compile(code)
}

#[test]
fn error_unknown_parameter() {
    assert_eq!(
        run("addi x1, x0, xyz123"),
        Err(AsmError::UnknownParameter("xyz123".to_string()))
    );
    assert_eq!(run("add x1, x2, x32"), Err(AsmError::UnknownParameter("x32".to_string())));
}

#[test]
fn error_unknown_mnemonic() {
    assert_eq!(run("nop\nfoo x1"), Err(AsmError::UnknownMnemonic("foo".to_string())));
    assert_eq!(run("li x1"), Err(AsmError::UnknownMnemonic("li".to_string())));
}

#[test]
fn error_malformed_literal() {
    assert_eq!(
        run("addi x1, x0, -0xzz"),
        Err(AsmError::MalformedImmediateLiteral("-0xzz".to_string()))
    );
    assert_eq!(
        run("li x1, 0x100000000"),
        Err(AsmError::MalformedImmediateLiteral("0x100000000".to_string()))
    );
    assert_eq!(run("li x1, abc"), Err(AsmError::MalformedImmediateLiteral("abc".to_string())));
}

#[test]
fn error_type_mismatch() {
    assert_eq!(
        run("add x1, x2, 5"),
        Err(AsmError::TypeMismatch(ParamKind::Register, "5".to_string()))
    );
    assert_eq!(
        run("add x1, x2"),
        Err(AsmError::TypeMismatch(ParamKind::Register, "".to_string()))
    );
    assert_eq!(
        run("addi x1, x2, x3"),
        Err(AsmError::TypeMismatch(ParamKind::Immediate, "x3".to_string()))
    );
    assert_eq!(
        run("csrrw x1, x2, x3"),
        Err(AsmError::TypeMismatch(ParamKind::Csr, "x2".to_string()))
    );
}

#[test]
fn error_invalid_template_output() {
    let mut set = InstructionSet::new();
    set.add_encoding("short", vec![Field::Literal("0101".to_string())]);
    set.add_encoding("letters", vec![Field::Literal("0".repeat(31) + "2")]);
    set.add_encoding(
        "badbits",
        vec![Field::Immediate(0, Extractor::Bits(vec![40])), Field::Literal("0".repeat(31))],
    );
    assert!(set.add_pseudo("bad", "addi {{ params[3] }}"));
    assert!(set.check());
    assert_eq!(compile(&set, "short"), Err(AsmError::InvalidTemplateOutput("short".to_string())));
    assert_eq!(
        compile(&set, "letters"),
        Err(AsmError::InvalidTemplateOutput("letters".to_string()))
    );
    assert_eq!(
        compile(&set, "badbits 1"),
        Err(AsmError::InvalidTemplateOutput("badbits".to_string()))
    );
    assert_eq!(compile(&set, "bad x1"), Err(AsmError::InvalidTemplateOutput("bad".to_string())));
}

#[test]
fn error_duplicate_label() {
    assert_eq!(run("a:\nnop\na:\nnop"), Err(AsmError::DuplicateLabel("a".to_string())));
}

#[test]
fn first_error_wins() {
    assert_eq!(
        run("foo x1\naddi x1, x0, xyz"),
        Err(AsmError::UnknownMnemonic("foo".to_string()))
    );
}

#[test]
fn templates_that_are_not_plain_are_refused() {
    let mut set = rv32i();
    let before = set.pseudo.len();
    assert!(!set.add_pseudo("home", "addi x1, x0, {{ get_env(name=\"HOME\") }}"));
    assert!(!set.add_pseudo("rem", "addi x1, x0, {{ -9223372036854775808 % -1 }}"));
    assert!(!set.add_pseudo("big", "addi x1, x0, {{ 1e999 }}"));
    assert!(!set.add_pseudo("tag", "{% if true %}nop{% endif %}"));
    assert!(!set.add_pseudo("note", "nop {# note #}"));
    assert!(!set.add_pseudo("wide", "jal x0, {{ params[10] }}"));
    assert!(!set.add_pseudo("open", "jal x0, {{ params[0]"));
    assert_eq!(set.pseudo.len(), before);
    assert!(set.add_pseudo("tight", "add {{params[0]}},x0,{{  params[1] }}"));
    assert!(set.check());
    assert_eq!(compile(&set, "tight a0, a1"), compile(&set, "add a0, x0, a1"));
}
