use riscv_asm::address::assign_address;
use riscv_asm::compiler::ASMCompiler;
use riscv_asm::line::{parse_instruction_line, preprocess};
use riscv_asm::pseudo::{replace_complex_pseudo, replace_simple_pseudo};
use riscv_asm::standard::rv32i;

fn words(code: &str) -> Vec<u32> {
    ASMCompiler::new().compile(code).unwrap()
}

#[test]
fn register_names_land_in_their_field() {
    let set = rv32i();
    for r in set.registers.iter() {
        let w = words(&format!("add {}, x0, x0", r.name));
        assert_eq!((w[0] >> 7) & 0x1f, r.id as u32, "{}", r.name);
        let w = words(&format!("add x0, {}, x0", r.name));
        assert_eq!((w[0] >> 15) & 0x1f, r.id as u32, "{}", r.name);
        let w = words(&format!("add x0, x0, {}", r.name));
        assert_eq!((w[0] >> 20) & 0x1f, r.id as u32, "{}", r.name);
    }
}

fn rebuilt(ws: &[u32]) -> u32 {
    let mut value: u32 = 0;
    for w in ws {
        match w & 0x7f {
            0x37 => value = w & 0xffff_f000,
            0x13 => value = value.wrapping_add(((*w as i32) >> 20) as u32),
            _ => panic!("unexpected word {:08x}", w),
        }
    }
    value
}

#[test]
fn li_rebuilds_its_constant() {
    let values: [i64; 14] = [
        0, 1, -1, 0x7ff, 0x800, -0x800, -0x801, 0xfff, 0x1000, 0x8fff, 0x12345678,
        0x7fffffff, -0x80000000, -0x123456,
    ];
    for v in values {
        let ws = words(&format!("li t0, {}", v));
        assert!(ws.len() <= 2);
        assert_eq!(rebuilt(&ws), v as i32 as u32, "{}", v);
    }
}

#[test]
fn addresses_follow_instruction_order() {
    let lines = preprocess("first:\nnop\nnop\nmid:\nnop\nlast:");
    let (ins, labels) = assign_address(&lines).unwrap();
    assert_eq!(ins.len(), 3);
    let found: Vec<(String, i32)> = labels.iter().map(|l| (l.name.clone(), l.address)).collect();
    assert_eq!(
        found,
        vec![("first".to_string(), 0), ("mid".to_string(), 8), ("last".to_string(), 12)]
    );
}

fn jal_offset(w: u32) -> i32 {
    let imm = ((w >> 31) & 1) << 20 | ((w >> 21) & 0x3ff) << 1 | ((w >> 20) & 1) << 11
        | ((w >> 12) & 0xff) << 12;
    ((imm << 11) as i32) >> 11
}

fn branch_offset(w: u32) -> i32 {
    let imm = ((w >> 31) & 1) << 12 | ((w >> 25) & 0x3f) << 5 | ((w >> 8) & 0xf) << 1
        | ((w >> 7) & 1) << 11;
    ((imm << 19) as i32) >> 19
}

#[test]
fn displacements_decode_exactly() {
    let ws = words("top:\nnop\nnop\njal x0, top\nbeq x0, x0, top\nbne x1, x2, end\nnop\nend:");
    assert_eq!(jal_offset(ws[2]), -8);
    assert_eq!(branch_offset(ws[3]), -12);
    assert_eq!(branch_offset(ws[4]), 8);
}

#[test]
fn unknown_mnemonics_pass_through() {
    let set = rv32i();
    let lines = preprocess("label:\nadd x1, x2, x3\nfrobnicate a, b(c)");
    let once = replace_complex_pseudo(&lines).unwrap();
    let twice = replace_simple_pseudo(&set, &once).unwrap();
    assert_eq!(twice, lines);
    assert_eq!(twice[2], parse_instruction_line("frobnicate a, b(c)"));
}

#[test]
fn every_register_alias_encodes_its_number() {
    let set = rv32i();
    for r in set.registers.iter() {
        let text = format!("addi {}, x0, 0", r.name);
        let w = words(&text);
        assert_eq!(w.len(), 1);
        assert_eq!((w[0] >> 7) & 0x1f, r.id as u32, "{}", r.name);
        assert_eq!(w, words(&format!("addi x{}, x0, 0", r.id)), "{}", r.name);
    }
}

#[test]
fn li_rebuilds_every_sampled_constant() {
    let mut state: u64 = 0x2545_f491_4f6c_dd1d;
    let mut values: Vec<i32> = vec![i32::MIN, i32::MAX, -1, 0, 1, 0x7ff, 0x800, -0x800, -0x801];
    for _ in 0..3000 {
        state = state.wrapping_mul(6364136223846793005).wrapping_add(1442695040888963407);
        values.push((state >> 32) as u32 as i32);
    }
    for (i, v) in values.into_iter().enumerate() {
        let r = i % 32;
        let ws = words(&format!("li x{}, {}", r, v));
        assert!(!ws.is_empty() && ws.len() <= 2);
        for w in ws.iter() {
            assert_eq!((w >> 7) & 0x1f, r as u32);
        }
        let z = ws[ws.len() - 1];
        let upper = if ws[0] & 0x7f == 0x37 { ws[0] & 0xffff_f000 } else { 0 };
        let lower = if z & 0x7f == 0x13 { (z as i32) >> 20 } else { 0 };
        assert_eq!((upper as i32).wrapping_add(lower), v, "{}", v);
    }
}
