use riscv_asm::compiler::ASMCompiler;

fn check_single_instruction_cases(cases: &[(u32, &str)]) {
    let assembler = ASMCompiler::new();
    for (expected, code) in cases {
        assert_eq!(assembler.compile(code), Ok(vec![*expected]), "{}", code);
    }
}

#[test]
fn test_simple_instructions() {
    check_single_instruction_cases(&[
        (0x002081b3, "add x3, x1, x2"),
        (0x40b502b3, "sub t0, a0, a1"),
        (0x013974b3, "and s1, s2, s3"),
        (0x407352b3, "sra x5, x6, x7"),
        (0x02c58533, "mul a0, a1, a2"),
        (0x02c5f533, "remu a0, a1, a2"),
        (0xff010113, "addi sp, sp, -16"),
        (0xfff54513, "xori a0, a0, -1"),
        (0x0643b313, "sltiu t1, t2, 100"),
        (0x00311093, "slli x1, x2, 3"),
        (0x41f15093, "srai x1, x2, 31"),
        (0x00812283, "lw x5, 8(x2)"),
        (0xfff14503, "lbu a0, -1(sp)"),
        (0x00512423, "sw x5, 8(x2)"),
        (0xfea40623, "sb a0, -20(s0)"),
        (0x123450b7, "lui x1, 0x12345"),
        (0xfffff097, "auipc ra, 0xfffff"),
        (0x004280e7, "jalr ra, 4(t0)"),
        (0x300110f3, "csrrw x1, mstatus, x2"),
        (0x3412e573, "csrrsi a0, mepc, 5"),
        (0x00000073, "ecall"),
        (0x00100073, "ebreak"),
    ]);
}

#[test]
fn test_simple_pseudo_instructions() {
    check_single_instruction_cases(&[
        (0x00000013, "nop"),
        (0x00058513, "mv a0, a1"),
        (0xfff34293, "not t0, t1"),
        (0x40b00533, "neg a0, a1"),
        (0x0015b513, "seqz a0, a1"),
        (0x00b03533, "snez a0, a1"),
        (0x00008067, "ret"),
        (0x00028067, "jr t0"),
        (0xf1402573, "csrr a0, mhartid"),
        (0x30529073, "csrw mtvec, t0"),
    ]);
}

#[test]
fn test_li() {
    let cases: Vec<(&str, Vec<u32>)> = vec![
        ("li x1, 0x12345678", vec![0x123450b7, 0x67808093]),
        ("li x1, -1", vec![0xfff00093]),
        ("li x1, 0x800", vec![0x000010b7, 0x80008093]),
        ("li x1, 0x7ff", vec![0x7ff00093]),
        ("li x1, -2048", vec![0x80000093]),
        ("li x1, 0x1000", vec![0x000010b7]),
        ("li x1, -2147483648", vec![0x800000b7]),
        ("li x1, 0x7fffffff", vec![0x800000b7, 0xfff08093]),
        ("li x1, 0x8fff", vec![0x000090b7, 0xfff08093]),
        ("li a0, -0x123456", vec![0xffedd537, 0xbaa50513]),
        ("li x5, 0", vec![0x00000293]),
    ];
    let assembler = ASMCompiler::new();
    for (code, expected) in cases {
        assert_eq!(assembler.compile(code), Ok(expected.clone()), "{}", code);
        assert!(expected.len() <= 16);
    }
}

#[test]
fn test_jump() {
    let cases: Vec<(&str, Vec<u32>)> = vec![
        (
            "loop:\naddi x1, x1, 1\nbne x1, x2, loop\njal x0, loop",
            vec![0x00108093, 0xfe209ee3, 0xff9ff06f],
        ),
        ("beq x0, x0, L\nnop\nL:\nnop", vec![0x00000463, 0x00000013, 0x00000013]),
        (
            "j end\njal ra, func\nnop\nend:\nfunc:\nret",
            vec![0x00c0006f, 0x008000ef, 0x00000013, 0x00008067],
        ),
        ("bgt a0, a1, L\nnop\nL:", vec![0x00a5c463, 0x00000013]),
    ];
    let assembler = ASMCompiler::new();
    for (code, expected) in cases {
        assert_eq!(assembler.compile(code), Ok(expected.clone()), "{}", code);
        assert!(expected.len() <= 16);
    }
}
