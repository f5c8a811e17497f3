use riscv_asm::assembler::assemble;
use riscv_asm::cpu::Cpu;

fn run(source: &str) -> Cpu {
    let code = assemble(source).unwrap();
    let mut cpu = Cpu::new_with_instructions(code);
    while (cpu.pc as usize) + 4 <= cpu.dram.len() {
        cpu.step();
    }
    cpu
}

#[test]
fn new_cpu_is_cleared() {
    let cpu = Cpu::new_with_instructions(vec![1, 2, 3, 4]);
    assert_eq!(cpu.pc, 0);
    assert_eq!(cpu.regs, [0u32; 32]);
    assert_eq!(cpu.dram, vec![1, 2, 3, 4]);
}

#[test]
fn fetch_reads_little_endian() {
    let cpu = Cpu::new_with_instructions(vec![0x78, 0x56, 0x34, 0x12]);
    assert_eq!(cpu.fetch(), 0x12345678);
}

#[test]
fn step_advances_by_four() {
    let mut cpu = Cpu::new_with_instructions(vec![0x93, 0x00, 0x50, 0x00, 0x13, 0, 0, 0]);
    cpu.step();
    assert_eq!(cpu.pc, 4);
    assert_eq!(cpu.regs[1], 5);
    cpu.step();
    assert_eq!(cpu.pc, 8);
    assert_eq!(cpu.regs[1], 5);
}

#[test]
fn assembled_code_runs() {
    let cpu = run("li x1, 5\nli x2, 7\nadd x3, x1, x2\nsub x4, x1, x2\ninc x3\ndec x1\nneg x2\nmv x6, x3\n");
    assert_eq!(cpu.regs[3], 13);
    assert_eq!(cpu.regs[4], 5u32.wrapping_sub(7));
    assert_eq!(cpu.regs[1], 4);
    assert_eq!(cpu.regs[2], 7u32.wrapping_neg());
    assert_eq!(cpu.regs[6], 13);
    assert_eq!(cpu.pc, 32);
}

#[test]
fn li_loads_any_word() {
    for (text, value) in [
        ("0x12345678", 0x12345678u32),
        ("0xFFF", 0xFFF),
        ("2048", 2048),
        ("-2049", 2049u32.wrapping_neg()),
        ("0xFFFFFFFF", 0xFFFFFFFF),
        ("-1", 0xFFFFFFFF),
        ("0x80000000", 0x80000000),
        ("0x7FFFF800", 0x7FFFF800),
    ] {
        let cpu = run(&format!("li x9, {}\n", text));
        assert_eq!(cpu.regs[9], value);
    }
}

#[test]
fn execute_handles_logic_and_unknown_words() {
    let mut cpu = Cpu::new_with_instructions(Vec::new());
    cpu.regs[1] = 0b1100;
    cpu.regs[2] = 0b1010;
    cpu.execute(0x0020C1B3);
    assert_eq!(cpu.regs[3], 0b0110);
    cpu.execute(0x0020E1B3);
    assert_eq!(cpu.regs[3], 0b1110);
    cpu.execute(0x0020F1B3);
    assert_eq!(cpu.regs[3], 0b1000);
    let before = cpu.regs;
    cpu.execute(0xFFFFFFFF);
    assert_eq!(cpu.regs, before);
    cpu.execute(0x123452B7);
    assert_eq!(cpu.regs[5], 0x12345000);
}
