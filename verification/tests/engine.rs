use dynarec::CPU;
use dynarec::dynarec::CompiledBlock;
use dynarec::dynarec::Dynarec;

#[test]
fn power_on_state() {
    let cpu = CPU::new();
    assert_eq!(cpu.a, 0);
    assert_eq!(cpu.x, 0);
    assert_eq!(cpu.y, 0);
    assert_eq!(cpu.sp, 0xFD);
    assert_eq!(cpu.pc, 0x8000);
    assert_eq!(cpu.status, 0x24);
    assert_eq!(cpu.memory.len(), 0x10000);
    assert!(cpu.memory.iter().all(|&b| b == 0));
}

#[test]
fn run_one_cycle_lda() {
    let mut cpu = CPU::new();
    let mut dynarec = Dynarec::new();
    cpu.memory[0x8000] = 0xA9;
    cpu.memory[0x8001] = 0x42;
    let halted = cpu.run(&mut dynarec, 1);
    assert_eq!(halted, None);
    assert_eq!(cpu.a, 0x42);
    assert_eq!(cpu.pc, 0x8002);
    assert_eq!(cpu.status & 0x02, 0);
    assert_eq!(cpu.status & 0x80, 0);
}

#[test]
fn run_one_cycle_lda_zero() {
    let mut cpu = CPU::new();
    let mut dynarec = Dynarec::new();
    cpu.memory[0x8000] = 0xA9;
    cpu.memory[0x8001] = 0x00;
    let halted = cpu.run(&mut dynarec, 1);
    assert_eq!(halted, None);
    assert_eq!(cpu.a, 0x00);
    assert_eq!(cpu.status & 0x02, 0x02);
}

#[test]
fn run_one_cycle_lda_negative() {
    let mut cpu = CPU::new();
    let mut dynarec = Dynarec::new();
    cpu.memory[0x8000] = 0xA9;
    cpu.memory[0x8001] = 0x80;
    let halted = cpu.run(&mut dynarec, 1);
    assert_eq!(halted, None);
    assert_eq!(cpu.a, 0x80);
    assert_eq!(cpu.status & 0x80, 0x80);
}

#[test]
fn run_one_cycle_jmp() {
    let mut cpu = CPU::new();
    let mut dynarec = Dynarec::new();
    cpu.memory[0x8000] = 0x4C;
    cpu.memory[0x8001] = 0x00;
    cpu.memory[0x8002] = 0x90;
    let halted = cpu.run(&mut dynarec, 1);
    assert_eq!(halted, None);
    assert_eq!(cpu.pc, 0x9000);
}

#[test]
fn run_halts_on_unsupported_opcode() {
    let mut cpu = CPU::new();
    let mut dynarec = Dynarec::new();
    cpu.memory[0x8000] = 0xFF;
    let halted = cpu.run(&mut dynarec, 5);
    assert_eq!(halted, Some(0xFF));
    // the CPU is left at the faulting instruction, untouched
    assert_eq!(cpu.pc, 0x8000);
    assert_eq!(cpu.a, 0);
    assert_eq!(cpu.status, 0x24);
}

#[test]
fn fallback_steps_supported_prefix() {
    let mut cpu = CPU::new();
    let mut dynarec = Dynarec::new();
    // a block the translator gives up on: a load followed by an opcode
    // outside the known set
    cpu.memory[0x8000] = 0xA9;
    cpu.memory[0x8001] = 0x05;
    cpu.memory[0x8002] = 0xEA;
    let halted = cpu.run(&mut dynarec, 1);
    // the fallback still executes the load, one instruction per cycle
    assert_eq!(halted, None);
    assert_eq!(cpu.a, 0x05);
    assert_eq!(cpu.pc, 0x8002);
    // the next cycle meets the unsupported opcode itself
    let halted = cpu.run(&mut dynarec, 1);
    assert_eq!(halted, Some(0xEA));
    assert_eq!(cpu.pc, 0x8002);
}

#[test]
fn brk_block_is_empty_and_keeps_pc() {
    let mut cpu = CPU::new();
    let mut dynarec = Dynarec::new();
    cpu.memory[0x8000] = 0x00;
    let block = dynarec.translate_block(&cpu, 0x8000);
    match &block {
        CompiledBlock::Ops(ops) => assert_eq!(ops.len(), 0),
        CompiledBlock::Fallback => panic!("a break must compile, not fall back"),
    }
    // invoking the block returns the program counter unchanged from
    // whatever value the CPU held at invocation
    cpu.pc = 0x1234;
    let resumed = block.execute(&mut cpu).unwrap();
    assert_eq!(resumed, 0x1234);
    assert_eq!(cpu.pc, 0x1234);
    assert_eq!(cpu.status, 0x24);
}

#[test]
fn brk_preceded_by_ops_keeps_them() {
    let mut cpu = CPU::new();
    let mut dynarec = Dynarec::new();
    cpu.memory[0x8000] = 0xA9;
    cpu.memory[0x8001] = 0x07;
    cpu.memory[0x8002] = 0x00; // break: stops decoding, prior ops stay valid
    let block = dynarec.translate_block(&cpu, 0x8000);
    match &block {
        CompiledBlock::Ops(ops) => assert_eq!(ops.len(), 1),
        CompiledBlock::Fallback => panic!("a break must compile, not fall back"),
    }
    let resumed = block.execute(&mut cpu).unwrap();
    assert_eq!(cpu.a, 0x07);
    assert_eq!(resumed, 0x8002);
}

#[test]
fn cache_returns_the_first_block_forever() {
    let mut cpu = CPU::new();
    let mut dynarec = Dynarec::new();
    cpu.memory[0x8000] = 0xA9;
    cpu.memory[0x8001] = 0x42;
    let first = dynarec.translate_block(&cpu, 0x8000);
    // rewrite the code image behind the cache's back
    cpu.memory[0x8000] = 0x4C;
    cpu.memory[0x8001] = 0x00;
    cpu.memory[0x8002] = 0x90;
    let second = dynarec.translate_block(&cpu, 0x8000);
    // the cached block is returned, not a recompilation
    assert_eq!(first, second);
    cpu.pc = 0x8000;
    cpu.pc = second.execute(&mut cpu).unwrap();
    assert_eq!(cpu.a, 0x42, "the stale load must run, not the new jump");
    assert_eq!(cpu.pc, 0x8002);
}

#[test]
fn decoding_continues_across_straight_line_code() {
    let mut cpu = CPU::new();
    let mut dynarec = Dynarec::new();
    // two loads then a jump: one block, executed in decode order
    cpu.memory[0x8000] = 0xA9;
    cpu.memory[0x8001] = 0x11;
    cpu.memory[0x8002] = 0xA9;
    cpu.memory[0x8003] = 0x22;
    cpu.memory[0x8004] = 0x4C;
    cpu.memory[0x8005] = 0x00;
    cpu.memory[0x8006] = 0x70;
    let block = dynarec.translate_block(&cpu, 0x8000);
    match &block {
        CompiledBlock::Ops(ops) => assert_eq!(ops.len(), 3),
        CompiledBlock::Fallback => panic!("straight-line code must compile"),
    }
    let halted = cpu.run(&mut dynarec, 1);
    assert_eq!(halted, None);
    assert_eq!(cpu.a, 0x22);
    assert_eq!(cpu.pc, 0x7000);
}

#[test]
fn lda_at_top_of_memory_wraps_pc() {
    let mut cpu = CPU::new();
    let mut dynarec = Dynarec::new();
    cpu.memory[0xFFFE] = 0xA9;
    cpu.memory[0xFFFF] = 0x42;
    let block = dynarec.translate_block(&cpu, 0xFFFE);
    cpu.pc = 0xFFFE;
    cpu.pc = block.execute(&mut cpu).unwrap();
    assert_eq!(cpu.a, 0x42);
    assert_eq!(cpu.pc, 0x0000, "the program counter wraps around the address space");
}

#[test]
fn jmp_with_truncated_operand_stops_decoding() {
    let mut cpu = CPU::new();
    let mut dynarec = Dynarec::new();
    // the second operand byte would lie beyond the address space
    cpu.memory[0xFFFE] = 0x4C;
    cpu.memory[0xFFFF] = 0x00;
    let block = dynarec.translate_block(&cpu, 0xFFFE);
    match &block {
        CompiledBlock::Ops(ops) => assert_eq!(ops.len(), 0),
        CompiledBlock::Fallback => panic!("a truncated jump is not a fallback"),
    }
}

#[test]
fn resolving_twice_is_behaviorally_equivalent() {
    let mut cpu = CPU::new();
    let mut dynarec = Dynarec::new();
    cpu.memory[0x8000] = 0xA9;
    cpu.memory[0x8001] = 0x99;
    let first = dynarec.translate_block(&cpu, 0x8000);
    let second = dynarec.translate_block(&cpu, 0x8000);
    assert_eq!(first, second);
    let mut cpu_a = CPU::new();
    cpu_a.memory[0x8000] = 0xA9;
    cpu_a.memory[0x8001] = 0x99;
    let mut cpu_b = CPU::new();
    cpu_b.memory[0x8000] = 0xA9;
    cpu_b.memory[0x8001] = 0x99;
    let ra = first.execute(&mut cpu_a).unwrap();
    let rb = second.execute(&mut cpu_b).unwrap();
    assert_eq!(ra, rb);
    assert_eq!(cpu_a.a, cpu_b.a);
    assert_eq!(cpu_a.pc, cpu_b.pc);
    assert_eq!(cpu_a.status, cpu_b.status);
}
