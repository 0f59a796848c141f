//! The dynamic recompiler: decodes straight-line instruction runs into
//! blocks of micro-operations, memoizes them by entry address, and falls
//! back to the step interpreter on opcodes it cannot compile.
use vstd::prelude::*;

use crate::CPU;
use crate::CpuState;
use crate::MEM_SIZE;
use crate::OPCODE_BRK;
use crate::OPCODE_JMP_ABSOLUTE;
use crate::OPCODE_LDA_IMMEDIATE;
use crate::spec_addr16;
use crate::spec_flags_updated;
use crate::spec_wrap16;
use std::collections::HashMap;

verus! {

broadcast use vstd::std_specs::hash::group_hash_axioms;

/// A decoded instruction's effect on CPU state, with its operands captured
/// at decode time and never re-read from memory.
#[derive(Clone, Copy, PartialEq, Eq, Debug, Structural)]
pub enum MicroOp {
    /// A := value; update flags from A; advance the program counter by 2.
    LoadAccumulatorImmediate { value: u8 },
    /// PC := target, unconditionally.
    JumpAbsolute { target: u16 },
}

/// Mathematical model of a compiled block: either the decoded
/// micro-operations, in decode order, or the fallback routing decision.
pub enum BlockSpec {
    Ops(Seq<MicroOp>),
    Fallback,
}

/// A block the translator produced: an immutable micro-operation sequence,
/// or a fallback that delegates one instruction to the step interpreter.
#[derive(PartialEq, Eq, Debug)]
pub enum CompiledBlock {
    Ops(Vec<MicroOp>),
    Fallback,
}

impl View for CompiledBlock {
    type V = BlockSpec;

    open spec fn view(&self) -> BlockSpec {
        match self {
            CompiledBlock::Ops(ops) => BlockSpec::Ops(ops@),
            CompiledBlock::Fallback => BlockSpec::Fallback,
        }
    }
}

/// The state after applying one micro-operation. The program-counter
/// advance wraps around the 16-bit address space.
pub open spec fn spec_apply_micro_op(s: CpuState, op: MicroOp) -> CpuState {
    match op {
        MicroOp::LoadAccumulatorImmediate { value } => CpuState {
            a: value,
            status: spec_flags_updated(s.status, value),
            pc: spec_wrap16(s.pc + 2),
            ..s
        },
        MicroOp::JumpAbsolute { target } => CpuState { pc: target, ..s },
    }
}

/// The state after applying a sequence of micro-operations in order.
pub open spec fn spec_apply_ops(s: CpuState, ops: Seq<MicroOp>) -> CpuState
    decreases ops.len(),
{
    if ops.len() == 0 {
        s
    } else {
        spec_apply_micro_op(spec_apply_ops(s, ops.drop_last()), ops.last())
    }
}

/// Micro-operations touch registers and flags only, never memory.
pub proof fn lemma_apply_ops_preserves_memory(s: CpuState, ops: Seq<MicroOp>)
    ensures
        spec_apply_ops(s, ops).mem == s.mem,
        spec_apply_ops(s, ops).x == s.x,
        spec_apply_ops(s, ops).y == s.y,
        spec_apply_ops(s, ops).sp == s.sp,
    decreases ops.len(),
{
    if ops.len() > 0 {
        lemma_apply_ops_preserves_memory(s, ops.drop_last());
    }
}

impl MicroOp {
    /// Applies this micro-operation's fixed effect to the CPU.
    fn apply(self, cpu: &mut CPU)
        requires
            old(cpu).wf(),
        ensures
            final(cpu).wf(),
            final(cpu)@ == spec_apply_micro_op(old(cpu)@, self),
    {
        match self {
            MicroOp::LoadAccumulatorImmediate { value } => {
                cpu.a = value;
                cpu.update_zero_and_negative_flags(value);
                cpu.pc = cpu.pc.wrapping_add(2);
            },
            MicroOp::JumpAbsolute { target } => {
                cpu.pc = target;
            },
        }
    }
}

impl CompiledBlock {
    /// Invokes the block against CPU state and reports the resulting
    /// program counter as the resume address. A compiled block applies its
    /// captured micro-operations in decode order; a fallback block executes
    /// exactly one instruction, read from memory at the CPU's current
    /// program counter, through the step interpreter. `Err` carries the
    /// opcode when that one instruction is outside the supported set; the
    /// CPU is then left untouched.
    pub fn execute(&self, cpu: &mut CPU) -> (r: Result<u16, u8>)
        requires
            old(cpu).wf(),
        ensures
            final(cpu).wf(),
            self@ matches BlockSpec::Ops(ops) ==> final(cpu)@ == spec_apply_ops(old(cpu)@, ops)
                && r == Ok::<u16, u8>(final(cpu)@.pc),
            self@ is Fallback && crate::spec_supported_opcode(
                old(cpu)@.mem[old(cpu)@.pc as int],
            ) ==> final(cpu)@ == crate::spec_step(old(cpu)@) && r == Ok::<u16, u8>(final(cpu)@.pc),
            self@ is Fallback && !crate::spec_supported_opcode(
                old(cpu)@.mem[old(cpu)@.pc as int],
            ) ==> final(cpu)@ == old(cpu)@ && r == Err::<u16, u8>(
                old(cpu)@.mem[old(cpu)@.pc as int],
            ),
    {
        match self {
            CompiledBlock::Ops(ops) => {
                let ghost entry = cpu@;
                let mut i: usize = 0;
                while i < ops.len()
                    invariant
                        cpu.wf(),
                        i <= ops@.len(),
                        cpu@ == spec_apply_ops(entry, ops@.take(i as int)),
                    decreases ops@.len() - i,
                {
                    let op = ops[i];
                    op.apply(cpu);
                    proof {
                        assert(ops@.take(i as int + 1).drop_last() =~= ops@.take(i as int));
                        assert(ops@.take(i as int + 1).last() == ops@[i as int]);
                    }
                    i = i + 1;
                }
                proof {
                    assert(ops@.take(ops@.len() as int) =~= ops@);
                }
                Ok(cpu.pc)
            },
            CompiledBlock::Fallback => {
                match cpu.execute_instruction() {
                    None => Ok(cpu.pc),
                    Some(opcode) => Err(opcode),
                }
            },
        }
    }
}

/// What the translator decodes forward from `pc`: the micro-operations of
/// the block, or `None` for the fallback routing decision on the first
/// opcode outside the known set. Decoding stops without emitting anything
/// on a Break, once the cursor reaches the top of the address space, or
/// when a jump's operand bytes would lie beyond it; it stops right after
/// emitting a jump, the block's one control transfer.
pub open spec fn spec_translate(mem: Seq<u8>, pc: int) -> Option<Seq<MicroOp>>
    recommends
        mem.len() == MEM_SIZE,
        0 <= pc <= 0x10000,
    decreases 0x10000 - pc,
    when 0 <= pc <= 0x10000
{
    if pc >= 0xFFFF {
        Some(Seq::empty())
    } else {
        let op = mem[pc];
        if op == OPCODE_BRK {
            Some(Seq::empty())
        } else if op == OPCODE_LDA_IMMEDIATE {
            match spec_translate(mem, pc + 2) {
                Some(rest) => Some(
                    seq![MicroOp::LoadAccumulatorImmediate { value: mem[pc + 1] }] + rest,
                ),
                None => None,
            }
        } else if op == OPCODE_JMP_ABSOLUTE {
            if pc + 2 <= 0xFFFF {
                Some(seq![MicroOp::JumpAbsolute { target: spec_addr16(mem[pc + 1], mem[pc + 2]) }])
            } else {
                Some(Seq::empty())
            }
        } else {
            None
        }
    }
}

/// The block the translator installs for an entry address.
pub open spec fn spec_compile(mem: Seq<u8>, pc: int) -> BlockSpec {
    match spec_translate(mem, pc) {
        Some(ops) => BlockSpec::Ops(ops),
        None => BlockSpec::Fallback,
    }
}

/// Every cached block is the one the translator produces for its entry
/// address on the current code image.
pub open spec fn spec_cache_consistent(cache: Map<u16, BlockSpec>, mem: Seq<u8>) -> bool {
    forall|addr: u16| #[trigger]
        cache.contains_key(addr) ==> cache[addr] == spec_compile(mem, addr as int)
}

/// The block cache: one compiled block per entry address, never evicted or
/// replaced for the run's lifetime.
pub struct Dynarec {
    compiled_blocks: HashMap<u16, CompiledBlock>,
}

impl View for Dynarec {
    type V = Map<u16, BlockSpec>;

    closed spec fn view(&self) -> Map<u16, BlockSpec> {
        self.compiled_blocks@.map_values(|b: CompiledBlock| b@)
    }
}

/// While decoding forward, the block decoded from the entry address is the
/// micro-operations emitted so far followed by whatever the cursor still
/// yields, and a fallback decision ahead is a fallback decision for the
/// whole block.
spec fn spec_decode_pending(mem: Seq<u8>, start: int, cur: int, ops: Seq<MicroOp>) -> bool {
    match spec_translate(mem, cur) {
        Some(rest) => spec_translate(mem, start) == Some(ops + rest),
        None => spec_translate(mem, start) is None,
    }
}

impl Dynarec {
    /// An empty cache.
    pub fn new() -> (r: Dynarec)
        ensures
            r@ == Map::<u16, BlockSpec>::empty(),
    {
        let d = Dynarec { compiled_blocks: HashMap::new() };
        proof {
            assert(d@ =~= Map::<u16, BlockSpec>::empty());
        }
        d
    }

    /// Scans forward from the entry address, emitting one micro-operation
    /// per opcode, and degrades to a fallback block on the first opcode
    /// outside the known set.
    fn compile(cpu: &CPU, start_pc: u16) -> (r: CompiledBlock)
        requires
            cpu.wf(),
        ensures
            r@ == spec_compile(cpu@.mem, start_pc as int),
    {
        let mut ops: Vec<MicroOp> = Vec::new();
        let mut pc: usize = start_pc as usize;
        loop
            invariant_except_break
                cpu.wf(),
                pc <= 0x10000,
                spec_decode_pending(cpu@.mem, start_pc as int, pc as int, ops@),
            ensures
                spec_translate(cpu@.mem, start_pc as int) == Some(ops@),
            decreases 0x10000 - pc,
        {
            if pc >= 0xFFFF {
                proof {
                    assert(ops@ + Seq::<MicroOp>::empty() =~= ops@);
                }
                break;
            }
            let opcode = cpu.memory[pc];
            if opcode == OPCODE_BRK {
                proof {
                    assert(ops@ + Seq::<MicroOp>::empty() =~= ops@);
                }
                break;
            } else if opcode == OPCODE_LDA_IMMEDIATE {
                let ghost prev_ops = ops@;
                let value = cpu.memory[pc + 1];
                ops.push(MicroOp::LoadAccumulatorImmediate { value });
                proof {
                    let one = seq![MicroOp::LoadAccumulatorImmediate { value }];
                    assert(ops@ =~= prev_ops + one);
                    if let Some(rest) = spec_translate(cpu@.mem, pc as int + 2) {
                        assert(prev_ops + (one + rest) =~= ops@ + rest);
                    }
                }
                pc = pc + 2;
            } else if opcode == OPCODE_JMP_ABSOLUTE {
                if pc + 2 <= 0xFFFF {
                    let ghost prev_ops = ops@;
                    let lo = cpu.memory[pc + 1];
                    let hi = cpu.memory[pc + 2];
                    let target: u16 = ((hi as u16) << 8u16) | (lo as u16);
                    proof {
                        assert(((hi as u16) << 8u16) | (lo as u16) == (lo + hi * 0x100) as u16)
                            by (bit_vector);
                    }
                    ops.push(MicroOp::JumpAbsolute { target });
                    proof {
                        assert(ops@ =~= prev_ops + seq![MicroOp::JumpAbsolute { target }]);
                    }
                    break;
                } else {
                    proof {
                        assert(ops@ + Seq::<MicroOp>::empty() =~= ops@);
                    }
                    break;
                }
            } else {
                return CompiledBlock::Fallback;
            }
        }
        CompiledBlock::Ops(ops)
    }

    /// Resolves the block for an entry address: returns the cached block if
    /// one exists, otherwise compiles, inserts and returns it — exactly once
    /// per distinct address. A block, once cached, is never replaced or
    /// recompiled, so resolving the same address twice yields the same
    /// block and leaves the cache unchanged.
    pub fn translate_block(&mut self, cpu: &CPU, start_pc: u16) -> (r: CompiledBlock)
        requires
            cpu.wf(),
        ensures
            final(self)@.contains_key(start_pc),
            r@ == final(self)@[start_pc],
            old(self)@.contains_key(start_pc) ==> final(self)@ == old(self)@,
            !old(self)@.contains_key(start_pc) ==> final(self)@ == old(self)@.insert(
                start_pc,
                spec_compile(cpu@.mem, start_pc as int),
            ),
            old(self)@.submap_of(final(self)@),
    {
        if !self.compiled_blocks.contains_key(&start_pc) {
            let block = Self::compile(cpu, start_pc);
            self.compiled_blocks.insert(start_pc, block);
            proof {
                assert(self@ =~= old(self)@.insert(
                    start_pc,
                    spec_compile(cpu@.mem, start_pc as int),
                ));
            }
        }
        match self.compiled_blocks.get(&start_pc) {
            Some(block) => match block {
                CompiledBlock::Ops(ops) => CompiledBlock::Ops(ops.clone()),
                CompiledBlock::Fallback => CompiledBlock::Fallback,
            },
            // never reached: the block for this address was just looked up
            // or inserted above
            None => CompiledBlock::Fallback,
        }
    }
}

} // verus!
