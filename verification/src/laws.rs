//! Laws relating the translator, the compiled blocks and the step
//! interpreter, stated and proved over the machine's mathematical model.
use vstd::prelude::*;

use crate::CpuState;
use crate::OPCODE_BRK;
use crate::OPCODE_JMP_ABSOLUTE;
use crate::OPCODE_LDA_IMMEDIATE;
use crate::dynarec::MicroOp;
use crate::dynarec::spec_apply_micro_op;
use crate::dynarec::spec_apply_ops;
use crate::dynarec::spec_translate;
use crate::spec_flags_updated;
use crate::spec_negative_flag;
use crate::spec_step;
use crate::spec_supported_opcode;
use crate::spec_zero_flag;

verus! {

/// Law: a flag update from `value` sets Zero exactly when `value` is 0,
/// sets Negative exactly when bit 7 of `value` is set, and touches no
/// other bit of the status byte.
pub proof fn lemma_flags_updated(status: u8, value: u8)
    ensures
        spec_zero_flag(spec_flags_updated(status, value)) == (value == 0),
        spec_negative_flag(spec_flags_updated(status, value)) == (value & 0x80 != 0),
        spec_flags_updated(status, value) & 0x7D == status & 0x7D,
{
    assert(spec_flags_updated(status, value) == ({
        let z = if value == 0 {
            status | 0x02u8
        } else {
            status & !0x02u8
        };
        if value & 0x80u8 != 0 {
            z | 0x80u8
        } else {
            z & !0x80u8
        }
    }));
    assert(({
        let z = if value == 0 {
            status | 0x02u8
        } else {
            status & !0x02u8
        };
        let w = if value & 0x80u8 != 0 {
            z | 0x80u8
        } else {
            z & !0x80u8
        };
        ((w & 0x02u8 != 0) == (value == 0)) && ((w & 0x80u8 != 0) == (value & 0x80u8 != 0)) && (w
            & 0x7Du8 == status & 0x7Du8)
    })) by (bit_vector);
}

/// Law: for every supported opcode, compiling a one-instruction block and
/// executing its micro-operations yields the same register, flag and
/// program-counter state as direct interpretation of that instruction. The
/// hypotheses pin down the one-instruction block: the byte after a load is
/// a Break or past the top of the address space, and a jump's two operand
/// bytes lie inside it.
pub proof fn lemma_one_instruction_block_matches_interpreter(s: CpuState)
    requires
        s.wf(),
        s.pc < 0xFFFF,
        spec_supported_opcode(s.mem[s.pc as int]),
        s.mem[s.pc as int] == OPCODE_LDA_IMMEDIATE ==> s.pc + 2 >= 0xFFFF || s.mem[s.pc + 2]
            == OPCODE_BRK,
        s.mem[s.pc as int] == OPCODE_JMP_ABSOLUTE ==> s.pc + 2 <= 0xFFFF,
    ensures
        spec_translate(s.mem, s.pc as int) is Some,
        spec_apply_ops(s, spec_translate(s.mem, s.pc as int)->Some_0) == spec_step(s),
{
    let op = s.mem[s.pc as int];
    if op == OPCODE_LDA_IMMEDIATE {
        let one = MicroOp::LoadAccumulatorImmediate { value: s.mem[s.pc + 1] };
        assert(spec_translate(s.mem, s.pc + 2) == Some(Seq::<MicroOp>::empty()));
        let ops = spec_translate(s.mem, s.pc as int)->Some_0;
        assert(ops =~= seq![one]);
        assert(seq![one].drop_last() =~= Seq::<MicroOp>::empty());
        assert(spec_apply_ops(s, Seq::<MicroOp>::empty()) == s);
        assert(spec_apply_ops(s, ops) == spec_apply_micro_op(s, one));
    } else if op == OPCODE_JMP_ABSOLUTE {
        let one = MicroOp::JumpAbsolute {
            target: crate::spec_addr16(s.mem[s.pc + 1], s.mem[s.pc + 2]),
        };
        let ops = spec_translate(s.mem, s.pc as int)->Some_0;
        assert(ops =~= seq![one]);
        assert(seq![one].drop_last() =~= Seq::<MicroOp>::empty());
        assert(spec_apply_ops(s, Seq::<MicroOp>::empty()) == s);
        assert(spec_apply_ops(s, ops) == spec_apply_micro_op(s, one));
    }
}

/// Law: an immediate load executed at PC=a reads V from a+1 and yields
/// A=V, PC=a+2, Zero set exactly when V is 0 and Negative set exactly when
/// bit 7 of V is set; index registers, stack pointer and memory are
/// untouched. The instruction must fit below the top of the address space,
/// where the program counter would otherwise wrap.
pub proof fn lemma_lda_immediate_step(s: CpuState)
    requires
        s.wf(),
        s.mem[s.pc as int] == OPCODE_LDA_IMMEDIATE,
        s.pc + 2 < 0x10000,
    ensures
        spec_step(s).a == s.mem[s.pc + 1],
        spec_step(s).pc == s.pc + 2,
        spec_zero_flag(spec_step(s).status) == (s.mem[s.pc + 1] == 0),
        spec_negative_flag(spec_step(s).status) == (s.mem[s.pc + 1] & 0x80 != 0),
        spec_step(s).x == s.x && spec_step(s).y == s.y && spec_step(s).sp == s.sp,
        spec_step(s).mem == s.mem,
{
    lemma_flags_updated(s.status, s.mem[s.pc + 1]);
}

/// Law: an absolute jump executed at PC=a with little-endian operand bytes
/// encoding T sets PC to exactly T — the self-jump T=a included — and
/// leaves registers, flags and memory untouched.
pub proof fn lemma_jmp_absolute_step(s: CpuState)
    requires
        s.wf(),
        s.mem[s.pc as int] == OPCODE_JMP_ABSOLUTE,
        s.pc + 2 < 0x10000,
    ensures
        spec_step(s).pc == s.mem[s.pc + 1] + s.mem[s.pc + 2] * 0x100,
        spec_step(s) == (CpuState { pc: spec_step(s).pc, ..s }),
{
}

/// Law: a block whose first byte is Break compiles to zero
/// micro-operations, and invoking a block of zero micro-operations leaves
/// the whole state — the program counter in particular — exactly as it
/// was at invocation.
pub proof fn lemma_break_block_is_empty(s: CpuState)
    requires
        s.wf(),
        s.mem[s.pc as int] == OPCODE_BRK,
    ensures
        spec_translate(s.mem, s.pc as int) == Some(Seq::<MicroOp>::empty()),
        forall|t: CpuState| spec_apply_ops(t, Seq::<MicroOp>::empty()) == t,
{
}

} // verus!
