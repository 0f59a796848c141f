//! An 8-bit CPU core with a dynamic recompiler: straight-line runs of machine
//! code are decoded once into cached blocks of micro-operations, and a
//! one-instruction step interpreter stands in for opcodes the translator
//! cannot compile.
use vstd::prelude::*;

pub mod dynarec;
pub mod laws;

use crate::dynarec::Dynarec;

verus! {

/// Number of addressable bytes: the program counter is 16 bits wide.
pub const MEM_SIZE: usize = 0x10000;

/// Load-Accumulator-Immediate: one literal operand byte.
pub const OPCODE_LDA_IMMEDIATE: u8 = 0xA9;
/// Jump-Absolute: two operand bytes, a little-endian target address.
pub const OPCODE_JMP_ABSOLUTE: u8 = 0x4C;
/// Break: terminates decoding of a block; no micro-operation is emitted.
pub const OPCODE_BRK: u8 = 0x00;

/// Zero flag: bit 1 of the status byte.
pub const FLAG_ZERO: u8 = 0x02;
/// Negative flag: bit 7 of the status byte.
pub const FLAG_NEGATIVE: u8 = 0x80;

/// Mathematical model of the whole machine: register file, flag byte and the
/// flat 65536-byte memory.
pub struct CpuState {
    pub a: u8,
    pub x: u8,
    pub y: u8,
    pub sp: u8,
    pub pc: u16,
    pub status: u8,
    pub mem: Seq<u8>,
}

impl CpuState {
    /// The memory covers exactly the 16-bit address space.
    pub open spec fn wf(self) -> bool {
        self.mem.len() == MEM_SIZE
    }
}

/// Reduces an address computation into the 16-bit address space.
pub open spec fn spec_wrap16(x: int) -> u16
    recommends
        0 <= x < 0x20000,
{
    if x < 0x10000 {
        x as u16
    } else {
        (x - 0x10000) as u16
    }
}

/// The 16-bit address stored little-endian as the bytes `lo`, `hi`.
pub open spec fn spec_addr16(lo: u8, hi: u8) -> u16 {
    (lo + hi * 0x100) as u16
}

/// The status byte after a flag update from `value`: Zero reflects
/// `value == 0`, Negative reflects bit 7 of `value`, all other bits keep
/// their previous contents.
pub open spec fn spec_flags_updated(status: u8, value: u8) -> u8 {
    let with_zero = if value == 0 {
        status | FLAG_ZERO
    } else {
        status & !FLAG_ZERO
    };
    if value & FLAG_NEGATIVE != 0 {
        with_zero | FLAG_NEGATIVE
    } else {
        with_zero & !FLAG_NEGATIVE
    }
}

/// Whether the Zero flag is set in a status byte.
pub open spec fn spec_zero_flag(status: u8) -> bool {
    status & FLAG_ZERO != 0
}

/// Whether the Negative flag is set in a status byte.
pub open spec fn spec_negative_flag(status: u8) -> bool {
    status & FLAG_NEGATIVE != 0
}

/// The opcodes the translator knows; the step interpreter supports exactly
/// the same set.
pub open spec fn spec_supported_opcode(op: u8) -> bool {
    op == OPCODE_LDA_IMMEDIATE || op == OPCODE_JMP_ABSOLUTE || op == OPCODE_BRK
}

/// One step of the direct interpreter on a supported opcode. Operand reads
/// and the program-counter advance wrap around the 16-bit address space.
/// Break makes no progress at all, matching the empty block it compiles to;
/// an unsupported opcode also leaves the state unchanged, but callers report
/// it instead of stepping over it.
pub open spec fn spec_step(s: CpuState) -> CpuState
    recommends
        s.wf(),
{
    let op = s.mem[s.pc as int];
    if op == OPCODE_LDA_IMMEDIATE {
        let v = s.mem[spec_wrap16(s.pc + 1) as int];
        CpuState {
            a: v,
            status: spec_flags_updated(s.status, v),
            pc: spec_wrap16(s.pc + 2),
            ..s
        }
    } else if op == OPCODE_JMP_ABSOLUTE {
        let lo = s.mem[spec_wrap16(s.pc + 1) as int];
        let hi = s.mem[spec_wrap16(s.pc + 2) as int];
        CpuState { pc: spec_addr16(lo, hi), ..s }
    } else {
        s
    }
}

/// One turn of the execution loop: the block resolved for the current
/// program counter is invoked against the state. A compiled block applies
/// its micro-operations; a fallback block takes one interpreter step.
/// `None` means the fallback met an opcode outside the supported set, on
/// which the loop halts.
pub open spec fn spec_cycle(s: CpuState) -> Option<CpuState>
    recommends
        s.wf(),
{
    match crate::dynarec::spec_translate(s.mem, s.pc as int) {
        Some(ops) => Some(crate::dynarec::spec_apply_ops(s, ops)),
        None => if spec_supported_opcode(s.mem[s.pc as int]) {
            Some(spec_step(s))
        } else {
            None
        },
    }
}

/// The state after driving the execution loop for at most `fuel` turns,
/// paired with the unsupported opcode that halted it, if one did; the
/// state is then the one at the halt, left untouched as a diagnostic.
pub open spec fn spec_run(s: CpuState, fuel: nat) -> (CpuState, Option<u8>)
    recommends
        s.wf(),
    decreases fuel,
{
    if fuel == 0 {
        (s, None)
    } else {
        match spec_cycle(s) {
            Some(next) => spec_run(next, (fuel - 1) as nat),
            None => (s, Some(s.mem[s.pc as int])),
        }
    }
}

/// The CPU: register file, flag byte and exclusively owned memory. A host
/// populates `memory` with a code image before driving execution.
pub struct CPU {
    pub a: u8,
    pub x: u8,
    pub y: u8,
    pub sp: u8,
    pub pc: u16,
    pub status: u8,
    pub memory: Vec<u8>,
}

impl View for CPU {
    type V = CpuState;

    open spec fn view(&self) -> CpuState {
        CpuState {
            a: self.a,
            x: self.x,
            y: self.y,
            sp: self.sp,
            pc: self.pc,
            status: self.status,
            mem: self.memory@,
        }
    }
}

impl CPU {
    /// The memory vector covers the whole address space.
    pub open spec fn wf(&self) -> bool {
        self@.wf()
    }

    /// Power-on state: registers cleared, stack pointer 0xFD, program counter
    /// 0x8000, status byte 0x24, memory zero-filled.
    pub fn new() -> (cpu: CPU)
        ensures
            cpu.wf(),
            cpu@.a == 0 && cpu@.x == 0 && cpu@.y == 0,
            cpu@.sp == 0xFD,
            cpu@.pc == 0x8000,
            cpu@.status == 0x24,
            forall|i: int| 0 <= i < MEM_SIZE ==> cpu@.mem[i] == 0,
    {
        let mut memory: Vec<u8> = Vec::new();
        let mut i: usize = 0;
        while i < MEM_SIZE
            invariant
                i <= MEM_SIZE,
                memory@.len() == i,
                forall|j: int| 0 <= j < i ==> memory@[j] == 0,
            decreases MEM_SIZE - i,
        {
            memory.push(0);
            i += 1;
        }
        CPU { a: 0, x: 0, y: 0, sp: 0xFD, pc: 0x8000, status: 0x24, memory }
    }

    /// Sets Zero iff `value` is 0 and Negative iff bit 7 of `value` is set,
    /// clearing them otherwise; no other bit of the status byte changes.
    pub(crate) fn update_zero_and_negative_flags(&mut self, value: u8)
        ensures
            final(self)@ == (CpuState {
                status: spec_flags_updated(old(self)@.status, value),
                ..old(self)@
            }),
    {
        if value == 0 {
            self.status = self.status | FLAG_ZERO;
        } else {
            self.status = self.status & !FLAG_ZERO;
        }

        if value & FLAG_NEGATIVE != 0 {
            self.status = self.status | FLAG_NEGATIVE;
        } else {
            self.status = self.status & !FLAG_NEGATIVE;
        }
    }

    /// Step interpreter: executes exactly one instruction read from memory at
    /// the current program counter. On a supported opcode it performs one
    /// interpreter step and returns `None`; on any other opcode it leaves the
    /// state untouched and hands the offending opcode back as a diagnostic.
    pub(crate) fn execute_instruction(&mut self) -> (r: Option<u8>)
        requires
            old(self).wf(),
        ensures
            final(self).wf(),
            spec_supported_opcode(old(self)@.mem[old(self)@.pc as int]) ==> r is None
                && final(self)@ == spec_step(old(self)@),
            !spec_supported_opcode(old(self)@.mem[old(self)@.pc as int]) ==> r == Some(
                old(self)@.mem[old(self)@.pc as int],
            ) && final(self)@ == old(self)@,
    {
        let opcode = self.memory[self.pc as usize];
        if opcode == OPCODE_LDA_IMMEDIATE {
            let value = self.memory[self.pc.wrapping_add(1) as usize];
            self.a = value;
            self.update_zero_and_negative_flags(value);
            self.pc = self.pc.wrapping_add(2);
            None
        } else if opcode == OPCODE_JMP_ABSOLUTE {
            let lo = self.memory[self.pc.wrapping_add(1) as usize];
            let hi = self.memory[self.pc.wrapping_add(2) as usize];
            let target: u16 = ((hi as u16) << 8u16) | (lo as u16);
            proof {
                assert(((hi as u16) << 8u16) | (lo as u16) == (lo + hi * 0x100) as u16)
                    by (bit_vector);
            }
            self.pc = target;
            None
        } else if opcode == OPCODE_BRK {
            None
        } else {
            Some(opcode)
        }
    }

    /// Drives the execution loop: resolve the block for the current program
    /// counter through the cache, invoke it, adopt the returned program
    /// counter, repeat. The loop has no termination condition of its own —
    /// a Break only stops compilation, not the run — so the host hands in
    /// a cycle budget; `None` reports the budget spent. The one internal
    /// stop is the explicit halt policy for an opcode the step interpreter
    /// does not support: the loop returns it as a diagnostic, leaving the
    /// CPU at the faulting instruction. The cache is assumed and kept
    /// consistent with the static code image, and only grows.
    pub fn run(&mut self, dynarec: &mut Dynarec, cycles: u64) -> (r: Option<u8>)
        requires
            old(self).wf(),
            crate::dynarec::spec_cache_consistent(old(dynarec)@, old(self)@.mem),
        ensures
            final(self).wf(),
            final(self)@ == spec_run(old(self)@, cycles as nat).0,
            r == spec_run(old(self)@, cycles as nat).1,
            final(self)@.mem == old(self)@.mem,
            crate::dynarec::spec_cache_consistent(final(dynarec)@, final(self)@.mem),
            old(dynarec)@.submap_of(final(dynarec)@),
    {
        let ghost s0 = self@;
        let ghost d0 = dynarec@;
        let mut n: u64 = cycles;
        loop
            invariant_except_break
                s0 == old(self)@,
                d0 == old(dynarec)@,
                self.wf(),
                n <= cycles,
                self@.mem == s0.mem,
                crate::dynarec::spec_cache_consistent(dynarec@, self@.mem),
                d0.submap_of(dynarec@),
                spec_run(s0, cycles as nat) == spec_run(self@, n as nat),
            ensures
                self.wf(),
                self@.mem == s0.mem,
                crate::dynarec::spec_cache_consistent(dynarec@, self@.mem),
                d0.submap_of(dynarec@),
                spec_run(s0, cycles as nat) == (self@, Option::<u8>::None),
            decreases n,
        {
            if n == 0 {
                break;
            }
            let ghost prev = self@;
            let pc = self.pc;
            let block = dynarec.translate_block(self, pc);
            proof {
                if let crate::dynarec::BlockSpec::Ops(ops) = block@ {
                    crate::dynarec::lemma_apply_ops_preserves_memory(prev, ops);
                }
            }
            match block.execute(self) {
                Ok(next_pc) => {
                    self.pc = next_pc;
                    n = n - 1;
                },
                Err(opcode) => {
                    return Some(opcode);
                },
            }
        }
        None
    }
}

} // verus!
