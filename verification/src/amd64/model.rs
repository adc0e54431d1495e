//! What one instruction means: a function from the processor and the
//! memory before it to the processor and the memory after it, or to the
//! fault that stops the machine.

use crate::amd64::prefixes::prefix_flags;
use crate::amd64::prefixes::Prefixes;
use crate::fault::Fault;
use crate::memory::MemoryView;
use crate::registers::RegistersView;
use vstd::prelude::*;

verus! {

/// The width of an instruction's operands.
#[derive(Clone, Copy, Debug, PartialEq, Eq, Structural)]
pub enum OperandSize {
    R8,
    R16,
    R32,
    R64,
}

/// The index of the stack pointer among the general-purpose registers.
pub const RSP: usize = 4;

/// The index of RAX among the general-purpose registers.
pub const RAX: usize = 0;

/// The index of RSI among the general-purpose registers.
pub const RSI: usize = 6;

/// The processor: its registers, and whether it has halted.
pub struct CpuView {
    pub regs: RegistersView,
    pub halted: bool,
}

impl CpuView {
    /// The general-purpose register `index`.
    pub open spec fn gpr(self, index: int) -> u64 {
        self.regs.gprs[index]
    }

    /// The processor with its instruction pointer at `rip`.
    pub open spec fn with_rip(self, rip: u64) -> CpuView {
        CpuView { regs: RegistersView { rip, ..self.regs }, ..self }
    }

    /// The processor with `value` in the general-purpose register `index`.
    pub open spec fn with_gpr(self, index: int, value: u64) -> CpuView {
        CpuView {
            regs: RegistersView { gprs: self.regs.gprs.update(index, value), ..self.regs },
            ..self
        }
    }

    /// The processor after it halted.
    pub open spec fn halt(self) -> CpuView {
        CpuView { halted: true, ..self }
    }
}

/// The processor and the memory after an instruction, or the fault that it
/// raised.
pub type Step = Result<(CpuView, MemoryView), Fault>;

/// Where a ModR/M byte puts the destination operand.
#[derive(Clone, Copy, Debug, PartialEq, Eq, Structural)]
pub enum Place {
    /// The general-purpose register `index`.
    Register { index: usize },
    /// The 32-bit word of memory at `addr`.
    Memory { addr: u64 },
}

/// A ModR/M byte as decoded, with its displacement where it has one.
#[derive(Clone, Copy, Debug, PartialEq, Eq, Structural)]
pub struct Decoded {
    /// The byte itself.
    pub modrm: u8,
    /// The address that the byte was fetched at.
    pub at: u64,
    /// The destination operand.
    pub place: Place,
    /// The address after the byte and its displacement.
    pub next: u64,
}

/// The operands of an instruction that has a ModR/M byte.
pub struct Operands {
    /// The decoded ModR/M byte.
    pub decoded: Decoded,
    /// The value of the destination operand before the instruction.
    pub dst: u64,
    /// The value of the source register.
    pub src: u64,
}

/// The operand size that the gathered prefixes select: 64 bits with REX.W,
/// 32 bits without.
pub open spec fn operand_size(prefixes: Prefixes) -> OperandSize {
    if prefixes.has(Prefixes::REX_W) {
        OperandSize::R64
    } else {
        OperandSize::R32
    }
}

/// `value` as an operand of `size`: under `R32` the upper 32 bits are
/// cleared.
pub open spec fn zero_extend(value: u64, size: OperandSize) -> u64 {
    if size == OperandSize::R32 {
        value & 0x0000_0000_FFFF_FFFF
    } else {
        value
    }
}

/// The 64-bit two's complement pattern of a signed byte.
pub open spec fn sign_extend_8(imm: i8) -> u64 {
    if imm >= 0 {
        imm as u64
    } else {
        (imm + 0x1_0000_0000_0000_0000) as u64
    }
}

/// A byte read as a signed number.
pub open spec fn signed_byte(byte: u8) -> i8 {
    if byte < 0x80 {
        byte as i8
    } else {
        (byte - 0x100) as i8
    }
}

/// The 64-bit two's complement pattern of a 32-bit displacement.
pub open spec fn sign_extend_32(disp: u32) -> u64 {
    if disp < 0x8000_0000 {
        disp as u64
    } else {
        (disp + 0xFFFF_FFFF_0000_0000) as u64
    }
}

/// The `mod` field of a ModR/M byte: its two high bits.
pub open spec fn modrm_mod(modrm: u8) -> u8 {
    modrm >> 6
}

/// The `reg` field of a ModR/M byte: its three middle bits.
pub open spec fn modrm_reg(modrm: u8) -> u8 {
    (modrm >> 3) & 7
}

/// The `rm` field of a ModR/M byte: its three low bits.
pub open spec fn modrm_rm(modrm: u8) -> u8 {
    modrm & 7
}

/// The fields of a ModR/M byte are small numbers.
pub proof fn lemma_modrm_fields(modrm: u8)
    ensures
        modrm_mod(modrm) <= 3,
        modrm_reg(modrm) <= 7,
        modrm_rm(modrm) <= 7,
{
    assert(modrm >> 6 <= 3) by (bit_vector);
    assert((modrm >> 3) & 7 <= 7) by (bit_vector);
    assert(modrm & 7 <= 7) by (bit_vector);
}

/// The index of the register that the `reg` field names, extended by REX.R.
pub open spec fn reg_index(modrm: u8, rex_r: bool) -> int {
    modrm_reg(modrm) + if rex_r {
        8int
    } else {
        0int
    }
}

/// Fetching one byte of the instruction stream at `rip`: the byte, and the
/// address after it.
pub open spec fn fetch(memory: MemoryView, rip: u64) -> Result<(u8, u64), Fault> {
    match memory.read_u8(rip) {
        Err(fault) => Err(fault),
        Ok(byte) => if rip == u64::MAX {
            Err(Fault::InstructionPointerOverflow)
        } else {
            Ok((byte, (rip + 1) as u64))
        },
    }
}

/// Fetching a 32-bit displacement at `rip`: the displacement, and the
/// address after it.
pub open spec fn fetch_u32(memory: MemoryView, rip: u64) -> Result<(u32, u64), Fault> {
    match memory.read_u32(rip) {
        Err(fault) => Err(fault),
        Ok(disp) => if rip > u64::MAX - 4 {
            Err(Fault::InstructionPointerOverflow)
        } else {
            Ok((disp, (rip + 4) as u64))
        },
    }
}

/// Decoding the ModR/M byte at the instruction pointer.
///
/// With `mod` 3 the operand is the register `rm`. With `mod` 0 it is in
/// memory: at the address in register `rm`, or, for `rm` 5, at the sum of
/// the 32-bit displacement that follows, sign-extended, and the address
/// after that displacement; `rm` 4 asks for a scale-index-base byte, which
/// is a fault, as are `mod` 1 and 2.
pub open spec fn decode(cpu: CpuView, memory: MemoryView) -> Result<Decoded, Fault> {
    let at = cpu.regs.rip;
    match fetch(memory, at) {
        Err(fault) => Err(fault),
        Ok((modrm, next)) => if modrm_mod(modrm) == 3 {
            Ok(Decoded { modrm, at, place: Place::Register { index: modrm_rm(modrm) as usize }, next })
        } else if modrm_mod(modrm) != 0 {
            Err(Fault::ModRmUnsupported { modrm, rip: at })
        } else if modrm_rm(modrm) == 4 {
            Err(Fault::SibUnsupported { modrm, rip: at })
        } else if modrm_rm(modrm) == 5 {
            match fetch_u32(memory, next) {
                Err(fault) => Err(fault),
                Ok((disp, after)) => Ok(
                    Decoded {
                        modrm,
                        at,
                        place: Place::Memory { addr: after.wrapping_add(sign_extend_32(disp)) },
                        next: after,
                    },
                ),
            }
        } else {
            Ok(
                Decoded {
                    modrm,
                    at,
                    place: Place::Memory { addr: cpu.gpr(modrm_rm(modrm) as int) },
                    next,
                },
            )
        },
    }
}

/// The value of the operand at `place`: a register as an operand of `size`,
/// memory as the 32-bit word there.
pub open spec fn operand(cpu: CpuView, memory: MemoryView, place: Place, size: OperandSize) -> Result<
    u64,
    Fault,
> {
    match place {
        Place::Register { index } => Ok(zero_extend(cpu.gpr(index as int), size)),
        Place::Memory { addr } => match memory.read_u32(addr) {
            Ok(word) => Ok(word as u64),
            Err(fault) => Err(fault),
        },
    }
}

/// Retiring an instruction: `value` goes to `place`, a register taking it
/// as an operand of `size` and memory taking its low 32 bits, and the
/// instruction pointer goes to `next`.
pub open spec fn retire(
    cpu: CpuView,
    memory: MemoryView,
    place: Place,
    value: u64,
    size: OperandSize,
    next: u64,
) -> Step {
    match place {
        Place::Register { index } => Ok(
            (cpu.with_gpr(index as int, zero_extend(value, size)).with_rip(next), memory),
        ),
        Place::Memory { addr } => match memory.write_u32(addr, value as u32) {
            Ok(written) => Ok((cpu.with_rip(next), written)),
            Err(fault) => Err(fault),
        },
    }
}

/// An operand that could be read can be written: retiring to its place
/// raises no fault.
pub proof fn lemma_retire_succeeds(
    cpu: CpuView,
    memory: MemoryView,
    place: Place,
    value: u64,
    size: OperandSize,
    next: u64,
)
    requires
        operand(cpu, memory, place, size) is Ok,
    ensures
        retire(cpu, memory, place, value, size, next) is Ok,
{
    crate::bytes::lemma_le_bytes_len((value as u32) as nat, 4);
}

/// The operands of an instruction with a ModR/M byte at the instruction
/// pointer: the destination that the byte names, and the source register
/// that its `reg` field names, extended by `rex_r`, as an operand of `size`.
pub open spec fn operands(cpu: CpuView, memory: MemoryView, size: OperandSize, rex_r: bool) -> Result<
    Operands,
    Fault,
> {
    match decode(cpu, memory) {
        Err(fault) => Err(fault),
        Ok(decoded) => match operand(cpu, memory, decoded.place, size) {
            Err(fault) => Err(fault),
            Ok(dst) => Ok(
                Operands {
                    decoded,
                    dst,
                    src: zero_extend(cpu.gpr(reg_index(decoded.modrm, rex_r)), size),
                },
            ),
        },
    }
}

/// The operands of an instruction with a ModR/M byte and a signed 8-bit
/// immediate after it: the destination, the immediate, and the address
/// after the immediate.
pub open spec fn operands_imm(cpu: CpuView, memory: MemoryView, size: OperandSize) -> Result<
    (Operands, i8, u64),
    Fault,
> {
    match operands(cpu, memory, size, false) {
        Err(fault) => Err(fault),
        Ok(ops) => match fetch(memory, ops.decoded.next) {
            Err(fault) => Err(fault),
            Ok((byte, next)) => Ok((ops, signed_byte(byte), next)),
        },
    }
}

/// Loading an effective address: the address that the ModR/M byte at the
/// instruction pointer names goes, as an operand of `size`, to the register
/// that its `reg` field names, extended by `rex_r`. A register operand has
/// no address.
pub open spec fn lea(cpu: CpuView, memory: MemoryView, size: OperandSize, rex_r: bool) -> Step {
    match decode(cpu, memory) {
        Err(fault) => Err(fault),
        Ok(decoded) => match decoded.place {
            Place::Register { index } => Err(
                Fault::RegisterOperand { modrm: decoded.modrm, rip: decoded.at },
            ),
            Place::Memory { addr } => Ok(
                (
                    cpu.with_gpr(reg_index(decoded.modrm, rex_r), zero_extend(addr, size)).with_rip(
                        decoded.next,
                    ),
                    memory,
                ),
            ),
        },
    }
}

/// The group of `83`: what the operation that `determ` selects makes of the
/// destination and the sign-extended immediate. 0 and 2 add, 3 and 5
/// subtract, 1 is OR, 4 is AND, 6 is XOR, 7 leaves the destination as it is.
/// Sums and differences wrap at 64 bits; no carry goes in.
pub open spec fn group1(dst: u64, determ: u8, imm: i8) -> u64 {
    let operand = sign_extend_8(imm);
    if determ == 0 || determ == 2 {
        dst.wrapping_add(operand)
    } else if determ == 1 {
        dst | operand
    } else if determ == 3 || determ == 5 {
        dst.wrapping_sub(operand)
    } else if determ == 4 {
        dst & operand
    } else if determ == 6 {
        dst ^ operand
    } else {
        dst
    }
}

/// The group of `FF`: what the operation that `determ` selects writes back
/// to the destination. 0 increments, 1 decrements, wrapping at 64 bits; the
/// others write back what they read.
pub open spec fn group5(dst: u64, determ: u8) -> u64 {
    if determ == 0 {
        dst.wrapping_add(1)
    } else if determ == 1 {
        dst.wrapping_sub(1)
    } else {
        dst
    }
}

/// Pushing `value`: the stack pointer drops by 8, wrapping, and `value` is
/// stored where it then points.
pub open spec fn push(cpu: CpuView, memory: MemoryView, value: u64) -> Step {
    let rsp = cpu.gpr(RSP as int).wrapping_sub(8);
    match memory.write_u64(rsp, value) {
        Ok(written) => Ok((cpu.with_gpr(RSP as int, rsp), written)),
        Err(fault) => Err(fault),
    }
}

/// Popping into the register `index`: it takes the 64-bit number that the
/// stack pointer points at, and then the stack pointer rises by 8, wrapping.
pub open spec fn pop(cpu: CpuView, memory: MemoryView, index: int) -> Step {
    let rsp = cpu.gpr(RSP as int);
    match memory.read_u64(rsp) {
        Ok(value) => Ok((cpu.with_gpr(index, value).with_gpr(RSP as int, rsp.wrapping_add(8)), memory)),
        Err(fault) => Err(fault),
    }
}

/// The first bytes of an instruction: its prefixes and its opcode.
pub struct Head {
    /// The prefixes that stood before the opcode.
    pub prefixes: Prefixes,
    /// The opcode: the first byte that is no prefix.
    pub opcode: u8,
    /// The address that the opcode was fetched at.
    pub at: u64,
    /// The address after the opcode.
    pub next: u64,
}

/// Gathering prefixes from `rip` on, `prefixes` having been gathered
/// before: every prefix byte adds its bits, and the first other byte is the
/// opcode.
pub open spec fn gather(memory: MemoryView, rip: u64, prefixes: Prefixes) -> Result<Head, Fault>
    decreases u64::MAX - rip,
{
    match fetch(memory, rip) {
        Err(fault) => Err(fault),
        Ok((byte, next)) => match prefix_flags(byte) {
            Some(flags) => gather(memory, next, prefixes.with(flags)),
            None => Ok(Head { prefixes, opcode: byte, at: rip, next }),
        },
    }
}

/// The instruction `0F 1E /r`, a no-op that this machine halts on: its
/// ModR/M byte is skipped.
pub open spec fn escaped(cpu: CpuView, memory: MemoryView) -> Step {
    let at = cpu.regs.rip;
    match fetch(memory, at) {
        Err(fault) => Err(fault),
        Ok((opcode, next)) => if opcode == 0x1E {
            match fetch(memory, next) {
                Err(fault) => Err(fault),
                Ok((modrm, after)) => Ok((cpu.with_rip(after).halt(), memory)),
            }
        } else {
            Err(Fault::UnrecognizedEscapedInstruction { opcode, rip: at })
        },
    }
}

/// An instruction whose ModR/M byte names a destination and a source
/// register, and that writes `value_of(dst, src)` to the destination.
pub open spec fn binary(
    cpu: CpuView,
    memory: MemoryView,
    size: OperandSize,
    rex_r: bool,
    value_of: spec_fn(u64, u64) -> u64,
) -> Step {
    match operands(cpu, memory, size, rex_r) {
        Err(fault) => Err(fault),
        Ok(ops) => retire(
            cpu,
            memory,
            ops.decoded.place,
            value_of(ops.dst, ops.src),
            size,
            ops.decoded.next,
        ),
    }
}

/// The instructions `83 /0` to `83 /7`, with a signed 8-bit immediate.
pub open spec fn immediate_group(cpu: CpuView, memory: MemoryView, size: OperandSize) -> Step {
    match operands_imm(cpu, memory, size) {
        Err(fault) => Err(fault),
        Ok((ops, imm, next)) => retire(
            cpu,
            memory,
            ops.decoded.place,
            group1(ops.dst, modrm_reg(ops.decoded.modrm), imm),
            size,
            next,
        ),
    }
}

/// The instructions `FF /0` to `FF /7`: increment, decrement, and the near
/// call through the operand, which writes its operand back, pushes the
/// address of the next instruction and continues at the operand's value.
/// The others are not implemented.
pub open spec fn unary_group(cpu: CpuView, memory: MemoryView, size: OperandSize) -> Step {
    match operands(cpu, memory, size, false) {
        Err(fault) => Err(fault),
        Ok(ops) => {
            let determ = modrm_reg(ops.decoded.modrm);
            let written = retire(
                cpu,
                memory,
                ops.decoded.place,
                group5(ops.dst, determ),
                size,
                ops.decoded.next,
            );
            if determ <= 1 {
                written
            } else if determ == 2 {
                match written {
                    Err(fault) => Err(fault),
                    Ok((cpu, memory)) => match push(cpu, memory, cpu.regs.rip) {
                        Err(fault) => Err(fault),
                        Ok((cpu, memory)) => Ok((cpu.with_rip(ops.dst), memory)),
                    },
                }
            } else {
                Err(Fault::GroupUnsupported { modrm: ops.decoded.modrm, rip: ops.decoded.at })
            }
        },
    }
}

/// The instruction that `head` starts, carried out on a processor whose
/// instruction pointer stands after the opcode.
pub open spec fn execute(head: Head, cpu: CpuView, memory: MemoryView) -> Step {
    let size = operand_size(head.prefixes);
    let rex_r = head.prefixes.has(Prefixes::REX_R);
    if head.opcode == 0x0F {
        escaped(cpu, memory)
    } else if head.opcode == 0x31 {
        binary(cpu, memory, size, rex_r, |dst: u64, src: u64| dst ^ src)
    } else if head.opcode == 0x50 {
        push(cpu, memory, cpu.gpr(RAX as int))
    } else if head.opcode == 0x54 {
        push(cpu, memory, cpu.gpr(RSP as int).wrapping_sub(8))
    } else if head.opcode == 0x5E {
        pop(cpu, memory, RSI as int)
    } else if head.opcode == 0x83 {
        immediate_group(cpu, memory, size)
    } else if head.opcode == 0x89 {
        binary(cpu, memory, size, rex_r, |dst: u64, src: u64| src)
    } else if head.opcode == 0x8D {
        lea(cpu, memory, size, rex_r)
    } else if head.opcode == 0xFF {
        unary_group(cpu, memory, size)
    } else {
        Err(Fault::UnrecognizedInstruction { opcode: head.opcode, rip: head.at })
    }
}

/// One architectural instruction: the prefixes and the opcode at the
/// instruction pointer are gathered, and the instruction is carried out.
pub open spec fn step(cpu: CpuView, memory: MemoryView) -> Step {
    match gather(memory, cpu.regs.rip, Prefixes { bits: Prefixes::NONE }) {
        Err(fault) => Err(fault),
        Ok(head) => execute(head, cpu.with_rip(head.next), memory),
    }
}

} // verus!
