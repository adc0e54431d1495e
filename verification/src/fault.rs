//! The conditions that end an emulation.

use vstd::prelude::*;

verus! {

/// Why the emulated machine stopped without reaching its halt instruction.
/// Every fault is fatal: the machine is not meant to be stepped again.
#[derive(Clone, Copy, Debug, PartialEq, Eq, Structural)]
pub enum Fault {
    /// An access touched `addr`, and either no segment contains `addr` or
    /// the access runs past the end of the first segment that does.
    SegmentationFault { addr: u64 },
    /// The byte fetched at `rip` starts no instruction that is implemented.
    UnrecognizedInstruction { opcode: u8, rip: u64 },
    /// The byte fetched at `rip`, after the escape byte `0x0F`, starts no
    /// instruction that is implemented.
    UnrecognizedEscapedInstruction { opcode: u8, rip: u64 },
    /// The ModR/M byte fetched at `rip` asks for a scale-index-base byte.
    SibUnsupported { modrm: u8, rip: u64 },
    /// The ModR/M byte fetched at `rip` asks for an addressing mode with an
    /// 8-bit or a 32-bit displacement off a register.
    ModRmUnsupported { modrm: u8, rip: u64 },
    /// The ModR/M byte fetched at `rip` names a register where only a
    /// memory operand makes sense.
    RegisterOperand { modrm: u8, rip: u64 },
    /// The ModR/M byte fetched at `rip` selects an operation of its opcode
    /// group that is not implemented.
    GroupUnsupported { modrm: u8, rip: u64 },
    /// The instruction pointer would have to advance past the last address.
    InstructionPointerOverflow,
}

} // verus!
