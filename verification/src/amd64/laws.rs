//! What holds of the instructions, whatever the program.

use crate::amd64::model::binary;
use crate::amd64::model::decode;
use crate::amd64::model::execute;
use crate::amd64::model::fetch;
use crate::amd64::model::gather;
use crate::amd64::model::immediate_group;
use crate::amd64::model::lea;
use crate::amd64::model::modrm_mod;
use crate::amd64::model::modrm_reg;
use crate::amd64::model::modrm_rm;
use crate::amd64::model::operand_size;
use crate::amd64::model::step;
use crate::amd64::model::unary_group;
use crate::amd64::model::zero_extend;
use crate::amd64::model::CpuView;
use crate::amd64::model::Head;
use crate::amd64::model::OperandSize;
use crate::amd64::model::RAX;
use crate::amd64::model::RSI;
use crate::amd64::model::RSP;
use crate::amd64::prefixes::prefix_flags;
use crate::amd64::prefixes::Prefixes;
use crate::fault::Fault;
use crate::memory::MemoryView;
use vstd::prelude::*;

verus! {

/// No instruction restarts a halted processor.
pub proof fn lemma_halt_is_final(cpu: CpuView, memory: MemoryView)
    requires
        cpu.halted,
    ensures
        step(cpu, memory) matches Ok((after, written)) ==> after.halted,
{
}

/// Whether the `count` bytes from `rip` on can all be fetched and are all
/// prefixes.
pub open spec fn prefix_run(memory: MemoryView, rip: u64, count: nat) -> bool {
    forall|k: nat|
        k < count ==> {
            &&& rip + k < u64::MAX
            &&& (#[trigger] memory.read_u8((rip + k) as u64)) matches Ok(byte)
            &&& prefix_flags(byte) is Some
        }
}

/// Gathering skips a run of prefixes and stops at the first byte after it
/// that is no prefix.
pub proof fn lemma_gather_skips_prefixes(
    memory: MemoryView,
    rip: u64,
    prefixes: Prefixes,
    count: nat,
    opcode: u8,
)
    requires
        prefix_run(memory, rip, count),
        rip + count < u64::MAX,
        memory.read_u8((rip + count) as u64) == Ok::<u8, Fault>(opcode),
        prefix_flags(opcode) is None,
    ensures
        gather(memory, rip, prefixes) matches Ok(head) && head.opcode == opcode && head.at == rip
            + count && head.next == rip + count + 1,
    decreases count,
{
    if count > 0 {
        assert(memory.read_u8((rip + 0nat) as u64) is Ok);
        let byte = memory.read_u8(rip)->Ok_0;
        let next = (rip + 1) as u64;
        assert forall|k: nat| k < count - 1 implies {
            &&& next + k < u64::MAX
            &&& (#[trigger] memory.read_u8((next + k) as u64)) matches Ok(byte)
            &&& prefix_flags(byte) is Some
        } by {
            assert(memory.read_u8((rip + (k + 1) as nat) as u64) is Ok);
        }
        lemma_gather_skips_prefixes(
            memory,
            next,
            prefixes.with(prefix_flags(byte)->Some_0),
            (count - 1) as nat,
            opcode,
        );
    }
}

/// Any run of prefixes followed by `0F 1E` and one more byte halts the
/// processor in one step, with the instruction pointer after that byte, and
/// changes nothing else.
pub proof fn lemma_prefixed_sentinel_halts(cpu: CpuView, memory: MemoryView, count: nat)
    requires
        prefix_run(memory, cpu.regs.rip, count),
        cpu.regs.rip + count + 3 <= u64::MAX,
        memory.read_u8((cpu.regs.rip + count) as u64) == Ok::<u8, Fault>(0x0F),
        memory.read_u8((cpu.regs.rip + count + 1) as u64) == Ok::<u8, Fault>(0x1E),
        memory.read_u8((cpu.regs.rip + count + 2) as u64) is Ok,
    ensures
        step(cpu, memory) == Ok::<(CpuView, MemoryView), Fault>(
            (cpu.with_rip((cpu.regs.rip + count + 3) as u64).halt(), memory),
        ),
{
    lemma_gather_skips_prefixes(
        memory,
        cpu.regs.rip,
        Prefixes { bits: Prefixes::NONE },
        count,
        0x0F,
    );
}

/// Pushing RAX and then popping RSI leaves the stack pointer where it was,
/// RSI with what RAX held, and the memory as the push left it.
pub proof fn lemma_push_rax_pop_rsi(push: Head, pop: Head, cpu: CpuView, memory: MemoryView)
    requires
        push.opcode == 0x50,
        pop.opcode == 0x5E,
        memory.wf(),
        cpu.regs.wf(),
        execute(push, cpu, memory) is Ok,
    ensures
        ({
            let (pushed, written) = execute(push, cpu, memory)->Ok_0;
            &&& execute(pop, pushed, written) matches Ok((popped, after))
            &&& popped.gpr(RSP as int) == cpu.gpr(RSP as int)
            &&& popped.gpr(RSI as int) == cpu.gpr(RAX as int)
            &&& after == written
        }),
{
    let rsp = cpu.gpr(RSP as int).wrapping_sub(8);
    memory.lemma_write_then_read_u64(rsp, cpu.gpr(RAX as int));
}

/// Stepping through `50 5E`, which is `push rax; pop rsi`, leaves the stack
/// pointer where it was and RSI with what RAX held.
pub proof fn lemma_push_pop_steps(cpu: CpuView, memory: MemoryView)
    requires
        memory.wf(),
        cpu.regs.wf(),
        cpu.regs.rip + 2 <= u64::MAX,
        memory.read_u8(cpu.regs.rip) == Ok::<u8, Fault>(0x50),
        step(cpu, memory) matches Ok((pushed, written)) && written.read_u8(
            (cpu.regs.rip + 1) as u64,
        ) == Ok::<u8, Fault>(0x5E),
    ensures
        ({
            let (pushed, written) = step(cpu, memory)->Ok_0;
            &&& step(pushed, written) matches Ok((popped, after))
            &&& popped.gpr(RSP as int) == cpu.gpr(RSP as int)
            &&& popped.gpr(RSI as int) == cpu.gpr(RAX as int)
            &&& popped.regs.rip == cpu.regs.rip + 2
            &&& after == written
        }),
{
    let none = Prefixes { bits: Prefixes::NONE };
    let first = gather(memory, cpu.regs.rip, none)->Ok_0;
    let (pushed, written) = step(cpu, memory)->Ok_0;
    let second = gather(written, pushed.regs.rip, none)->Ok_0;
    lemma_push_rax_pop_rsi(first, second, cpu.with_rip(first.next), memory);
}

/// `XOR r, r` leaves zero in the register `r`, at either operand size, and
/// the memory as it was.
pub proof fn lemma_xor_self_is_zero(head: Head, cpu: CpuView, memory: MemoryView)
    requires
        head.opcode == 0x31,
        !head.prefixes.has(Prefixes::REX_R),
        cpu.regs.wf(),
        fetch(memory, cpu.regs.rip) matches Ok((modrm, next)) && modrm_mod(modrm) == 3
            && modrm_reg(modrm) == modrm_rm(modrm),
    ensures
        execute(head, cpu, memory) matches Ok((after, written)) && after.gpr(
            modrm_rm(fetch(memory, cpu.regs.rip)->Ok_0.0) as int,
        ) == 0 && written == memory,
{
    let modrm = fetch(memory, cpu.regs.rip)->Ok_0.0;
    let size = operand_size(head.prefixes);
    let value = zero_extend(cpu.gpr(modrm_rm(modrm) as int), size);
    crate::amd64::model::lemma_modrm_fields(modrm);
    assert(value ^ value == 0) by (bit_vector);
    assert(0u64 & 0x0000_0000_FFFF_FFFF == 0) by (bit_vector);
}

/// Stepping through `31 /r` where both fields of the ModR/M byte name the
/// register `r`, which is `xor r, r` at 32 bits, leaves zero in all 64 bits
/// of `r`.
pub proof fn lemma_xor_self_steps(cpu: CpuView, memory: MemoryView, modrm: u8)
    requires
        cpu.regs.wf(),
        cpu.regs.rip + 2 <= u64::MAX,
        memory.read_u8(cpu.regs.rip) == Ok::<u8, Fault>(0x31),
        memory.read_u8((cpu.regs.rip + 1) as u64) == Ok::<u8, Fault>(modrm),
        modrm_mod(modrm) == 3,
        modrm_reg(modrm) == modrm_rm(modrm),
    ensures
        step(cpu, memory) matches Ok((after, written)) && after.gpr(modrm_rm(modrm) as int) == 0
            && after.regs.rip == cpu.regs.rip + 2 && written == memory,
{
    let none = Prefixes { bits: Prefixes::NONE };
    let head = gather(memory, cpu.regs.rip, none)->Ok_0;
    assert(0u64 & 0b0010_0000 != 0b0010_0000) by (bit_vector);
    lemma_xor_self_is_zero(head, cpu.with_rip(head.next), memory);
}

/// A ModR/M byte with `mod` 0 and `rm` 4 asks for a scale-index-base byte:
/// every instruction that decodes one raises the fault that says so.
pub proof fn lemma_sib_is_rejected(cpu: CpuView, memory: MemoryView, size: OperandSize, rex_r: bool)
    requires
        fetch(memory, cpu.regs.rip) matches Ok((modrm, next)) && modrm_mod(modrm) == 0
            && modrm_rm(modrm) == 4,
    ensures
        ({
            let fault = Fault::SibUnsupported {
                modrm: fetch(memory, cpu.regs.rip)->Ok_0.0,
                rip: cpu.regs.rip,
            };
            &&& decode(cpu, memory) == Err::<crate::amd64::model::Decoded, Fault>(fault)
            &&& forall|value_of: spec_fn(u64, u64) -> u64|
                #[trigger] binary(cpu, memory, size, rex_r, value_of) == Err::<
                    (CpuView, MemoryView),
                    Fault,
                >(fault)
            &&& immediate_group(cpu, memory, size) == Err::<(CpuView, MemoryView), Fault>(fault)
            &&& unary_group(cpu, memory, size) == Err::<(CpuView, MemoryView), Fault>(fault)
            &&& lea(cpu, memory, size, rex_r) == Err::<(CpuView, MemoryView), Fault>(fault)
        }),
{
}

} // verus!
