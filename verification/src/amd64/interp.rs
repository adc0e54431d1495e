//! The interpreter: a register file, and the fetch-decode-execute step that
//! runs it against a memory map.

use crate::amd64::laws::lemma_halt_is_final;
use crate::amd64::model::decode;
use crate::amd64::model::escaped;
use crate::amd64::model::execute;
use crate::amd64::model::fetch;
use crate::amd64::model::fetch_u32;
use crate::amd64::model::gather;
use crate::amd64::model::group1;
use crate::amd64::model::group5;
use crate::amd64::model::lea;
use crate::amd64::model::lemma_modrm_fields;
use crate::amd64::model::lemma_retire_succeeds;
use crate::amd64::model::modrm_reg;
use crate::amd64::model::operand;
use crate::amd64::model::operands;
use crate::amd64::model::operands_imm;
use crate::amd64::model::pop;
use crate::amd64::model::push;
use crate::amd64::model::retire;
use crate::amd64::model::sign_extend_32;
use crate::amd64::model::sign_extend_8;
use crate::amd64::model::signed_byte;
use crate::amd64::model::step;
use crate::amd64::model::unary_group;
use crate::amd64::model::zero_extend;
use crate::amd64::model::CpuView;
use crate::amd64::model::Decoded;
use crate::amd64::model::Head;
use crate::amd64::model::OperandSize;
use crate::amd64::model::Place;
use crate::amd64::model::RAX;
use crate::amd64::model::RSI;
use crate::amd64::model::RSP;
use crate::amd64::model::Step;
use crate::amd64::prefixes::decode_prefix;
use crate::amd64::prefixes::Prefixes;
use crate::fault::Fault;
use crate::memory::MemoryMap;
use crate::memory::MemoryView;
use crate::memory::STARTING_STACK;
use crate::processor::ProcessorImplementation;
use crate::registers::Registers;
use crate::registers::RegistersView;
use vstd::prelude::*;

verus! {

/// Whether an operation ended as the model says: on success the processor
/// and the memory are the ones that the model computed, on a fault both are
/// as they were before.
pub open spec fn stepped<T>(
    cpu_before: CpuView,
    memory_before: MemoryView,
    cpu_after: CpuView,
    memory_after: MemoryView,
    outcome: Result<T, Fault>,
    expected: Step,
) -> bool {
    match expected {
        Ok((cpu, memory)) => outcome is Ok && cpu_after == cpu && memory_after == memory,
        Err(fault) => {
            &&& outcome is Err
            &&& outcome->Err_0 == fault
            &&& cpu_after == cpu_before
            &&& memory_after == memory_before
        },
    }
}

/// `value` as an operand of `size`.
fn zero_extended(value: u64, size: OperandSize) -> (extended: u64)
    ensures
        extended == zero_extend(value, size),
{
    if size == OperandSize::R32 {
        value & 0x0000_0000_FFFF_FFFF
    } else {
        value
    }
}

/// The 64-bit two's complement pattern of a signed byte.
fn sign_extended_8(imm: i8) -> (extended: u64)
    ensures
        extended == sign_extend_8(imm),
{
    if imm >= 0 {
        imm as u64
    } else {
        let magnitude: u64 = (-(imm as i64)) as u64;
        u64::MAX - magnitude + 1
    }
}

/// A byte read as a signed number.
fn as_signed_byte(byte: u8) -> (signed: i8)
    ensures
        signed == signed_byte(byte),
{
    if byte < 0x80 {
        byte as i8
    } else {
        (byte as i16 - 0x100) as i8
    }
}

/// The 64-bit two's complement pattern of a 32-bit displacement.
fn sign_extended_32(disp: u32) -> (extended: u64)
    ensures
        extended == sign_extend_32(disp),
{
    if disp < 0x8000_0000 {
        disp as u64
    } else {
        disp as u64 + 0xFFFF_FFFF_0000_0000
    }
}

/// What an operation of the group of `83` makes of its operands.
fn group1_value(dst: u64, determ: u8, imm: i8) -> (value: u64)
    ensures
        value == group1(dst, determ, imm),
{
    let operand = sign_extended_8(imm);
    if determ == 0 || determ == 2 {
        dst.wrapping_add(operand)
    } else if determ == 1 {
        dst | operand
    } else if determ == 3 || determ == 5 {
        dst.wrapping_sub(operand)
    } else if determ == 4 {
        dst & operand
    } else if determ == 6 {
        dst ^ operand
    } else {
        dst
    }
}

/// What an operation of the group of `FF` writes back.
fn group5_value(dst: u64, determ: u8) -> (value: u64)
    ensures
        value == group5(dst, determ),
{
    if determ == 0 {
        dst.wrapping_add(1)
    } else if determ == 1 {
        dst.wrapping_sub(1)
    } else {
        dst
    }
}

/// Fetches one byte of the instruction stream at `rip`.
fn fetch_byte<M: MemoryMap>(map: &M, rip: u64) -> (fetched: Result<(u8, u64), Fault>)
    ensures
        fetched == fetch(map@, rip),
{
    let byte = map.read_u8(rip)?;
    if rip == u64::MAX {
        Err(Fault::InstructionPointerOverflow)
    } else {
        Ok((byte, rip + 1))
    }
}

/// Fetches a 32-bit displacement at `rip`.
fn fetch_displacement<M: MemoryMap>(map: &M, rip: u64) -> (fetched: Result<(u32, u64), Fault>)
    ensures
        fetched == fetch_u32(map@, rip),
{
    let disp = map.read_u32(rip)?;
    if rip > u64::MAX - 4 {
        Err(Fault::InstructionPointerOverflow)
    } else {
        Ok((disp, rip + 4))
    }
}

/// The AMD64 interpreter. It owns the register file; the memory map is lent
/// to it for each step.
pub struct Amd64Interp {
    regs: Registers,
    done: bool,
}

impl View for Amd64Interp {
    type V = CpuView;

    closed spec fn view(&self) -> CpuView {
        CpuView { regs: self.regs@, halted: self.done }
    }
}

impl Amd64Interp {
    /// An interpreter that has not halted, with every register zero.
    pub fn new() -> (interp: Amd64Interp)
        ensures
            interp@ == (CpuView { regs: RegistersView::zeroed(), halted: false }),
    {
        Amd64Interp { regs: Registers::zeroed(), done: false }
    }

    /// The register file.
    pub fn registers(&self) -> (regs: Registers)
        ensures
            regs@ == self@.regs,
    {
        self.regs
    }

    /// Replaces the register file.
    pub fn set_registers(&mut self, regs: Registers)
        ensures
            final(self)@ == (CpuView { regs: regs@, ..old(self)@ }),
    {
        self.regs = regs;
    }

    /// Every register bank of the processor has its number of registers.
    pub proof fn lemma_wf(&self)
        ensures
            self@.regs.wf(),
    {
    }

    /// Decodes the ModR/M byte at the instruction pointer.
    fn decode_modrm<M: MemoryMap>(&self, map: &M) -> (decoded: Result<Decoded, Fault>)
        ensures
            decoded == decode(self@, map@),
            decoded matches Ok(d) ==> (d.place matches Place::Register { index } ==> index < 8),
    {
        let at = self.regs.rip;
        let (modrm, next) = fetch_byte(map, at)?;
        proof {
            lemma_modrm_fields(modrm);
        }
        let rm = modrm & 7;
        if modrm >> 6 == 3 {
            Ok(Decoded { modrm, at, place: Place::Register { index: rm as usize }, next })
        } else if modrm >> 6 != 0 {
            Err(Fault::ModRmUnsupported { modrm, rip: at })
        } else if rm == 4 {
            Err(Fault::SibUnsupported { modrm, rip: at })
        } else if rm == 5 {
            let (disp, after) = fetch_displacement(map, next)?;
            let addr = after.wrapping_add(sign_extended_32(disp));
            Ok(Decoded { modrm, at, place: Place::Memory { addr }, next: after })
        } else {
            Ok(Decoded { modrm, at, place: Place::Memory { addr: self.regs.gprs[rm as usize] }, next })
        }
    }

    /// The value of the operand at `place`.
    fn read_operand<M: MemoryMap>(&self, map: &M, place: Place, size: OperandSize) -> (value: Result<
        u64,
        Fault,
    >)
        requires
            place matches Place::Register { index } ==> index < 16,
        ensures
            value == operand(self@, map@, place, size),
    {
        match place {
            Place::Register { index } => Ok(zero_extended(self.regs.gprs[index], size)),
            Place::Memory { addr } => {
                let word = map.read_u32(addr)?;
                Ok(word as u64)
            },
        }
    }

    /// Retires an instruction: `value` goes to `place`, and the instruction
    /// pointer to `next`.
    fn write_back<M: MemoryMap>(
        &mut self,
        map: &mut M,
        place: Place,
        value: u64,
        size: OperandSize,
        next: u64,
    ) -> (outcome: Result<(), Fault>)
        requires
            place matches Place::Register { index } ==> index < 16,
        ensures
            stepped(
                old(self)@,
                old(map)@,
                final(self)@,
                final(map)@,
                outcome,
                retire(old(self)@, old(map)@, place, value, size, next),
            ),
    {
        match place {
            Place::Register { index } => {
                self.regs.gprs[index] = zero_extended(value, size);
            },
            Place::Memory { addr } => {
                map.write_u32(addr, value as u32)?;
            },
        }
        self.regs.rip = next;
        Ok(())
    }

    /// The operands of an instruction with a ModR/M byte at the instruction
    /// pointer.
    fn read_operands<M: MemoryMap>(&self, map: &M, size: OperandSize, rex_r: bool) -> (ops: Result<
        (Decoded, u64, u64),
        Fault,
    >)
        ensures
            match operands(self@, map@, size, rex_r) {
                Ok(model) => ops == Ok::<(Decoded, u64, u64), Fault>(
                    (model.decoded, model.dst, model.src),
                ),
                Err(fault) => ops == Err::<(Decoded, u64, u64), Fault>(fault),
            },
            ops matches Ok(o) ==> (o.0.place matches Place::Register { index } ==> index < 8),
    {
        let decoded = self.decode_modrm(map)?;
        let dst = self.read_operand(map, decoded.place, size)?;
        proof {
            lemma_modrm_fields(decoded.modrm);
        }
        let reg = ((decoded.modrm >> 3) & 7) as usize + if rex_r {
            8
        } else {
            0
        };
        Ok((decoded, dst, zero_extended(self.regs.gprs[reg], size)))
    }

    /// The operands of an instruction with a ModR/M byte at the instruction
    /// pointer and a signed 8-bit immediate after it, and the address after
    /// the immediate.
    fn read_operands_imm<M: MemoryMap>(&self, map: &M, size: OperandSize) -> (ops: Result<
        (Decoded, u64, i8, u64),
        Fault,
    >)
        ensures
            match operands_imm(self@, map@, size) {
                Ok(model) => ops == Ok::<(Decoded, u64, i8, u64), Fault>(
                    (model.0.decoded, model.0.dst, model.1, model.2),
                ),
                Err(fault) => ops == Err::<(Decoded, u64, i8, u64), Fault>(fault),
            },
            ops matches Ok(o) ==> (o.0.place matches Place::Register { index } ==> index < 8),
    {
        let (decoded, dst, _) = self.read_operands(map, size, false)?;
        let (byte, next) = fetch_byte(map, decoded.next)?;
        Ok((decoded, dst, as_signed_byte(byte), next))
    }

    /// Carries out an instruction whose ModR/M byte, at the instruction
    /// pointer, names a destination and a source register: `function` is
    /// handed both values and `size`, and what it returns is written to the
    /// destination.
    pub fn modrm<M: MemoryMap, T: Fn(u64, u64, OperandSize) -> u64>(
        &mut self,
        map: &mut M,
        size: OperandSize,
        rex_r: bool,
        function: T,
    ) -> (outcome: Result<(), Fault>)
        requires
            forall|dst: u64, src: u64| call_requires(function, (dst, src, size)),
        ensures
            match operands(old(self)@, old(map)@, size, rex_r) {
                Ok(ops) => exists|value: u64|
                    {
                        &&& call_ensures(function, (ops.dst, ops.src, size), value)
                        &&& stepped(
                            old(self)@,
                            old(map)@,
                            final(self)@,
                            final(map)@,
                            outcome,
                            retire(
                                old(self)@,
                                old(map)@,
                                ops.decoded.place,
                                value,
                                size,
                                ops.decoded.next,
                            ),
                        )
                    },
                Err(fault) => stepped(
                    old(self)@,
                    old(map)@,
                    final(self)@,
                    final(map)@,
                    outcome,
                    Err(fault),
                ),
            },
    {
        let (decoded, dst, src) = self.read_operands(map, size, rex_r)?;
        let value = function(dst, src, size);
        self.write_back(map, decoded.place, value, size, decoded.next)
    }

    /// Carries out an instruction whose ModR/M byte, at the instruction
    /// pointer, names a destination and, in its `reg` field, one operation
    /// of a group: `function` is handed the destination's value, the `reg`
    /// field and `size`, and what it returns is written to the destination.
    /// Returns the decoded byte and the destination's value before.
    pub fn modrmdet<M: MemoryMap, T: Fn(u64, u8, OperandSize) -> u64>(
        &mut self,
        map: &mut M,
        size: OperandSize,
        function: T,
    ) -> (outcome: Result<(Decoded, u64), Fault>)
        requires
            forall|dst: u64, determ: u8| call_requires(function, (dst, determ, size)),
        ensures
            match operands(old(self)@, old(map)@, size, false) {
                Ok(ops) => exists|value: u64|
                    {
                        &&& call_ensures(
                            function,
                            (ops.dst, modrm_reg(ops.decoded.modrm), size),
                            value,
                        )
                        &&& stepped(
                            old(self)@,
                            old(map)@,
                            final(self)@,
                            final(map)@,
                            outcome,
                            retire(
                                old(self)@,
                                old(map)@,
                                ops.decoded.place,
                                value,
                                size,
                                ops.decoded.next,
                            ),
                        )
                        &&& outcome matches Ok(read) ==> read == (ops.decoded, ops.dst)
                    },
                Err(fault) => stepped(
                    old(self)@,
                    old(map)@,
                    final(self)@,
                    final(map)@,
                    outcome,
                    Err(fault),
                ),
            },
    {
        let (decoded, dst, _) = self.read_operands(map, size, false)?;
        let determ = (decoded.modrm >> 3) & 7;
        let value = function(dst, determ, size);
        self.write_back(map, decoded.place, value, size, decoded.next)?;
        Ok((decoded, dst))
    }

    /// Carries out an instruction whose ModR/M byte, at the instruction
    /// pointer, names a destination and, in its `reg` field, one operation
    /// of a group, and that has a signed 8-bit immediate after it:
    /// `function` is handed the destination's value, the `reg` field, the
    /// immediate and `size`, and what it returns is written to the
    /// destination.
    pub fn modrmimm<M: MemoryMap, T: Fn(u64, u8, i8, OperandSize) -> u64>(
        &mut self,
        map: &mut M,
        size: OperandSize,
        function: T,
    ) -> (outcome: Result<(), Fault>)
        requires
            forall|dst: u64, determ: u8, imm: i8| call_requires(function, (dst, determ, imm, size)),
        ensures
            match operands_imm(old(self)@, old(map)@, size) {
                Ok(found) => exists|value: u64|
                    {
                        &&& call_ensures(
                            function,
                            (found.0.dst, modrm_reg(found.0.decoded.modrm), found.1, size),
                            value,
                        )
                        &&& stepped(
                            old(self)@,
                            old(map)@,
                            final(self)@,
                            final(map)@,
                            outcome,
                            retire(
                                old(self)@,
                                old(map)@,
                                found.0.decoded.place,
                                value,
                                size,
                                found.2,
                            ),
                        )
                    },
                Err(fault) => stepped(
                    old(self)@,
                    old(map)@,
                    final(self)@,
                    final(map)@,
                    outcome,
                    Err(fault),
                ),
            },
    {
        let (decoded, dst, imm, next) = self.read_operands_imm(map, size)?;
        let determ = (decoded.modrm >> 3) & 7;
        let value = function(dst, determ, imm, size);
        self.write_back(map, decoded.place, value, size, next)
    }

    /// Loads an effective address: the address that the ModR/M byte at the
    /// instruction pointer names goes to the register that its `reg` field
    /// names, extended by `rex_r`.
    pub fn modrmlea<M: MemoryMap>(&mut self, map: &mut M, size: OperandSize, rex_r: bool) -> (outcome:
        Result<(), Fault>)
        ensures
            stepped(
                old(self)@,
                old(map)@,
                final(self)@,
                final(map)@,
                outcome,
                lea(old(self)@, old(map)@, size, rex_r),
            ),
    {
        let decoded = self.decode_modrm(map)?;
        match decoded.place {
            Place::Register { index } => Err(
                Fault::RegisterOperand { modrm: decoded.modrm, rip: decoded.at },
            ),
            Place::Memory { addr } => {
                proof {
                    lemma_modrm_fields(decoded.modrm);
                }
                let reg = ((decoded.modrm >> 3) & 7) as usize + if rex_r {
                    8
                } else {
                    0
                };
                self.regs.gprs[reg] = zero_extended(addr, size);
                self.regs.rip = decoded.next;
                Ok(())
            },
        }
    }

    /// Pushes `value`.
    fn push_value<M: MemoryMap>(&mut self, map: &mut M, value: u64) -> (outcome: Result<(), Fault>)
        ensures
            stepped(
                old(self)@,
                old(map)@,
                final(self)@,
                final(map)@,
                outcome,
                push(old(self)@, old(map)@, value),
            ),
    {
        let rsp = self.regs.gprs[RSP].wrapping_sub(8);
        map.write_u64(rsp, value)?;
        self.regs.gprs[RSP] = rsp;
        Ok(())
    }

    /// Pops into the general-purpose register `index`.
    fn pop_into<M: MemoryMap>(&mut self, map: &M, index: usize) -> (outcome: Result<(), Fault>)
        requires
            index < 16,
        ensures
            stepped(
                old(self)@,
                map@,
                final(self)@,
                map@,
                outcome,
                pop(old(self)@, map@, index as int),
            ),
    {
        let rsp = self.regs.gprs[RSP];
        let value = map.read_u64(rsp)?;
        self.regs.gprs[index] = value;
        self.regs.gprs[RSP] = rsp.wrapping_add(8);
        Ok(())
    }

    /// Carries out `0F 1E /r`, the instruction that halts this machine.
    fn halt_on_escape<M: MemoryMap>(&mut self, map: &M) -> (outcome: Result<(), Fault>)
        ensures
            stepped(old(self)@, map@, final(self)@, map@, outcome, escaped(old(self)@, map@)),
    {
        let at = self.regs.rip;
        let (opcode, next) = fetch_byte(map, at)?;
        if opcode == 0x1E {
            let (_, after) = fetch_byte(map, next)?;
            self.regs.rip = after;
            self.done = true;
            Ok(())
        } else {
            Err(Fault::UnrecognizedEscapedInstruction { opcode, rip: at })
        }
    }

    /// Carries out `FF /0` to `FF /7`.
    fn run_unary_group<M: MemoryMap>(&mut self, map: &mut M, size: OperandSize) -> (outcome: Result<
        (),
        Fault,
    >)
        ensures
            stepped(
                old(self)@,
                old(map)@,
                final(self)@,
                final(map)@,
                outcome,
                unary_group(old(self)@, old(map)@, size),
            ),
    {
        let saved = self.regs;
        let operation = |dst: u64, determ: u8, size: OperandSize| -> (value: u64)
            ensures
                value == group5(dst, determ)
            {
                group5_value(dst, determ)
            };
        let read = self.modrmdet(map, size, operation);
        proof {
            let expected = operands(old(self)@, old(map)@, size, false);
            if expected is Ok {
                let ops = expected->Ok_0;
                lemma_retire_succeeds(
                    old(self)@,
                    old(map)@,
                    ops.decoded.place,
                    group5(ops.dst, modrm_reg(ops.decoded.modrm)),
                    size,
                    ops.decoded.next,
                );
            }
        }
        let (decoded, target) = read?;
        let determ = (decoded.modrm >> 3) & 7;
        if determ <= 1 {
            return Ok(());
        }
        proof {
            // The operand was written back as it was read.
            old(map).lemma_view_wf();
            if decoded.place is Memory {
                old(map)@.lemma_write_u32_same(decoded.place->addr);
            }
        }
        if determ == 2 {
            match self.push_value(map, self.regs.rip) {
                Ok(()) => {
                    self.regs.rip = target;
                    Ok(())
                },
                Err(fault) => {
                    self.regs = saved;
                    Err(fault)
                },
            }
        } else {
            self.regs = saved;
            Err(Fault::GroupUnsupported { modrm: decoded.modrm, rip: decoded.at })
        }
    }

    /// Gathers the prefixes and the opcode at the instruction pointer.
    fn gather_prefixes<M: MemoryMap>(&self, map: &M) -> (head: Result<Head, Fault>)
        ensures
            head == gather(map@, self@.regs.rip, Prefixes { bits: Prefixes::NONE }),
    {
        let mut prefixes = Prefixes::empty();
        let mut rip = self.regs.rip;
        loop
            invariant
                gather(map@, self@.regs.rip, Prefixes { bits: Prefixes::NONE }) == gather(
                    map@,
                    rip,
                    prefixes,
                ),
            decreases u64::MAX - rip,
        {
            let (byte, next) = fetch_byte(map, rip)?;
            match decode_prefix(byte) {
                Some(flags) => {
                    prefixes.insert(flags);
                    rip = next;
                },
                None => {
                    return Ok(Head { prefixes, opcode: byte, at: rip, next });
                },
            }
        }
    }

    /// Carries out the instruction that `head` starts.
    fn run<M: MemoryMap>(&mut self, map: &mut M, head: Head) -> (outcome: Result<(), Fault>)
        ensures
            stepped(
                old(self)@,
                old(map)@,
                final(self)@,
                final(map)@,
                outcome,
                execute(head, old(self)@, old(map)@),
            ),
    {
        let size = if head.prefixes.contains(Prefixes::REX_W) {
            OperandSize::R64
        } else {
            OperandSize::R32
        };
        let rex_r = head.prefixes.contains(Prefixes::REX_R);
        let xor = |dst: u64, src: u64, size: OperandSize| -> (value: u64)
            ensures
                value == dst ^ src
            {
                dst ^ src
            };
        let mov = |dst: u64, src: u64, size: OperandSize| -> (value: u64)
            ensures
                value == src
            {
                src
            };
        let immediate = |dst: u64, determ: u8, imm: i8, size: OperandSize| -> (value: u64)
            ensures
                value == group1(dst, determ, imm)
            {
                group1_value(dst, determ, imm)
            };
        match head.opcode {
            0x0F => self.halt_on_escape(map),
            0x31 => self.modrm(map, size, rex_r, xor),
            0x50 => self.push_value(map, self.regs.gprs[RAX]),
            0x54 => self.push_value(map, self.regs.gprs[RSP].wrapping_sub(8)),
            0x5E => self.pop_into(map, RSI),
            0x83 => self.modrmimm(map, size, immediate),
            0x89 => self.modrm(map, size, rex_r, mov),
            0x8D => self.modrmlea(map, size, rex_r),
            0xFF => self.run_unary_group(map, size),
            _ => Err(Fault::UnrecognizedInstruction { opcode: head.opcode, rip: head.at }),
        }
    }
}

impl Default for Amd64Interp {
    fn default() -> (interp: Amd64Interp)
        ensures
            interp@ == (CpuView { regs: RegistersView::zeroed(), halted: false }),
    {
        Amd64Interp::new()
    }
}

impl ProcessorImplementation for Amd64Interp {
    open spec fn halted(&self) -> bool {
        self@.halted
    }

    /// Points the instruction pointer at the entry point of `map`, and the
    /// stack pointer at its starting stack.
    fn init<M: MemoryMap>(&mut self, map: &mut M)
        ensures
            final(self)@ == old(self)@.with_rip(old(map)@.entry).with_gpr(
                RSP as int,
                STARTING_STACK,
            ),
            final(map)@ == old(map)@,
    {
        self.regs.rip = map.entry_point();
        self.regs.gprs[RSP] = map.starting_stack();
    }

    /// Whether the halting instruction has not been carried out yet.
    fn running(&self) -> (running: bool)
        ensures
            running == !self@.halted,
    {
        !self.done
    }

    /// Carries out one instruction, prefixes included. A fault leaves the
    /// processor and the memory as they were.
    fn tick<M: MemoryMap>(&mut self, map: &mut M) -> (outcome: Result<(), Fault>)
        ensures
            stepped(
                old(self)@,
                old(map)@,
                final(self)@,
                final(map)@,
                outcome,
                step(old(self)@, old(map)@),
            ),
    {
        proof {
            if self@.halted {
                lemma_halt_is_final(self@, map@);
            }
        }
        let head = self.gather_prefixes(map)?;
        let saved = self.regs;
        self.regs.rip = head.next;
        let outcome = self.run(map, head);
        if outcome.is_err() {
            self.regs = saved;
        }
        outcome
    }
}

} // verus!
