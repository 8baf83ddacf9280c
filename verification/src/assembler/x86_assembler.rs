//! The encoders of the 32-bit x86 instructions that the engine's stubs and
//! trampolines are made of.

use super::base_assembler::BaseAssembler;
use super::encoding::{
    le_bytes, lemma_le_bytes_congruent, lemma_le_bytes_len, lemma_pow256_values, pow256,
};
use super::state::{AssemblerState, Relocation};
use crate::error::HookError;
use vstd::prelude::*;

verus! {

/// The registers that an operand can name.
#[derive(Debug, Clone, Copy, PartialEq, Eq, Structural, PartialOrd, Ord)]
pub enum X86Register {
    EAX,
    ECX,
    EDX,
    EBX,
    ESP,
    EBP,
    ESI,
    EDI,
    XMM0,
    XMM1,
    XMM2,
    XMM3,
    XMM4,
    XMM5,
    XMM6,
    XMM7,
}

impl X86Register {
    /// The number of the register: 0 to 7 for the general registers, and
    /// 0x80 to 0x87 for the vector registers.
    pub open spec fn spec_code(self) -> u8 {
        match self {
            X86Register::EAX => 0x00,
            X86Register::ECX => 0x01,
            X86Register::EDX => 0x02,
            X86Register::EBX => 0x03,
            X86Register::ESP => 0x04,
            X86Register::EBP => 0x05,
            X86Register::ESI => 0x06,
            X86Register::EDI => 0x07,
            X86Register::XMM0 => 0x80,
            X86Register::XMM1 => 0x81,
            X86Register::XMM2 => 0x82,
            X86Register::XMM3 => 0x83,
            X86Register::XMM4 => 0x84,
            X86Register::XMM5 => 0x85,
            X86Register::XMM6 => 0x86,
            X86Register::XMM7 => 0x87,
        }
    }

    /// The number of the register.
    #[verifier::when_used_as_spec(spec_code)]
    pub fn code(self) -> (code: u8)
        ensures
            code == self.spec_code(),
    {
        match self {
            X86Register::EAX => 0x00,
            X86Register::ECX => 0x01,
            X86Register::EDX => 0x02,
            X86Register::EBX => 0x03,
            X86Register::ESP => 0x04,
            X86Register::EBP => 0x05,
            X86Register::ESI => 0x06,
            X86Register::EDI => 0x07,
            X86Register::XMM0 => 0x80,
            X86Register::XMM1 => 0x81,
            X86Register::XMM2 => 0x82,
            X86Register::XMM3 => 0x83,
            X86Register::XMM4 => 0x84,
            X86Register::XMM5 => 0x85,
            X86Register::XMM6 => 0x86,
            X86Register::XMM7 => 0x87,
        }
    }
}

/// A memory operand: the address held in `reg`, moved by `offset` bytes.
#[derive(Debug, Clone, Copy)]
pub struct X86Pointer {
    pub reg: X86Register,
    pub offset: i32,
}

impl X86Pointer {
    pub fn new(reg: X86Register, offset: i32) -> (pointer: Self)
        ensures
            pointer.reg == reg,
            pointer.offset == offset,
    {
        X86Pointer { reg, offset }
    }
}

impl core::ops::Add<i32> for X86Register {
    type Output = X86Pointer;

    /// The memory operand `offset` bytes behind the address held in the register.
    fn add(self, offset: i32) -> (pointer: X86Pointer) {
        X86Pointer { reg: self, offset }
    }
}

impl vstd::std_specs::ops::AddSpecImpl<i32> for X86Register {
    open spec fn obeys_add_spec() -> bool {
        true
    }

    open spec fn add_req(self, offset: i32) -> bool {
        true
    }

    open spec fn add_spec(self, offset: i32) -> X86Pointer {
        X86Pointer { reg: self, offset }
    }
}

/// Marks a 32-bit memory operand where one is written down.
#[derive(Debug, Clone, Copy)]
pub struct RegMem32;

impl RegMem32 {
    /// The memory operand at `ptr`.
    pub fn index(&self, ptr: X86Pointer) -> (operand: X86Pointer)
        ensures
            operand == ptr,
    {
        ptr
    }
}

/// What the ModRM byte of an instruction addresses.
pub enum X86Operand {
    Register(X86Register),
    ModRM(X86Pointer),
}

impl X86Operand {
    /// The number of the register that the operand names or goes through.
    pub fn reg_idx(&self) -> (code: u8)
        ensures
            code == match *self {
                X86Operand::Register(reg) => reg.code(),
                X86Operand::ModRM(ptr) => ptr.reg.code(),
            },
    {
        match self {
            X86Operand::Register(reg) => reg.code(),
            X86Operand::ModRM(ptr) => ptr.reg.code(),
        }
    }
}

/// The ModRM byte: the addressing mode in the two high bits, then the
/// register or opcode digit, and the base register in the three low bits.
pub open spec fn mod_rm_byte(mode: u8, digit: u8, rm: u8) -> u8 {
    (mode << 6) | (digit << 3) | rm
}

/// The addressing mode that a memory operand is encoded with: 0 where there
/// is no offset to encode, 1 where the offset fits a signed byte, 2 where it
/// takes four bytes. EBP has no form without an offset.
pub open spec fn addressing_mode(ptr: X86Pointer) -> u8 {
    if ptr.offset == 0 && ptr.reg != X86Register::EBP {
        0
    } else if -0x80 <= ptr.offset <= 0x7f {
        1
    } else {
        2
    }
}

/// The offset bytes that follow the ModRM byte of a memory operand.
pub open spec fn displacement_bytes(ptr: X86Pointer) -> Seq<u8> {
    if addressing_mode(ptr) == 0 {
        Seq::<u8>::empty()
    } else if addressing_mode(ptr) == 1 {
        le_bytes(ptr.offset as int, 1)
    } else {
        le_bytes(ptr.offset as int, 4)
    }
}

/// The scaled-index byte that an operand through ESP needs after its ModRM byte.
pub open spec fn sib_bytes(ptr: X86Pointer) -> Seq<u8> {
    if ptr.reg == X86Register::ESP {
        seq![0x24u8]
    } else {
        Seq::<u8>::empty()
    }
}

/// The operand bytes of an instruction: the ModRM byte with `digit` in its
/// middle field and, for a memory operand, what has to follow it.
pub open spec fn operand_bytes(op: X86Operand, digit: u8) -> Seq<u8> {
    match op {
        X86Operand::Register(reg) => seq![mod_rm_byte(3, digit, reg.code())],
        X86Operand::ModRM(ptr) => seq![mod_rm_byte(addressing_mode(ptr), digit, ptr.reg.code())]
            + sib_bytes(ptr) + displacement_bytes(ptr),
    }
}

/// The four offset bytes of a relative jump or call of five bytes that
/// starts at `start` and goes to `target`: the distance is counted from the
/// end of the instruction.
pub open spec fn relative_bytes(start: int, target: int) -> Seq<u8> {
    le_bytes(target - (start + 5), 4)
}

/// With each field in its range, the ModRM byte is the sum of the fields at
/// their places.
pub proof fn lemma_mod_rm_fields(mode: u8, digit: u8, rm: u8)
    requires
        mode < 4,
        digit < 8,
        rm < 8,
    ensures
        mod_rm_byte(mode, digit, rm) == 64 * mode + 8 * digit + rm,
{
    assert(mode < 4 && digit < 8 && rm < 8 ==> ((mode << 6) | (digit << 3) | rm) == 64 * mode + 8
        * digit + rm) by (bit_vector);
}

/// In the middle field of the ModRM byte a vector register counts by its
/// three low bits: XMM3 is encoded like the digit 3.
pub proof fn lemma_mod_rm_vector_digit(mode: u8, digit: u8, rm: u8)
    ensures
        mod_rm_byte(mode, digit | 0x80, rm) == mod_rm_byte(mode, digit, rm),
        mod_rm_byte(mode, digit, rm) == mod_rm_byte(mode, digit & 0x1f, rm),
{
    assert(((mode << 6) | ((digit | 0x80) << 3) | rm) == ((mode << 6) | (digit << 3) | rm))
        by (bit_vector);
    assert(((mode << 6) | (digit << 3) | rm) == ((mode << 6) | ((digit & 0x1f) << 3) | rm))
        by (bit_vector);
}

/// The operand bytes are at most six: the ModRM byte, the scaled-index byte
/// and four bytes of offset.
pub proof fn lemma_operand_bytes_len(op: X86Operand, digit: u8)
    ensures
        1 <= operand_bytes(op, digit).len() <= 6,
        op is Register ==> operand_bytes(op, digit).len() == 1,
{
    match op {
        X86Operand::Register(reg) => {},
        X86Operand::ModRM(ptr) => {
            lemma_le_bytes_len(ptr.offset as int, 1);
            lemma_le_bytes_len(ptr.offset as int, 4);
        },
    }
}

/// An assembler for 32-bit x86 code.
#[derive(Clone, Debug)]
pub struct X86Assembler {
    inner: BaseAssembler,
}

impl View for X86Assembler {
    type V = AssemblerState;

    closed spec fn view(&self) -> AssemblerState {
        self.inner@
    }
}

impl X86Assembler {
    /// An empty buffer whose first byte will stand at `base_address`.
    pub fn new(base_address: i64) -> (assembler: Self)
        ensures
            assembler@.base == base_address,
            assembler@.bytes == Seq::<u8>::empty(),
            assembler@.labels == Map::<Seq<char>, int>::empty(),
            assembler@.pending == Seq::<Relocation>::empty(),
            assembler@.wf(),
    {
        X86Assembler { inner: BaseAssembler::new(base_address) }
    }

    /// The address at which the next byte will be written.
    pub fn current_address(&self) -> (address: i64)
        requires
            self@.wf(),
        ensures
            address == self@.end(),
    {
        self.inner.current_address()
    }

    /// The code written so far.
    pub fn buffer(&self) -> (bytes: &[u8])
        ensures
            bytes@ == self@.bytes,
    {
        self.inner.buffer()
    }

    /// Reads the byte at `address` as a signed value.
    pub fn read8(&self, address: i64) -> (value: i8)
        requires
            self@.holds(address as int, 1),
        ensures
            value == self@.value_at(address as int, 1),
    {
        self.inner.read8(address)
    }

    /// Reads the two bytes at `address` as a signed little-endian value.
    pub fn read16(&self, address: i64) -> (value: i16)
        requires
            self@.holds(address as int, 2),
        ensures
            value == self@.value_at(address as int, 2),
    {
        self.inner.read16(address)
    }

    /// Reads the four bytes at `address` as a signed little-endian value.
    pub fn read32(&self, address: i64) -> (value: i32)
        requires
            self@.holds(address as int, 4),
        ensures
            value == self@.value_at(address as int, 4),
    {
        self.inner.read32(address)
    }

    /// Reads the eight bytes at `address` as a signed little-endian value.
    pub fn read64(&self, address: i64) -> (value: i64)
        requires
            self@.holds(address as int, 8),
        ensures
            value == self@.value_at(address as int, 8),
    {
        self.inner.read64(address)
    }

    /// Appends one byte; returns the address it was written at.
    pub fn write8(&mut self, value: i8) -> (address: i64)
        requires
            old(self)@.wf(),
            old(self)@.has_room(1),
        ensures
            final(self)@ == old(self)@.emit(le_bytes(value as int, 1)),
            final(self)@.wf(),
            address == old(self)@.end(),
            final(self)@.value_at(address as int, 1) == value,
            final(self)@.end() == old(self)@.end() + 1,
    {
        self.inner.write8(value)
    }

    /// Appends a two-byte little-endian value; returns the address it was
    /// written at.
    pub fn write16(&mut self, value: i16) -> (address: i64)
        requires
            old(self)@.wf(),
            old(self)@.has_room(2),
        ensures
            final(self)@ == old(self)@.emit(le_bytes(value as int, 2)),
            final(self)@.wf(),
            address == old(self)@.end(),
            final(self)@.value_at(address as int, 2) == value,
            final(self)@.end() == old(self)@.end() + 2,
    {
        self.inner.write16(value)
    }

    /// Appends a four-byte little-endian value; returns the address it was
    /// written at.
    pub fn write32(&mut self, value: i32) -> (address: i64)
        requires
            old(self)@.wf(),
            old(self)@.has_room(4),
        ensures
            final(self)@ == old(self)@.emit(le_bytes(value as int, 4)),
            final(self)@.wf(),
            address == old(self)@.end(),
            final(self)@.value_at(address as int, 4) == value,
            final(self)@.end() == old(self)@.end() + 4,
    {
        self.inner.write32(value)
    }

    /// Appends an eight-byte little-endian value; returns the address it was
    /// written at.
    pub fn write64(&mut self, value: i64) -> (address: i64)
        requires
            old(self)@.wf(),
            old(self)@.has_room(8),
        ensures
            final(self)@ == old(self)@.emit(le_bytes(value as int, 8)),
            final(self)@.wf(),
            address == old(self)@.end(),
            final(self)@.value_at(address as int, 8) == value,
            final(self)@.end() == old(self)@.end() + 8,
    {
        self.inner.write64(value)
    }

    /// Overwrites the byte at `address`.
    pub fn rewrite8(&mut self, address: i64, value: i8)
        requires
            old(self)@.wf(),
            old(self)@.holds(address as int, 1),
        ensures
            final(self)@ == old(self)@.patch(address as int, le_bytes(value as int, 1)),
            final(self)@.wf(),
            final(self)@.value_at(address as int, 1) == value,
    {
        self.inner.rewrite8(address, value)
    }

    /// Overwrites the two bytes at `address` with a little-endian value.
    pub fn rewrite16(&mut self, address: i64, value: i16)
        requires
            old(self)@.wf(),
            old(self)@.holds(address as int, 2),
        ensures
            final(self)@ == old(self)@.patch(address as int, le_bytes(value as int, 2)),
            final(self)@.wf(),
            final(self)@.value_at(address as int, 2) == value,
    {
        self.inner.rewrite16(address, value)
    }

    /// Overwrites the four bytes at `address` with a little-endian value.
    pub fn rewrite32(&mut self, address: i64, value: i32)
        requires
            old(self)@.wf(),
            old(self)@.holds(address as int, 4),
        ensures
            final(self)@ == old(self)@.patch(address as int, le_bytes(value as int, 4)),
            final(self)@.wf(),
            final(self)@.value_at(address as int, 4) == value,
    {
        self.inner.rewrite32(address, value)
    }

    /// Overwrites the eight bytes at `address` with a little-endian value.
    pub fn rewrite64(&mut self, address: i64, value: i64)
        requires
            old(self)@.wf(),
            old(self)@.holds(address as int, 8),
        ensures
            final(self)@ == old(self)@.patch(address as int, le_bytes(value as int, 8)),
            final(self)@.wf(),
            final(self)@.value_at(address as int, 8) == value,
    {
        self.inner.rewrite64(address, value)
    }

    /// Makes `name` stand for the current end of the buffer. An earlier
    /// definition of the same name is overridden.
    pub fn label(&mut self, name: &str)
        requires
            old(self)@.wf(),
        ensures
            final(self)@ == old(self)@.define(name@),
            final(self)@.wf(),
    {
        self.inner.label(name)
    }

    /// The address that `name` stands for, if it is defined.
    pub fn label_address(&self, name: &str) -> (found: Option<i64>)
        ensures
            match found {
                Some(address) => self@.labels.contains_key(name@) && self@.labels[name@]
                    == address,
                None => !self@.labels.contains_key(name@),
            },
    {
        self.inner.label_address(name)
    }

    /// Resolves every relocation: writes over each placeholder the address of
    /// its label, cut to the placeholder's width. Where some label is not
    /// defined, nothing is written and the call fails.
    pub fn update_labels(&mut self) -> (result: Result<(), HookError>)
        requires
            old(self)@.wf(),
        ensures
            match result {
                Ok(_) => !old(self)@.dangling() && final(self)@ == old(self)@.resolve()
                    && final(self)@.settled(),
                Err(e) => e == HookError::UnresolvedLabel && old(self)@.dangling() && final(self)@
                    == old(self)@,
            },
            final(self)@.wf(),
            final(self)@.base == old(self)@.base,
            final(self)@.bytes.len() == old(self)@.bytes.len(),
            final(self)@.labels == old(self)@.labels,
            final(self)@.pending == old(self)@.pending,
    {
        self.inner.update_labels()
    }

    /// Appends a zeroed placeholder of four bytes that is to hold the address
    /// of the label `name`.
    pub fn label32(&mut self, name: &str)
        requires
            old(self)@.wf(),
            old(self)@.has_room(4),
        ensures
            final(self)@ == old(self)@.refer(name@, 4),
            final(self)@.wf(),
            final(self)@.end() == old(self)@.end() + 4,
    {
        self.inner.reference_label(name, 4);
    }

    /// Appends the bytes of `code` from index `from` up to index `to` as they stand.
    pub fn write_bytes(&mut self, code: &Vec<u8>, from: usize, to: usize)
        requires
            old(self)@.wf(),
            from <= to <= code@.len(),
            old(self)@.has_room((to - from) as nat),
        ensures
            final(self)@ == old(self)@.emit(code@.subrange(from as int, to as int)),
            final(self)@.wf(),
            final(self)@.end() == old(self)@.end() + (to - from) as nat,
    {
        let mut i: usize = from;
        proof {
            assert(self@.bytes =~= old(self)@.bytes + code@.subrange(from as int, from as int));
        }
        while i < to
            invariant
                from <= i <= to <= code@.len(),
                old(self)@.has_room((to - from) as nat),
                self@ == old(self)@.emit(code@.subrange(from as int, i as int)),
                self@.wf(),
            decreases to - i,
        {
            let ghost before = self@;
            self.inner.emit_byte(code[i]);
            proof {
                assert(self@.bytes =~= old(self)@.bytes + code@.subrange(from as int, i + 1));
            }
            i = i + 1;
        }
    }

    /// Appends the operand bytes of an instruction: the ModRM byte with
    /// `digit` in its middle field and, for a memory operand, the
    /// scaled-index byte and the offset that its addressing mode asks for.
    pub fn encode_mod_rm(&mut self, op: &X86Operand, digit: u8)
        requires
            old(self)@.wf(),
            old(self)@.has_room(operand_bytes(*op, digit).len()),
        ensures
            final(self)@ == old(self)@.emit(operand_bytes(*op, digit)),
            final(self)@.wf(),
            final(self)@.end() == old(self)@.end() + operand_bytes(*op, digit).len(),
    {
        match op {
            X86Operand::Register(reg) => {
                self.inner.emit_byte((3u8 << 6) | (digit << 3) | reg.code());
            },
            X86Operand::ModRM(ptr) => {
                proof {
                    lemma_le_bytes_len(ptr.offset as int, 1);
                    lemma_le_bytes_len(ptr.offset as int, 4);
                }
                let mode: u8 = if ptr.offset == 0 && ptr.reg != X86Register::EBP {
                    0
                } else if ptr.offset <= 0x7f && ptr.offset >= -0x80 {
                    1
                } else {
                    2
                };
                self.inner.emit_byte((mode << 6) | (digit << 3) | ptr.reg.code());
                if ptr.reg == X86Register::ESP {
                    self.inner.emit_byte(0x24);
                }
                if mode == 1 {
                    self.inner.write(ptr.offset as i64, 1);
                } else if mode == 2 {
                    self.inner.write(ptr.offset as i64, 4);
                }
                proof {
                    assert(self@.bytes =~= old(self)@.bytes + operand_bytes(*op, digit));
                }
            },
        }
    }

    /// Appends one opcode byte and the operand bytes for `op` with `digit`.
    fn one_byte_form(&mut self, opcode: u8, op: &X86Operand, digit: u8)
        requires
            old(self)@.wf(),
            old(self)@.has_room(1 + operand_bytes(*op, digit).len()),
        ensures
            final(self)@ == old(self)@.emit(seq![opcode] + operand_bytes(*op, digit)),
            final(self)@.wf(),
            final(self)@.end() == old(self)@.end() + 1 + operand_bytes(*op, digit).len(),
    {
        self.inner.emit_byte(opcode);
        self.encode_mod_rm(op, digit);
        proof {
            assert(self@.bytes =~= old(self)@.bytes + (seq![opcode] + operand_bytes(*op, digit)));
        }
    }

    /// Appends two opcode bytes and the operand bytes for `op` with `digit`.
    fn two_byte_form(&mut self, first: u8, second: u8, op: &X86Operand, digit: u8)
        requires
            old(self)@.wf(),
            old(self)@.has_room(2 + operand_bytes(*op, digit).len()),
        ensures
            final(self)@ == old(self)@.emit(seq![first, second] + operand_bytes(*op, digit)),
            final(self)@.wf(),
            final(self)@.end() == old(self)@.end() + 2 + operand_bytes(*op, digit).len(),
    {
        self.inner.emit_byte(first);
        self.inner.emit_byte(second);
        self.encode_mod_rm(op, digit);
        proof {
            assert(self@.bytes =~= old(self)@.bytes + (seq![first, second] + operand_bytes(
                *op,
                digit,
            )));
        }
    }

    /// Appends three opcode bytes and the operand bytes for `op` with `digit`.
    fn three_byte_form(&mut self, first: u8, second: u8, third: u8, op: &X86Operand, digit: u8)
        requires
            old(self)@.wf(),
            old(self)@.has_room(3 + operand_bytes(*op, digit).len()),
        ensures
            final(self)@ == old(self)@.emit(
                seq![first, second, third] + operand_bytes(*op, digit),
            ),
            final(self)@.wf(),
            final(self)@.end() == old(self)@.end() + 3 + operand_bytes(*op, digit).len(),
    {
        self.inner.emit_byte(first);
        self.inner.emit_byte(second);
        self.inner.emit_byte(third);
        self.encode_mod_rm(op, digit);
        proof {
            assert(self@.bytes =~= old(self)@.bytes + (seq![first, second, third] + operand_bytes(
                *op,
                digit,
            )));
        }
    }

    /// Appends one opcode byte and a four-byte value.
    fn with_immediate(&mut self, opcode: u8, value: i32)
        requires
            old(self)@.wf(),
            old(self)@.has_room(5),
        ensures
            final(self)@ == old(self)@.emit(seq![opcode] + le_bytes(value as int, 4)),
            final(self)@.wf(),
            final(self)@.end() == old(self)@.end() + 5,
    {
        self.inner.emit_byte(opcode);
        self.inner.write32(value);
        proof {
            assert(self@.bytes =~= old(self)@.bytes + (seq![opcode] + le_bytes(value as int, 4)));
        }
    }

    /// Appends a five-byte jump or call with `opcode` that goes to `address`.
    fn relative(&mut self, opcode: u8, address: i64)
        requires
            old(self)@.wf(),
            old(self)@.has_room(5),
        ensures
            final(self)@ == old(self)@.emit(
                seq![opcode] + relative_bytes(old(self)@.end(), address as int),
            ),
            final(self)@.wf(),
            final(self)@.end() == old(self)@.end() + 5,
    {
        let start = self.inner.current_address();
        self.inner.emit_byte(opcode);
        let delta: i128 = address as i128 - (start as i128 + 5);
        let low: i128 = (delta + 0x2_0000_0000_0000_0000) % 0x1_0000_0000;
        proof {
            let q: int = (delta + 0x2_0000_0000_0000_0000) / 0x1_0000_0000;
            lemma_pow256_values();
            lemma_le_bytes_congruent(delta as int, 0x2_0000_0000 - q, 4);
            assert(delta + (0x2_0000_0000 - q) * pow256(4) == low);
        }
        self.inner.write(low as i64, 4);
        proof {
            assert(self@.bytes =~= old(self)@.bytes + (seq![opcode] + relative_bytes(
                old(self)@.end(),
                address as int,
            )));
        }
    }

    /// Appends two bytes as they stand.
    fn two_bytes(&mut self, first: u8, second: u8)
        requires
            old(self)@.wf(),
            old(self)@.has_room(2),
        ensures
            final(self)@ == old(self)@.emit(seq![first, second]),
            final(self)@.wf(),
            final(self)@.end() == old(self)@.end() + 2,
    {
        self.inner.emit_byte(first);
        self.inner.emit_byte(second);
        proof {
            assert(self@.bytes =~= old(self)@.bytes + seq![first, second]);
        }
    }

    /// `nop`: does nothing.
    pub fn nop(&mut self)
        requires
            old(self)@.wf(),
            old(self)@.has_room(1),
        ensures
            final(self)@ == old(self)@.emit(seq![0x90u8]),
            final(self)@.wf(),
            final(self)@.end() == old(self)@.end() + 1,
    {
        self.inner.emit_byte(0x90);
    }

    /// `int3`: traps into the debugger.
    pub fn int3(&mut self)
        requires
            old(self)@.wf(),
            old(self)@.has_room(1),
        ensures
            final(self)@ == old(self)@.emit(seq![0xCCu8]),
            final(self)@.wf(),
            final(self)@.end() == old(self)@.end() + 1,
    {
        self.inner.emit_byte(0xCC);
    }

    /// `ret`: returns to the caller.
    pub fn ret(&mut self)
        requires
            old(self)@.wf(),
            old(self)@.has_room(1),
        ensures
            final(self)@ == old(self)@.emit(seq![0xC3u8]),
            final(self)@.wf(),
            final(self)@.end() == old(self)@.end() + 1,
    {
        self.inner.emit_byte(0xC3);
    }

    /// `ret imm16`: returns and takes `offset` bytes of arguments off the stack.
    pub fn ret_offset(&mut self, offset: i16)
        requires
            old(self)@.wf(),
            old(self)@.has_room(3),
        ensures
            final(self)@ == old(self)@.emit(seq![0xC2u8] + le_bytes(offset as int, 2)),
            final(self)@.wf(),
            final(self)@.end() == old(self)@.end() + 3,
    {
        self.inner.emit_byte(0xC2);
        self.inner.write16(offset);
        proof {
            assert(self@.bytes =~= old(self)@.bytes + (seq![0xC2u8] + le_bytes(offset as int, 2)));
        }
    }

    /// `add reg, imm32`: adds `value` to `reg`.
    pub fn add(&mut self, reg: X86Register, value: i32)
        requires
            old(self)@.wf(),
            old(self)@.has_room(6),
        ensures
            final(self)@ == old(self)@.emit(
                seq![0x81u8, 0xC0u8 | reg.code()] + le_bytes(value as int, 4),
            ),
            final(self)@.wf(),
            final(self)@.end() == old(self)@.end() + 6,
    {
        self.inner.emit_byte(0x81);
        self.inner.emit_byte(0xC0u8 | reg.code());
        self.inner.write32(value);
        proof {
            assert(self@.bytes =~= old(self)@.bytes + (seq![0x81u8, 0xC0u8 | reg.code()]
                + le_bytes(value as int, 4)));
        }
    }

    /// `sub reg, imm32`: takes `value` off `reg`.
    pub fn sub(&mut self, reg: X86Register, value: i32)
        requires
            old(self)@.wf(),
            old(self)@.has_room(6),
        ensures
            final(self)@ == old(self)@.emit(
                seq![0x81u8, 0xE8u8 | reg.code()] + le_bytes(value as int, 4),
            ),
            final(self)@.wf(),
            final(self)@.end() == old(self)@.end() + 6,
    {
        self.inner.emit_byte(0x81);
        self.inner.emit_byte(0xE8u8 | reg.code());
        self.inner.write32(value);
        proof {
            assert(self@.bytes =~= old(self)@.bytes + (seq![0x81u8, 0xE8u8 | reg.code()]
                + le_bytes(value as int, 4)));
        }
    }

    /// `push reg`: puts `reg` on the stack.
    pub fn push(&mut self, reg: X86Register)
        requires
            old(self)@.wf(),
            old(self)@.has_room(1),
        ensures
            final(self)@ == old(self)@.emit(seq![0x50u8 | reg.code()]),
            final(self)@.wf(),
            final(self)@.end() == old(self)@.end() + 1,
    {
        self.inner.emit_byte(0x50u8 | reg.code());
    }

    /// `push [ptr]`: puts the four bytes at `ptr` on the stack.
    pub fn push_ptr(&mut self, ptr: X86Pointer)
        requires
            old(self)@.wf(),
            old(self)@.has_room(1 + operand_bytes(X86Operand::ModRM(ptr), 6).len()),
        ensures
            final(self)@ == old(self)@.emit(
                seq![0xFFu8] + operand_bytes(X86Operand::ModRM(ptr), 6),
            ),
            final(self)@.wf(),
            final(self)@.end() == old(self)@.end() + 1 + operand_bytes(
                X86Operand::ModRM(ptr), 6,
            ).len(),
    {
        self.one_byte_form(0xFF, &X86Operand::ModRM(ptr), 6);
    }

    /// `pop reg`: takes the top of the stack into `reg`.
    pub fn pop(&mut self, reg: X86Register)
        requires
            old(self)@.wf(),
            old(self)@.has_room(1),
        ensures
            final(self)@ == old(self)@.emit(seq![0x58u8 | reg.code()]),
            final(self)@.wf(),
            final(self)@.end() == old(self)@.end() + 1,
    {
        self.inner.emit_byte(0x58u8 | reg.code());
    }

    /// `jmp reg`: goes on at the address held in `reg`.
    pub fn jmp(&mut self, reg: X86Register)
        requires
            old(self)@.wf(),
            old(self)@.has_room(2),
        ensures
            final(self)@ == old(self)@.emit(
                seq![0xFFu8] + operand_bytes(X86Operand::Register(reg), 4),
            ),
            final(self)@.wf(),
            final(self)@.end() == old(self)@.end() + 2,
    {
        self.one_byte_form(0xFF, &X86Operand::Register(reg), 4);
    }

    /// `jmp rel32`: goes on at `address`. The offset written is the distance
    /// from the end of the instruction to `address`, cut to four bytes.
    pub fn jmp_addr(&mut self, address: i64)
        requires
            old(self)@.wf(),
            old(self)@.has_room(5),
        ensures
            final(self)@ == old(self)@.emit(
                seq![0xE9u8] + relative_bytes(old(self)@.end(), address as int),
            ),
            final(self)@.wf(),
            final(self)@.end() == old(self)@.end() + 5,
    {
        self.relative(0xE9, address);
    }

    /// `call reg`: calls the function whose address `reg` holds.
    pub fn call(&mut self, reg: X86Register)
        requires
            old(self)@.wf(),
            old(self)@.has_room(2),
        ensures
            final(self)@ == old(self)@.emit(
                seq![0xFFu8] + operand_bytes(X86Operand::Register(reg), 2),
            ),
            final(self)@.wf(),
            final(self)@.end() == old(self)@.end() + 2,
    {
        self.one_byte_form(0xFF, &X86Operand::Register(reg), 2);
    }

    /// `call rel32`: calls the function at `address`. The offset written is the
    /// distance from the end of the instruction to `address`, cut to four bytes.
    pub fn call_addr(&mut self, address: i64)
        requires
            old(self)@.wf(),
            old(self)@.has_room(5),
        ensures
            final(self)@ == old(self)@.emit(
                seq![0xE8u8] + relative_bytes(old(self)@.end(), address as int),
            ),
            final(self)@.wf(),
            final(self)@.end() == old(self)@.end() + 5,
    {
        self.relative(0xE8, address);
    }

    /// `movsd reg, [ptr]`: loads a double from `ptr` into the vector register `reg`.
    pub fn movsd_ptr(&mut self, reg: X86Register, ptr: X86Pointer)
        requires
            old(self)@.wf(),
            old(self)@.has_room(3 + operand_bytes(X86Operand::ModRM(ptr), reg.code()).len()),
        ensures
            final(self)@ == old(self)@.emit(
                seq![0xF2u8, 0x0Fu8, 0x10u8] + operand_bytes(X86Operand::ModRM(ptr), reg.code()),
            ),
            final(self)@.wf(),
            final(self)@.end() == old(self)@.end() + 3 + operand_bytes(
                X86Operand::ModRM(ptr), reg.code(),
            ).len(),
    {
        self.three_byte_form(0xF2, 0x0F, 0x10, &X86Operand::ModRM(ptr), reg.code());
    }

    /// `movsd [ptr], reg`: stores the double in the vector register `reg` at `ptr`.
    pub fn movsd(&mut self, ptr: X86Pointer, reg: X86Register)
        requires
            old(self)@.wf(),
            old(self)@.has_room(3 + operand_bytes(X86Operand::ModRM(ptr), reg.code()).len()),
        ensures
            final(self)@ == old(self)@.emit(
                seq![0xF2u8, 0x0Fu8, 0x11u8] + operand_bytes(X86Operand::ModRM(ptr), reg.code()),
            ),
            final(self)@.wf(),
            final(self)@.end() == old(self)@.end() + 3 + operand_bytes(
                X86Operand::ModRM(ptr), reg.code(),
            ).len(),
    {
        self.three_byte_form(0xF2, 0x0F, 0x11, &X86Operand::ModRM(ptr), reg.code());
    }

    /// `movss reg, [ptr]`: loads a float from `ptr` into the vector register `reg`.
    pub fn movss_ptr(&mut self, reg: X86Register, ptr: X86Pointer)
        requires
            old(self)@.wf(),
            old(self)@.has_room(3 + operand_bytes(X86Operand::ModRM(ptr), reg.code()).len()),
        ensures
            final(self)@ == old(self)@.emit(
                seq![0xF3u8, 0x0Fu8, 0x10u8] + operand_bytes(X86Operand::ModRM(ptr), reg.code()),
            ),
            final(self)@.wf(),
            final(self)@.end() == old(self)@.end() + 3 + operand_bytes(
                X86Operand::ModRM(ptr), reg.code(),
            ).len(),
    {
        self.three_byte_form(0xF3, 0x0F, 0x10, &X86Operand::ModRM(ptr), reg.code());
    }

    /// `movss [ptr], reg`: stores the float in the vector register `reg` at `ptr`.
    pub fn movss_reg(&mut self, ptr: X86Pointer, reg: X86Register)
        requires
            old(self)@.wf(),
            old(self)@.has_room(3 + operand_bytes(X86Operand::ModRM(ptr), reg.code()).len()),
        ensures
            final(self)@ == old(self)@.emit(
                seq![0xF3u8, 0x0Fu8, 0x11u8] + operand_bytes(X86Operand::ModRM(ptr), reg.code()),
            ),
            final(self)@.wf(),
            final(self)@.end() == old(self)@.end() + 3 + operand_bytes(
                X86Operand::ModRM(ptr), reg.code(),
            ).len(),
    {
        self.three_byte_form(0xF3, 0x0F, 0x11, &X86Operand::ModRM(ptr), reg.code());
    }

    /// `movaps reg, [ptr]`: loads sixteen aligned bytes from `ptr` into the vector
    /// register `reg`.
    pub fn movaps(&mut self, reg: X86Register, ptr: X86Pointer)
        requires
            old(self)@.wf(),
            old(self)@.has_room(2 + operand_bytes(X86Operand::ModRM(ptr), reg.code()).len()),
        ensures
            final(self)@ == old(self)@.emit(
                seq![0x0Fu8, 0x28u8] + operand_bytes(X86Operand::ModRM(ptr), reg.code()),
            ),
            final(self)@.wf(),
            final(self)@.end() == old(self)@.end() + 2 + operand_bytes(
                X86Operand::ModRM(ptr), reg.code(),
            ).len(),
    {
        self.two_byte_form(0x0F, 0x28, &X86Operand::ModRM(ptr), reg.code());
    }

    /// `movaps [ptr], reg`: stores the sixteen bytes of the vector register `reg`
    /// at `ptr`.
    pub fn movaps_reg(&mut self, ptr: X86Pointer, reg: X86Register)
        requires
            old(self)@.wf(),
            old(self)@.has_room(2 + operand_bytes(X86Operand::ModRM(ptr), reg.code()).len()),
        ensures
            final(self)@ == old(self)@.emit(
                seq![0x0Fu8, 0x29u8] + operand_bytes(X86Operand::ModRM(ptr), reg.code()),
            ),
            final(self)@.wf(),
            final(self)@.end() == old(self)@.end() + 2 + operand_bytes(
                X86Operand::ModRM(ptr), reg.code(),
            ).len(),
    {
        self.two_byte_form(0x0F, 0x29, &X86Operand::ModRM(ptr), reg.code());
    }

    /// `lea reg, [label]`: loads the address of `label` into `reg`. The address
    /// is a relocation of four bytes.
    pub fn lea(&mut self, reg: X86Register, label: &str)
        requires
            old(self)@.wf(),
            old(self)@.has_room(6),
        ensures
            final(self)@ == old(self)@.emit(seq![0x8Du8, 0x05u8 | (reg.code() << 3)]).refer(
                label@,
                4,
            ),
            final(self)@.wf(),
            final(self)@.end() == old(self)@.end() + 6,
    {
        self.two_bytes(0x8D, 0x05u8 | (reg.code() << 3));
        self.label32(label);
    }

    /// `mov reg, [label]`: loads the four bytes at `label` into `reg`. The
    /// address is a relocation of four bytes.
    pub fn mov_label(&mut self, reg: X86Register, label: &str)
        requires
            old(self)@.wf(),
            old(self)@.has_room(6),
        ensures
            final(self)@ == old(self)@.emit(seq![0x8Bu8, 0x05u8 | (reg.code() << 3)]).refer(
                label@,
                4,
            ),
            final(self)@.wf(),
            final(self)@.end() == old(self)@.end() + 6,
    {
        self.two_bytes(0x8B, 0x05u8 | (reg.code() << 3));
        self.label32(label);
    }

    /// `mov reg, imm32`: loads `value` into `reg`.
    pub fn mov_val(&mut self, reg: X86Register, value: i32)
        requires
            old(self)@.wf(),
            old(self)@.has_room(5),
        ensures
            final(self)@ == old(self)@.emit(seq![0xB8u8 | reg.code()] + le_bytes(value as int, 4)),
            final(self)@.wf(),
            final(self)@.end() == old(self)@.end() + 5,
    {
        self.with_immediate(0xB8u8 | reg.code(), value);
    }

    /// `mov reg, [ptr]`: loads the four bytes at `ptr` into `reg`.
    pub fn mov_ptr(&mut self, reg: X86Register, ptr: X86Pointer)
        requires
            old(self)@.wf(),
            old(self)@.has_room(1 + operand_bytes(X86Operand::ModRM(ptr), reg.code()).len()),
        ensures
            final(self)@ == old(self)@.emit(
                seq![0x8Bu8] + operand_bytes(X86Operand::ModRM(ptr), reg.code()),
            ),
            final(self)@.wf(),
            final(self)@.end() == old(self)@.end() + 1 + operand_bytes(
                X86Operand::ModRM(ptr), reg.code(),
            ).len(),
    {
        self.one_byte_form(0x8B, &X86Operand::ModRM(ptr), reg.code());
    }

    /// `mov [ptr], reg`: stores `reg` in the four bytes at `ptr`.
    pub fn mov_reg(&mut self, ptr: X86Pointer, reg: X86Register)
        requires
            old(self)@.wf(),
            old(self)@.has_room(1 + operand_bytes(X86Operand::ModRM(ptr), reg.code()).len()),
        ensures
            final(self)@ == old(self)@.emit(
                seq![0x89u8] + operand_bytes(X86Operand::ModRM(ptr), reg.code()),
            ),
            final(self)@.wf(),
            final(self)@.end() == old(self)@.end() + 1 + operand_bytes(
                X86Operand::ModRM(ptr), reg.code(),
            ).len(),
    {
        self.one_byte_form(0x89, &X86Operand::ModRM(ptr), reg.code());
    }

    /// `mov dst, src`: copies the register `src` into the register `dst`.
    pub fn mov_reg2(&mut self, dst: X86Register, src: X86Register)
        requires
            old(self)@.wf(),
            old(self)@.has_room(2),
        ensures
            final(self)@ == old(self)@.emit(
                seq![0x89u8] + operand_bytes(X86Operand::Register(dst), src.code()),
            ),
            final(self)@.wf(),
            final(self)@.end() == old(self)@.end() + 2,
    {
        self.one_byte_form(0x89, &X86Operand::Register(dst), src.code());
    }

    /// `fstp dword [ptr]`: stores the top of the floating-point stack at `ptr` as
    /// a float, and pops it.
    pub fn fstps(&mut self, ptr: X86Pointer)
        requires
            old(self)@.wf(),
            old(self)@.has_room(1 + operand_bytes(X86Operand::ModRM(ptr), 3).len()),
        ensures
            final(self)@ == old(self)@.emit(
                seq![0xD9u8] + operand_bytes(X86Operand::ModRM(ptr), 3),
            ),
            final(self)@.wf(),
            final(self)@.end() == old(self)@.end() + 1 + operand_bytes(
                X86Operand::ModRM(ptr), 3,
            ).len(),
    {
        self.one_byte_form(0xD9, &X86Operand::ModRM(ptr), 3);
    }

    /// `fld dword [ptr]`: pushes the float at `ptr` on the floating-point stack.
    pub fn flds(&mut self, ptr: X86Pointer)
        requires
            old(self)@.wf(),
            old(self)@.has_room(1 + operand_bytes(X86Operand::ModRM(ptr), 0).len()),
        ensures
            final(self)@ == old(self)@.emit(
                seq![0xD9u8] + operand_bytes(X86Operand::ModRM(ptr), 0),
            ),
            final(self)@.wf(),
            final(self)@.end() == old(self)@.end() + 1 + operand_bytes(
                X86Operand::ModRM(ptr), 0,
            ).len(),
    {
        self.one_byte_form(0xD9, &X86Operand::ModRM(ptr), 0);
    }

    /// `fstp qword [ptr]`: stores the top of the floating-point stack at `ptr` as
    /// a double, and pops it.
    pub fn fstpd(&mut self, ptr: X86Pointer)
        requires
            old(self)@.wf(),
            old(self)@.has_room(1 + operand_bytes(X86Operand::ModRM(ptr), 3).len()),
        ensures
            final(self)@ == old(self)@.emit(
                seq![0xDDu8] + operand_bytes(X86Operand::ModRM(ptr), 3),
            ),
            final(self)@.wf(),
            final(self)@.end() == old(self)@.end() + 1 + operand_bytes(
                X86Operand::ModRM(ptr), 3,
            ).len(),
    {
        self.one_byte_form(0xDD, &X86Operand::ModRM(ptr), 3);
    }

    /// `fld qword [ptr]`: pushes the double at `ptr` on the floating-point stack.
    pub fn fldd(&mut self, ptr: X86Pointer)
        requires
            old(self)@.wf(),
            old(self)@.has_room(1 + operand_bytes(X86Operand::ModRM(ptr), 0).len()),
        ensures
            final(self)@ == old(self)@.emit(
                seq![0xDDu8] + operand_bytes(X86Operand::ModRM(ptr), 0),
            ),
            final(self)@.wf(),
            final(self)@.end() == old(self)@.end() + 1 + operand_bytes(
                X86Operand::ModRM(ptr), 0,
            ).len(),
    {
        self.one_byte_form(0xDD, &X86Operand::ModRM(ptr), 0);
    }
}

} // verus!
