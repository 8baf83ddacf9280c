//! A growable buffer of machine code at a known address, with named labels
//! and relocations that are resolved in a second pass.

use super::encoding::{
    append_le, fits_signed, le_bytes, lemma_le_bytes_congruent, lemma_le_bytes_len,
    lemma_pow256_values, lemma_signed_round_trip, load_le, pow256, raw_of, signed_from, store_le,
    unsigned_of, valid_width,
};
use super::state::{lemma_resolve_settles, lemma_wf_kept, AssemblerState, Relocation};
use crate::error::HookError;
use vstd::prelude::*;

verus! {

/// A name and the address it stands for.
#[derive(Debug, Clone)]
pub struct Label {
    pub name: String,
    pub address: i64,
}

/// A placeholder that waits for the address of a label.
#[derive(Debug, Clone)]
pub struct AssemblerLabelUpdates {
    pub address: i64,
    pub name: String,
    pub size: u8,
}

/// The map that a list of label definitions amounts to: a later definition
/// of a name overrides an earlier one.
pub open spec fn label_map(entries: Seq<Label>) -> Map<Seq<char>, int>
    decreases entries.len(),
{
    if entries.len() == 0 {
        Map::empty()
    } else {
        label_map(entries.drop_last()).insert(
            entries.last().name@,
            entries.last().address as int,
        )
    }
}

/// The relocations that a list of recorded updates amounts to.
pub open spec fn relocations_of(updates: Seq<AssemblerLabelUpdates>) -> Seq<Relocation> {
    Seq::new(
        updates.len(),
        |i: int|
            Relocation {
                address: updates[i].address as int,
                name: updates[i].name@,
                size: updates[i].size as nat,
            },
    )
}

/// The layout of any 64-bit value over a narrower width is that of its
/// unsigned 64-bit counterpart.
pub proof fn lemma_le_bytes_low(value: int, n: nat)
    requires
        valid_width(n),
    ensures
        le_bytes(unsigned_of(value, 8), n) == le_bytes(value, n),
{
    lemma_pow256_values();
    if value < 0 {
        let k: int = if n == 1 {
            0x100_0000_0000_0000
        } else if n == 2 {
            0x1_0000_0000_0000
        } else if n == 4 {
            0x1_0000_0000
        } else {
            1
        };
        lemma_le_bytes_congruent(value, k, n);
        assert(k * pow256(n) == pow256(8));
    }
}

/// An assembler that knows no instruction set: it writes, reads and
/// overwrites little-endian values, and keeps labels and relocations.
#[derive(Debug, Clone)]
pub struct BaseAssembler {
    pub base_address: i64,
    pub buffer: Vec<u8>,
    pub labels: Vec<Label>,
    pub label_updates: Vec<AssemblerLabelUpdates>,
}

impl View for BaseAssembler {
    type V = AssemblerState;

    open spec fn view(&self) -> AssemblerState {
        AssemblerState {
            base: self.base_address as int,
            bytes: self.buffer@,
            labels: label_map(self.labels@),
            pending: relocations_of(self.label_updates@),
        }
    }
}

impl BaseAssembler {
    /// An empty buffer whose first byte will stand at `base_address`.
    pub fn new(base_address: i64) -> (assembler: Self)
        ensures
            assembler@.base == base_address,
            assembler@.bytes == Seq::<u8>::empty(),
            assembler@.labels == Map::<Seq<char>, int>::empty(),
            assembler@.pending == Seq::<Relocation>::empty(),
            assembler@.wf(),
    {
        BaseAssembler {
            base_address,
            buffer: Vec::new(),
            labels: Vec::new(),
            label_updates: Vec::new(),
        }
    }

    /// The address at which the next byte will be written.
    pub fn current_address(&self) -> (address: i64)
        requires
            self@.wf(),
        ensures
            address == self@.end(),
    {
        (self.base_address as i128 + self.buffer.len() as i128) as i64
    }

    /// The code written so far.
    pub fn buffer(&self) -> (bytes: &[u8])
        ensures
            bytes@ == self@.bytes,
    {
        self.buffer.as_slice()
    }

    /// The index in the buffer of the byte at `address`.
    fn offset_of(&self, address: i64, n: usize) -> (offset: usize)
        requires
            self@.holds(address as int, n as nat),
        ensures
            offset == address - self@.base,
            offset + n <= self@.bytes.len(),
    {
        let len = self.buffer.len();
        (address as i128 - self.base_address as i128) as usize
    }

    /// Reads the `n` bytes at `address` as a signed little-endian value; `n`
    /// is 1, 2, 4 or 8.
    pub fn read(&self, address: i64, n: usize) -> (value: i64)
        requires
            valid_width(n as nat),
            self@.holds(address as int, n as nat),
        ensures
            value == self@.value_at(address as int, n as nat),
            fits_signed(value as int, n as nat),
    {
        let offset = self.offset_of(address, n);
        signed_from(load_le(&self.buffer, offset, n), n)
    }

    /// Appends one byte as it stands.
    pub(crate) fn emit_byte(&mut self, byte: u8)
        requires
            old(self)@.wf(),
            old(self)@.has_room(1),
        ensures
            final(self)@ == old(self)@.emit(seq![byte]),
            final(self)@.wf(),
            final(self)@.end() == old(self)@.end() + 1,
    {
        self.buffer.push(byte);
        proof {
            assert(self@.bytes =~= old(self)@.bytes + seq![byte]);
            lemma_wf_kept(old(self)@, self@);
        }
    }

    /// Appends the `n` low-order bytes of `value`, least significant first;
    /// `n` is 1, 2, 4 or 8. Returns the address they were written at.
    pub fn write(&mut self, value: i64, n: usize) -> (address: i64)
        requires
            valid_width(n as nat),
            old(self)@.wf(),
            old(self)@.has_room(n as nat),
        ensures
            final(self)@ == old(self)@.emit(le_bytes(value as int, n as nat)),
            final(self)@.wf(),
            address == old(self)@.end(),
            final(self)@.run(address as int, n as nat) == le_bytes(value as int, n as nat),
            fits_signed(value as int, n as nat) ==> final(self)@.value_at(address as int, n as nat)
                == value,
            final(self)@.end() == old(self)@.end() + n as nat,
    {
        let address = self.current_address();
        proof {
            if fits_signed(value as int, n as nat) {
                lemma_signed_round_trip(value as int, n as nat);
            }
            lemma_le_bytes_low(value as int, n as nat);
            lemma_le_bytes_len(value as int, n as nat);
            lemma_pow256_values();
        }
        append_le(&mut self.buffer, raw_of(value, 8), n);
        proof {
            assert(self@.run(address as int, n as nat) =~= le_bytes(value as int, n as nat));
            lemma_wf_kept(old(self)@, self@);
        }
        address
    }

    /// Writes the `n` low-order bytes of `value` over the code at `address`,
    /// least significant first; `n` is 1, 2, 4 or 8.
    pub fn rewrite(&mut self, address: i64, value: i64, n: usize)
        requires
            valid_width(n as nat),
            old(self)@.wf(),
            old(self)@.holds(address as int, n as nat),
        ensures
            final(self)@ == old(self)@.patch(address as int, le_bytes(value as int, n as nat)),
            final(self)@.wf(),
            final(self)@.run(address as int, n as nat) == le_bytes(value as int, n as nat),
            fits_signed(value as int, n as nat) ==> final(self)@.value_at(address as int, n as nat)
                == value,
    {
        let offset = self.offset_of(address, n);
        proof {
            if fits_signed(value as int, n as nat) {
                lemma_signed_round_trip(value as int, n as nat);
            }
            lemma_le_bytes_low(value as int, n as nat);
            lemma_le_bytes_len(value as int, n as nat);
            lemma_pow256_values();
        }
        store_le(&mut self.buffer, offset, raw_of(value, 8), n);
        proof {
            assert(self@.bytes.len() == old(self)@.bytes.len());
            assert(self@.pending == old(self)@.pending);
            assert(self@.run(address as int, n as nat) =~= le_bytes(value as int, n as nat));
            lemma_wf_kept(old(self)@, self@);
        }
    }

    /// Reads the byte at `address` as a signed value.
    pub fn read8(&self, address: i64) -> (value: i8)
        requires
            self@.holds(address as int, 1),
        ensures
            value == self@.value_at(address as int, 1),
    {
        proof {
            lemma_pow256_values();
        }
        self.read(address, 1) as i8
    }

    /// Reads the two bytes at `address` as a signed little-endian value.
    pub fn read16(&self, address: i64) -> (value: i16)
        requires
            self@.holds(address as int, 2),
        ensures
            value == self@.value_at(address as int, 2),
    {
        proof {
            lemma_pow256_values();
        }
        self.read(address, 2) as i16
    }

    /// Reads the four bytes at `address` as a signed little-endian value.
    pub fn read32(&self, address: i64) -> (value: i32)
        requires
            self@.holds(address as int, 4),
        ensures
            value == self@.value_at(address as int, 4),
    {
        proof {
            lemma_pow256_values();
        }
        self.read(address, 4) as i32
    }

    /// Reads the eight bytes at `address` as a signed little-endian value.
    pub fn read64(&self, address: i64) -> (value: i64)
        requires
            self@.holds(address as int, 8),
        ensures
            value == self@.value_at(address as int, 8),
    {
        self.read(address, 8)
    }

    /// Appends one byte; returns the address it was written at.
    pub fn write8(&mut self, value: i8) -> (address: i64)
        requires
            old(self)@.wf(),
            old(self)@.has_room(1),
        ensures
            final(self)@ == old(self)@.emit(le_bytes(value as int, 1)),
            final(self)@.wf(),
            address == old(self)@.end(),
            final(self)@.value_at(address as int, 1) == value,
            final(self)@.end() == old(self)@.end() + 1,
    {
        proof {
            lemma_pow256_values();
            lemma_signed_round_trip(value as int, 1);
        }
        self.write(value as i64, 1)
    }

    /// Appends a two-byte little-endian value; returns the address it was
    /// written at.
    pub fn write16(&mut self, value: i16) -> (address: i64)
        requires
            old(self)@.wf(),
            old(self)@.has_room(2),
        ensures
            final(self)@ == old(self)@.emit(le_bytes(value as int, 2)),
            final(self)@.wf(),
            address == old(self)@.end(),
            final(self)@.value_at(address as int, 2) == value,
            final(self)@.end() == old(self)@.end() + 2,
    {
        proof {
            lemma_pow256_values();
            lemma_signed_round_trip(value as int, 2);
        }
        self.write(value as i64, 2)
    }

    /// Appends a four-byte little-endian value; returns the address it was
    /// written at.
    pub fn write32(&mut self, value: i32) -> (address: i64)
        requires
            old(self)@.wf(),
            old(self)@.has_room(4),
        ensures
            final(self)@ == old(self)@.emit(le_bytes(value as int, 4)),
            final(self)@.wf(),
            address == old(self)@.end(),
            final(self)@.value_at(address as int, 4) == value,
            final(self)@.end() == old(self)@.end() + 4,
    {
        proof {
            lemma_pow256_values();
            lemma_signed_round_trip(value as int, 4);
        }
        self.write(value as i64, 4)
    }

    /// Appends an eight-byte little-endian value; returns the address it was
    /// written at.
    pub fn write64(&mut self, value: i64) -> (address: i64)
        requires
            old(self)@.wf(),
            old(self)@.has_room(8),
        ensures
            final(self)@ == old(self)@.emit(le_bytes(value as int, 8)),
            final(self)@.wf(),
            address == old(self)@.end(),
            final(self)@.value_at(address as int, 8) == value,
            final(self)@.end() == old(self)@.end() + 8,
    {
        proof {
            lemma_pow256_values();
            lemma_signed_round_trip(value as int, 8);
        }
        self.write(value, 8)
    }

    /// Overwrites the byte at `address`.
    pub fn rewrite8(&mut self, address: i64, value: i8)
        requires
            old(self)@.wf(),
            old(self)@.holds(address as int, 1),
        ensures
            final(self)@ == old(self)@.patch(address as int, le_bytes(value as int, 1)),
            final(self)@.wf(),
            final(self)@.value_at(address as int, 1) == value,
    {
        proof {
            lemma_pow256_values();
            lemma_signed_round_trip(value as int, 1);
        }
        self.rewrite(address, value as i64, 1)
    }

    /// Overwrites the two bytes at `address` with a little-endian value.
    pub fn rewrite16(&mut self, address: i64, value: i16)
        requires
            old(self)@.wf(),
            old(self)@.holds(address as int, 2),
        ensures
            final(self)@ == old(self)@.patch(address as int, le_bytes(value as int, 2)),
            final(self)@.wf(),
            final(self)@.value_at(address as int, 2) == value,
    {
        proof {
            lemma_pow256_values();
            lemma_signed_round_trip(value as int, 2);
        }
        self.rewrite(address, value as i64, 2)
    }

    /// Overwrites the four bytes at `address` with a little-endian value.
    pub fn rewrite32(&mut self, address: i64, value: i32)
        requires
            old(self)@.wf(),
            old(self)@.holds(address as int, 4),
        ensures
            final(self)@ == old(self)@.patch(address as int, le_bytes(value as int, 4)),
            final(self)@.wf(),
            final(self)@.value_at(address as int, 4) == value,
    {
        proof {
            lemma_pow256_values();
            lemma_signed_round_trip(value as int, 4);
        }
        self.rewrite(address, value as i64, 4)
    }

    /// Overwrites the eight bytes at `address` with a little-endian value.
    pub fn rewrite64(&mut self, address: i64, value: i64)
        requires
            old(self)@.wf(),
            old(self)@.holds(address as int, 8),
        ensures
            final(self)@ == old(self)@.patch(address as int, le_bytes(value as int, 8)),
            final(self)@.wf(),
            final(self)@.value_at(address as int, 8) == value,
    {
        proof {
            lemma_pow256_values();
            lemma_signed_round_trip(value as int, 8);
        }
        self.rewrite(address, value, 8)
    }

    /// Makes `name` stand for the current end of the buffer. An earlier
    /// definition of the same name is overridden.
    pub fn label(&mut self, name: &str)
        requires
            old(self)@.wf(),
        ensures
            final(self)@ == old(self)@.define(name@),
            final(self)@.wf(),
    {
        let address = self.current_address();
        let entry = Label { name: name.to_owned(), address };
        self.labels.push(entry);
        proof {
            assert(self.labels@.drop_last() =~= old(self).labels@);
            lemma_wf_kept(old(self)@, self@);
        }
    }

    /// The address that `name` stands for, if it is defined.
    pub fn label_address(&self, name: &str) -> (found: Option<i64>)
        ensures
            match found {
                Some(address) => self@.labels.contains_key(name@) && self@.labels[name@]
                    == address,
                None => !self@.labels.contains_key(name@),
            },
    {
        let key = name.to_owned();
        self.lookup(&key)
    }

    /// The address of the latest definition of `key`, if there is one.
    fn lookup(&self, key: &String) -> (found: Option<i64>)
        ensures
            match found {
                Some(address) => self@.labels.contains_key(key@) && self@.labels[key@] == address,
                None => !self@.labels.contains_key(key@),
            },
    {
        let mut i: usize = self.labels.len();
        proof {
            assert(self.labels@.take(i as int) =~= self.labels@);
        }
        while i > 0
            invariant
                i <= self.labels@.len(),
                label_map(self.labels@).contains_key(key@) == label_map(
                    self.labels@.take(i as int),
                ).contains_key(key@),
                label_map(self.labels@).contains_key(key@) ==> label_map(self.labels@)[key@]
                    == label_map(self.labels@.take(i as int))[key@],
            decreases i,
        {
            proof {
                assert(self.labels@.take(i as int).drop_last() =~= self.labels@.take(i - 1));
            }
            i = i - 1;
            if self.labels[i].name == *key {
                return Some(self.labels[i].address);
            }
        }
        None
    }

    /// Appends a zeroed placeholder of `size` bytes and records that it is to
    /// hold the address of the label `name`; returns the placeholder's address.
    pub fn reference_label(&mut self, name: &str, size: u8) -> (address: i64)
        requires
            valid_width(size as nat),
            old(self)@.wf(),
            old(self)@.has_room(size as nat),
        ensures
            final(self)@ == old(self)@.refer(name@, size as nat),
            final(self)@.wf(),
            address == old(self)@.end(),
            final(self)@.end() == old(self)@.end() + size as nat,
    {
        let address = self.current_address();
        let update = AssemblerLabelUpdates { address, name: name.to_owned(), size };
        self.label_updates.push(update);
        let ghost recorded = self@;
        proof {
            lemma_le_bytes_len(0, size as nat);
            assert(recorded.pending =~= old(self)@.pending.push(
                Relocation { address: address as int, name: name@, size: size as nat },
            ));
        }
        append_le(&mut self.buffer, 0, size as usize);
        proof {
            assert(self@.pending == recorded.pending);
            assert forall|i: int| 0 <= i < self@.pending.len() implies #[trigger] self@.placed(
                i,
            ) by {
                if i < old(self)@.pending.len() {
                    assert(old(self)@.placed(i));
                }
            }
            assert forall|i: int, j: int| 0 <= i < j < self@.pending.len() implies (
            #[trigger] self@.pending[i]).address + self@.pending[i].size <= (
            #[trigger] self@.pending[j]).address by {
                assert(old(self)@.placed(i));
            }
        }
        address
    }

    /// Resolves every relocation: writes over each placeholder the address of
    /// its label, cut to the placeholder's width. Where some label is not
    /// defined, nothing is written and the call fails.
    pub fn update_labels(&mut self) -> (result: Result<(), HookError>)
        requires
            old(self)@.wf(),
        ensures
            match result {
                Ok(_) => !old(self)@.dangling() && final(self)@ == old(self)@.resolve()
                    && final(self)@.settled(),
                Err(e) => e == HookError::UnresolvedLabel && old(self)@.dangling() && final(self)@
                    == old(self)@,
            },
            final(self)@.wf(),
            final(self)@.base == old(self)@.base,
            final(self)@.bytes.len() == old(self)@.bytes.len(),
            final(self)@.labels == old(self)@.labels,
            final(self)@.pending == old(self)@.pending,
    {
        let count = self.label_updates.len();
        let mut targets: Vec<i64> = Vec::new();
        let mut i: usize = 0;
        while i < count
            invariant
                i <= count,
                count == self.label_updates@.len(),
                self == old(self),
                self@.wf(),
                targets@.len() == i,
                forall|j: int|
                    0 <= j < i ==> self@.labels.contains_key(#[trigger] self@.pending[j].name)
                        && targets@[j] == self@.labels[self@.pending[j].name],
            decreases count - i,
        {
            match self.lookup(&self.label_updates[i].name) {
                Some(address) => {
                    targets.push(address);
                },
                None => {
                    proof {
                        assert(!self@.labels.contains_key(self@.pending[i as int].name));
                    }
                    return Err(HookError::UnresolvedLabel);
                },
            }
            i = i + 1;
        }
        let ghost start = self@;
        let mut k: usize = 0;
        while k < count
            invariant
                k <= count,
                count == start.pending.len(),
                count == self.label_updates@.len(),
                start == old(self)@,
                start.wf(),
                !start.dangling(),
                targets@.len() == count,
                forall|j: int|
                    0 <= j < count ==> targets@[j] == start.labels[(
                    #[trigger] start.pending[j]).name],
                self@ == start.resolved_upto(k as nat),
            decreases count - k,
        {
            let address = self.label_updates[k].address;
            let size = self.label_updates[k].size;
            proof {
                super::state::lemma_resolved_upto(start, k as nat);
                assert(start.placed(k as int));
                assert(self@.placed(k as int));
                assert(start.pending[k as int].address == address);
            }
            self.rewrite(address, targets[k], size as usize);
            k = k + 1;
        }
        proof {
            lemma_resolve_settles(start);
        }
        Ok(())
    }
}

} // verus!
