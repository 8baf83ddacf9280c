//! The mathematical model of a code buffer: its bytes, the labels defined in
//! it and the relocations that still wait for a label.

use super::encoding::{
    fits_signed, le_bytes, le_value, lemma_le_bytes_len, lemma_signed_round_trip, overwrite,
    signed_of, valid_width,
};
use vstd::prelude::*;

verus! {

/// A placeholder of `size` bytes at `address` that is to hold the address of
/// the label `name`.
pub struct Relocation {
    pub address: int,
    pub name: Seq<char>,
    pub size: nat,
}

/// What an assembler holds, as plain mathematics.
#[verifier::ext_equal]
pub struct AssemblerState {
    /// The address of the first byte.
    pub base: int,
    /// The code written so far.
    pub bytes: Seq<u8>,
    /// The address that each defined label stands for.
    pub labels: Map<Seq<char>, int>,
    /// The relocations recorded so far, oldest first.
    pub pending: Seq<Relocation>,
}

impl AssemblerState {
    /// The address just past the last byte: where the next byte will go.
    pub open spec fn end(self) -> int {
        self.base + self.bytes.len()
    }

    /// Whether the `n` bytes from `address` on are all written.
    pub open spec fn holds(self, address: int, n: nat) -> bool {
        self.base <= address && address + n <= self.end()
    }

    /// Whether `n` more bytes can be written without leaving the address range.
    pub open spec fn has_room(self, n: nat) -> bool {
        self.end() + n <= i64::MAX
    }

    /// The `n` bytes from `address` on.
    pub open spec fn run(self, address: int, n: nat) -> Seq<u8> {
        self.bytes.subrange(address - self.base, address - self.base + n)
    }

    /// The signed little-endian value of the `n` bytes from `address` on.
    pub open spec fn value_at(self, address: int, n: nat) -> int {
        signed_of(le_value(self.run(address, n)) as int, n)
    }

    /// Whether relocation `i` has a valid width and lies in the written bytes.
    pub open spec fn placed(self, i: int) -> bool {
        let r = self.pending[i];
        valid_width(r.size) && self.holds(r.address, r.size)
    }

    /// The invariant of a code buffer: it lies in the address range, and the
    /// placeholders of its relocations lie in it, one after the other.
    pub open spec fn wf(self) -> bool {
        &&& i64::MIN <= self.base
        &&& self.end() <= i64::MAX
        &&& forall|i: int| 0 <= i < self.pending.len() ==> #[trigger] self.placed(i)
        &&& forall|i: int, j: int|
            0 <= i < j < self.pending.len() ==> (#[trigger] self.pending[i]).address
                + self.pending[i].size <= (#[trigger] self.pending[j]).address
    }

    /// The state after `bytes` are appended.
    pub open spec fn emit(self, bytes: Seq<u8>) -> AssemblerState {
        AssemblerState {
            base: self.base,
            bytes: self.bytes + bytes,
            labels: self.labels,
            pending: self.pending,
        }
    }

    /// The state after `bytes` are written over the code from `address` on.
    pub open spec fn patch(self, address: int, bytes: Seq<u8>) -> AssemblerState {
        AssemblerState {
            base: self.base,
            bytes: overwrite(self.bytes, address - self.base, bytes),
            labels: self.labels,
            pending: self.pending,
        }
    }

    /// The state after `name` is made to stand for the current end.
    pub open spec fn define(self, name: Seq<char>) -> AssemblerState {
        AssemblerState {
            base: self.base,
            bytes: self.bytes,
            labels: self.labels.insert(name, self.end()),
            pending: self.pending,
        }
    }

    /// The state after a zeroed placeholder of `size` bytes for the label
    /// `name` is appended and recorded.
    pub open spec fn refer(self, name: Seq<char>, size: nat) -> AssemblerState {
        AssemblerState {
            base: self.base,
            bytes: self.bytes + le_bytes(0, size),
            labels: self.labels,
            pending: self.pending.push(Relocation { address: self.end(), name, size }),
        }
    }

    /// Whether some relocation names a label that is not defined.
    pub open spec fn dangling(self) -> bool {
        exists|i: int| 0 <= i < self.pending.len() && !self.labels.contains_key(
            #[trigger] self.pending[i].name,
        )
    }

    /// What relocation `i` has to hold: the low bytes of its label's address.
    pub open spec fn target_bytes(self, i: int) -> Seq<u8> {
        le_bytes(self.labels[self.pending[i].name], self.pending[i].size)
    }

    /// The state after the first `k` relocations are written out.
    pub open spec fn resolved_upto(self, k: nat) -> AssemblerState
        decreases k,
    {
        if k == 0 {
            self
        } else {
            self.resolved_upto((k - 1) as nat).patch(
                self.pending[k - 1].address,
                self.target_bytes(k - 1),
            )
        }
    }

    /// The state after every relocation is written out.
    pub open spec fn resolve(self) -> AssemblerState {
        self.resolved_upto(self.pending.len())
    }

    /// Whether relocation `i` holds the address of its label.
    pub open spec fn settled_at(self, i: int) -> bool {
        self.labels.contains_key(self.pending[i].name) && self.run(
            self.pending[i].address,
            self.pending[i].size,
        ) == self.target_bytes(i)
    }

    /// Whether no relocation is left unresolved: each placeholder holds the
    /// address of its label.
    pub open spec fn settled(self) -> bool {
        forall|i: int| 0 <= i < self.pending.len() ==> #[trigger] self.settled_at(i)
    }

    /// Whether byte `index` of the code lies in the placeholder of some relocation.
    pub open spec fn in_placeholder(self, index: int) -> bool {
        exists|i: int|
            0 <= i < self.pending.len() && (#[trigger] self.pending[i]).address - self.base
                <= index < self.pending[i].address - self.base + self.pending[i].size
    }
}

/// A buffer stays well formed while its relocations stay as they are and its
/// code does not shrink.
pub proof fn lemma_wf_kept(before: AssemblerState, after: AssemblerState)
    requires
        before.wf(),
        after.base == before.base,
        after.pending == before.pending,
        before.bytes.len() <= after.bytes.len(),
        after.end() <= i64::MAX,
    ensures
        after.wf(),
{
    assert forall|i: int| 0 <= i < after.pending.len() implies #[trigger] after.placed(i) by {
        assert(before.placed(i));
    }
    assert forall|i: int, j: int| 0 <= i < j < after.pending.len() implies (
    #[trigger] after.pending[i]).address + after.pending[i].size <= (
    #[trigger] after.pending[j]).address by {
        assert(before.pending[i].address + before.pending[i].size <= before.pending[j].address);
    }
}

/// Writing the first `k` relocations out changes neither the base, the
/// length, the labels nor the relocations; it settles those `k`, and leaves
/// every byte outside their placeholders as it was.
pub proof fn lemma_resolved_upto(s: AssemblerState, k: nat)
    requires
        s.wf(),
        k <= s.pending.len(),
        !s.dangling(),
    ensures
        s.resolved_upto(k).base == s.base,
        s.resolved_upto(k).bytes.len() == s.bytes.len(),
        s.resolved_upto(k).labels == s.labels,
        s.resolved_upto(k).pending == s.pending,
        s.resolved_upto(k).wf(),
        forall|i: int| 0 <= i < k ==> #[trigger] s.resolved_upto(k).settled_at(i),
        forall|x: int|
            0 <= x < s.bytes.len() && (forall|i: int|
                0 <= i < k ==> !((#[trigger] s.pending[i]).address - s.base <= x
                    < s.pending[i].address - s.base + s.pending[i].size))
                ==> s.resolved_upto(k).bytes[x] == s.bytes[x],
    decreases k,
{
    if k > 0 {
        let prev = s.resolved_upto((k - 1) as nat);
        let now = s.resolved_upto(k);
        lemma_resolved_upto(s, (k - 1) as nat);
        let r = s.pending[k - 1];
        let target = s.target_bytes(k - 1);
        super::encoding::lemma_le_bytes_len(s.labels[r.name], r.size);
        assert(s.placed(k - 1));
        assert(now.bytes.len() == s.bytes.len());
        assert(forall|i: int| 0 <= i < now.pending.len() ==> #[trigger] now.placed(i)) by {
            assert forall|i: int| 0 <= i < now.pending.len() implies #[trigger] now.placed(i) by {
                assert(s.placed(i));
            }
        }
        assert forall|i: int| 0 <= i < k implies #[trigger] now.settled_at(i) by {
            assert(!s.labels.contains_key(s.pending[i].name) ==> s.dangling());
            assert(s.placed(i));
            if i == k - 1 {
                assert(now.run(r.address, r.size) =~= target);
            } else {
                assert(prev.settled_at(i));
                assert(s.pending[i].address + s.pending[i].size <= s.pending[k - 1].address);
                assert(now.run(s.pending[i].address, s.pending[i].size) =~= prev.run(
                    s.pending[i].address,
                    s.pending[i].size,
                ));
            }
        }
        assert forall|x: int|
            0 <= x < s.bytes.len() && (forall|i: int|
                0 <= i < k ==> !((#[trigger] s.pending[i]).address - s.base <= x
                    < s.pending[i].address - s.base + s.pending[i].size)) implies now.bytes[x]
            == s.bytes[x] by {
            assert(!(s.pending[k - 1].address - s.base <= x < s.pending[k - 1].address - s.base
                + s.pending[k - 1].size));
            assert(now.bytes[x] == prev.bytes[x]);
        }
    }
}

/// Once every referenced label is defined, resolving leaves no relocation
/// unresolved, and touches nothing but the placeholders.
pub proof fn lemma_resolve_settles(s: AssemblerState)
    requires
        s.wf(),
        !s.dangling(),
    ensures
        s.resolve().wf(),
        s.resolve().settled(),
        !s.resolve().dangling(),
        s.resolve().base == s.base,
        s.resolve().labels == s.labels,
        s.resolve().pending == s.pending,
        s.resolve().bytes.len() == s.bytes.len(),
        forall|x: int|
            0 <= x < s.bytes.len() && !s.in_placeholder(x) ==> s.resolve().bytes[x] == s.bytes[x],
{
    lemma_resolved_upto(s, s.pending.len());
    let done = s.resolve();
    assert forall|i: int| 0 <= i < done.pending.len() implies #[trigger] done.settled_at(i) by {
        assert(s.resolved_upto(s.pending.len()).settled_at(i));
    }
}

/// Resolving a settled buffer again changes nothing: the second pass writes
/// the bytes that are already there.
pub proof fn lemma_resolve_idempotent(s: AssemblerState)
    requires
        s.wf(),
        !s.dangling(),
    ensures
        s.resolve().resolve() == s.resolve(),
{
    lemma_resolve_settles(s);
    let done = s.resolve();
    lemma_settled_fixed(done, done.pending.len());
}

/// Writing out relocations that are already settled leaves the state as it is.
pub proof fn lemma_settled_fixed(s: AssemblerState, k: nat)
    requires
        s.wf(),
        s.settled(),
        k <= s.pending.len(),
    ensures
        s.resolved_upto(k) == s,
    decreases k,
{
    if k > 0 {
        lemma_settled_fixed(s, (k - 1) as nat);
        assert(s.settled_at(k - 1));
        assert(s.placed(k - 1));
        let r = s.pending[k - 1];
        super::encoding::lemma_le_bytes_len(s.labels[r.name], r.size);
        assert(overwrite(s.bytes, r.address - s.base, s.target_bytes(k - 1)) =~= s.bytes) by {
            assert forall|x: int| 0 <= x < s.bytes.len() implies overwrite(
                s.bytes,
                r.address - s.base,
                s.target_bytes(k - 1),
            )[x] == s.bytes[x] by {
                if r.address - s.base <= x < r.address - s.base + r.size {
                    assert(s.run(r.address, r.size)[x - (r.address - s.base)] == s.bytes[x]);
                }
            }
        }
        assert(s.resolved_upto(k) =~= s);
    }
}

/// Round trip of an overwrite: a value written over `n` bytes at an address
/// is the value that is read from those bytes.
pub proof fn lemma_patch_reads_back(s: AssemblerState, address: int, value: int, n: nat)
    requires
        n > 0,
        s.holds(address, n),
        fits_signed(value, n),
    ensures
        s.patch(address, le_bytes(value, n)).value_at(address, n) == value,
{
    lemma_le_bytes_len(value, n);
    assert(s.patch(address, le_bytes(value, n)).run(address, n) =~= le_bytes(value, n));
    lemma_signed_round_trip(value, n);
}

/// Round trip of an append: a value appended in `n` bytes is the value that
/// is read from the address it was appended at.
pub proof fn lemma_emit_reads_back(s: AssemblerState, value: int, n: nat)
    requires
        n > 0,
        fits_signed(value, n),
    ensures
        s.emit(le_bytes(value, n)).value_at(s.end(), n) == value,
{
    lemma_le_bytes_len(value, n);
    assert(s.emit(le_bytes(value, n)).run(s.end(), n) =~= le_bytes(value, n));
    lemma_signed_round_trip(value, n);
}

/// What is read at an address is what was written there last: an overwrite
/// of other bytes does not change it.
pub proof fn lemma_patch_keeps_others(
    s: AssemblerState,
    address: int,
    bytes: Seq<u8>,
    other: int,
    n: nat,
)
    requires
        s.holds(other, n),
        other + n <= address || address + bytes.len() <= other,
    ensures
        s.patch(address, bytes).value_at(other, n) == s.value_at(other, n),
{
    assert(s.patch(address, bytes).run(other, n) =~= s.run(other, n));
}

/// What is read at an address is what was written there last: an append
/// does not change it.
pub proof fn lemma_emit_keeps_others(s: AssemblerState, bytes: Seq<u8>, other: int, n: nat)
    requires
        s.holds(other, n),
    ensures
        s.emit(bytes).value_at(other, n) == s.value_at(other, n),
{
    assert(s.emit(bytes).run(other, n) =~= s.run(other, n));
}

} // verus!
