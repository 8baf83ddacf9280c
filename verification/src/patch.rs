//! What the engine asks to have written into code memory, and a model of
//! what such writes do.
//!
//! The engine never touches memory itself: it is told what stands at a
//! target, and answers with the writes to perform, in order.

use vstd::prelude::*;

verus! {

/// A run of bytes and the address of its first byte, as plain mathematics.
pub struct Write {
    pub address: int,
    pub bytes: Seq<u8>,
}

impl Write {
    /// Whether the write reaches the byte at address `a`.
    pub open spec fn covers(self, a: int) -> bool {
        self.address <= a < self.address + self.bytes.len()
    }
}

/// One bounded write into code memory: `bytes` go to `address` and the
/// addresses that follow it.
#[derive(Clone, Debug)]
pub struct Patch {
    pub address: u64,
    pub bytes: Vec<u8>,
}

impl View for Patch {
    type V = Write;

    open spec fn view(&self) -> Write {
        Write { address: self.address as int, bytes: self.bytes@ }
    }
}

impl DeepView for Patch {
    type V = Write;

    open spec fn deep_view(&self) -> Write {
        self@
    }
}

/// What the engine has to be told before it can patch a target.
#[derive(Clone, Debug)]
pub struct PatchSite {
    /// The bytes that stand at the target address now, from its first byte on.
    pub code: Vec<u8>,
    /// The address of the executable memory in which the trampoline will stand.
    pub trampoline: u64,
    /// The entry of the dispatcher to which the target is redirected.
    pub handler: u64,
}

/// Code memory after one write: the bytes that the write reaches are its
/// own, every other byte is as before.
pub open spec fn apply(memory: Map<int, u8>, write: Write) -> Map<int, u8> {
    Map::new(
        |a: int| memory.contains_key(a) || write.covers(a),
        |a: int|
            if write.covers(a) {
                write.bytes[a - write.address]
            } else {
                memory[a]
            },
    )
}

/// Code memory after a list of writes, performed from the first to the last.
pub open spec fn apply_all(memory: Map<int, u8>, writes: Seq<Write>) -> Map<int, u8>
    decreases writes.len(),
{
    if writes.len() == 0 {
        memory
    } else {
        apply(apply_all(memory, writes.drop_last()), writes.last())
    }
}

/// Whether `bytes` stand in code memory from `address` on.
pub open spec fn holds(memory: Map<int, u8>, address: int, bytes: Seq<u8>) -> bool {
    forall|i: int|
        0 <= i < bytes.len() ==> memory.contains_key(address + i) && #[trigger] memory[address
            + i] == bytes[i]
}

/// After a write its bytes stand at its address, and every byte that it
/// does not reach is as before.
pub proof fn lemma_apply(memory: Map<int, u8>, write: Write)
    ensures
        holds(apply(memory, write), write.address, write.bytes),
        forall|a: int|
            !write.covers(a) ==> (#[trigger] apply(memory, write).contains_key(a))
                == memory.contains_key(a),
        forall|a: int|
            !write.covers(a) && memory.contains_key(a) ==> #[trigger] apply(memory, write)[a]
                == memory[a],
{
    assert forall|i: int| 0 <= i < write.bytes.len() implies apply(memory, write).contains_key(
        write.address + i,
    ) && #[trigger] apply(memory, write)[write.address + i] == write.bytes[i] by {
        assert(write.covers(write.address + i));
    }
}

/// Whatever was written before: once a list of writes ends with writing
/// `bytes` to `address`, those bytes stand there.
pub proof fn lemma_last_write_stands(memory: Map<int, u8>, writes: Seq<Write>)
    requires
        writes.len() > 0,
    ensures
        holds(apply_all(memory, writes), writes.last().address, writes.last().bytes),
{
    lemma_apply(apply_all(memory, writes.drop_last()), writes.last());
}

/// Redirecting a target and restoring it later leaves the target as it was
/// found: where `original` stood at `address`, and the writes of a
/// redirection, then any further writes, then the write of `original` back
/// are performed, `original` stands at `address` again.
pub proof fn lemma_restore_undoes_redirect(
    memory: Map<int, u8>,
    address: int,
    original: Seq<u8>,
    redirection: Seq<Write>,
    restoration: Seq<Write>,
)
    requires
        holds(memory, address, original),
        restoration == seq![Write { address, bytes: original }],
    ensures
        holds(apply_all(apply_all(memory, redirection), restoration), address, original),
{
    lemma_last_write_stands(apply_all(memory, redirection), restoration);
}

} // verus!
