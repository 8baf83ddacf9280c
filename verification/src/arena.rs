//! The executable memory that trampolines are placed in, handed out piece
//! by piece from its start.

use vstd::prelude::*;

verus! {

/// A run of addresses of which a front part is handed out.
#[derive(Clone, Copy, Debug)]
pub struct Arena {
    base: u64,
    size: u64,
    used: u64,
}

/// An arena as plain mathematics.
pub struct ArenaState {
    /// The first address of the arena.
    pub base: int,
    /// The number of addresses in the arena.
    pub size: int,
    /// The number of addresses, from the first on, that are handed out.
    pub used: int,
}

impl ArenaState {
    /// The invariant of an arena: it lies in the address range, and what is
    /// handed out lies in it.
    pub open spec fn wf(self) -> bool {
        0 <= self.base && 0 <= self.used <= self.size && self.base + self.size <= u64::MAX
    }

    /// The address of the next piece.
    pub open spec fn next(self) -> int {
        self.base + self.used
    }

    /// Whether a piece of `len` addresses is still to be had.
    pub open spec fn has(self, len: int) -> bool {
        len <= self.size - self.used
    }

    /// The arena after a piece of `len` addresses is handed out.
    pub open spec fn taken(self, len: int) -> ArenaState {
        ArenaState { base: self.base, size: self.size, used: self.used + len }
    }
}

impl View for Arena {
    type V = ArenaState;

    closed spec fn view(&self) -> ArenaState {
        ArenaState { base: self.base as int, size: self.size as int, used: self.used as int }
    }
}

impl Arena {
    /// The arena of `size` addresses from `base` on, with nothing handed
    /// out. There is none where the addresses would leave the address range.
    pub fn new(base: u64, size: u64) -> (arena: Option<Arena>)
        ensures
            match arena {
                Some(arena) => base + size <= u64::MAX && arena@ == (ArenaState {
                    base: base as int,
                    size: size as int,
                    used: 0,
                }) && arena@.wf(),
                None => base + size > u64::MAX,
            },
    {
        if size > u64::MAX - base {
            None
        } else {
            Some(Arena { base, size, used: 0 })
        }
    }

    /// Hands out the next `len` addresses; returns the first of them. Where
    /// fewer are left, nothing is handed out.
    pub fn allocate(&mut self, len: u64) -> (piece: Option<u64>)
        requires
            old(self)@.wf(),
        ensures
            match piece {
                Some(address) => old(self)@.has(len as int) && address == old(self)@.next()
                    && final(self)@ == old(self)@.taken(len as int),
                None => !old(self)@.has(len as int) && final(self)@ == old(self)@,
            },
            final(self)@.wf(),
    {
        if len > self.size - self.used {
            None
        } else {
            let address = self.base + self.used;
            self.used = self.used + len;
            Some(address)
        }
    }

    /// The number of addresses that are still to be had.
    pub fn remaining(&self) -> (left: u64)
        requires
            self@.wf(),
        ensures
            left == self@.size - self@.used,
    {
        self.size - self.used
    }
}

/// Pieces do not meet: a piece that is handed out later starts behind the
/// end of every piece handed out before it, and both lie in the arena.
pub proof fn lemma_pieces_apart(arena: ArenaState, first: int, second: int)
    requires
        arena.wf(),
        0 <= first,
        0 <= second,
        arena.has(first),
        arena.taken(first).has(second),
    ensures
        arena.taken(first).wf(),
        arena.base <= arena.next(),
        arena.next() + first <= arena.taken(first).next(),
        arena.taken(first).next() + second <= arena.base + arena.size,
{
}

} // verus!
