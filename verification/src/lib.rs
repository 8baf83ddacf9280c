//! A runtime function-interception engine: an x86 machine-code assembler and
//! the bookkeeping that multiplexes prioritised hooks onto one patched
//! function address.
//!
//! * [`assembler`] writes machine code into a buffer and resolves labels in
//!   a second pass.
//! * [`relocation`] measures the first instructions of a function and moves
//!   them into a trampoline.
//! * [`handler`] owns the interception of one address: the chain of hooks,
//!   sorted by priority, and the state of the patch.
//! * [`pool`] keeps at most one handler for each address; hooks are installed
//!   and removed through it.
//! * [`wrapper`] bridges calling conventions.
//! * [`arena`] hands out the memory in which trampolines are placed.
//!
//! The engine never touches code memory. It is told what stands at a target
//! ([`patch::PatchSite`]) and answers with the writes to perform, in their
//! order ([`patch::Patch`]); [`patch`] holds the model of what such writes do.

use vstd::prelude::*;

pub mod arena;
pub mod assembler;
pub mod error;
pub mod handler;
pub mod hook;
pub mod loader;
pub mod patch;
pub mod pool;
pub mod relocation;
pub mod ui;
pub mod utils;
pub mod wrapper;

use crate::error::HookError;
use crate::handler::HandlerMetadata;
use crate::patch::{Patch, PatchSite, Write};
use crate::pool::{pool_wf, slot, with_handler, Pool};

verus! {

/// Makes sure that the target at `address` has a handler in `pool` and is
/// patched as `site` describes it; returns `address` and the writes that
/// perform the patch.
pub fn create_handler(
    pool: &mut Pool,
    address: u64,
    metadata: HandlerMetadata,
    site: &PatchSite,
) -> (result: Result<(u64, Vec<Patch>), HookError>)
    requires
        pool_wf(old(pool)@),
    ensures
        match slot(old(pool)@, address, metadata).patch_error(*site) {
            Some(e) => result is Err && result->Err_0 == e && final(pool)@ == old(pool)@,
            None => {
                &&& result is Ok
                &&& result->Ok_0.0 == address
                &&& result->Ok_0.1.deep_view() == slot(old(pool)@, address, metadata).patch_writes(
                    *site,
                )
                &&& final(pool)@ == with_handler(old(pool)@, address, metadata, *site)
            },
        },
        pool_wf(final(pool)@),
{
    pool.create_handler(address, metadata, site)
}

/// Takes the handler of the target at `address` out of `pool` and restores
/// the target; returns the writes that restore it.
pub fn remove_handler(pool: &mut Pool, address: u64) -> (result: Result<Vec<Patch>, HookError>)
    requires
        pool_wf(old(pool)@),
    ensures
        result is Ok,
        result->Ok_0.deep_view() == if old(pool)@.contains_key(address) {
            old(pool)@[address].restoration()
        } else {
            Seq::<Write>::empty()
        },
        final(pool)@ == old(pool)@.remove(address),
        pool_wf(final(pool)@),
{
    pool.remove_handler(address)
}

} // verus!
