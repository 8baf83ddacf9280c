//! The registry of handlers: at most one for each target address.

use crate::error::HookError;
use crate::handler::{Handler, HandlerMetadata, HandlerState};
use crate::hook::{has_id, idle, ChainEntry, Hook, HookHandle, HookMetadata};
use crate::patch::{Patch, PatchSite, Write};
use std::collections::HashMap;
use vstd::prelude::*;

verus! {

/// Whether every handler of a registry is well formed and stands under the
/// address of its own target.
pub open spec fn pool_wf(handlers: Map<u64, HandlerState>) -> bool {
    forall|address: u64| #[trigger]
        handlers.contains_key(address) ==> handlers[address].wf() && handlers[address].address
            == address
}

/// The handler that an installation at `address` works on: the one that the
/// registry holds for that address, or else a new one, with the implicit
/// hook that calls the original.
pub open spec fn slot(
    handlers: Map<u64, HandlerState>,
    address: u64,
    metadata: HandlerMetadata,
) -> HandlerState {
    if handlers.contains_key(address) {
        handlers[address]
    } else {
        HandlerState::fresh(address, metadata).with_original()
    }
}

/// The registry after the target at `address` has its handler, and is patched.
pub open spec fn with_handler(
    handlers: Map<u64, HandlerState>,
    address: u64,
    metadata: HandlerMetadata,
    site: PatchSite,
) -> Map<u64, HandlerState> {
    handlers.insert(address, slot(handlers, address, metadata).patched_state(site))
}

/// The registry after a hook with `callback` is installed at `address`.
pub open spec fn installed(
    handlers: Map<u64, HandlerState>,
    address: u64,
    callback: u64,
    hook: HookMetadata,
    metadata: HandlerMetadata,
    site: PatchSite,
) -> Map<u64, HandlerState> {
    handlers.insert(
        address,
        slot(handlers, address, metadata).patched_state(site).hooked(callback, hook),
    )
}

/// The handle that an installation at `address` hands out.
pub open spec fn install_handle(
    handlers: Map<u64, HandlerState>,
    address: u64,
    metadata: HandlerMetadata,
) -> HookHandle {
    HookHandle { address, id: (slot(handlers, address, metadata).issued + 1) as u64 }
}

/// Whether a registry holds the hook that `handle` names.
pub open spec fn holds_hook(handlers: Map<u64, HandlerState>, handle: HookHandle) -> bool {
    handlers.contains_key(handle.address) && has_id(handlers[handle.address].chain, handle.id)
}

/// Whether taking the hook that `handle` names out of its handler leaves
/// that handler without any hook but the implicit one.
pub open spec fn leaves_idle(handlers: Map<u64, HandlerState>, handle: HookHandle) -> bool {
    idle(
        handlers[handle.address].unhooked(handle.id).chain,
        handlers[handle.address].unhooked(handle.id).original,
    )
}

/// The registry after the hook that `handle` names is removed: its handler
/// stays without it, or leaves the registry where it held no other hook.
pub open spec fn removed(handlers: Map<u64, HandlerState>, handle: HookHandle) -> Map<
    u64,
    HandlerState,
> {
    if leaves_idle(handlers, handle) {
        handlers.remove(handle.address)
    } else {
        handlers.insert(handle.address, handlers[handle.address].unhooked(handle.id))
    }
}

/// The writes that the removal of the hook that `handle` names takes: those
/// that restore the target where its handler leaves the registry, and else none.
pub open spec fn removal_writes(handlers: Map<u64, HandlerState>, handle: HookHandle) -> Seq<
    Write,
> {
    if leaves_idle(handlers, handle) {
        handlers[handle.address].restoration()
    } else {
        Seq::empty()
    }
}

/// Installing twice on one address, with the same callback or another,
/// yields two hooks under two numbers, but one handler and one patch: the
/// second installation cannot fail, takes no write, and leaves the patch of
/// the target as the first made it.
pub proof fn lemma_install_twice(
    handlers: Map<u64, HandlerState>,
    address: u64,
    callback: u64,
    hook: HookMetadata,
    metadata: HandlerMetadata,
    first: PatchSite,
    second: PatchSite,
)
    requires
        pool_wf(handlers),
        slot(handlers, address, metadata).patch_error(first) is None,
        slot(handlers, address, metadata).issued + 2 <= u64::MAX,
    ensures
        ({
            let once = installed(handlers, address, callback, hook, metadata, first);
            let twice = installed(once, address, callback, hook, metadata, second);
            &&& slot(once, address, metadata).has_free_id()
            &&& slot(once, address, metadata).patch_error(second) is None
            &&& slot(once, address, metadata).patch_writes(second) == Seq::<Write>::empty()
            &&& install_handle(once, address, metadata) != install_handle(
                handlers,
                address,
                metadata,
            )
            &&& twice.dom() == once.dom()
            &&& twice[address].patched && once[address].patched
            &&& twice[address].original_bytes == once[address].original_bytes
            &&& twice[address].modified_bytes == once[address].modified_bytes
            &&& twice[address].trampoline == once[address].trampoline
            &&& twice[address].trampoline_code == once[address].trampoline_code
            &&& twice[address].chain.len() == once[address].chain.len() + 1
        }),
{
    let once = installed(handlers, address, callback, hook, metadata, first);
    let twice = installed(once, address, callback, hook, metadata, second);
    assert(once.contains_key(address));
    assert(twice.dom() =~= once.dom());
    let entry = ChainEntry {
        id: (once[address].issued + 1) as u64,
        hook: Hook { address: callback, metadata: hook },
    };
    crate::hook::lemma_bounds(once[address].chain, entry.priority());
}

/// Removing the one hook of a target restores the target: where the target
/// was not intercepted, a hook is installed on it and removed again, and the
/// writes of both are performed on a memory in which the target stood as the
/// installation was told, the target stands there again, byte for byte, and
/// the registry is as it was.
pub proof fn lemma_install_then_remove(
    handlers: Map<u64, HandlerState>,
    address: u64,
    callback: u64,
    hook: HookMetadata,
    metadata: HandlerMetadata,
    site: PatchSite,
    memory: Map<int, u8>,
)
    requires
        pool_wf(handlers),
        !handlers.contains_key(address),
        slot(handlers, address, metadata).patch_error(site) is None,
        crate::patch::holds(
            memory,
            address as int,
            site.code@.take(crate::relocation::capture_len(site.code@, 0) as int),
        ),
    ensures
        ({
            let once = installed(handlers, address, callback, hook, metadata, site);
            let handle = install_handle(handlers, address, metadata);
            let writes = slot(handlers, address, metadata).patch_writes(site);
            &&& holds_hook(once, handle)
            &&& leaves_idle(once, handle)
            &&& removed(once, handle) == handlers
            &&& crate::patch::holds(
                crate::patch::apply_all(
                    crate::patch::apply_all(memory, writes),
                    removal_writes(once, handle),
                ),
                address as int,
                site.code@.take(crate::relocation::capture_len(site.code@, 0) as int),
            )
        }),
{
    let start = slot(handlers, address, metadata);
    let patched = start.patched_state(site);
    let once = installed(handlers, address, callback, hook, metadata, site);
    let handle = install_handle(handlers, address, metadata);
    let state = once[address];
    let original = ChainEntry {
        id: 1,
        hook: Hook {
            address: site.trampoline,
            metadata: HookMetadata { priority: crate::handler::ORIGINAL_PRIORITY },
        },
    };
    let added = ChainEntry { id: 2, hook: Hook { address: callback, metadata: hook } };
    reveal_with_fuel(crate::hook::upper_bound, 3);
    reveal_with_fuel(crate::hook::position, 3);
    assert(start.chain =~= seq![
        ChainEntry {
            id: 1,
            hook: Hook {
                address: 0,
                metadata: HookMetadata { priority: crate::handler::ORIGINAL_PRIORITY },
            },
        },
    ]);
    assert(patched.chain =~= seq![original]);
    if hook.priority < crate::handler::ORIGINAL_PRIORITY {
        assert(state.chain =~= seq![added, original]);
    } else {
        assert(state.chain =~= seq![original, added]);
    }
    assert(state.unhooked(handle.id).chain =~= seq![original]);
    assert(removed(once, handle) =~= handlers);
    crate::patch::lemma_restore_undoes_redirect(
        memory,
        address as int,
        site.code@.take(crate::relocation::capture_len(site.code@, 0) as int),
        start.patch_writes(site),
        removal_writes(once, handle),
    );
}

/// The handlers of the targets that are intercepted.
#[derive(Clone, Debug)]
pub struct Pool {
    handlers: HashMap<u64, Handler>,
}

impl View for Pool {
    type V = Map<u64, HandlerState>;

    closed spec fn view(&self) -> Map<u64, HandlerState> {
        Map::new(
            |address: u64| self.handlers@.contains_key(address),
            |address: u64| self.handlers@[address]@,
        )
    }
}

impl Pool {
    /// A registry without handlers.
    pub fn new() -> (pool: Pool)
        ensures
            pool@ == Map::<u64, HandlerState>::empty(),
            pool_wf(pool@),
    {
        let pool = Pool { handlers: HashMap::new() };
        proof {
            assert(pool@ =~= Map::<u64, HandlerState>::empty());
        }
        pool
    }

    /// A registry of its own, without handlers.
    pub fn get() -> (pool: Pool)
        ensures
            pool@ == Map::<u64, HandlerState>::empty(),
            pool_wf(pool@),
    {
        let instance: Pool = Pool::new();
        instance
    }

    /// Makes sure that the target at `address` has a handler and is patched.
    /// Where the registry holds no handler for `address`, one is made, with
    /// the implicit hook that calls the original; the handler that is there
    /// is used otherwise. The target is then patched as `site` describes it,
    /// unless it is patched already. Returns `address` and the writes that
    /// perform the patch. Where the patch cannot be made, the registry stays
    /// as it was.
    pub fn create_handler(
        &mut self,
        address: u64,
        metadata: HandlerMetadata,
        site: &PatchSite,
    ) -> (result: Result<(u64, Vec<Patch>), HookError>)
        requires
            pool_wf(old(self)@),
        ensures
            match slot(old(self)@, address, metadata).patch_error(*site) {
                Some(e) => result is Err && result->Err_0 == e && final(self)@ == old(self)@,
                None => {
                    &&& result is Ok
                    &&& result->Ok_0.0 == address
                    &&& result->Ok_0.1.deep_view() == slot(
                        old(self)@,
                        address,
                        metadata,
                    ).patch_writes(*site)
                    &&& final(self)@ == with_handler(old(self)@, address, metadata, *site)
                },
            },
            pool_wf(final(self)@),
    {
        broadcast use vstd::std_specs::hash::group_hash_axioms;

        match self.handlers.remove(&address) {
            Some(handler) => {
                let mut handler = handler;
                assert(old(self)@.contains_key(address));
                assert(handler@ == old(self)@[address]);
                let result = handler.intervene_function(site);
                self.handlers.insert(address, handler);
                match result {
                    Ok(patches) => {
                        proof {
                            assert(self@ =~= with_handler(old(self)@, address, metadata, *site));
                            assert forall|a: u64| #[trigger]
                                self@.contains_key(a) implies self@[a].wf() && self@[a].address
                                == a by {
                                if a != address {
                                    assert(old(self)@.contains_key(a));
                                }
                            }
                        }
                        Ok((address, patches))
                    },
                    Err(e) => {
                        proof {
                            assert(self@ =~= old(self)@);
                        }
                        Err(e)
                    },
                }
            },
            None => {
                proof {
                    assert(self@ =~= old(self)@);
                    assert(!old(self)@.contains_key(address));
                }
                match Handler::create(address, metadata, site) {
                    Ok((handler, patches)) => {
                        self.handlers.insert(address, handler);
                        proof {
                            assert(self@ =~= with_handler(old(self)@, address, metadata, *site));
                            assert forall|a: u64| #[trigger]
                                self@.contains_key(a) implies self@[a].wf() && self@[a].address
                                == a by {
                                if a != address {
                                    assert(old(self)@.contains_key(a));
                                }
                            }
                        }
                        Ok((address, patches))
                    },
                    Err(e) => Err(e),
                }
            },
        }
    }

    /// Takes the handler of the target at `address` out of the registry, with
    /// all its hooks, and restores the target. Returns the writes that
    /// restore it. Where the registry holds no handler for `address`, nothing
    /// changes and no write is returned.
    pub fn remove_handler(&mut self, address: u64) -> (result: Result<Vec<Patch>, HookError>)
        requires
            pool_wf(old(self)@),
        ensures
            result is Ok,
            result->Ok_0.deep_view() == if old(self)@.contains_key(address) {
                old(self)@[address].restoration()
            } else {
                Seq::<Write>::empty()
            },
            final(self)@ == old(self)@.remove(address),
            pool_wf(final(self)@),
    {
        broadcast use vstd::std_specs::hash::group_hash_axioms;

        match self.handlers.remove(&address) {
            Some(handler) => {
                let mut handler = handler;
                assert(old(self)@.contains_key(address));
                assert(handler@ == old(self)@[address]);
                let result = handler.restore_function();
                proof {
                    assert(self@ =~= old(self)@.remove(address));
                    assert forall|a: u64| #[trigger] self@.contains_key(a) implies self@[a].wf()
                        && self@[a].address == a by {
                        assert(old(self)@.contains_key(a));
                    }
                }
                result
            },
            None => {
                let none: Vec<Patch> = Vec::new();
                proof {
                    assert(self@ =~= old(self)@.remove(address));
                    assert(self@ =~= old(self)@);
                    assert(none.deep_view() =~= Seq::<Write>::empty());
                }
                Ok(none)
            },
        }
    }

    /// The handler of the target at `address`, if the registry holds one.
    pub fn get_handler(&self, address: u64) -> (found: Option<&Handler>)
        ensures
            match found {
                Some(handler) => self@.contains_key(address) && handler@ == self@[address],
                None => !self@.contains_key(address),
            },
    {
        broadcast use vstd::std_specs::hash::group_hash_axioms;

        self.handlers.get(&address)
    }

    /// Installs a hook with `callback` on the target at `address`; returns
    /// its handle and the writes to perform. The handler of the target is
    /// made and the target patched where that has not been done; then the
    /// hook is put into the chain. A target that is patched already takes no
    /// write. Where the patch cannot be made, the registry stays as it was.
    pub fn install(
        &mut self,
        address: u64,
        callback: u64,
        hook: HookMetadata,
        metadata: HandlerMetadata,
        site: &PatchSite,
    ) -> (result: Result<(HookHandle, Vec<Patch>), HookError>)
        requires
            pool_wf(old(self)@),
            slot(old(self)@, address, metadata).has_free_id(),
        ensures
            match slot(old(self)@, address, metadata).patch_error(*site) {
                Some(e) => result is Err && result->Err_0 == e && final(self)@ == old(self)@,
                None => {
                    &&& result is Ok
                    &&& result->Ok_0.0 == install_handle(old(self)@, address, metadata)
                    &&& result->Ok_0.1.deep_view() == slot(
                        old(self)@,
                        address,
                        metadata,
                    ).patch_writes(*site)
                    &&& final(self)@ == installed(
                        old(self)@,
                        address,
                        callback,
                        hook,
                        metadata,
                        *site,
                    )
                },
            },
            pool_wf(final(self)@),
    {
        broadcast use vstd::std_specs::hash::group_hash_axioms;

        let found = self.handlers.remove(&address);
        let existed = found.is_some();
        let mut handler = match found {
            Some(handler) => {
                assert(old(self)@.contains_key(address));
                assert(handler@ == old(self)@[address]);
                handler
            },
            None => {
                assert(!old(self)@.contains_key(address));
                let mut handler = Handler::new(address, metadata);
                handler.add_original();
                handler
            },
        };
        match handler.add_hook(callback, hook, site) {
            Ok((id, patches)) => {
                self.handlers.insert(address, handler);
                proof {
                    assert(self@ =~= installed(
                        old(self)@,
                        address,
                        callback,
                        hook,
                        metadata,
                        *site,
                    ));
                    assert forall|a: u64| #[trigger] self@.contains_key(a) implies self@[a].wf()
                        && self@[a].address == a by {
                        if a != address {
                            assert(old(self)@.contains_key(a));
                        }
                    }
                }
                Ok((HookHandle { address, id }, patches))
            },
            Err(e) => {
                if existed {
                    self.handlers.insert(address, handler);
                }
                proof {
                    assert(self@ =~= old(self)@);
                }
                Err(e)
            },
        }
    }

    /// Removes the hook that `handle` names; returns the writes to perform.
    /// The other hooks of its target stay, in their order. Where the handler
    /// is left without any hook but the implicit one, the target is restored
    /// and the handler leaves the registry. Where the registry holds no such
    /// hook, nothing changes and the call fails.
    pub fn remove(&mut self, handle: HookHandle) -> (result: Result<Vec<Patch>, HookError>)
        requires
            pool_wf(old(self)@),
        ensures
            if holds_hook(old(self)@, handle) {
                &&& result is Ok
                &&& result->Ok_0.deep_view() == removal_writes(old(self)@, handle)
                &&& final(self)@ == removed(old(self)@, handle)
            } else {
                &&& result is Err
                &&& result->Err_0 == HookError::UnknownHandle
                &&& final(self)@ == old(self)@
            },
            pool_wf(final(self)@),
    {
        broadcast use vstd::std_specs::hash::group_hash_axioms;

        match self.handlers.remove(&handle.address) {
            None => {
                proof {
                    assert(self@ =~= old(self)@);
                }
                Err(HookError::UnknownHandle)
            },
            Some(handler) => {
                let mut handler = handler;
                assert(old(self)@.contains_key(handle.address));
                assert(handler@ == old(self)@[handle.address]);
                match handler.remove_hook(handle.id) {
                    Err(e) => {
                        self.handlers.insert(handle.address, handler);
                        proof {
                            assert(self@ =~= old(self)@);
                        }
                        Err(e)
                    },
                    Ok(_) => {
                        if handler.is_idle() {
                            let result = handler.restore_function();
                            proof {
                                assert(self@ =~= removed(old(self)@, handle));
                                assert forall|a: u64| #[trigger]
                                    self@.contains_key(a) implies self@[a].wf() && self@[a].address
                                    == a by {
                                    assert(old(self)@.contains_key(a));
                                }
                            }
                            result
                        } else {
                            self.handlers.insert(handle.address, handler);
                            let none: Vec<Patch> = Vec::new();
                            proof {
                                assert(none.deep_view() =~= Seq::<Write>::empty());
                                assert(self@ =~= removed(old(self)@, handle));
                                assert forall|a: u64| #[trigger]
                                    self@.contains_key(a) implies self@[a].wf() && self@[a].address
                                    == a by {
                                    if a != handle.address {
                                        assert(old(self)@.contains_key(a));
                                    }
                                }
                            }
                            Ok(none)
                        }
                    },
                }
            },
        }
    }

    /// Gives the hook that `handle` names the priority that `metadata` names,
    /// and sorts the chain of its target again. Where the registry holds no
    /// such hook, nothing changes and the call fails.
    pub fn update_hook_metadata(&mut self, handle: HookHandle, metadata: HookMetadata) -> (result:
        Result<(), HookError>)
        requires
            pool_wf(old(self)@),
        ensures
            if holds_hook(old(self)@, handle) {
                &&& result is Ok
                &&& final(self)@ == old(self)@.insert(
                    handle.address,
                    old(self)@[handle.address].reordered(handle.id, metadata),
                )
            } else {
                &&& result is Err
                &&& result->Err_0 == HookError::UnknownHandle
                &&& final(self)@ == old(self)@
            },
            pool_wf(final(self)@),
    {
        broadcast use vstd::std_specs::hash::group_hash_axioms;

        match self.handlers.remove(&handle.address) {
            None => {
                proof {
                    assert(self@ =~= old(self)@);
                }
                Err(HookError::UnknownHandle)
            },
            Some(handler) => {
                let mut handler = handler;
                assert(old(self)@.contains_key(handle.address));
                assert(handler@ == old(self)@[handle.address]);
                let result = handler.update_hook_metadata(handle.id, metadata);
                self.handlers.insert(handle.address, handler);
                proof {
                    if result is Ok {
                        assert(self@ =~= old(self)@.insert(
                            handle.address,
                            old(self)@[handle.address].reordered(handle.id, metadata),
                        ));
                    } else {
                        assert(self@ =~= old(self)@);
                    }
                    assert forall|a: u64| #[trigger] self@.contains_key(a) implies self@[a].wf()
                        && self@[a].address == a by {
                        if a != handle.address {
                            assert(old(self)@.contains_key(a));
                        }
                    }
                }
                result
            },
        }
    }
}

impl Default for Pool {
    fn default() -> (pool: Self)
        ensures
            pool@ == Map::<u64, HandlerState>::empty(),
    {
        Self::new()
    }
}

} // verus!
