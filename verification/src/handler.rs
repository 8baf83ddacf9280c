//! The handler of one target address: the chain of hooks registered on it,
//! and the state of the patch that leads calls of the target into the chain.

use crate::error::HookError;
use crate::hook::{
    callbacks, distinct_ids, has_id, ids_issued, ids_with, lemma_inserted_ids, lemma_position,
    lemma_registered, lemma_registered_is_sort, lemma_removed, lemma_removed_ids, lemma_rerouted,
    lemma_stable_sort, lemma_stable_sort_ids, lemma_updated_ids, lemma_upper_bound, position,
    registered, rerouted, sorted, stable_sort, upper_bound, ChainEntry,
};
use crate::patch::{Patch, PatchSite, Write};
use crate::relocation::{
    build_redirect, build_trampoline, capture_len, capture_length, redirect_code, trampoline_code,
};
use crate::wrapper::{supported_convention, Target, WrapperMetadata};
use vstd::prelude::*;

pub use crate::hook::{Hook, HookMetadata};

verus! {

/// The priority of the implicit hook that calls the original function: the
/// highest there is, so that the original runs behind every hook that does
/// not ask for the same priority after it.
pub const ORIGINAL_PRIORITY: i32 = 0x7fff_ffff;

/// How the target of a handler expects to be called.
#[derive(Clone, Copy, Debug, PartialEq, Eq, Structural)]
pub struct HandlerMetadata {
    pub convention: u32,
    pub abstractd: u32,
}

/// What a call of the target walks: the callbacks of the chain, in their
/// order, as they stood when the snapshot was taken.
#[derive(Clone, Debug)]
pub struct HandlerContent {
    pub functions: Vec<u64>,
}

/// The number of callbacks from index `from` on that a call enters once it
/// has reached that index: all `count - from` of them, or those up to and
/// with the first that does not proceed to the next. A callback for which
/// `proceeds` says nothing proceeds.
pub open spec fn entered(count: nat, proceeds: Seq<bool>, from: nat) -> nat
    decreases count - from,
{
    if from >= count {
        0
    } else if from < proceeds.len() && !proceeds[from as int] {
        1
    } else {
        1 + entered(count, proceeds, from + 1)
    }
}

impl HandlerContent {
    /// A snapshot without callbacks.
    pub fn new() -> (content: HandlerContent)
        ensures
            content.functions@ == Seq::<u64>::empty(),
    {
        HandlerContent { functions: Vec::new() }
    }

    /// What a call of the target does: it enters the callbacks in their
    /// order, and stops behind the first that does not proceed to the next.
    /// `proceeds` says of each callback, by its index, whether it proceeds;
    /// the callbacks entered are returned in the order in which they were
    /// entered.
    pub fn dispatch(&self, proceeds: &Vec<bool>) -> (calls: Vec<u64>)
        ensures
            calls@ == self.functions@.take(
                entered(self.functions@.len(), proceeds@, 0) as int,
            ),
    {
        let count = self.functions.len();
        let mut calls: Vec<u64> = Vec::new();
        let mut i: usize = 0;
        proof {
            assert(calls@ =~= self.functions@.take(0));
        }
        while i < count
            invariant
                i <= count,
                count == self.functions@.len(),
                calls@ == self.functions@.take(i as int),
                entered(count as nat, proceeds@, 0) == i + entered(
                    count as nat,
                    proceeds@,
                    i as nat,
                ),
            decreases count - i,
        {
            calls.push(self.functions[i]);
            proof {
                assert(calls@ =~= self.functions@.take(i + 1));
            }
            if i < proceeds.len() && !proceeds[i] {
                return calls;
            }
            i = i + 1;
        }
        calls
    }
}

/// The state of a handler, as plain mathematics.
#[verifier::ext_equal]
pub struct HandlerState {
    /// The address of the target.
    pub address: u64,
    pub metadata: HandlerMetadata,
    /// The hooks, in the order in which a call walks them.
    pub chain: Seq<ChainEntry>,
    /// The number given to the hook that was registered last.
    pub issued: u64,
    /// The number of the implicit hook that calls the original, if it is registered.
    pub original: Option<u64>,
    /// Whether the target is redirected.
    pub patched: bool,
    /// The bytes that were captured from the target.
    pub original_bytes: Seq<u8>,
    /// The bytes that redirect the target.
    pub modified_bytes: Seq<u8>,
    /// The address of the trampoline.
    pub trampoline: u64,
    /// The code of the trampoline.
    pub trampoline_code: Seq<u8>,
    /// The entry of the dispatcher.
    pub handler: u64,
    /// The callback of the implicit hook: the way back into the original.
    pub wrapped: u64,
}

impl HandlerState {
    /// The state of a handler that was just made for `address`.
    pub open spec fn fresh(address: u64, metadata: HandlerMetadata) -> HandlerState {
        HandlerState {
            address,
            metadata,
            chain: Seq::empty(),
            issued: 0,
            original: None,
            patched: false,
            original_bytes: Seq::empty(),
            modified_bytes: Seq::empty(),
            trampoline: 0,
            trampoline_code: Seq::empty(),
            handler: 0,
            wrapped: 0,
        }
    }

    /// What holds of a handler even while its chain is out of order: no two
    /// hooks bear the same number, every number was issued, and the bytes
    /// that redirect the target are as many as were captured from it.
    pub open spec fn coherent(self) -> bool {
        &&& distinct_ids(self.chain)
        &&& ids_issued(self.chain, self.issued)
        &&& self.patched ==> self.modified_bytes.len() == self.original_bytes.len()
    }

    /// The invariant of a handler: it is coherent, and its chain is sorted by
    /// priority.
    pub open spec fn wf(self) -> bool {
        &&& self.coherent()
        &&& sorted(self.chain)
    }

    /// The state after the chain is sorted by priority, stably.
    pub open spec fn sorted_out(self) -> HandlerState {
        HandlerState { chain: stable_sort(self.chain), ..self }
    }

    /// Whether one more hook can be numbered.
    pub open spec fn has_free_id(self) -> bool {
        self.issued < u64::MAX
    }

    /// The state after a hook with the callback `address` is registered.
    pub open spec fn hooked(self, address: u64, metadata: HookMetadata) -> HandlerState {
        HandlerState {
            chain: registered(
                self.chain,
                ChainEntry { id: (self.issued + 1) as u64, hook: Hook { address, metadata } },
            ),
            issued: (self.issued + 1) as u64,
            ..self
        }
    }

    /// The state after the implicit hook that calls the original is registered.
    pub open spec fn with_original(self) -> HandlerState {
        HandlerState {
            original: Some((self.issued + 1) as u64),
            ..self.hooked(self.wrapped, HookMetadata { priority: ORIGINAL_PRIORITY })
        }
    }

    /// The state after the hook numbered `id` is taken out.
    pub open spec fn unhooked(self, id: u64) -> HandlerState {
        HandlerState {
            chain: self.chain.remove(position(self.chain, id) as int),
            original: if self.original == Some(id) {
                None
            } else {
                self.original
            },
            ..self
        }
    }

    /// The state after every hook is taken out and the implicit hook is
    /// registered anew.
    pub open spec fn cleared(self) -> HandlerState {
        HandlerState { chain: Seq::empty(), original: None, ..self }.with_original()
    }

    /// The state after the hook numbered `id` is given `metadata` and the
    /// chain is sorted again, stably.
    pub open spec fn reordered(self, id: u64, metadata: HookMetadata) -> HandlerState {
        HandlerState {
            chain: stable_sort(
                self.chain.update(
                    position(self.chain, id) as int,
                    self.chain[position(self.chain, id) as int].with_priority(metadata.priority),
                ),
            ),
            ..self
        }
    }

    /// The code of the trampoline for the target as `site` describes it.
    pub open spec fn planned_trampoline(self, site: PatchSite) -> Option<Seq<u8>> {
        trampoline_code(
            site.code@,
            capture_len(site.code@, 0) as int,
            self.address as int,
            site.trampoline as int,
        )
    }

    /// The bytes that redirect the target as `site` describes it.
    pub open spec fn planned_redirect(self, site: PatchSite) -> Option<Seq<u8>> {
        redirect_code(capture_len(site.code@, 0) as int, self.address as int, site.handler as int)
    }

    /// Whether the target can be patched as `site` describes it: its first
    /// instructions can be captured and moved, and the jumps span their
    /// distances.
    pub open spec fn can_intervene(self, site: PatchSite) -> bool {
        &&& capture_len(site.code@, 0) > 0
        &&& self.planned_trampoline(site) is Some
        &&& self.planned_redirect(site) is Some
    }

    /// The state after the target is patched as `site` describes it.
    pub open spec fn intervened(self, site: PatchSite) -> HandlerState {
        HandlerState {
            chain: rerouted(self.chain, self.original, site.trampoline),
            patched: true,
            original_bytes: site.code@.take(capture_len(site.code@, 0) as int),
            modified_bytes: self.planned_redirect(site)->0,
            trampoline: site.trampoline,
            trampoline_code: self.planned_trampoline(site)->0,
            handler: site.handler,
            wrapped: site.trampoline,
            ..self
        }
    }

    /// The writes that patch the target as `site` describes it: first the
    /// trampoline, and last the jump that makes the patch take effect.
    pub open spec fn intervention(self, site: PatchSite) -> Seq<Write> {
        seq![
            Write { address: site.trampoline as int, bytes: self.planned_trampoline(site)->0 },
            Write { address: self.address as int, bytes: self.planned_redirect(site)->0 },
        ]
    }

    /// Why the target cannot be patched as `site` describes it, if it
    /// cannot. A target that is patched already is not patched again, so
    /// nothing can fail for it.
    pub open spec fn patch_error(self, site: PatchSite) -> Option<HookError> {
        if self.patched {
            None
        } else if !supported_convention(self.metadata.convention) {
            Some(HookError::UnsupportedConvention)
        } else if !self.can_intervene(site) {
            Some(HookError::PatchFailure)
        } else {
            None
        }
    }

    /// The state once the target is patched: as it is where the target is
    /// patched already, and else after it is patched as `site` describes it.
    pub open spec fn patched_state(self, site: PatchSite) -> HandlerState {
        if self.patched {
            self
        } else {
            self.intervened(site)
        }
    }

    /// The writes that it takes to have the target patched: none where it
    /// is patched already.
    pub open spec fn patch_writes(self, site: PatchSite) -> Seq<Write> {
        if self.patched {
            Seq::empty()
        } else {
            self.intervention(site)
        }
    }

    /// The state after the target is restored.
    pub open spec fn restored(self) -> HandlerState {
        HandlerState { patched: false, trampoline_code: Seq::empty(), ..self }
    }

    /// The writes that restore the target: the captured bytes go back to
    /// where they came from.
    pub open spec fn restoration(self) -> Seq<Write> {
        if self.patched {
            seq![Write { address: self.address as int, bytes: self.original_bytes }]
        } else {
            Seq::empty()
        }
    }
}

/// However hooks come and go, the target is restored to what was captured
/// from it when it was patched: registering, removing and reordering hooks,
/// and asking for a patch that is already made, change neither the captured
/// bytes nor the writes that restore the target.
pub proof fn lemma_capture_kept(
    state: HandlerState,
    callback: u64,
    hook: HookMetadata,
    id: u64,
    site: PatchSite,
)
    requires
        state.patched,
    ensures
        state.restoration() == seq![
            Write { address: state.address as int, bytes: state.original_bytes },
        ],
        state.hooked(callback, hook).restoration() == state.restoration(),
        state.unhooked(id).restoration() == state.restoration(),
        state.reordered(id, hook).restoration() == state.restoration(),
        state.cleared().restoration() == state.restoration(),
        state.patched_state(site) == state,
        state.patch_writes(site) == Seq::<Write>::empty(),
{
}

/// The owner of the interception of one target address.
#[derive(Clone, Debug)]
pub struct Handler {
    address: u64,
    metadata: HandlerMetadata,
    trampoline: u64,
    handler: u64,
    original_bytes: Vec<u8>,
    modified_bytes: Vec<u8>,
    trampoline_code: Vec<u8>,
    chain: Vec<ChainEntry>,
    issued: u64,
    original: Option<u64>,
    wrapped: u64,
    patched: bool,
}

impl View for Handler {
    type V = HandlerState;

    closed spec fn view(&self) -> HandlerState {
        HandlerState {
            address: self.address,
            metadata: self.metadata,
            chain: self.chain@,
            issued: self.issued,
            original: self.original,
            patched: self.patched,
            original_bytes: self.original_bytes@,
            modified_bytes: self.modified_bytes@,
            trampoline: self.trampoline,
            trampoline_code: self.trampoline_code@,
            handler: self.handler,
            wrapped: self.wrapped,
        }
    }
}

/// The index in the sorted `chain` behind every entry whose priority is not
/// higher than `priority`. The chain is walked from its end, where new
/// entries mostly go.
fn upper_slot(chain: &Vec<ChainEntry>, priority: i32) -> (slot: usize)
    requires
        sorted(chain@),
    ensures
        slot == upper_bound(chain@, priority as int),
        slot <= chain@.len(),
{
    let mut i: usize = chain.len();
    while i > 0 && chain[i - 1].hook.metadata.priority > priority
        invariant
            i <= chain@.len(),
            forall|j: int| i <= j < chain@.len() ==> (#[trigger] chain@[j]).priority() > priority,
        decreases i,
    {
        i = i - 1;
    }
    proof {
        assert forall|j: int| 0 <= j < i implies (#[trigger] chain@[j]).priority()
            <= priority by {
            assert(chain@[j].priority() <= chain@[i - 1].priority());
        }
        lemma_upper_bound(chain@, priority as int, i as int);
    }
    i
}

/// The index of the entry of `chain` that bears the number `id`.
fn find(chain: &Vec<ChainEntry>, id: u64) -> (found: Option<usize>)
    ensures
        match found {
            Some(k) => has_id(chain@, id) && k == position(chain@, id) && chain@[k as int].id
                == id,
            None => !has_id(chain@, id),
        },
{
    let mut i: usize = 0;
    while i < chain.len() && chain[i].id != id
        invariant
            i <= chain@.len(),
            forall|j: int| 0 <= j < i ==> (#[trigger] chain@[j]).id != id,
        decreases chain@.len() - i,
    {
        i = i + 1;
    }
    proof {
        lemma_position(chain@, id, i as int);
    }
    if i < chain.len() {
        Some(i)
    } else {
        None
    }
}

impl Handler {
    /// A handler for the target at `address`: without hooks, and with the
    /// target as it is.
    pub fn new(address: u64, metadata: HandlerMetadata) -> (handler: Handler)
        ensures
            handler@ == HandlerState::fresh(address, metadata),
            handler@.wf(),
    {
        Handler {
            address,
            metadata,
            trampoline: 0,
            handler: 0,
            original_bytes: Vec::new(),
            modified_bytes: Vec::new(),
            trampoline_code: Vec::new(),
            chain: Vec::new(),
            issued: 0,
            original: None,
            wrapped: 0,
            patched: false,
        }
    }

    /// A handler for the target at `address`, with the implicit hook that
    /// calls the original registered, and the target patched as `site`
    /// describes it. Besides the handler, the writes that perform the patch
    /// are returned.
    pub fn create(address: u64, metadata: HandlerMetadata, site: &PatchSite) -> (result: Result<
        (Handler, Vec<Patch>),
        HookError,
    >)
        ensures
            match HandlerState::fresh(address, metadata).with_original().patch_error(*site) {
                Some(e) => result is Err && result->Err_0 == e,
                None => {
                    &&& result is Ok
                    &&& result->Ok_0.0@ == HandlerState::fresh(
                        address,
                        metadata,
                    ).with_original().intervened(*site)
                    &&& result->Ok_0.1.deep_view() == HandlerState::fresh(
                        address,
                        metadata,
                    ).with_original().intervention(*site)
                    &&& result->Ok_0.0@.wf()
                },
            },
    {
        let mut handler = Handler::new(address, metadata);
        handler.add_original();
        match handler.intervene_function(site) {
            Ok(patches) => Ok((handler, patches)),
            Err(e) => Err(e),
        }
    }

    /// Registers the implicit hook that calls the original.
    pub fn init(&mut self) -> (result: Result<(), HookError>)
        requires
            old(self)@.wf(),
            old(self)@.has_free_id(),
        ensures
            result is Ok,
            final(self)@ == old(self)@.with_original(),
            final(self)@.wf(),
    {
        self.add_original();
        Ok(())
    }

    /// Registers the implicit hook that calls the original: its callback is
    /// the way back into the original, and its priority the highest there is.
    pub fn add_original(&mut self)
        requires
            old(self)@.wf(),
            old(self)@.has_free_id(),
        ensures
            final(self)@ == old(self)@.with_original(),
            final(self)@.wf(),
    {
        let id = self.create_hook(self.wrapped, HookMetadata { priority: ORIGINAL_PRIORITY });
        self.original = Some(id);
    }

    /// Registers a hook with the callback `address`; returns its number. The
    /// hook is put behind every hook whose priority is not higher than its
    /// own: the chain stays sorted by priority, and hooks of one priority
    /// stand in the order in which they were registered.
    pub fn create_hook(&mut self, address: u64, metadata: HookMetadata) -> (id: u64)
        requires
            old(self)@.wf(),
            old(self)@.has_free_id(),
        ensures
            id == old(self)@.issued + 1,
            final(self)@ == old(self)@.hooked(address, metadata),
            final(self)@.wf(),
    {
        let id = self.issued + 1;
        let entry = ChainEntry { id, hook: Hook::new(address, metadata) };
        proof {
            assert forall|i: int| 0 <= i < self.chain@.len() implies (#[trigger] self.chain@[i]).id
                != id by {}
            assert(ids_issued(self.chain@, id));
            lemma_inserted_ids(self.chain@, self.chain@.len() as int, entry, id);
            assert(self.chain@.insert(self.chain@.len() as int, entry) =~= self.chain@.push(entry));
            lemma_registered_is_sort(self.chain@, entry);
        }
        self.chain.push(entry);
        self.issued = id;
        self.reorder_functions();
        id
    }

    /// Sorts the chain by priority, stably: hooks of one priority keep the
    /// order in which they stand.
    pub fn reorder_functions(&mut self)
        requires
            old(self)@.coherent(),
        ensures
            final(self)@ == old(self)@.sorted_out(),
            final(self)@.wf(),
    {
        let count = self.chain.len();
        let mut ordered: Vec<ChainEntry> = Vec::new();
        let mut i: usize = 0;
        proof {
            assert(self.chain@.take(0) =~= Seq::<ChainEntry>::empty());
        }
        while i < count
            invariant
                i <= count,
                count == self.chain@.len(),
                ordered@ == stable_sort(self.chain@.take(i as int)),
                sorted(ordered@),
            decreases count - i,
        {
            let entry = self.chain[i];
            let slot = upper_slot(&ordered, entry.hook.metadata.priority);
            proof {
                assert(self.chain@.take(i + 1).drop_last() =~= self.chain@.take(i as int));
                lemma_stable_sort(self.chain@.take(i + 1));
            }
            ordered.insert(slot, entry);
            i = i + 1;
        }
        proof {
            assert(self.chain@.take(count as int) =~= self.chain@);
            lemma_stable_sort_ids(self.chain@, self.issued);
        }
        self.chain = ordered;
    }

    /// Registers a hook with the callback `address` as `create_hook` does, and
    /// patches the target as `site` describes it where it is not patched: on
    /// a handler that was just made, or whose target was restored. Returns
    /// the number of the hook and the writes that perform the patch; a target
    /// that is patched already takes no write. Where the patch cannot be
    /// made, the hook is not registered and nothing changes.
    pub fn add_hook(&mut self, address: u64, metadata: HookMetadata, site: &PatchSite) -> (result:
        Result<(u64, Vec<Patch>), HookError>)
        requires
            old(self)@.wf(),
            old(self)@.has_free_id(),
        ensures
            match old(self)@.patch_error(*site) {
                Some(e) => result is Err && result->Err_0 == e && final(self)@ == old(self)@,
                None => {
                    &&& result is Ok
                    &&& result->Ok_0.0 == old(self)@.issued + 1
                    &&& result->Ok_0.1.deep_view() == old(self)@.patch_writes(*site)
                    &&& final(self)@ == old(self)@.patched_state(*site).hooked(address, metadata)
                },
            },
            final(self)@.wf(),
    {
        match self.intervene_function(site) {
            Ok(patches) => {
                let id = self.create_hook(address, metadata);
                Ok((id, patches))
            },
            Err(e) => Err(e),
        }
    }

    /// Takes the hook numbered `hook` out of the chain. The other hooks stay,
    /// in their order. Where no hook bears that number, nothing changes and
    /// the call fails.
    pub fn remove_hook(&mut self, hook: u64) -> (result: Result<(), HookError>)
        requires
            old(self)@.wf(),
        ensures
            match result {
                Ok(_) => has_id(old(self)@.chain, hook) && final(self)@ == old(self)@.unhooked(
                    hook,
                ),
                Err(e) => e == HookError::UnknownHandle && !has_id(old(self)@.chain, hook)
                    && final(self)@ == old(self)@,
            },
            final(self)@.wf(),
    {
        match find(&self.chain, hook) {
            None => Err(HookError::UnknownHandle),
            Some(k) => {
                proof {
                    lemma_removed(self.chain@, k as int);
                    lemma_removed_ids(self.chain@, k as int, self.issued);
                }
                self.chain.remove(k);
                if self.original == Some(hook) {
                    self.original = None;
                }
                Ok(())
            },
        }
    }

    /// Takes every hook out of the chain, and registers the implicit hook
    /// that calls the original anew.
    pub fn clear_hooks(&mut self)
        requires
            old(self)@.wf(),
            old(self)@.has_free_id(),
        ensures
            final(self)@ == old(self)@.cleared(),
            final(self)@.wf(),
    {
        self.chain.clear();
        self.original = None;
        self.add_original();
    }

    /// Gives the hook numbered `hook` the priority that `metadata` names, and
    /// sorts the chain again, stably: the other hooks keep their order, and
    /// the hook moves no further than the order asks. The patch of the
    /// target is not touched. Where no hook bears that number, nothing
    /// changes and the call fails.
    pub fn update_hook_metadata(&mut self, hook: u64, metadata: HookMetadata) -> (result: Result<
        (),
        HookError,
    >)
        requires
            old(self)@.wf(),
        ensures
            match result {
                Ok(_) => has_id(old(self)@.chain, hook) && final(self)@ == old(self)@.reordered(
                    hook,
                    metadata,
                ),
                Err(e) => e == HookError::UnknownHandle && !has_id(old(self)@.chain, hook)
                    && final(self)@ == old(self)@,
            },
            final(self)@.wf(),
    {
        match find(&self.chain, hook) {
            None => Err(HookError::UnknownHandle),
            Some(k) => {
                let entry = self.chain[k];
                proof {
                    lemma_updated_ids(self.chain@, k as int, metadata.priority, self.issued);
                }
                self.chain.set(
                    k,
                    ChainEntry { id: entry.id, hook: Hook { address: entry.hook.address, metadata } },
                );
                self.reorder_functions();
                Ok(())
            },
        }
    }

    /// Patches the target as `site` describes it, unless it is patched
    /// already: captures the first instructions of the target, builds the
    /// trampoline that runs them and jumps on into the target, and redirects
    /// the target to the dispatcher. The writes that perform the patch are
    /// returned, the jump that makes it take effect last; a target that is
    /// patched already takes no write. The implicit hook is made to lead to
    /// the trampoline.
    pub fn intervene_function(&mut self, site: &PatchSite) -> (result: Result<
        Vec<Patch>,
        HookError,
    >)
        requires
            old(self)@.wf(),
        ensures
            match old(self)@.patch_error(*site) {
                Some(e) => result is Err && result->Err_0 == e && final(self)@ == old(self)@,
                None => {
                    &&& result is Ok
                    &&& result->Ok_0.deep_view() == old(self)@.patch_writes(*site)
                    &&& final(self)@ == old(self)@.patched_state(*site)
                },
            },
            final(self)@.wf(),
    {
        if self.patched {
            let none: Vec<Patch> = Vec::new();
            proof {
                assert(none.deep_view() =~= Seq::<Write>::empty());
            }
            return Ok(none);
        }
        let bridge = WrapperMetadata {
            convention: self.metadata.convention,
            abstractd: self.metadata.abstractd,
        };
        let wrapped = match Target::get().get_wrapper_generator(
            site.trampoline,
            &bridge,
        ).generate_reverse_wrapper() {
            Ok(stub) => stub,
            Err(e) => {
                return Err(e);
            },
        };
        let length = match capture_length(&site.code) {
            Some(length) => length,
            None => {
                return Err(HookError::PatchFailure);
            },
        };
        let trampoline = match build_trampoline(&site.code, length, self.address, site.trampoline) {
            Some(code) => code,
            None => {
                return Err(HookError::PatchFailure);
            },
        };
        let redirect = match build_redirect(length, self.address, site.handler) {
            Some(code) => code,
            None => {
                return Err(HookError::PatchFailure);
            },
        };
        let mut original: Vec<u8> = Vec::new();
        let mut i: usize = 0;
        while i < length
            invariant
                i <= length <= site.code@.len(),
                original@ == site.code@.take(i as int),
            decreases length - i,
        {
            original.push(site.code[i]);
            proof {
                assert(original@ =~= site.code@.take(i + 1));
            }
            i = i + 1;
        }
        self.reroute(wrapped);
        let mut patches: Vec<Patch> = Vec::new();
        patches.push(Patch { address: site.trampoline, bytes: trampoline.clone() });
        patches.push(Patch { address: self.address, bytes: redirect.clone() });
        self.original_bytes = original;
        self.modified_bytes = redirect;
        self.trampoline = site.trampoline;
        self.trampoline_code = trampoline;
        self.handler = site.handler;
        self.patched = true;
        proof {
            crate::relocation::lemma_redirect_len(
                length as int,
                old(self)@.address as int,
                site.handler as int,
            );
            assert(patches.deep_view() =~= old(self)@.intervention(*site));
        }
        Ok(patches)
    }

    /// Makes the implicit hook lead to `wrapped`.
    fn reroute(&mut self, wrapped: u64)
        requires
            old(self)@.wf(),
        ensures
            final(self)@ == (HandlerState {
                chain: rerouted(old(self)@.chain, old(self)@.original, wrapped),
                wrapped,
                ..old(self)@
            }),
            final(self)@.wf(),
    {
        self.wrapped = wrapped;
        let count = self.chain.len();
        let mut i: usize = 0;
        proof {
            lemma_rerouted(self.chain@, self.original, wrapped, self.issued);
        }
        while i < count
            invariant
                i <= count,
                count == self.chain@.len(),
                count == old(self)@.chain.len(),
                self.original == old(self)@.original,
                forall|j: int|
                    0 <= j < i ==> (#[trigger] self.chain@[j]) == rerouted(
                        old(self)@.chain,
                        old(self)@.original,
                        wrapped,
                    )[j],
                forall|j: int|
                    i <= j < count ==> (#[trigger] self.chain@[j]) == old(self)@.chain[j],
                self@ == (HandlerState { chain: self.chain@, wrapped, ..old(self)@ }),
            decreases count - i,
        {
            let entry = self.chain[i];
            if self.original == Some(entry.id) {
                self.chain.set(
                    i,
                    ChainEntry {
                        id: entry.id,
                        hook: Hook { address: wrapped, metadata: entry.hook.metadata },
                    },
                );
            }
            i = i + 1;
        }
        proof {
            assert(self.chain@ =~= rerouted(old(self)@.chain, old(self)@.original, wrapped));
        }
    }

    /// Restores the target, if it is patched: returns the write that puts
    /// the captured bytes back where they came from, byte for byte, and
    /// discards the trampoline. A target that is not patched takes no write.
    pub fn restore_function(&mut self) -> (result: Result<Vec<Patch>, HookError>)
        requires
            old(self)@.wf(),
        ensures
            result is Ok,
            result->Ok_0.deep_view() == old(self)@.restoration(),
            final(self)@ == old(self)@.restored(),
            final(self)@.wf(),
    {
        let mut patches: Vec<Patch> = Vec::new();
        if self.patched {
            patches.push(Patch { address: self.address, bytes: self.original_bytes.clone() });
            self.patched = false;
        }
        self.trampoline_code.clear();
        proof {
            assert(patches.deep_view() =~= old(self)@.restoration());
        }
        Ok(patches)
    }

    /// The callbacks of the chain in the order in which a call walks them,
    /// as they stand now.
    pub fn content(&self) -> (content: HandlerContent)
        ensures
            content.functions@ == callbacks(self@.chain),
    {
        let mut functions: Vec<u64> = Vec::new();
        let mut i: usize = 0;
        while i < self.chain.len()
            invariant
                i <= self.chain@.len(),
                functions@ == callbacks(self.chain@).take(i as int),
            decreases self.chain@.len() - i,
        {
            functions.push(self.chain[i].hook.address);
            proof {
                assert(functions@ =~= callbacks(self.chain@).take(i + 1));
            }
            i = i + 1;
        }
        proof {
            assert(functions@ =~= callbacks(self.chain@));
        }
        HandlerContent { functions }
    }

    /// The hooks of the chain in the order in which a call walks them.
    pub fn hooks(&self) -> (hooks: Vec<ChainEntry>)
        ensures
            hooks@ == self@.chain,
    {
        let mut hooks: Vec<ChainEntry> = Vec::new();
        let mut i: usize = 0;
        while i < self.chain.len()
            invariant
                i <= self.chain@.len(),
                hooks@ == self.chain@.take(i as int),
            decreases self.chain@.len() - i,
        {
            hooks.push(self.chain[i]);
            proof {
                assert(hooks@ =~= self.chain@.take(i + 1));
            }
            i = i + 1;
        }
        proof {
            assert(hooks@ =~= self.chain@);
        }
        hooks
    }

    /// The numbers of the hooks whose callback is `address`, in the order of
    /// the chain. One callback may be registered more than once.
    pub fn hooks_with(&self, address: u64) -> (ids: Vec<u64>)
        ensures
            ids@ == ids_with(self@.chain, address),
    {
        let mut ids: Vec<u64> = Vec::new();
        let mut i: usize = 0;
        proof {
            assert(self.chain@.take(0) =~= Seq::<ChainEntry>::empty());
        }
        while i < self.chain.len()
            invariant
                i <= self.chain@.len(),
                ids@ == ids_with(self.chain@.take(i as int), address),
            decreases self.chain@.len() - i,
        {
            proof {
                assert(self.chain@.take(i + 1).drop_last() =~= self.chain@.take(i as int));
            }
            if self.chain[i].hook.address == address {
                ids.push(self.chain[i].id);
            }
            i = i + 1;
        }
        proof {
            assert(self.chain@.take(self.chain@.len() as int) =~= self.chain@);
        }
        ids
    }

    /// Whether the chain holds no hook but the implicit one.
    pub fn is_idle(&self) -> (idle: bool)
        ensures
            idle == crate::hook::idle(self@.chain, self@.original),
    {
        let mut i: usize = 0;
        while i < self.chain.len()
            invariant
                i <= self.chain@.len(),
                forall|j: int| 0 <= j < i ==> self.original == Some((#[trigger] self.chain@[j]).id),
            decreases self.chain@.len() - i,
        {
            if self.original != Some(self.chain[i].id) {
                return false;
            }
            i = i + 1;
        }
        true
    }

    /// The address of the target.
    pub fn address(&self) -> (address: u64)
        ensures
            address == self@.address,
    {
        self.address
    }

    /// How the target expects to be called.
    pub fn metadata(&self) -> (metadata: HandlerMetadata)
        ensures
            metadata == self@.metadata,
    {
        self.metadata
    }

    /// The number of hooks in the chain, the implicit one included.
    pub fn hook_count(&self) -> (count: usize)
        ensures
            count == self@.chain.len(),
    {
        self.chain.len()
    }

    /// Whether one more hook can be numbered.
    pub fn has_free_id(&self) -> (free: bool)
        ensures
            free == self@.has_free_id(),
    {
        self.issued < u64::MAX
    }

    /// The number of the implicit hook that calls the original, if it is registered.
    pub fn original_hook(&self) -> (id: Option<u64>)
        ensures
            id == self@.original,
    {
        self.original
    }

    /// Whether the target is redirected.
    pub fn is_patched(&self) -> (patched: bool)
        ensures
            patched == self@.patched,
    {
        self.patched
    }

    /// The address of the trampoline.
    pub fn trampoline(&self) -> (address: u64)
        ensures
            address == self@.trampoline,
    {
        self.trampoline
    }

    /// The number of bytes that the trampoline takes.
    pub fn trampoline_size(&self) -> (size: usize)
        ensures
            size == self@.trampoline_code.len(),
    {
        self.trampoline_code.len()
    }

    /// The code of the trampoline.
    pub fn trampoline_code(&self) -> (code: &Vec<u8>)
        ensures
            code@ == self@.trampoline_code,
    {
        &self.trampoline_code
    }

    /// The entry of the dispatcher.
    pub fn handler(&self) -> (address: u64)
        ensures
            address == self@.handler,
    {
        self.handler
    }

    /// The bytes that were captured from the target.
    pub fn original_bytes(&self) -> (bytes: &Vec<u8>)
        ensures
            bytes@ == self@.original_bytes,
    {
        &self.original_bytes
    }

    /// The bytes that redirect the target.
    pub fn modified_bytes(&self) -> (bytes: &Vec<u8>)
        ensures
            bytes@ == self@.modified_bytes,
    {
        &self.modified_bytes
    }
}

} // verus!
