//! Hooks and the ordered chain that a handler keeps them in.

use vstd::prelude::*;

verus! {

/// How a hook asks to be ordered among the hooks of one target: hooks with a
/// lower priority run earlier.
#[derive(Clone, Copy, Debug, PartialEq, Eq, Structural)]
pub struct HookMetadata {
    pub priority: i32,
}

/// One registered interception: the callback at `address`.
#[derive(Clone, Copy, Debug, PartialEq, Eq, Structural)]
pub struct Hook {
    pub address: u64,
    pub metadata: HookMetadata,
}

impl Hook {
    pub fn new(address: u64, metadata: HookMetadata) -> (hook: Hook)
        ensures
            hook.address == address,
            hook.metadata == metadata,
    {
        Hook { address, metadata }
    }
}

/// What an installation hands out for later removal: the target address and
/// the number of the hook among the hooks of that target.
#[derive(Clone, Copy, Debug, PartialEq, Eq, Structural)]
pub struct HookHandle {
    pub address: u64,
    pub id: u64,
}

/// A hook in a chain, under the number it was registered with.
#[derive(Clone, Copy, Debug, PartialEq, Eq, Structural)]
pub struct ChainEntry {
    pub id: u64,
    pub hook: Hook,
}

impl ChainEntry {
    pub open spec fn priority(self) -> int {
        self.hook.metadata.priority as int
    }

    /// The entry with its priority changed to `priority`.
    pub open spec fn with_priority(self, priority: i32) -> ChainEntry {
        ChainEntry {
            id: self.id,
            hook: Hook { address: self.hook.address, metadata: HookMetadata { priority } },
        }
    }

    /// The entry with its callback changed to `address`.
    pub open spec fn with_address(self, address: u64) -> ChainEntry {
        ChainEntry { id: self.id, hook: Hook { address, metadata: self.hook.metadata } }
    }
}

/// Whether the priorities of a chain never fall from one entry to the next.
pub open spec fn sorted(chain: Seq<ChainEntry>) -> bool {
    forall|i: int, j: int|
        0 <= i <= j < chain.len() ==> (#[trigger] chain[i]).priority() <= (
        #[trigger] chain[j]).priority()
}

/// Whether no number is borne by two entries of a chain.
pub open spec fn distinct_ids(chain: Seq<ChainEntry>) -> bool {
    forall|i: int, j: int|
        0 <= i < j < chain.len() ==> (#[trigger] chain[i]).id != (#[trigger] chain[j]).id
}

/// The length of the longest prefix of a chain whose priorities are all at
/// most `priority`. In a sorted chain this is the last place at which an
/// entry of that priority can stand.
pub open spec fn upper_bound(chain: Seq<ChainEntry>, priority: int) -> nat
    decreases chain.len(),
{
    if chain.len() == 0 || chain[0].priority() > priority {
        0
    } else {
        1 + upper_bound(chain.drop_first(), priority)
    }
}

/// The index of the first entry of a chain that bears the number `id`, or
/// the length of the chain where none does.
pub open spec fn position(chain: Seq<ChainEntry>, id: u64) -> nat
    decreases chain.len(),
{
    if chain.len() == 0 || chain[0].id == id {
        0
    } else {
        1 + position(chain.drop_first(), id)
    }
}

/// Whether some entry of a chain bears the number `id`.
pub open spec fn has_id(chain: Seq<ChainEntry>, id: u64) -> bool {
    position(chain, id) < chain.len()
}

/// The chain after a new entry is registered: it stands behind every entry
/// whose priority is not higher than its own.
pub open spec fn registered(chain: Seq<ChainEntry>, entry: ChainEntry) -> Seq<ChainEntry> {
    chain.insert(upper_bound(chain, entry.priority()) as int, entry)
}

/// The callbacks of a chain, in the order in which a call walks them.
pub open spec fn callbacks(chain: Seq<ChainEntry>) -> Seq<u64> {
    Seq::new(chain.len(), |i: int| chain[i].hook.address)
}

/// The numbers of the entries of a chain whose callback is `address`, in
/// the order of the chain: what an index from callbacks to hooks would hold.
pub open spec fn ids_with(chain: Seq<ChainEntry>, address: u64) -> Seq<u64>
    decreases chain.len(),
{
    if chain.len() == 0 {
        Seq::empty()
    } else if chain.last().hook.address == address {
        ids_with(chain.drop_last(), address).push(chain.last().id)
    } else {
        ids_with(chain.drop_last(), address)
    }
}

/// What pins `upper_bound` down: the entries before it are at most
/// `priority`, the entry at it is above.
pub proof fn lemma_upper_bound(chain: Seq<ChainEntry>, priority: int, i: int)
    requires
        0 <= i <= chain.len(),
        forall|j: int| 0 <= j < i ==> (#[trigger] chain[j]).priority() <= priority,
        i < chain.len() ==> chain[i].priority() > priority,
    ensures
        upper_bound(chain, priority) == i,
    decreases chain.len(),
{
    if chain.len() > 0 && i > 0 {
        let rest = chain.drop_first();
        assert(chain[0].priority() <= priority);
        assert forall|j: int| 0 <= j < i - 1 implies (#[trigger] rest[j]).priority()
            <= priority by {
            assert(rest[j] == chain[j + 1]);
        }
        lemma_upper_bound(rest, priority, i - 1);
    }
}

/// What pins `position` down: no entry before it bears `id`, the entry at
/// it does.
pub proof fn lemma_position(chain: Seq<ChainEntry>, id: u64, i: int)
    requires
        0 <= i <= chain.len(),
        forall|j: int| 0 <= j < i ==> (#[trigger] chain[j]).id != id,
        i < chain.len() ==> chain[i].id == id,
    ensures
        position(chain, id) == i,
    decreases chain.len(),
{
    if chain.len() > 0 && i > 0 {
        let rest = chain.drop_first();
        assert(chain[0].id != id);
        assert forall|j: int| 0 <= j < i - 1 implies (#[trigger] rest[j]).id != id by {
            assert(rest[j] == chain[j + 1]);
        }
        lemma_position(rest, id, i - 1);
    }
}

/// The bound of a priority in any chain: it lies in the chain, the entries
/// before it are not higher than the priority, and the entry at it is.
pub proof fn lemma_bounds(chain: Seq<ChainEntry>, priority: int)
    ensures
        upper_bound(chain, priority) <= chain.len(),
        forall|j: int|
            0 <= j < upper_bound(chain, priority) ==> (#[trigger] chain[j]).priority()
                <= priority,
        upper_bound(chain, priority) < chain.len() ==> chain[upper_bound(
            chain,
            priority,
        ) as int].priority() > priority,
    decreases chain.len(),
{
    if chain.len() > 0 {
        let rest = chain.drop_first();
        lemma_bounds(rest, priority);
        assert forall|j: int| 0 <= j < upper_bound(chain, priority) implies (
        #[trigger] chain[j]).priority() <= priority by {
            if j > 0 {
                assert(chain[j] == rest[j - 1]);
            }
        }
        if chain[0].priority() <= priority && upper_bound(chain, priority) < chain.len() {
            assert(chain[upper_bound(chain, priority) as int] == rest[upper_bound(
                rest,
                priority,
            ) as int]);
        }
    }
}

/// In a sorted chain the bound parts the chain by priority: before it stand
/// the entries that are not higher than the priority, from it on the higher ones.
pub proof fn lemma_bounds_sorted(chain: Seq<ChainEntry>, priority: int)
    requires
        sorted(chain),
    ensures
        upper_bound(chain, priority) <= chain.len(),
        forall|j: int|
            0 <= j < chain.len() ==> ((#[trigger] chain[j]).priority() <= priority <==> j
                < upper_bound(chain, priority)),
{
    lemma_bounds(chain, priority);
    let high = upper_bound(chain, priority) as int;
    assert forall|j: int| 0 <= j < chain.len() implies ((#[trigger] chain[j]).priority()
        <= priority <==> j < high) by {
        if j >= high {
            assert(chain[high].priority() <= chain[j].priority());
        }
    }
}

/// The position of a number lies in the chain exactly where an entry bears
/// it, and that entry is the first to do so.
pub proof fn lemma_position_found(chain: Seq<ChainEntry>, id: u64)
    ensures
        position(chain, id) <= chain.len(),
        has_id(chain, id) ==> chain[position(chain, id) as int].id == id,
        forall|j: int| 0 <= j < position(chain, id) ==> (#[trigger] chain[j]).id != id,
        has_id(chain, id) <==> exists|j: int|
            0 <= j < chain.len() && (#[trigger] chain[j]).id == id,
    decreases chain.len(),
{
    if chain.len() > 0 {
        let rest = chain.drop_first();
        lemma_position_found(rest, id);
        if chain[0].id != id {
            if has_id(chain, id) {
                assert(chain[position(chain, id) as int] == rest[position(rest, id) as int]);
            }
            assert forall|j: int| 0 <= j < position(chain, id) implies (#[trigger] chain[j]).id
                != id by {
                if j > 0 {
                    assert(chain[j] == rest[j - 1]);
                }
            }
            if exists|j: int| 0 <= j < chain.len() && (#[trigger] chain[j]).id == id {
                let j = choose|j: int| 0 <= j < chain.len() && (#[trigger] chain[j]).id == id;
                assert(rest[j - 1].id == id);
            }
        }
    }
}

/// An entry put where the entries before it are not higher and the entries
/// behind it are not lower keeps a sorted chain sorted.
pub proof fn lemma_insert_sorted(chain: Seq<ChainEntry>, slot: int, entry: ChainEntry)
    requires
        sorted(chain),
        0 <= slot <= chain.len(),
        forall|j: int| 0 <= j < slot ==> (#[trigger] chain[j]).priority() <= entry.priority(),
        forall|j: int|
            slot <= j < chain.len() ==> (#[trigger] chain[j]).priority() >= entry.priority(),
    ensures
        sorted(chain.insert(slot, entry)),
        chain.insert(slot, entry).remove(slot) == chain,
{
    let after = chain.insert(slot, entry);
    assert(after.remove(slot) =~= chain);
    assert forall|i: int, j: int| 0 <= i <= j < after.len() implies (#[trigger] after[i]).priority()
        <= (#[trigger] after[j]).priority() by {
        let a = if i < slot {
            i
        } else {
            i - 1
        };
        let b = if j < slot {
            j
        } else {
            j - 1
        };
        if i != slot && j != slot {
            assert(after[i] == chain[a] && after[j] == chain[b]);
            assert(chain[a].priority() <= chain[b].priority());
        } else if i == slot && j != slot {
            assert(after[j] == chain[b]);
            assert(chain[b].priority() >= entry.priority());
        } else if j == slot && i != slot {
            assert(after[i] == chain[a]);
            assert(chain[a].priority() <= entry.priority());
        }
    }
}

/// Registering an entry keeps a sorted chain sorted, puts the entry behind
/// every entry whose priority is not higher and before every entry whose
/// priority is higher, and leaves the other entries in their order.
pub proof fn lemma_registered(chain: Seq<ChainEntry>, entry: ChainEntry)
    requires
        sorted(chain),
    ensures
        sorted(registered(chain, entry)),
        registered(chain, entry).len() == chain.len() + 1,
        registered(chain, entry)[upper_bound(chain, entry.priority()) as int] == entry,
        registered(chain, entry).remove(upper_bound(chain, entry.priority()) as int) == chain,
        forall|j: int|
            0 <= j < chain.len() ==> ((#[trigger] chain[j]).priority() <= entry.priority() <==> j
                < upper_bound(chain, entry.priority())),
{
    lemma_bounds_sorted(chain, entry.priority());
    let slot = upper_bound(chain, entry.priority()) as int;
    lemma_insert_sorted(chain, slot, entry);
}

/// Taking an entry out keeps a sorted chain sorted and its numbers distinct,
/// and leaves every other entry present and in its order: the entry that
/// stood at `i` stands at `i`, or one place further to the front where `i`
/// lay behind the entry that left.
pub proof fn lemma_removed(chain: Seq<ChainEntry>, k: int)
    requires
        0 <= k < chain.len(),
    ensures
        chain.remove(k).len() == chain.len() - 1,
        forall|i: int| 0 <= i < k ==> (#[trigger] chain.remove(k)[i]) == chain[i],
        forall|i: int| k < i < chain.len() ==> chain.remove(k)[i - 1] == (#[trigger] chain[i]),
        sorted(chain) ==> sorted(chain.remove(k)),
        distinct_ids(chain) ==> distinct_ids(chain.remove(k)),
        distinct_ids(chain) ==> !has_id(chain.remove(k), chain[k].id),
        forall|id: u64|
            id != chain[k].id ==> (has_id(chain, id) <==> #[trigger] has_id(chain.remove(k), id)),
{
    let rest = chain.remove(k);
    if sorted(chain) {
        assert forall|i: int, j: int| 0 <= i <= j < rest.len() implies (
        #[trigger] rest[i]).priority() <= (#[trigger] rest[j]).priority() by {
            let a = if i < k {
                i
            } else {
                i + 1
            };
            let b = if j < k {
                j
            } else {
                j + 1
            };
            assert(rest[i] == chain[a] && rest[j] == chain[b]);
            assert(chain[a].priority() <= chain[b].priority());
        }
    }
    if distinct_ids(chain) {
        assert forall|i: int, j: int| 0 <= i < j < rest.len() implies (#[trigger] rest[i]).id != (
        #[trigger] rest[j]).id by {
            let a = if i < k {
                i
            } else {
                i + 1
            };
            let b = if j < k {
                j
            } else {
                j + 1
            };
            assert(rest[i] == chain[a] && rest[j] == chain[b]);
            assert(chain[a].id != chain[b].id);
        }
        lemma_position_found(rest, chain[k].id);
        if has_id(rest, chain[k].id) {
            let j = position(rest, chain[k].id) as int;
            let b = if j < k {
                j
            } else {
                j + 1
            };
            assert(rest[j] == chain[b]);
            if b < k {
                assert(chain[b].id != chain[k].id);
            } else {
                assert(chain[k].id != chain[b].id);
            }
        }
    }
    assert forall|id: u64| id != chain[k].id implies (has_id(chain, id) <==> #[trigger] has_id(
        rest,
        id,
    )) by {
        lemma_position_found(rest, id);
        lemma_position_found(chain, id);
        if has_id(chain, id) {
            let j = position(chain, id) as int;
            let b = if j < k {
                j
            } else {
                j - 1
            };
            assert(rest[b] == chain[j]);
        }
        if has_id(rest, id) {
            let j = position(rest, id) as int;
            let b = if j < k {
                j
            } else {
                j + 1
            };
            assert(rest[j] == chain[b]);
        }
    }
}

/// The chain with the callback of the entry numbered `original`, if there is
/// one, changed to `address`.
pub open spec fn rerouted(chain: Seq<ChainEntry>, original: Option<u64>, address: u64) -> Seq<
    ChainEntry,
> {
    Seq::new(
        chain.len(),
        |i: int|
            if original == Some(chain[i].id) {
                chain[i].with_address(address)
            } else {
                chain[i]
            },
    )
}

/// Whether a chain holds no hook but the implicit one numbered `original`.
pub open spec fn idle(chain: Seq<ChainEntry>, original: Option<u64>) -> bool {
    forall|i: int| 0 <= i < chain.len() ==> original == Some((#[trigger] chain[i]).id)
}

/// Whether every number of a chain lies between 1 and `issued`.
pub open spec fn ids_issued(chain: Seq<ChainEntry>, issued: u64) -> bool {
    forall|i: int| 0 <= i < chain.len() ==> 1 <= (#[trigger] chain[i]).id <= issued
}

/// An entry with a number that the chain does not hold keeps the numbers of
/// the chain distinct, wherever it is put.
pub proof fn lemma_inserted_ids(chain: Seq<ChainEntry>, slot: int, entry: ChainEntry, issued: u64)
    requires
        0 <= slot <= chain.len(),
        distinct_ids(chain),
        ids_issued(chain, issued),
        forall|i: int| 0 <= i < chain.len() ==> (#[trigger] chain[i]).id != entry.id,
        1 <= entry.id <= issued,
    ensures
        distinct_ids(chain.insert(slot, entry)),
        ids_issued(chain.insert(slot, entry), issued),
{
    let after = chain.insert(slot, entry);
    assert forall|i: int, j: int| 0 <= i < j < after.len() implies (#[trigger] after[i]).id != (
    #[trigger] after[j]).id by {
        let a = if i < slot {
            i
        } else {
            i - 1
        };
        let b = if j < slot {
            j
        } else {
            j - 1
        };
        if i != slot && j != slot {
            assert(after[i] == chain[a] && after[j] == chain[b]);
            assert(chain[a].id != chain[b].id);
        } else if i == slot {
            assert(after[j] == chain[b]);
        } else {
            assert(after[i] == chain[a]);
        }
    }
    assert forall|i: int| 0 <= i < after.len() implies 1 <= (#[trigger] after[i]).id <= issued by {
        if i < slot {
            assert(after[i] == chain[i]);
        } else if i > slot {
            assert(after[i] == chain[i - 1]);
        }
    }
}

/// Taking an entry out keeps the numbers of a chain within what was issued.
pub proof fn lemma_removed_ids(chain: Seq<ChainEntry>, k: int, issued: u64)
    requires
        0 <= k < chain.len(),
        distinct_ids(chain),
        ids_issued(chain, issued),
    ensures
        ids_issued(chain.remove(k), issued),
        forall|i: int|
            0 <= i < chain.remove(k).len() ==> (#[trigger] chain.remove(k)[i]).id != chain[k].id,
{
    let rest = chain.remove(k);
    assert forall|i: int| 0 <= i < rest.len() implies 1 <= (#[trigger] rest[i]).id <= issued
        && rest[i].id != chain[k].id by {
        if i < k {
            assert(rest[i] == chain[i]);
            assert(chain[i].id != chain[k].id);
        } else {
            assert(rest[i] == chain[i + 1]);
            assert(chain[k].id != chain[i + 1].id);
        }
    }
}

/// Giving an entry another priority changes no number of the chain.
pub proof fn lemma_updated_ids(chain: Seq<ChainEntry>, k: int, priority: i32, issued: u64)
    requires
        0 <= k < chain.len(),
        distinct_ids(chain),
        ids_issued(chain, issued),
    ensures
        distinct_ids(chain.update(k, chain[k].with_priority(priority))),
        ids_issued(chain.update(k, chain[k].with_priority(priority)), issued),
{
    let after = chain.update(k, chain[k].with_priority(priority));
    assert forall|i: int, j: int| 0 <= i < j < after.len() implies (#[trigger] after[i]).id != (
    #[trigger] after[j]).id by {
        assert(chain[i].id != chain[j].id);
    }
    assert forall|i: int| 0 <= i < after.len() implies 1 <= (#[trigger] after[i]).id
        <= issued by {
        assert(1 <= chain[i].id <= issued);
    }
}

/// Changing the callback of an entry changes neither the order, the
/// numbers nor the priorities of a chain.
pub proof fn lemma_rerouted(
    chain: Seq<ChainEntry>,
    original: Option<u64>,
    address: u64,
    issued: u64,
)
    ensures
        rerouted(chain, original, address).len() == chain.len(),
        sorted(chain) ==> sorted(rerouted(chain, original, address)),
        distinct_ids(chain) ==> distinct_ids(rerouted(chain, original, address)),
        ids_issued(chain, issued) ==> ids_issued(rerouted(chain, original, address), issued),
        forall|i: int|
            0 <= i < chain.len() ==> (#[trigger] rerouted(chain, original, address)[i]).id
                == chain[i].id && rerouted(chain, original, address)[i].hook.metadata
                == chain[i].hook.metadata,
{
    let after = rerouted(chain, original, address);
    if sorted(chain) {
        assert forall|i: int, j: int| 0 <= i <= j < after.len() implies (
        #[trigger] after[i]).priority() <= (#[trigger] after[j]).priority() by {
            assert(chain[i].priority() <= chain[j].priority());
        }
    }
    if distinct_ids(chain) {
        assert forall|i: int, j: int| 0 <= i < j < after.len() implies (#[trigger] after[i]).id != (
        #[trigger] after[j]).id by {
            assert(chain[i].id != chain[j].id);
        }
    }
    if ids_issued(chain, issued) {
        assert forall|i: int| 0 <= i < after.len() implies 1 <= (#[trigger] after[i]).id
            <= issued by {
            assert(1 <= chain[i].id <= issued);
        }
    }
}

/// A chain sorted by priority, stably: the entries are taken in their order,
/// and each is put behind every entry taken before it whose priority is not
/// higher than its own.
pub open spec fn stable_sort(chain: Seq<ChainEntry>) -> Seq<ChainEntry>
    decreases chain.len(),
{
    if chain.len() == 0 {
        chain
    } else {
        registered(stable_sort(chain.drop_last()), chain.last())
    }
}

/// Sorting keeps every entry and adds none: the sorted chain is as long as
/// the chain, holds the same entries, and is sorted.
pub proof fn lemma_stable_sort(chain: Seq<ChainEntry>)
    ensures
        stable_sort(chain).len() == chain.len(),
        sorted(stable_sort(chain)),
        forall|entry: ChainEntry| #[trigger]
            stable_sort(chain).contains(entry) <==> chain.contains(entry),
    decreases chain.len(),
{
    if chain.len() > 0 {
        let front = chain.drop_last();
        let before = stable_sort(front);
        let slot = upper_bound(before, chain.last().priority()) as int;
        let after = stable_sort(chain);
        lemma_stable_sort(front);
        lemma_registered(before, chain.last());
        lemma_bounds(before, chain.last().priority());
        assert forall|entry: ChainEntry| #[trigger] after.contains(entry) <==> chain.contains(
            entry,
        ) by {
            if after.contains(entry) {
                let i = choose|i: int| 0 <= i < after.len() && after[i] == entry;
                if i == slot {
                    assert(chain[chain.len() - 1] == entry);
                } else {
                    let j = if i < slot {
                        i
                    } else {
                        i - 1
                    };
                    assert(before[j] == entry);
                    assert(before.contains(entry));
                    assert(front.contains(entry));
                    let k = choose|k: int| 0 <= k < front.len() && front[k] == entry;
                    assert(chain[k] == entry);
                }
            }
            if chain.contains(entry) {
                let k = choose|k: int| 0 <= k < chain.len() && chain[k] == entry;
                if k == chain.len() - 1 {
                    assert(after[slot] == entry);
                } else {
                    assert(front[k] == entry);
                    assert(front.contains(entry));
                    assert(before.contains(entry));
                    let j = choose|j: int| 0 <= j < before.len() && before[j] == entry;
                    let i = if j < slot {
                        j
                    } else {
                        j + 1
                    };
                    assert(after[i] == entry);
                }
            }
        }
    }
}

/// Sorting keeps the numbers of a chain distinct and within what was issued.
pub proof fn lemma_stable_sort_ids(chain: Seq<ChainEntry>, issued: u64)
    requires
        distinct_ids(chain),
    ensures
        distinct_ids(stable_sort(chain)),
        ids_issued(chain, issued) ==> ids_issued(stable_sort(chain), issued),
        forall|id: u64| has_id(chain, id) <==> #[trigger] has_id(stable_sort(chain), id),
{
    let after = stable_sort(chain);
    lemma_stable_sort(chain);
    assert forall|i: int, j: int| 0 <= i < j < after.len() implies (#[trigger] after[i]).id != (
    #[trigger] after[j]).id by {
        lemma_sort_order(chain, i, j);
    }
    if ids_issued(chain, issued) {
        assert forall|i: int| 0 <= i < after.len() implies 1 <= (#[trigger] after[i]).id
            <= issued by {
            assert(after.contains(after[i]));
            assert(chain.contains(after[i]));
            let k = choose|k: int| 0 <= k < chain.len() && chain[k] == after[i];
            assert(1 <= chain[k].id <= issued);
        }
    }
    assert forall|id: u64| has_id(chain, id) <==> #[trigger] has_id(after, id) by {
        lemma_position_found(chain, id);
        lemma_position_found(after, id);
        if has_id(chain, id) {
            let k = position(chain, id) as int;
            assert(chain.contains(chain[k]));
            assert(after.contains(chain[k]));
            let i = choose|i: int| 0 <= i < after.len() && after[i] == chain[k];
            assert(after[i].id == id);
        }
        if has_id(after, id) {
            let i = position(after, id) as int;
            assert(after.contains(after[i]));
            assert(chain.contains(after[i]));
            let k = choose|k: int| 0 <= k < chain.len() && chain[k] == after[i];
            assert(chain[k].id == id);
        }
    }
}

/// Where the sorted chain came from: its entries at two places stood in the
/// chain at two places, and those are different places.
proof fn lemma_sort_order(chain: Seq<ChainEntry>, i: int, j: int)
    requires
        distinct_ids(chain),
        0 <= i < j < stable_sort(chain).len(),
    ensures
        stable_sort(chain)[i].id != stable_sort(chain)[j].id,
    decreases chain.len(),
{
    lemma_stable_sort(chain);
    if chain.len() > 0 {
        let front = chain.drop_last();
        let before = stable_sort(front);
        let slot = upper_bound(before, chain.last().priority()) as int;
        let after = stable_sort(chain);
        lemma_stable_sort(front);
        lemma_bounds(before, chain.last().priority());
        assert(distinct_ids(front)) by {
            assert forall|a: int, b: int| 0 <= a < b < front.len() implies (#[trigger] front[a]).id
                != (#[trigger] front[b]).id by {
                assert(chain[a].id != chain[b].id);
            }
        }
        let a = if i < slot {
            i
        } else {
            i - 1
        };
        let b = if j < slot {
            j
        } else {
            j - 1
        };
        if i != slot && j != slot {
            assert(after[i] == before[a] && after[j] == before[b]);
            lemma_sort_order(front, a, b);
        } else {
            let other = if i == slot {
                before[b]
            } else {
                before[a]
            };
            assert(before.contains(other));
            assert(front.contains(other));
            let k = choose|k: int| 0 <= k < front.len() && front[k] == other;
            assert(chain[k].id != chain[chain.len() - 1].id);
        }
    }
}

/// A sorted chain is sorted already: sorting it changes nothing.
pub proof fn lemma_stable_sort_fixed(chain: Seq<ChainEntry>)
    requires
        sorted(chain),
    ensures
        stable_sort(chain) == chain,
    decreases chain.len(),
{
    if chain.len() > 0 {
        let front = chain.drop_last();
        assert(sorted(front)) by {
            assert forall|i: int, j: int| 0 <= i <= j < front.len() implies (
            #[trigger] front[i]).priority() <= (#[trigger] front[j]).priority() by {
                assert(chain[i].priority() <= chain[j].priority());
            }
        }
        lemma_stable_sort_fixed(front);
        assert forall|j: int| 0 <= j < front.len() implies (#[trigger] front[j]).priority()
            <= chain.last().priority() by {
            assert(chain[j].priority() <= chain[chain.len() - 1].priority());
        }
        lemma_upper_bound(front, chain.last().priority(), front.len() as int);
        assert(front.insert(front.len() as int, chain.last()) =~= chain);
    }
}

/// Registering an entry is appending it and sorting the chain stably.
pub proof fn lemma_registered_is_sort(chain: Seq<ChainEntry>, entry: ChainEntry)
    requires
        sorted(chain),
    ensures
        registered(chain, entry) == stable_sort(chain.push(entry)),
{
    assert(chain.push(entry).drop_last() =~= chain);
    lemma_stable_sort_fixed(chain);
}

/// The place of a number in a chain into which an entry with another
/// number was put: where it was, or one place further back where the entry
/// was put before it. The entry itself stands where it was put.
pub proof fn lemma_position_inserted(chain: Seq<ChainEntry>, slot: int, entry: ChainEntry, id: u64)
    requires
        0 <= slot <= chain.len(),
        !has_id(chain, entry.id),
    ensures
        position(chain.insert(slot, entry), entry.id) == slot,
        id != entry.id && has_id(chain, id) ==> position(chain.insert(slot, entry), id)
            == position(chain, id) + if position(chain, id) < slot {
            0int
        } else {
            1int
        },
{
    let after = chain.insert(slot, entry);
    lemma_position_found(chain, entry.id);
    assert forall|j: int| 0 <= j < slot implies (#[trigger] after[j]).id != entry.id by {
        assert(after[j] == chain[j]);
    }
    lemma_position(after, entry.id, slot);
    if id != entry.id && has_id(chain, id) {
        lemma_position_found(chain, id);
        let old_place = position(chain, id) as int;
        let place = if old_place < slot {
            old_place
        } else {
            old_place + 1
        };
        assert forall|j: int| 0 <= j < place implies (#[trigger] after[j]).id != id by {
            if j < slot {
                assert(after[j] == chain[j]);
            } else if j > slot {
                assert(after[j] == chain[j - 1]);
            }
        }
        assert(after[place] == chain[old_place]);
        lemma_position(after, id, place);
    }
}

/// Sorting is stable and by priority: of two entries, the one that stood
/// first in the chain stands first in the sorted chain too, unless its
/// priority is the higher one.
pub proof fn lemma_stable_sort_keeps_order(chain: Seq<ChainEntry>, i: int, j: int)
    requires
        distinct_ids(chain),
        0 <= i < j < chain.len(),
        chain[i].priority() <= chain[j].priority(),
    ensures
        position(stable_sort(chain), chain[i].id) < position(stable_sort(chain), chain[j].id)
            < chain.len(),
        stable_sort(chain)[position(stable_sort(chain), chain[i].id) as int] == chain[i],
        stable_sort(chain)[position(stable_sort(chain), chain[j].id) as int] == chain[j],
    decreases chain.len(),
{
    let front = chain.drop_last();
    let before = stable_sort(front);
    let last = chain.last();
    let slot = upper_bound(before, last.priority()) as int;
    let after = stable_sort(chain);
    lemma_stable_sort(front);
    lemma_bounds_sorted(before, last.priority());
    assert(distinct_ids(front)) by {
        assert forall|a: int, b: int| 0 <= a < b < front.len() implies (#[trigger] front[a]).id != (
        #[trigger] front[b]).id by {
            assert(chain[a].id != chain[b].id);
        }
    }
    lemma_stable_sort_ids(front, 0);
    assert(!has_id(front, last.id)) by {
        lemma_position_found(front, last.id);
        if has_id(front, last.id) {
            let k = position(front, last.id) as int;
            assert(chain[k].id != chain[chain.len() - 1].id);
        }
    }
    assert(!has_id(before, last.id));
    lemma_entry_placed(front, i);
    lemma_position_inserted(before, slot, last, chain[i].id);
    assert(chain[i].id != last.id);
    if j < chain.len() - 1 {
        lemma_stable_sort_keeps_order(front, i, j);
        assert(chain[j].id != last.id);
        lemma_position_inserted(before, slot, last, chain[j].id);
    } else {
        let place = position(before, chain[i].id) as int;
        assert(before[place].priority() <= last.priority());
        assert(place < slot);
    }
}

/// Every entry of a chain stands in the sorted chain, at the place of its number.
pub proof fn lemma_entry_placed(chain: Seq<ChainEntry>, i: int)
    requires
        distinct_ids(chain),
        0 <= i < chain.len(),
    ensures
        has_id(stable_sort(chain), chain[i].id),
        stable_sort(chain)[position(stable_sort(chain), chain[i].id) as int] == chain[i],
{
    let after = stable_sort(chain);
    lemma_stable_sort(chain);
    lemma_stable_sort_ids(chain, 0);
    lemma_position_found(chain, chain[i].id);
    lemma_position_found(after, chain[i].id);
    assert(has_id(chain, chain[i].id));
    let place = position(after, chain[i].id) as int;
    assert(after.contains(after[place]));
    assert(chain.contains(after[place]));
    let k = choose|k: int| 0 <= k < chain.len() && chain[k] == after[place];
    if k < i {
        assert(chain[k].id != chain[i].id);
    } else if k > i {
        assert(chain[i].id != chain[k].id);
    }
}

} // verus!
