//! The navigation history restored from previous sessions: the items to
//! resume reading, and the top-level comment last focused in each thread.

use std::collections::HashMap;
use std::collections::hash_map::Entry;
use vstd::prelude::*;

use crate::clock::{chrono_accepts_timestamp, Timestamp};

verus! {

broadcast use vstd::std_specs::hash::group_hash_axioms;

/// The ID of a Hacker News item.
pub type HnItemIdScalar = u32;

/// A change to the history, recorded while the application runs and applied
/// when the history is persisted.
#[derive(Debug)]
pub enum HistoryPersistCommand {
    ResumeAdd {
        item_id: HnItemIdScalar,
        /// Human-readable title of the Item, displayed in the "resume Item reading" tab.
        label: String,
    },
    ResumeRemove { item_id: HnItemIdScalar },
    TopLevelCommentAdd { story_id: HnItemIdScalar, top_level_comment_id: HnItemIdScalar },
}

/// A piece of navigation state that can be stored in, and restored from, the history.
pub trait SynchronizedHistoryItem: Sized {
    /// Data stored alongside the navigation state ID, if any (`()` when there is none).
    type Metadata;

    /// Maximum number of entries that will be kept in the history file.
    spec fn entries_limit() -> nat;

    /// The entry that saves navigation state `id` with `metadata`, stamped `at`.
    spec fn stored(id: HnItemIdScalar, metadata: Self::Metadata, at: Timestamp) -> Self;

    /// The time at which the entry was first inserted or last updated.
    spec fn timestamp(&self) -> Timestamp;

    /// The saved navigation state ID.
    spec fn value(&self) -> HnItemIdScalar;

    /// An entry keeps the ID and the time it was stored with.
    proof fn lemma_stored(id: HnItemIdScalar, metadata: Self::Metadata, at: Timestamp)
        ensures
            Self::stored(id, metadata, at).value() == id,
            Self::stored(id, metadata, at).timestamp() == at,
    ;

    /// Maximum number of entries that will be kept in the history file.
    fn max_entries() -> (limit: usize)
        ensures
            limit == Self::entries_limit(),
    ;

    /// Create an entry saving the given navigation state, stamped with `now`.
    fn created(id: HnItemIdScalar, metadata: Self::Metadata, now: Timestamp) -> (item: Self)
        ensures
            item == Self::stored(id, metadata, now),
    ;

    /// The time at which this entry was first inserted or last updated.
    fn get_timestamp(&self) -> (timestamp: &Timestamp)
        ensures
            *timestamp == self.timestamp(),
    ;

    /// Get the stored ID corresponding to the saved navigation state.
    fn get_value(&self) -> (value: HnItemIdScalar)
        ensures
            value == self.value(),
    ;

    /// Update the stored ID corresponding to the saved navigation state, and
    /// its metadata, stamping the entry with `now`.
    fn set_value(&mut self, id: HnItemIdScalar, metadata: Self::Metadata, now: Timestamp)
        ensures
            *final(self) == Self::stored(id, metadata, now),
    ;

    /// A copy of this entry.
    fn duplicate(&self) -> (copy: Self)
        ensures
            copy == *self,
    ;
}

/// Saves the "resume Item reading" navigation state.
#[derive(Clone, Debug, PartialEq, PartialOrd)]
pub struct ResumeItemHistoryData {
    pub datetime: Timestamp,
    /// Human-readable title of the Item, so that the "resume Item reading" tab
    /// can be displayed without fetching every stored Item again.
    pub label: String,
    pub item_id: HnItemIdScalar,
}

impl ResumeItemHistoryData {
    /// Get the stored, human-readable title of the Item.
    pub fn get_label(&self) -> (label: &str)
        ensures
            label@ == self.label@,
    {
        self.label.as_str()
    }
}

/// Maximum number of "resume Item reading" entries kept in the history file.
pub const RESUME_ITEMS_LIMIT: usize = 100;

/// Maximum number of top-level comment entries kept in the history file.
pub const TOP_LEVEL_COMMENTS_LIMIT: usize = 500;

impl SynchronizedHistoryItem for ResumeItemHistoryData {
    type Metadata = String;

    open spec fn entries_limit() -> nat {
        RESUME_ITEMS_LIMIT as nat
    }

    open spec fn stored(id: HnItemIdScalar, metadata: String, at: Timestamp) -> Self {
        ResumeItemHistoryData { datetime: at, label: metadata, item_id: id }
    }

    open spec fn timestamp(&self) -> Timestamp {
        self.datetime
    }

    open spec fn value(&self) -> HnItemIdScalar {
        self.item_id
    }

    proof fn lemma_stored(id: HnItemIdScalar, metadata: String, at: Timestamp) {
    }

    fn max_entries() -> (limit: usize) {
        RESUME_ITEMS_LIMIT
    }

    fn created(id: HnItemIdScalar, metadata: String, now: Timestamp) -> (item: Self) {
        Self { datetime: now, label: metadata, item_id: id }
    }

    fn get_timestamp(&self) -> (timestamp: &Timestamp) {
        &self.datetime
    }

    fn get_value(&self) -> (value: HnItemIdScalar) {
        self.item_id
    }

    fn set_value(&mut self, id: HnItemIdScalar, metadata: String, now: Timestamp) {
        self.datetime = now;
        self.label = metadata;
        self.item_id = id;
    }

    fn duplicate(&self) -> (copy: Self) {
        ResumeItemHistoryData {
            datetime: self.datetime,
            label: self.label.clone(),
            item_id: self.item_id,
        }
    }
}

/// Saves the navigation state of a top-level comment for a given Item thread.
#[derive(Clone, Copy, Debug, PartialEq, Eq, PartialOrd, Structural)]
pub struct TopLevelCommentHistoryData {
    pub datetime: Timestamp,
    pub top_level_comment_id: HnItemIdScalar,
}

impl SynchronizedHistoryItem for TopLevelCommentHistoryData {
    type Metadata = ();

    open spec fn entries_limit() -> nat {
        TOP_LEVEL_COMMENTS_LIMIT as nat
    }

    open spec fn stored(id: HnItemIdScalar, metadata: (), at: Timestamp) -> Self {
        TopLevelCommentHistoryData { datetime: at, top_level_comment_id: id }
    }

    open spec fn timestamp(&self) -> Timestamp {
        self.datetime
    }

    open spec fn value(&self) -> HnItemIdScalar {
        self.top_level_comment_id
    }

    proof fn lemma_stored(id: HnItemIdScalar, metadata: (), at: Timestamp) {
    }

    fn max_entries() -> (limit: usize) {
        TOP_LEVEL_COMMENTS_LIMIT
    }

    fn created(id: HnItemIdScalar, _metadata: (), now: Timestamp) -> (item: Self) {
        Self { datetime: now, top_level_comment_id: id }
    }

    fn get_timestamp(&self) -> (timestamp: &Timestamp) {
        &self.datetime
    }

    fn get_value(&self) -> (value: HnItemIdScalar) {
        self.top_level_comment_id
    }

    fn set_value(&mut self, id: HnItemIdScalar, _metadata: (), now: Timestamp) {
        self.datetime = now;
        self.top_level_comment_id = id;
    }

    fn duplicate(&self) -> (copy: Self) {
        *self
    }
}

/// Storage for one kind of history entry, keyed by the related Hacker News item ID.
pub type SynchronizedHistoryItemStorage<T> = HashMap<HnItemIdScalar, T>;

/// The file-synchronized part of the navigation history.
#[derive(Debug)]
pub struct SynchronizedHistory {
    /// Stores the information for the "resume Item reading" tab.
    pub latest_resume_items_map: Option<SynchronizedHistoryItemStorage<ResumeItemHistoryData>>,
    /// Stores the latest focused top-level comment for a given Hacker News item.
    ///
    /// Also keeps track of the insertion datetime to enforce hard limits on the history size.
    pub latest_top_level_comments_per_item_map: Option<
        SynchronizedHistoryItemStorage<TopLevelCommentHistoryData>,
    >,
}

impl View for SynchronizedHistory {
    type V = HistoryModel;

    open spec fn view(&self) -> HistoryModel {
        (
            match self.latest_resume_items_map {
                Some(storage) => Some(storage@),
                None => None,
            },
            match self.latest_top_level_comments_per_item_map {
                Some(storage) => Some(storage@),
                None => None,
            },
        )
    }
}

impl SynchronizedHistory {
    /// Store the given navigation state ID, and its associated metadata, in the storage,
    /// refreshing the already stored entry if there is one.
    pub fn upsert_entry<T: SynchronizedHistoryItem>(
        storage: &mut SynchronizedHistoryItemStorage<T>,
        key: HnItemIdScalar,
        value: HnItemIdScalar,
        metadata: T::Metadata,
        now: Timestamp,
    )
        ensures
            final(storage)@ == old(storage)@.insert(key, T::stored(value, metadata, now)),
    {
        match storage.entry(key) {
            Entry::Occupied(mut occupied) => occupied.get_mut().set_value(value, metadata, now),
            Entry::Vacant(vacant) => {
                vacant.insert(T::created(value, metadata, now));
            },
        }
    }
}

/// The entries are ordered from the most recently updated to the oldest.
pub open spec fn newest_first<T: SynchronizedHistoryItem>(entries: Seq<(&HnItemIdScalar, &T)>) -> bool {
    forall|i: int, j: int|
        0 <= i < j < entries.len() ==> #[trigger] entries[j].1.timestamp().not_after(
            #[trigger] entries[i].1.timestamp(),
        )
}

/// `entries` lists every entry of `storage` exactly once (each ID with the
/// entry stored under it), from the most recently updated to the oldest.
/// Entries stamped with the same time may come in any order.
pub open spec fn is_recency_order<T: SynchronizedHistoryItem>(
    storage: Map<HnItemIdScalar, T>,
    entries: Seq<(&HnItemIdScalar, &T)>,
) -> bool {
    &&& entries.len() == storage.len()
    &&& forall|i: int|
        0 <= i < entries.len() ==> #[trigger] storage.contains_key(*entries[i].0) && storage[*entries[i].0]
            == *entries[i].1
    &&& forall|i: int, j: int|
        0 <= i < j < entries.len() ==> *(#[trigger] entries[i]).0 != *(#[trigger] entries[j]).0
    &&& forall|k: HnItemIdScalar|
        #[trigger] storage.contains_key(k) ==> exists|i: int|
            0 <= i < entries.len() && *(#[trigger] entries[i]).0 == k
    &&& newest_first(entries)
}

/// The same entries, reordered from the most recently updated to the oldest.
fn sort_newest_first<'a, T: SynchronizedHistoryItem>(
    entries: &Vec<(&'a HnItemIdScalar, &'a T)>,
) -> (sorted: Vec<(&'a HnItemIdScalar, &'a T)>)
    requires
        entries@.no_duplicates(),
    ensures
        sorted@.len() == entries@.len(),
        sorted@.no_duplicates(),
        forall|a: int| 0 <= a < sorted@.len() ==> entries@.contains(#[trigger] sorted@[a]),
        forall|j: int| 0 <= j < entries@.len() ==> sorted@.contains(#[trigger] entries@[j]),
        newest_first(sorted@),
{
    let mut sorted: Vec<(&'a HnItemIdScalar, &'a T)> = Vec::new();
    let mut i: usize = 0;
    while i < entries.len()
        invariant
            i <= entries@.len(),
            entries@.no_duplicates(),
            sorted@.len() == i,
            sorted@.no_duplicates(),
            forall|a: int| 0 <= a < sorted@.len() ==> entries@.take(i as int).contains(#[trigger] sorted@[a]),
            forall|j: int| 0 <= j < i ==> sorted@.contains(#[trigger] entries@[j]),
            newest_first(sorted@),
        decreases entries@.len() - i,
    {
        let entry = entries[i];
        let timestamp = entry.1.get_timestamp();
        let mut position: usize = 0;
        while position < sorted.len() && timestamp.is_not_after(sorted[position].1.get_timestamp())
            invariant
                position <= sorted@.len(),
                *timestamp == entry.1.timestamp(),
                forall|a: int| 0 <= a < position ==> entry.1.timestamp().not_after(#[trigger] sorted@[a].1.timestamp()),
            decreases sorted@.len() - position,
        {
            position = position + 1;
        }
        let ghost before = sorted@;
        proof {
            assert(!before.contains(entry)) by {
                if before.contains(entry) {
                    let a = choose|a: int| 0 <= a < before.len() && before[a] == entry;
                    assert(entries@.take(i as int).contains(before[a]));
                    let j = choose|j: int| 0 <= j < i && entries@.take(i as int)[j] == before[a];
                    assert(entries@[j] == entries@[i as int]);
                }
            }
        }
        sorted.insert(position, entry);
        proof {
            let after = sorted@;
            assert(after =~= before.insert(position as int, entry));
            assert(forall|a: int| 0 <= a < position ==> after[a] == before[a]);
            assert(after[position as int] == entry);
            assert(forall|a: int| position < a < after.len() ==> after[a] == before[a - 1]);
            assert forall|a: int, b: int| 0 <= a < b < after.len() implies #[trigger] after[b].1.timestamp().not_after(
                #[trigger] after[a].1.timestamp(),
            ) by {
                if position < before.len() && b > position as int && a <= position as int {
                    assert(!entry.1.timestamp().not_after(before[position as int].1.timestamp()));
                    if a < position as int {
                        assert(entry.1.timestamp().not_after(before[a].1.timestamp()));
                        assert(before[b - 1].1.timestamp().not_after(before[position as int].1.timestamp()) || b - 1 == position as int);
                    } else {
                        assert(before[b - 1].1.timestamp().not_after(before[position as int].1.timestamp()) || b - 1 == position as int);
                    }
                } else if b == position as int {
                    assert(entry.1.timestamp().not_after(before[a].1.timestamp()));
                } else if a > position as int {
                    assert(before[b - 1].1.timestamp().not_after(before[a - 1].1.timestamp()));
                }
            }
            assert(after.no_duplicates()) by {
                assert forall|a: int, b: int| 0 <= a < after.len() && 0 <= b < after.len() && a != b implies after[a] != after[b] by {
                    if a != position as int && b != position as int {
                        let a0 = if a < position as int { a } else { a - 1 };
                        let b0 = if b < position as int { b } else { b - 1 };
                        assert(after[a] == before[a0]);
                        assert(after[b] == before[b0]);
                    } else if a == position as int {
                        let b0 = if b < position as int { b } else { b - 1 };
                        assert(after[b] == before[b0]);
                        assert(before.contains(before[b0]));
                    } else {
                        let a0 = if a < position as int { a } else { a - 1 };
                        assert(after[a] == before[a0]);
                        assert(before.contains(before[a0]));
                    }
                }
            }
            assert forall|a: int| 0 <= a < after.len() implies entries@.take(i + 1).contains(#[trigger] after[a]) by {
                if a == position as int {
                    assert(entries@.take(i + 1)[i as int] == entry);
                } else {
                    let a0 = if a < position as int { a } else { a - 1 };
                    assert(after[a] == before[a0]);
                    assert(entries@.take(i as int).contains(before[a0]));
                    let j = choose|j: int| 0 <= j < i && entries@.take(i as int)[j] == before[a0];
                    assert(entries@.take(i + 1)[j] == before[a0]);
                }
            }
            assert forall|j: int| 0 <= j < i + 1 implies after.contains(#[trigger] entries@[j]) by {
                if j == i as int {
                    assert(after[position as int] == entries@[j]);
                } else {
                    assert(before.contains(entries@[j]));
                    let a0 = choose|a0: int| 0 <= a0 < before.len() && before[a0] == entries@[j];
                    let a = if a0 < position as int { a0 } else { a0 + 1 };
                    assert(after[a] == entries@[j]);
                }
            }
        }
        i = i + 1;
    }
    proof {
        assert(entries@.take(i as int) =~= entries@);
    }
    sorted
}

impl SynchronizedHistory {
    /// Sort the stored navigation data, from the most recently updated entry to the oldest one.
    pub fn sorted_by_recency<'a, T: SynchronizedHistoryItem>(
        storage: &'a SynchronizedHistoryItemStorage<T>,
    ) -> (sorted: Vec<(&'a HnItemIdScalar, &'a T)>)
        ensures
            is_recency_order(storage@, sorted@),
    {
        let mut storage_entries: Vec<(&'a HnItemIdScalar, &'a T)> = Vec::new();
        for entry in it: storage.iter()
            invariant
                storage_entries@ == it.seq().take(it.index()),
                it.seq() == vstd::std_specs::iter::IteratorSpec::remaining(&vstd::std_specs::hash::spec_hash_map_iter(storage)),
                it.seq().no_duplicates(),
        {
            storage_entries.push(entry);
        }
        let ghost all = storage_entries@;
        let ghost m = storage@;
        proof {
            assert(all =~= vstd::std_specs::iter::IteratorSpec::remaining(
                &vstd::std_specs::hash::spec_hash_map_iter(storage),
            ));
        }
        let sorted = sort_newest_first(&storage_entries);
        proof {
            let r = sorted@;
            assert forall|a: int| 0 <= a < r.len() implies #[trigger] m.contains_key(*r[a].0) && m[*r[a].0]
                == *r[a].1 by {
                assert(all.contains(r[a]));
                let j = choose|j: int| 0 <= j < all.len() && all[j] == r[a];
                assert(m.contains_key(*all[j].0));
            }
            assert forall|a: int, b: int| 0 <= a < b < r.len() implies *(#[trigger] r[a]).0 != *(
            #[trigger] r[b]).0 by {
                assert(m.contains_key(*r[a].0));
                assert(m.contains_key(*r[b].0));
            }
            assert forall|k: HnItemIdScalar| #[trigger] m.contains_key(k) implies exists|i: int|
                0 <= i < r.len() && *(#[trigger] r[i]).0 == k by {
                assert(all.contains((&k, &m[k])));
                let j = choose|j: int| 0 <= j < all.len() && all[j] == (&k, &m[k]);
                assert(r.contains(all[j]));
                let i = choose|i: int| 0 <= i < r.len() && r[i] == all[j];
                assert(*r[i].0 == k);
            }
        }
        sorted
    }
}

/// `limited` keeps `min(limit, storage.len())` entries of `storage`, each
/// unchanged under its ID, and none of the dropped entries is more recent than a
/// kept one.
pub open spec fn keeps_most_recent<T: SynchronizedHistoryItem>(
    storage: Map<HnItemIdScalar, T>,
    limit: nat,
    limited: Map<HnItemIdScalar, T>,
) -> bool {
    &&& limited.dom().finite()
    &&& limited.len() == if limit < storage.len() { limit } else { storage.len() }
    &&& forall|k: HnItemIdScalar| #[trigger]
        limited.contains_key(k) ==> storage.contains_key(k) && limited[k] == storage[k]
    &&& forall|kept: HnItemIdScalar, dropped: HnItemIdScalar|
        #[trigger] limited.contains_key(kept) && #[trigger] storage.contains_key(dropped)
            && !limited.contains_key(dropped) ==> storage[dropped].timestamp().not_after(
            storage[kept].timestamp(),
        )
}

impl SynchronizedHistory {
    /// Enforce an arbitrary items count limit on the stored navigation data:
    /// only the `limit` most recently updated entries are kept.
    pub fn enforced_history_limit<T: SynchronizedHistoryItem>(
        storage: &SynchronizedHistoryItemStorage<T>,
        limit: usize,
    ) -> (limited: SynchronizedHistoryItemStorage<T>)
        ensures
            keeps_most_recent(storage@, limit as nat, limited@),
    {
        let sorted = SynchronizedHistory::sorted_by_recency(storage);
        let count = if limit < sorted.len() {
            limit
        } else {
            sorted.len()
        };
        let ghost r = sorted@;
        let ghost m = storage@;
        let mut limited: SynchronizedHistoryItemStorage<T> = HashMap::new();
        let mut i: usize = 0;
        while i < count
            invariant
                count <= sorted@.len(),
                sorted@ == r,
                is_recency_order(m, r),
                i <= count,
                limited@.dom().finite(),
                limited@.len() == i,
                forall|k: HnItemIdScalar|
                    #[trigger] limited@.contains_key(k) <==> exists|a: int|
                        0 <= a < i && *(#[trigger] r[a]).0 == k,
                forall|k: HnItemIdScalar| #[trigger]
                    limited@.contains_key(k) ==> m.contains_key(k) && limited@[k] == m[k],
            decreases count - i,
        {
            let (id, item) = sorted[i];
            proof {
                assert(m.contains_key(*r[i as int].0));
                if limited@.contains_key(*id) {
                    let a = choose|a: int| 0 <= a < i && *(#[trigger] r[a]).0 == *id;
                    assert(*r[a].0 != *r[i as int].0);
                }
            }
            limited.insert(*id, item.duplicate());
            proof {
                assert forall|k: HnItemIdScalar| #[trigger]
                    limited@.contains_key(k) implies exists|a: int|
                        0 <= a < i + 1 && *(#[trigger] r[a]).0 == k by {
                    if k != *id {
                        let a = choose|a: int| 0 <= a < i && *(#[trigger] r[a]).0 == k;
                        assert(0 <= a < i + 1 && *r[a].0 == k);
                    } else {
                        assert(*r[i as int].0 == k);
                    }
                }
            }
            i = i + 1;
        }
        proof {
            assert forall|kept: HnItemIdScalar, dropped: HnItemIdScalar|
                #[trigger] limited@.contains_key(kept) && #[trigger] m.contains_key(dropped)
                    && !limited@.contains_key(dropped) implies m[dropped].timestamp().not_after(
                    m[kept].timestamp(),
                ) by {
                let a = choose|a: int| 0 <= a < i && *(#[trigger] r[a]).0 == kept;
                let b = choose|b: int| 0 <= b < r.len() && *(#[trigger] r[b]).0 == dropped;
                if b < i {
                    assert(limited@.contains_key(dropped));
                }
                assert(r[b].1.timestamp().not_after(r[a].1.timestamp()));
                assert(m[*r[a].0] == *r[a].1);
                assert(m[*r[b].0] == *r[b].1);
            }
        }
        limited
    }
}

/// The history as plain values: the "resume Item reading" entries and the
/// top-level comment entries, each absent when the history file predates it.
pub type HistoryModel = (
    Option<Map<HnItemIdScalar, ResumeItemHistoryData>>,
    Option<Map<HnItemIdScalar, TopLevelCommentHistoryData>>,
);

/// The entries of an optional storage, none when it is absent.
pub open spec fn entries_or_empty<T>(storage: Option<Map<HnItemIdScalar, T>>) -> Map<HnItemIdScalar, T> {
    match storage {
        Some(entries) => entries,
        None => Map::empty(),
    }
}

/// The history after `command`, applied at time `now`.
pub open spec fn applied(history: HistoryModel, command: HistoryPersistCommand, now: Timestamp) -> HistoryModel {
    match command {
        // the "resume Item reading" storage is keyed by the very Item ID it stores
        HistoryPersistCommand::ResumeAdd { item_id, label } => (
            Some(
                entries_or_empty(history.0).insert(
                    item_id,
                    ResumeItemHistoryData { datetime: now, label, item_id },
                ),
            ),
            history.1,
        ),
        HistoryPersistCommand::ResumeRemove { item_id } => (
            match history.0 {
                Some(entries) => Some(entries.remove(item_id)),
                None => None,
            },
            history.1,
        ),
        HistoryPersistCommand::TopLevelCommentAdd { story_id, top_level_comment_id } => (
            history.0,
            Some(
                entries_or_empty(history.1).insert(
                    story_id,
                    TopLevelCommentHistoryData { datetime: now, top_level_comment_id },
                ),
            ),
        ),
    }
}

/// The history after `commands`, applied in order: the `i`-th at time
/// `times[i]`, or left out when `times[i]` is `None`.
pub open spec fn applied_all(
    history: HistoryModel,
    commands: Seq<HistoryPersistCommand>,
    times: Seq<Option<Timestamp>>,
) -> HistoryModel
    decreases commands.len(),
{
    if commands.len() == 0 {
        history
    } else {
        let before = applied_all(history, commands.drop_last(), times.drop_last());
        match times[commands.len() - 1] {
            Some(now) => applied(before, commands.last(), now),
            None => before,
        }
    }
}

/// The top-level comment last focused in the thread of `story_id`, if any.
pub open spec fn restored_comment(history: HistoryModel, story_id: HnItemIdScalar) -> Option<HnItemIdScalar> {
    match history.1 {
        Some(entries) => if entries.contains_key(story_id) {
            Some(entries[story_id].top_level_comment_id)
        } else {
            None
        },
        None => None,
    }
}

/// The history as it is written to its file: each storage trimmed to its own
/// limit (100 "resume Item reading" entries, 500 top-level comment entries),
/// keeping the most recent entries.
pub open spec fn is_persisted_form(history: HistoryModel, persisted: HistoryModel) -> bool {
    &&& match (history.0, persisted.0) {
        (None, None) => true,
        (Some(entries), Some(kept)) => keeps_most_recent(entries, 100, kept),
        _ => false,
    }
    &&& match (history.1, persisted.1) {
        (None, None) => true,
        (Some(entries), Some(kept)) => keeps_most_recent(entries, 500, kept),
        _ => false,
    }
}

impl SynchronizedHistory {
    /// A history with both storages present and empty.
    pub fn empty() -> (history: Self)
        ensures
            history@ == (
                Some(Map::<HnItemIdScalar, ResumeItemHistoryData>::empty()),
                Some(Map::<HnItemIdScalar, TopLevelCommentHistoryData>::empty()),
            ),
    {
        Self {
            latest_resume_items_map: Some(
                HashMap::with_capacity(ResumeItemHistoryData::max_entries()),
            ),
            latest_top_level_comments_per_item_map: Some(
                HashMap::with_capacity(TopLevelCommentHistoryData::max_entries()),
            ),
        }
    }

    /// Apply a history persist command to the in-memory history, stamping the
    /// entry it stores with `now`.
    pub fn apply_at(&mut self, command: &HistoryPersistCommand, now: Timestamp)
        ensures
            final(self)@ == applied(old(self)@, *command, now),
    {
        match command {
            HistoryPersistCommand::ResumeAdd { item_id, label } => {
                if self.latest_resume_items_map.is_none() {
                    self.latest_resume_items_map = Some(HashMap::new());
                }
                match &mut self.latest_resume_items_map {
                    Some(storage) => Self::upsert_entry(storage, *item_id, *item_id, label.clone(), now),
                    None => {},
                }
            },
            HistoryPersistCommand::ResumeRemove { item_id } => {
                self.remove_resume_item(*item_id);
            },
            HistoryPersistCommand::TopLevelCommentAdd { story_id, top_level_comment_id } => {
                if self.latest_top_level_comments_per_item_map.is_none() {
                    self.latest_top_level_comments_per_item_map = Some(HashMap::new());
                }
                match &mut self.latest_top_level_comments_per_item_map {
                    Some(storage) => Self::upsert_entry(
                        storage,
                        *story_id,
                        *top_level_comment_id,
                        (),
                        now,
                    ),
                    None => {},
                }
            },
        }
    }

    /// Apply a history persist command to the in-memory history, stamping the
    /// entry it stores with the current time. Always applied: it returns `true`.
    ///
    /// An addition stores the Item (or the thread's top-level comment) under its
    /// ID, refreshing an entry already there, and leaves every other entry and
    /// the other storage as they were; a removal drops the Item and only it.
    pub fn apply(&mut self, command: &HistoryPersistCommand) -> (was_applied: bool)
        ensures
            was_applied,
            exists|now: Timestamp|
                chrono_accepts_timestamp(now.seconds, now.nanos) && final(self)@ == #[trigger] applied(
                    old(self)@,
                    *command,
                    now,
                ),
            match *command {
                HistoryPersistCommand::ResumeAdd { item_id, label } => {
                    &&& final(self)@.1 == old(self)@.1
                    &&& stores_resume_item(old(self)@.0, final(self)@.0, item_id, label)
                },
                HistoryPersistCommand::ResumeRemove { item_id } => {
                    &&& final(self)@.1 == old(self)@.1
                    &&& drops_resume_item(old(self)@.0, final(self)@.0, item_id)
                },
                HistoryPersistCommand::TopLevelCommentAdd { story_id, top_level_comment_id } => {
                    &&& final(self)@.0 == old(self)@.0
                    &&& stores_comment(old(self)@.1, final(self)@.1, story_id, top_level_comment_id)
                },
            },
    {
        let ghost before = self@;
        match command {
            HistoryPersistCommand::ResumeRemove { item_id } => {
                self.remove_resume_item(*item_id);
                proof {
                    let epoch = Timestamp { seconds: 0, nanos: 0 };
                    assert(chrono_accepts_timestamp(epoch.seconds, epoch.nanos));
                    assert(self@ == applied(before, *command, epoch));
                    lemma_command_effect(before, *command, epoch);
                }
                true
            },
            _ => {
                let now = Timestamp::now();
                match now {
                    Some(now) => {
                        self.apply_at(command, now);
                        proof {
                            lemma_command_effect(before, *command, now);
                        }
                        true
                    },
                    // never taken: the clock always gives a time
                    None => true,
                }
            },
        }
    }

    /// Remove the given Item from the "resume Item reading" entries, if they
    /// are stored and hold it.
    fn remove_resume_item(&mut self, item_id: HnItemIdScalar)
        ensures
            final(self)@ == (
                match old(self)@.0 {
                    Some(entries) => Some(entries.remove(item_id)),
                    None => None,
                },
                old(self)@.1,
            ),
    {
        match &mut self.latest_resume_items_map {
            Some(storage) => {
                storage.remove(&item_id);
            },
            None => {},
        }
    }

    /// The history as it is written to its file: each storage trimmed to its
    /// own limit, keeping the most recently updated entries.
    pub fn limited(&self) -> (persisted: Self)
        ensures
            is_persisted_form(self@, persisted@),
            self@.0 is None <==> persisted@.0 is None,
            self@.1 is None <==> persisted@.1 is None,
            self@.0 matches Some(entries) ==> keeps_most_recent(entries, 100, persisted@.0->0),
            self@.1 matches Some(entries) ==> keeps_most_recent(entries, 500, persisted@.1->0),
            self@.0 matches Some(entries) && entries.len() <= 100 ==> persisted@.0 == self@.0,
            self@.1 matches Some(entries) && entries.len() <= 500 ==> persisted@.1 == self@.1,
    {
        let latest_resume_items_map = match &self.latest_resume_items_map {
            Some(storage) => Some(Self::enforced_history_limit(storage, ResumeItemHistoryData::max_entries())),
            None => None,
        };
        let latest_top_level_comments_per_item_map = match &self.latest_top_level_comments_per_item_map {
            Some(storage) => Some(
                Self::enforced_history_limit(storage, TopLevelCommentHistoryData::max_entries()),
            ),
            None => None,
        };
        let persisted = Self { latest_resume_items_map, latest_top_level_comments_per_item_map };
        proof {
            if let Some(entries) = self@.0 {
                if entries.len() <= 100 {
                    lemma_limit_keeps_all_within_limit(entries, 100, persisted@.0->0);
                }
            }
            if let Some(entries) = self@.1 {
                if entries.len() <= 500 {
                    lemma_limit_keeps_all_within_limit(entries, 500, persisted@.1->0);
                }
            }
        }
        persisted
    }
}

/// The entries of `order`, without their IDs.
pub open spec fn items_of<'a, T>(order: Seq<(&'a HnItemIdScalar, &'a T)>) -> Seq<&'a T> {
    order.map_values(|entry: (&'a HnItemIdScalar, &'a T)| entry.1)
}

/// `items` are the entries of `storage`, each listed once, from the most
/// recently updated to the oldest (entries stamped with the same time in any
/// order).
pub open spec fn lists_by_recency<'a, T: SynchronizedHistoryItem>(
    storage: Map<HnItemIdScalar, T>,
    items: Seq<&'a T>,
) -> bool {
    exists|order: Seq<(&'a HnItemIdScalar, &'a T)>|
        #[trigger] is_recency_order(storage, order) && items == items_of(order)
}

/// Responsible for restoring navigation state in the application from previous sessions.
#[derive(Debug)]
pub struct AppHistory {
    /// File-synchronized part of the navigation History.
    ///
    /// Reading must be done at application startup, and writing as rarely as possible.
    pub synchronized: SynchronizedHistory,
}

impl AppHistory {
    /// The history restored from what was read from the history file: `None`
    /// when the file is missing, cannot be read or does not hold a history. A
    /// missing or corrupted history must not prevent the application from
    /// starting, so it gives an empty history.
    pub fn restored(read: Option<SynchronizedHistory>) -> (history: Self)
        ensures
            match read {
                Some(read) => history.synchronized@ == read@,
                None => history.synchronized@ == (
                    Some(Map::<HnItemIdScalar, ResumeItemHistoryData>::empty()),
                    Some(Map::<HnItemIdScalar, TopLevelCommentHistoryData>::empty()),
                ),
            },
    {
        match read {
            Some(synchronized) => Self { synchronized },
            None => Self { synchronized: SynchronizedHistory::empty() },
        }
    }

    /// Applies every given command to the history, in order, each addition
    /// stamped with the current time, and returns the history to persist in the
    /// history file: each storage trimmed to its own limit (100 "resume Item
    /// reading" entries, 500 top-level comment entries).
    ///
    /// Should not be called too often for performance reasons.
    pub fn persist(&mut self, commands: &[HistoryPersistCommand]) -> (persisted: SynchronizedHistory)
        ensures
            exists|times: Seq<Option<Timestamp>>|
                {
                    &&& times.len() == commands@.len()
                    &&& forall|i: int| 0 <= i < times.len() ==> (#[trigger] times[i]) is Some
                    &&& forall|i: int|
                        0 <= i < commands@.len() && (#[trigger] commands@[i]) is ResumeRemove
                            ==> times[i] is Some
                    &&& forall|i: int|
                        0 <= i < times.len() ==> ((#[trigger] times[i]) matches Some(now)
                            ==> chrono_accepts_timestamp(now.seconds, now.nanos))
                    &&& final(self).synchronized@ == #[trigger] applied_all(
                        old(self).synchronized@,
                        commands@,
                        times,
                    )
                },
            // every command is applied: the last one on a thread's comment, or on an
            // Item's "resume Item reading" entry, decides what is kept for it
            forall|story_id: HnItemIdScalar|
                #[trigger] restored_comment(final(self).synchronized@, story_id) == match last_comment_for(
                    commands@,
                    story_id,
                ) {
                    Some(top_level_comment_id) => Some(top_level_comment_id),
                    None => restored_comment(old(self).synchronized@, story_id),
                },
            forall|item_id: HnItemIdScalar|
                {
                    let before = entries_or_empty(old(self).synchronized@.0);
                    let after = entries_or_empty(final(self).synchronized@.0);
                    match #[trigger] last_resume_command_for(commands@, item_id) {
                        Some(Some(label)) => after.contains_key(item_id) && after[item_id].item_id
                            == item_id && after[item_id].label == label,
                        Some(None) => !after.contains_key(item_id),
                        None => (after.contains_key(item_id) <==> before.contains_key(item_id)) && (
                        before.contains_key(item_id) ==> after[item_id] == before[item_id]),
                    }
                },
            is_persisted_form(final(self).synchronized@, persisted@),
            final(self).synchronized@.0 is None <==> persisted@.0 is None,
            final(self).synchronized@.1 is None <==> persisted@.1 is None,
            final(self).synchronized@.0 matches Some(entries) ==> keeps_most_recent(
                entries,
                100,
                persisted@.0->0,
            ),
            final(self).synchronized@.1 matches Some(entries) ==> keeps_most_recent(
                entries,
                500,
                persisted@.1->0,
            ),
            final(self).synchronized@.0 matches Some(entries) && entries.len() <= 100
                ==> persisted@.0 == final(self).synchronized@.0,
            final(self).synchronized@.1 matches Some(entries) && entries.len() <= 500
                ==> persisted@.1 == final(self).synchronized@.1,
    {
        let ghost start = self.synchronized@;
        let ghost mut times: Seq<Option<Timestamp>> = Seq::empty();
        let mut i: usize = 0;
        while i < commands.len()
            invariant
                i <= commands@.len(),
                times.len() == i,
                forall|j: int| 0 <= j < i ==> (#[trigger] times[j]) is Some,
                forall|j: int|
                    0 <= j < i && (#[trigger] commands@[j]) is ResumeRemove ==> times[j] is Some,
                forall|j: int|
                    0 <= j < i ==> ((#[trigger] times[j]) matches Some(now)
                        ==> chrono_accepts_timestamp(now.seconds, now.nanos)),
                self.synchronized@ == applied_all(start, commands@.take(i as int), times),
            decreases commands@.len() - i,
        {
            let ghost before = self.synchronized@;
            let was_applied = self.synchronized.apply(&commands[i]);
            proof {
                let stamp = if was_applied {
                    Some(
                        choose|now: Timestamp|
                            chrono_accepts_timestamp(now.seconds, now.nanos) && self.synchronized@
                                == #[trigger] applied(before, commands@[i as int], now),
                    )
                } else {
                    None
                };
                let next_times = times.push(stamp);
                assert(commands@.take(i + 1).drop_last() =~= commands@.take(i as int));
                assert(commands@.take(i + 1).last() == commands@[i as int]);
                assert(next_times.drop_last() =~= times);
                assert(next_times[i as int] == stamp);
                times = next_times;
            }
            i = i + 1;
        }
        proof {
            assert(commands@.take(i as int) =~= commands@);
            assert forall|story_id: HnItemIdScalar|
                #[trigger] restored_comment(self.synchronized@, story_id) == match last_comment_for(
                    commands@,
                    story_id,
                ) {
                    Some(top_level_comment_id) => Some(top_level_comment_id),
                    None => restored_comment(start, story_id),
                } by {
                lemma_batch_last_comment_wins(start, commands@, times, story_id);
            }
            assert forall|item_id: HnItemIdScalar|
                {
                    let before = entries_or_empty(start.0);
                    let after = entries_or_empty(self.synchronized@.0);
                    match #[trigger] last_resume_command_for(commands@, item_id) {
                        Some(Some(label)) => after.contains_key(item_id) && after[item_id].item_id
                            == item_id && after[item_id].label == label,
                        Some(None) => !after.contains_key(item_id),
                        None => (after.contains_key(item_id) <==> before.contains_key(item_id)) && (
                        before.contains_key(item_id) ==> after[item_id] == before[item_id]),
                    }
                } by {
                lemma_batch_last_resume_command_wins(start, commands@, times, item_id);
            }
        }
        self.synchronized.limited()
    }

    /// Get the information needed for the "resume Item reading" tab,
    /// from the most recently visited Item to the oldest one.
    pub fn restored_resume_items(&self) -> (items: Vec<&ResumeItemHistoryData>)
        ensures
            match self.synchronized@.0 {
                None => items@.len() == 0,
                Some(entries) => lists_by_recency(entries, items@),
            },
    {
        match &self.synchronized.latest_resume_items_map {
            None => Vec::new(),
            Some(storage) => {
                let sorted = SynchronizedHistory::sorted_by_recency(storage);
                let mut items: Vec<&ResumeItemHistoryData> = Vec::new();
                let mut i: usize = 0;
                while i < sorted.len()
                    invariant
                        i <= sorted@.len(),
                        items@ == items_of(sorted@.take(i as int)),
                    decreases sorted@.len() - i,
                {
                    items.push(sorted[i].1);
                    i = i + 1;
                    proof {
                        assert(items@ =~= items_of(sorted@.take(i as int)));
                    }
                }
                proof {
                    assert(sorted@.take(i as int) =~= sorted@);
                    assert(is_recency_order(storage@, sorted@));
                    assert(items@ == items_of(sorted@));
                    assert(lists_by_recency(storage@, items@));
                }
                items
            },
        }
    }

    /// The top-level comment last focused in the thread of the given story, if any.
    pub fn restored_top_level_comment_id_for_story(&self, story_id: HnItemIdScalar) -> (comment_id:
        Option<HnItemIdScalar>)
        ensures
            comment_id == restored_comment(self.synchronized@, story_id),
            match self.synchronized@.1 {
                Some(entries) => if entries.contains_key(story_id) {
                    comment_id == Some(entries[story_id].top_level_comment_id)
                } else {
                    comment_id is None
                },
                None => comment_id is None,
            },
    {
        match &self.synchronized.latest_top_level_comments_per_item_map {
            None => None,
            Some(storage) => match storage.get(&story_id) {
                Some(entry) => Some(entry.get_value()),
                None => None,
            },
        }
    }
}

/// Reading back the top-level comment of a thread gives the one last stored for
/// it; storing one for a thread leaves what the other threads give unchanged.
pub proof fn lemma_comment_read_after_write(
    history: HistoryModel,
    story_id: HnItemIdScalar,
    top_level_comment_id: HnItemIdScalar,
    now: Timestamp,
    other_story_id: HnItemIdScalar,
)
    ensures
        ({
            let after = applied(
                history,
                HistoryPersistCommand::TopLevelCommentAdd { story_id, top_level_comment_id },
                now,
            );
            &&& restored_comment(after, story_id) == Some(top_level_comment_id)
            &&& other_story_id != story_id ==> restored_comment(after, other_story_id)
                == restored_comment(history, other_story_id)
        }),
{
}

/// Commands on the "resume Item reading" entries leave the top-level comments
/// unchanged, and the other way round.
pub proof fn lemma_storages_are_independent(
    history: HistoryModel,
    command: HistoryPersistCommand,
    now: Timestamp,
)
    ensures
        command is TopLevelCommentAdd ==> applied(history, command, now).0 == history.0,
        !(command is TopLevelCommentAdd) ==> applied(history, command, now).1 == history.1,
{
}

/// Visiting an Item again refreshes its entry instead of duplicating it: the
/// entry holds the label of this latest visit and its time, the other entries
/// stay as they were, and the number of entries grows only for an Item not
/// stored yet. When no stored entry is later than the time of the visit, the
/// visited Item becomes the most recent one.
pub proof fn lemma_resume_add_refreshes(
    history: HistoryModel,
    item_id: HnItemIdScalar,
    label: String,
    now: Timestamp,
)
    requires
        entries_or_empty(history.0).dom().finite(),
    ensures
        ({
            let before = entries_or_empty(history.0);
            let after = applied(history, HistoryPersistCommand::ResumeAdd { item_id, label }, now).0;
            &&& after is Some
            &&& after->0.contains_key(item_id)
            &&& after->0[item_id] == ResumeItemHistoryData { datetime: now, label, item_id }
            &&& forall|k: HnItemIdScalar|
                k != item_id ==> (#[trigger] after->0.contains_key(k) <==> before.contains_key(k))
                    && (before.contains_key(k) ==> after->0[k] == before[k])
            &&& after->0.len() == before.len() + if before.contains_key(item_id) { 0int } else { 1 }
            &&& (forall|k: HnItemIdScalar| #[trigger]
                before.contains_key(k) ==> before[k].datetime.not_after(now)) ==> forall|
                k: HnItemIdScalar,
            | #[trigger]
                after->0.contains_key(k) ==> after->0[k].datetime.not_after(after->0[item_id].datetime)
        }),
{
}

/// Removing an Item from the "resume Item reading" entries drops its entry
/// and only it; removing an Item that was never added is a no-op.
pub proof fn lemma_resume_remove(history: HistoryModel, item_id: HnItemIdScalar, now: Timestamp)
    ensures
        ({
            let after = applied(history, HistoryPersistCommand::ResumeRemove { item_id }, now);
            &&& after.1 == history.1
            &&& after.0 is Some <==> history.0 is Some
            &&& !entries_or_empty(after.0).contains_key(item_id)
            &&& forall|k: HnItemIdScalar|
                k != item_id ==> (#[trigger] entries_or_empty(after.0).contains_key(k)
                    <==> entries_or_empty(history.0).contains_key(k)) && entries_or_empty(after.0)[k]
                    == entries_or_empty(history.0)[k]
            &&& !entries_or_empty(history.0).contains_key(item_id) ==> after == history
        }),
{
    let after = applied(history, HistoryPersistCommand::ResumeRemove { item_id }, now);
    if !entries_or_empty(history.0).contains_key(item_id) {
        if let Some(entries) = history.0 {
            assert(entries.remove(item_id) =~= entries);
        }
    }
}

/// Trimming a storage to a limit that it does not exceed keeps every entry.
pub proof fn lemma_limit_keeps_all_within_limit<T: SynchronizedHistoryItem>(
    storage: Map<HnItemIdScalar, T>,
    limit: nat,
    limited: Map<HnItemIdScalar, T>,
)
    requires
        storage.dom().finite(),
        storage.len() <= limit,
        keeps_most_recent(storage, limit, limited),
    ensures
        limited == storage,
{
    assert(limited.dom().subset_of(storage.dom()));
    vstd::set_lib::lemma_subset_equality(limited.dom(), storage.dom());
    assert(limited =~= storage);
}

/// When one entry is strictly more recent than all the others, it comes first
/// in the recency order.
pub proof fn lemma_strictly_newest_comes_first<T: SynchronizedHistoryItem>(
    storage: Map<HnItemIdScalar, T>,
    order: Seq<(&HnItemIdScalar, &T)>,
    newest: HnItemIdScalar,
)
    requires
        is_recency_order(storage, order),
        storage.contains_key(newest),
        forall|k: HnItemIdScalar|
            #[trigger] storage.contains_key(k) && k != newest ==> !storage[newest].timestamp().not_after(
                storage[k].timestamp(),
            ),
    ensures
        order.len() > 0,
        *order[0].0 == newest,
{
    let i = choose|i: int| 0 <= i < order.len() && *(#[trigger] order[i]).0 == newest;
    if i > 0 {
        assert(order[i].1.timestamp().not_after(order[0].1.timestamp()));
        assert(storage.contains_key(*order[0].0));
        assert(*order[0].0 != newest);
    }
}

/// The "resume Item reading" entries `after` hold `item_id` with `label`, and
/// every other entry of `before`, unchanged.
pub open spec fn stores_resume_item(
    before: Option<Map<HnItemIdScalar, ResumeItemHistoryData>>,
    after: Option<Map<HnItemIdScalar, ResumeItemHistoryData>>,
    item_id: HnItemIdScalar,
    label: String,
) -> bool {
    &&& after is Some
    &&& after->0.contains_key(item_id)
    &&& after->0[item_id].item_id == item_id
    &&& after->0[item_id].label == label
    &&& forall|k: HnItemIdScalar|
        k != item_id ==> (#[trigger] after->0.contains_key(k) <==> entries_or_empty(before).contains_key(k))
            && (entries_or_empty(before).contains_key(k) ==> after->0[k] == entries_or_empty(before)[k])
}

/// The "resume Item reading" entries `after` are those of `before` without
/// `item_id` (absent when they were absent).
pub open spec fn drops_resume_item(
    before: Option<Map<HnItemIdScalar, ResumeItemHistoryData>>,
    after: Option<Map<HnItemIdScalar, ResumeItemHistoryData>>,
    item_id: HnItemIdScalar,
) -> bool {
    &&& (after is Some <==> before is Some)
    &&& !entries_or_empty(after).contains_key(item_id)
    &&& forall|k: HnItemIdScalar|
        k != item_id ==> (#[trigger] entries_or_empty(after).contains_key(k) <==> entries_or_empty(
            before,
        ).contains_key(k)) && (entries_or_empty(before).contains_key(k) ==> entries_or_empty(after)[k]
            == entries_or_empty(before)[k])
}

/// The top-level comment entries `after` hold `top_level_comment_id` for the
/// thread of `story_id`, and every other entry of `before`, unchanged.
pub open spec fn stores_comment(
    before: Option<Map<HnItemIdScalar, TopLevelCommentHistoryData>>,
    after: Option<Map<HnItemIdScalar, TopLevelCommentHistoryData>>,
    story_id: HnItemIdScalar,
    top_level_comment_id: HnItemIdScalar,
) -> bool {
    &&& after is Some
    &&& after->0.contains_key(story_id)
    &&& after->0[story_id].top_level_comment_id == top_level_comment_id
    &&& forall|k: HnItemIdScalar|
        k != story_id ==> (#[trigger] after->0.contains_key(k) <==> entries_or_empty(before).contains_key(k))
            && (entries_or_empty(before).contains_key(k) ==> after->0[k] == entries_or_empty(before)[k])
}

/// What each command does to the history, whatever time stamps it: an addition
/// stores its entry and keeps the others and the other storage; a removal drops
/// its Item and only it.
pub proof fn lemma_command_effect(history: HistoryModel, command: HistoryPersistCommand, now: Timestamp)
    ensures
        ({
            let after = applied(history, command, now);
            match command {
                HistoryPersistCommand::ResumeAdd { item_id, label } => {
                    &&& after.1 == history.1
                    &&& stores_resume_item(history.0, after.0, item_id, label)
                },
                HistoryPersistCommand::ResumeRemove { item_id } => {
                    &&& after.1 == history.1
                    &&& drops_resume_item(history.0, after.0, item_id)
                },
                HistoryPersistCommand::TopLevelCommentAdd { story_id, top_level_comment_id } => {
                    &&& after.0 == history.0
                    &&& stores_comment(history.1, after.1, story_id, top_level_comment_id)
                },
            }
        }),
{
}

/// The top-level comment that the last `TopLevelCommentAdd` for the thread of
/// `story_id` in `commands` stores, if there is one.
pub open spec fn last_comment_for(commands: Seq<HistoryPersistCommand>, story_id: HnItemIdScalar) -> Option<
    HnItemIdScalar,
>
    decreases commands.len(),
{
    if commands.len() == 0 {
        None
    } else {
        match commands.last() {
            HistoryPersistCommand::TopLevelCommentAdd { story_id: id, top_level_comment_id } => if id
                == story_id {
                Some(top_level_comment_id)
            } else {
                last_comment_for(commands.drop_last(), story_id)
            },
            _ => last_comment_for(commands.drop_last(), story_id),
        }
    }
}

/// The last command of `commands` on the "resume Item reading" entry of
/// `item_id`, if there is one: `Some(label)` for an addition with that label,
/// `None` for a removal.
pub open spec fn last_resume_command_for(
    commands: Seq<HistoryPersistCommand>,
    item_id: HnItemIdScalar,
) -> Option<Option<String>>
    decreases commands.len(),
{
    if commands.len() == 0 {
        None
    } else {
        match commands.last() {
            HistoryPersistCommand::ResumeAdd { item_id: id, label } => if id == item_id {
                Some(Some(label))
            } else {
                last_resume_command_for(commands.drop_last(), item_id)
            },
            HistoryPersistCommand::ResumeRemove { item_id: id } => if id == item_id {
                Some(None)
            } else {
                last_resume_command_for(commands.drop_last(), item_id)
            },
            _ => last_resume_command_for(commands.drop_last(), item_id),
        }
    }
}

/// After a batch of commands all applied, the top-level comment of a thread is
/// the one the batch's last `TopLevelCommentAdd` for it stores, or, when the
/// batch has none, the one stored before.
pub proof fn lemma_batch_last_comment_wins(
    history: HistoryModel,
    commands: Seq<HistoryPersistCommand>,
    times: Seq<Option<Timestamp>>,
    story_id: HnItemIdScalar,
)
    requires
        times.len() == commands.len(),
        forall|i: int| 0 <= i < times.len() ==> (#[trigger] times[i]) is Some,
    ensures
        restored_comment(applied_all(history, commands, times), story_id) == match last_comment_for(
            commands,
            story_id,
        ) {
            Some(top_level_comment_id) => Some(top_level_comment_id),
            None => restored_comment(history, story_id),
        },
    decreases commands.len(),
{
    if commands.len() > 0 {
        let rest = commands.drop_last();
        let rest_times = times.drop_last();
        assert forall|i: int| 0 <= i < rest_times.len() implies (#[trigger] rest_times[i]) is Some by {
            assert(rest_times[i] == times[i]);
        }
        lemma_batch_last_comment_wins(history, rest, rest_times, story_id);
        let before = applied_all(history, rest, rest_times);
        let now = times[commands.len() - 1]->0;
        assert(times[commands.len() - 1] is Some);
        match commands.last() {
            HistoryPersistCommand::TopLevelCommentAdd { story_id: id, top_level_comment_id } => {
                lemma_comment_read_after_write(before, id, top_level_comment_id, now, story_id);
            },
            _ => {},
        }
    }
}

/// After a batch of commands all applied, the "resume Item reading" entry of an
/// Item follows the batch's last command on it: an addition leaves it stored
/// with that addition's label, a removal leaves it absent, and with no such
/// command it stays as it was.
pub proof fn lemma_batch_last_resume_command_wins(
    history: HistoryModel,
    commands: Seq<HistoryPersistCommand>,
    times: Seq<Option<Timestamp>>,
    item_id: HnItemIdScalar,
)
    requires
        times.len() == commands.len(),
        forall|i: int| 0 <= i < times.len() ==> (#[trigger] times[i]) is Some,
    ensures
        ({
            let before = entries_or_empty(history.0);
            let after = entries_or_empty(applied_all(history, commands, times).0);
            match last_resume_command_for(commands, item_id) {
                Some(Some(label)) => after.contains_key(item_id) && after[item_id].item_id == item_id
                    && after[item_id].label == label,
                Some(None) => !after.contains_key(item_id),
                None => (after.contains_key(item_id) <==> before.contains_key(item_id)) && (
                before.contains_key(item_id) ==> after[item_id] == before[item_id]),
            }
        }),
    decreases commands.len(),
{
    if commands.len() > 0 {
        let rest = commands.drop_last();
        let rest_times = times.drop_last();
        assert forall|i: int| 0 <= i < rest_times.len() implies (#[trigger] rest_times[i]) is Some by {
            assert(rest_times[i] == times[i]);
        }
        lemma_batch_last_resume_command_wins(history, rest, rest_times, item_id);
        let before = applied_all(history, rest, rest_times);
        let now = times[commands.len() - 1]->0;
        assert(times[commands.len() - 1] is Some);
        lemma_command_effect(before, commands.last(), now);
    }
}

} // verus!
