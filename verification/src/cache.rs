//! The latest-value cache: the most recent message of each kind.
//!
//! The entries live in a `DashMap` keyed by the kind's tag. Nothing is kept
//! but the last message that was put under a tag.

use vstd::prelude::*;
use dashmap::DashMap;
use crate::models::{lemma_tag_table, MessageKind, MessageView, MessageWrapper};

verus! {

/// `dashmap::DashMap`, a hash map in shards. Nothing is known of a value of
/// it but what the functions below say of its entries.
#[verifier::external_type_specification]
#[verifier::external_body]
#[verifier::reject_recursive_types(K)]
#[verifier::reject_recursive_types(V)]
#[verifier::reject_recursive_types(S)]
pub struct ExDashMap<K, V, S>(DashMap<K, V, S>);

/// The entries of a map: for each tag that has one, the message under it.
pub uninterp spec fn map_entries(table: DashMap<u8, MessageWrapper>) -> Map<u8, MessageView>;

/// Calls `DashMap::new`: a map without entries.
#[verifier::external_body]
fn map_new() -> (table: DashMap<u8, MessageWrapper>)
    ensures
        map_entries(table) =~= Map::empty(),
{
    DashMap::new()
}

/// Calls `DashMap::insert`: afterwards `value` stands under `key`, in place
/// of what stood there, and every other entry is as it was.
#[verifier::external_body]
fn map_insert(table: &mut DashMap<u8, MessageWrapper>, key: u8, value: MessageWrapper)
    ensures
        map_entries(*final(table)) == map_entries(*old(table)).insert(key, value@),
{
    table.insert(key, value);
}

/// Calls `DashMap::get` and copies the message that it finds: the one under
/// `key`, or none where the map has no such entry.
#[verifier::external_body]
fn map_get(table: &DashMap<u8, MessageWrapper>, key: u8) -> (found: Option<MessageWrapper>)
    ensures
        match found {
            Some(message) => map_entries(*table).contains_key(key) && message@ == map_entries(*table)[key],
            None => !map_entries(*table).contains_key(key),
        },
{
    table.get(&key).map(|entry| entry.value().clone())
}

/// Calls `DashMap::iter` and copies each entry that it yields. Every entry of
/// the map is listed once, under its key; the order is that of the map's
/// shards and is not fixed.
#[verifier::external_body]
fn map_snapshot(table: &DashMap<u8, MessageWrapper>) -> (listed: Vec<(u8, MessageWrapper)>)
    ensures
        forall|i: int|
            0 <= i < listed@.len() ==> map_entries(*table).contains_key(#[trigger] listed@[i].0)
                && map_entries(*table)[listed@[i].0] == listed@[i].1@,
        forall|i: int, j: int|
            0 <= i < j < listed@.len() ==> listed@[i].0 != listed@[j].0,
        forall|key: u8|
            map_entries(*table).contains_key(key) ==> exists|i: int|
                0 <= i < listed@.len() && #[trigger] listed@[i].0 == key,
{
    table.iter().map(|entry| (*entry.key(), entry.value().clone())).collect()
}

/// The latest-value cache. It is empty until the first message is put, and
/// from then on holds, for each kind that was ever put, the last message of
/// that kind.
pub struct LatestValues {
    entries: DashMap<u8, MessageWrapper>,
}

impl View for LatestValues {
    type V = Map<MessageKind, MessageView>;

    /// The cached message of each kind that has one.
    closed spec fn view(&self) -> Map<MessageKind, MessageView> {
        Map::new(
            |kind: MessageKind| map_entries(self.entries).contains_key(kind.spec_tag()),
            |kind: MessageKind| map_entries(self.entries)[kind.spec_tag()],
        )
    }
}

impl LatestValues {
    /// Every entry stands under the tag of its own kind.
    pub closed spec fn wf(&self) -> bool {
        forall|tag: u8| #[trigger]
            map_entries(self.entries).contains_key(tag) ==> map_entries(
                self.entries,
            )[tag].kind.spec_tag() == tag
    }

    /// What is cached is filed under its own kind.
    pub proof fn lemma_filed_by_kind(&self, kind: MessageKind)
        requires
            self.wf(),
            self@.contains_key(kind),
        ensures
            self@[kind].kind == kind,
    {
        lemma_tag_table(kind);
        lemma_tag_table(self@[kind].kind);
    }

    /// An empty cache.
    pub fn new() -> (cache: Self)
        ensures
            cache.wf(),
            cache@ == Map::<MessageKind, MessageView>::empty(),
    {
        let cache = LatestValues { entries: map_new() };
        assert(cache@ =~= Map::<MessageKind, MessageView>::empty());
        cache
    }

    /// Files `message` under its kind, in place of what was cached for that
    /// kind. The other kinds keep what they had.
    pub fn put(&mut self, message: MessageWrapper)
        requires
            old(self).wf(),
        ensures
            final(self).wf(),
            final(self)@ == old(self)@.insert(message@.kind, message@),
    {
        let tag = message.kind().tag();
        map_insert(&mut self.entries, tag, message);
        proof {
            assert forall|kind: MessageKind| kind.spec_tag() == tag implies kind
                == message@.kind by {
                lemma_tag_table(kind);
                lemma_tag_table(message@.kind);
            }
            assert(self@ =~= old(self)@.insert(message@.kind, message@));
        }
    }

    /// The cached message of `kind`, if there is one.
    pub fn get(&self, kind: MessageKind) -> (found: Option<MessageWrapper>)
        ensures
            match found {
                Some(message) => self@.contains_key(kind) && message@ == self@[kind],
                None => !self@.contains_key(kind),
            },
    {
        map_get(&self.entries, kind.tag())
    }

    /// A snapshot of the cache: the cached message of every kind that has
    /// one, each once. The order is not fixed.
    pub fn get_all(&self) -> (messages: Vec<MessageWrapper>)
        requires
            self.wf(),
        ensures
            forall|i: int|
                0 <= i < messages@.len() ==> self@.contains_key(#[trigger] messages@[i]@.kind)
                    && self@[messages@[i]@.kind] == messages@[i]@,
            forall|i: int, j: int|
                0 <= i < j < messages@.len() ==> messages@[i]@.kind != messages@[j]@.kind,
            forall|kind: MessageKind|
                self@.contains_key(kind) ==> exists|i: int|
                    0 <= i < messages@.len() && #[trigger] messages@[i]@.kind == kind,
    {
        let listed = map_snapshot(&self.entries);
        let mut messages: Vec<MessageWrapper> = Vec::new();
        let mut i: usize = 0;
        while i < listed.len()
            invariant
                i <= listed@.len(),
                messages@.len() == i,
                forall|j: int| 0 <= j < i ==> #[trigger] messages@[j]@ == listed@[j].1@,
            decreases listed@.len() - i,
        {
            messages.push(listed[i].1.clone());
            i += 1;
        }
        proof {
            let entries = map_entries(self.entries);
            assert forall|j: int| 0 <= j < messages@.len() implies #[trigger] messages@[j]@.kind.spec_tag()
                == listed@[j].0 by {
                assert(entries.contains_key(listed@[j].0));
            }
            assert forall|kind: MessageKind| self@.contains_key(kind) implies exists|j: int|
                0 <= j < messages@.len() && #[trigger] messages@[j]@.kind == kind by {
                let j = choose|j: int| 0 <= j < listed@.len() && #[trigger] listed@[j].0 == kind.spec_tag();
                lemma_tag_table(kind);
                lemma_tag_table(messages@[j]@.kind);
            }
        }
        messages
    }
}

} // verus!
