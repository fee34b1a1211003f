//! What the reference model knows of each key.

use std::collections::BTreeMap;

use vstd::prelude::*;

use crate::bench::workload;
use crate::bench::workload::{time_after, KeyState};
use crate::bytes::same_bytes;
use crate::keys;
use crate::keys::is_key_before;
use crate::types::Epoch;

verus! {

broadcast use vstd::laws_cmp::group_laws_cmp;

/// One key. Times are in nanoseconds.
#[derive(Clone, Debug)]
pub struct KeyRecord {
    pub key: Vec<u8>,
    pub written_at: u128,
    /// When the key is to be deleted.
    pub due_at: u128,
    /// The epoch at which the key ends, in epoch mode.
    pub logical_end_epoch: Option<Epoch>,
    pub state: KeyState,
    /// Whether the key was counted as due.
    pub due_counted: bool,
    /// The key's place in the sample of live keys; the largest number where it has none.
    pub sample_index: usize,
}

impl KeyRecord {
    /// A live key of a certain age.
    pub fn with_retention(key: Vec<u8>, written_at: u128, retention: u128) -> (record: KeyRecord)
        ensures
            record == (KeyRecord {
                key,
                written_at,
                due_at: workload::later(written_at as int, retention as int) as u128,
                logical_end_epoch: None,
                state: KeyState::Live,
                due_counted: false,
                sample_index: usize::MAX,
            }),
    {
        KeyRecord {
            key,
            written_at,
            due_at: time_after(written_at, retention),
            logical_end_epoch: None,
            state: KeyState::Live,
            due_counted: false,
            sample_index: usize::MAX,
        }
    }

    /// A live key that ends at an epoch.
    pub fn with_epoch(key: Vec<u8>, written_at: u128, due_at: u128, logical_end_epoch: Epoch)
        -> (record: KeyRecord)
        ensures
            record == (KeyRecord {
                key,
                written_at,
                due_at,
                logical_end_epoch: Some(logical_end_epoch),
                state: KeyState::Live,
                due_counted: false,
                sample_index: usize::MAX,
            }),
    {
        KeyRecord {
            key,
            written_at,
            due_at,
            logical_end_epoch: Some(logical_end_epoch),
            state: KeyState::Live,
            due_counted: false,
            sample_index: usize::MAX,
        }
    }

    /// Whether this key is due before the other. Keys that are due at the same time go by their
    /// bytes.
    pub open spec fn before(self, other: KeyRecord) -> bool {
        self.due_at < other.due_at || (self.due_at == other.due_at && keys::key_before(
            self.key@,
            other.key@,
        ))
    }

    /// Whether neither key is due before the other.
    pub open spec fn alike(self, other: KeyRecord) -> bool {
        self.due_at == other.due_at && self.key@ == other.key@
    }

    pub fn is_alike(&self, other: &KeyRecord) -> (result: bool)
        ensures
            result == self.alike(*other),
    {
        self.due_at == other.due_at && same_bytes(&self.key, &other.key)
    }

    pub fn is_before(&self, other: &KeyRecord) -> (result: bool)
        ensures
            result == self.before(*other),
    {
        self.due_at < other.due_at || (self.due_at == other.due_at && is_key_before(
            &self.key,
            &other.key,
        ))
    }

    /// Whether the key is past its time, and its epoch has come where it has one.
    pub open spec fn spec_is_due(self, now: u128, current_epoch: Option<Epoch>) -> bool {
        self.due_at <= now && (match self.logical_end_epoch {
            Some(end) => current_epoch matches Some(epoch) && end <= epoch,
            None => true,
        })
    }

    pub fn is_due(&self, now: u128, current_epoch: Option<Epoch>) -> (result: bool)
        ensures
            result == self.spec_is_due(now, current_epoch),
    {
        self.due_at <= now && (match self.logical_end_epoch {
            Some(end) => match current_epoch {
                Some(epoch) => end <= epoch,
                None => false,
            },
            None => true,
        })
    }

    /// Whether the key ends by itself at an epoch.
    pub open spec fn spec_has_ended(self, epoch: Epoch) -> bool {
        self.logical_end_epoch matches Some(end) && end <= epoch
    }

    pub fn has_ended(&self, epoch: Epoch) -> (result: bool)
        ensures
            result == self.spec_has_ended(epoch),
    {
        match self.logical_end_epoch {
            Some(end) => end <= epoch,
            None => false,
        }
    }
}

/// Records by ticket.
#[derive(Clone, Debug)]
pub struct KeyTable {
    records: BTreeMap<u64, KeyRecord>,
}

impl KeyTable {
    pub closed spec fn view(&self) -> Map<u64, KeyRecord> {
        self.records@
    }

    pub fn new() -> (table: KeyTable)
        ensures
            table.view() == Map::<u64, KeyRecord>::empty(),
    {
        KeyTable { records: BTreeMap::new() }
    }

    pub fn get(&self, ticket: u64) -> (record: Option<&KeyRecord>)
        ensures
            match record {
                Some(record) => self.view().contains_key(ticket) && *record == self.view()[ticket],
                None => !self.view().contains_key(ticket),
            },
    {
        self.records.get(&ticket)
    }

    pub fn insert(&mut self, ticket: u64, record: KeyRecord)
        ensures
            final(self).view() == old(self).view().insert(ticket, record),
    {
        self.records.insert(ticket, record);
    }

    pub fn remove(&mut self, ticket: u64) -> (record: Option<KeyRecord>)
        ensures
            final(self).view() == old(self).view().remove(ticket),
            match record {
                Some(record) => old(self).view().contains_key(ticket) && record
                    == old(self).view()[ticket],
                None => !old(self).view().contains_key(ticket),
            },
    {
        self.records.remove(&ticket)
    }
}

} // verus!
