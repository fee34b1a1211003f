//! Point reads: from a stored row to the place of the bytes, through relocations.

use vstd::prelude::*;

use crate::blob_lsm::codec;
use crate::blob_lsm::codec::{BlobLifetime, BlobState, BlobStateView, BlobVersion, FormatError};
use crate::blob_lsm::codec_laws;
use crate::blob_lsm::garbage::BlobKey;
use crate::blob_lsm::merge::StoredValue;
use crate::bytes::same_bytes;
use crate::segments::{SegmentFileState, SegmentOwner, SegmentState};
use crate::shard_map;
use crate::text;
use crate::text::{decimal_text, joined};
use crate::types::{
    BlobLifecycle, Epoch, RecordRef, ShardId, ShardInfo, ShardKey, ShardState, StrataLsn,
};

verus! {

/// Options for point reads.
#[derive(Clone, Copy, Debug, PartialEq, Eq, Structural)]
pub struct ReadOptions {
    pub verify_checksum: bool,
}

impl ReadOptions {
    /// Reads fail where a record does not match its checksum.
    pub fn verify_checksums() -> (options: ReadOptions)
        ensures
            options.verify_checksum,
    {
        ReadOptions { verify_checksum: true }
    }

    /// Reads return a record's bytes as they are.
    pub fn skip_checksum_verification() -> (options: ReadOptions)
        ensures
            !options.verify_checksum,
    {
        ReadOptions { verify_checksum: false }
    }
}

impl Default for ReadOptions {
    fn default() -> (options: ReadOptions)
        ensures
            options.verify_checksum,
    {
        ReadOptions::verify_checksums()
    }
}

/// Where the time of one read went, in nanoseconds.
#[derive(Clone, Copy, Debug, Default, PartialEq, Eq, Structural)]
pub struct StoreGetProfile {
    pub record_lookup: u128,
    pub reader_acquire: u128,
    pub fixed_header: u128,
    pub buffer_alloc: u128,
    pub record_body: u128,
    pub decode: u128,
    pub key_validate: u128,
}

/// Why a read failed.
#[derive(Debug, PartialEq, Eq)]
pub enum ReadError {
    ShardNotFound { shard_id: ShardId },
    ShardUnavailable {
        shard_id: ShardId,
        generation: u64,
        current_generation: u64,
        state: ShardState,
    },
    /// The record belongs to another key.
    KeyMismatch { requested: BlobKey, found: BlobKey },
    /// The materialized row of a key points to a segment.
    SegmentBackedState { key: BlobKey },
    /// A materialized row cannot be read.
    Format(FormatError),
    /// A relocation leads to a record of another length.
    RelocationChangesLength { from: u64, to: u64 },
}

impl ReadError {
    /// The words for a relocation that changes a record's length.
    pub open spec fn length_fault(from: u64, to: u64) -> Seq<char> {
        "relocation changes record length from "@ + text::decimal(from as int) + " to "@
            + text::decimal(to as int)
    }

    /// What is wrong with a relocation, in words; other errors are told by their values.
    pub fn fault(&self) -> (words: Option<String>)
        ensures
            match (*self, words) {
                (ReadError::RelocationChangesLength { from, to }, Some(words)) => words@
                    == ReadError::length_fault(from, to),
                (ReadError::RelocationChangesLength { .. }, None) => false,
                (_, words) => words is None,
            },
    {
        match self {
            ReadError::RelocationChangesLength { from, to } => {
                let head: String = joined(
                    "relocation changes record length from ",
                    decimal_text(*from).as_str(),
                );
                let middle: String = joined(head.as_str(), " to ");
                Some(joined(middle.as_str(), decimal_text(*to).as_str()))
            },
            _ => None,
        }
    }
}

/// Where the payload bytes of a blob live, and how long the blob does.
#[derive(Clone, Copy, Debug, PartialEq, Eq, Structural)]
pub struct ResolvedBlobVersion {
    pub head_lsn: StrataLsn,
    pub record_ref: RecordRef,
    pub generation: StrataLsn,
    pub lifecycle: Option<BlobLifecycle>,
    pub payload_lsn: StrataLsn,
}

/// What is wrong with a materialized row.
pub enum RowFault {
    SegmentBacked,
    Format(FormatError),
}

impl ReadError {
    /// The error tells a fault of the row of a key.
    pub open spec fn tells(self, key: Seq<u8>, fault: RowFault) -> bool {
        match (self, fault) {
            (ReadError::SegmentBackedState { key: named }, RowFault::SegmentBacked) => named@
                == key,
            (ReadError::Format(error), RowFault::Format(other)) => error == other,
            _ => false,
        }
    }
}

/// What a materialized row resolves to.
pub open spec fn resolution(row: Option<StoredValue>, shard: ShardKey, epoch: Epoch) -> Result<
    Option<ResolvedBlobVersion>,
    RowFault,
> {
    match row {
        None => Ok(None),
        Some(StoredValue::Blob { .. }) => Err(RowFault::SegmentBacked),
        Some(StoredValue::Inline(bytes)) => match codec::parse_state(bytes@) {
            Err(error) => Err(RowFault::Format(error)),
            Ok(state) => Ok(
                match state.resolved(shard, epoch) {
                    None => None,
                    Some((version, lifecycle)) => Some(
                        ResolvedBlobVersion {
                            head_lsn: version.lsn,
                            record_ref: version.record_ref,
                            generation: version.lsn,
                            lifecycle,
                            payload_lsn: version.lsn,
                        },
                    ),
                },
            ),
        },
    }
}

/// Resolves a blob's materialized row to its readable payload; nothing for a missing, tombstoned or
/// expired blob.
pub fn resolve_blob_version(
    row: &Option<StoredValue>,
    shard: ShardKey,
    key: &BlobKey,
    current_epoch: Epoch,
) -> (resolved: Result<Option<ResolvedBlobVersion>, ReadError>)
    ensures
        match (resolved, resolution(*row, shard, current_epoch)) {
            (Ok(resolved), Ok(other)) => resolved == other,
            (Err(error), Err(fault)) => error.tells(key@, fault),
            _ => false,
        },
{
    let bytes: &Vec<u8> = match row {
        None => return Ok(None),
        Some(StoredValue::Blob { .. }) => {
            return Err(ReadError::SegmentBackedState { key: key.copy() });
        },
        Some(StoredValue::Inline(bytes)) => bytes,
    };
    let state: BlobState = match BlobState::decode(bytes.as_slice()) {
        Ok(state) => state,
        Err(error) => return Err(ReadError::Format(error)),
    };
    match state.resolve(shard, current_epoch) {
        None => Ok(None),
        Some((version, lifecycle)) => Ok(
            Some(
                ResolvedBlobVersion {
                    head_lsn: version.lsn,
                    record_ref: version.record_ref,
                    generation: version.lsn,
                    lifecycle,
                    payload_lsn: version.lsn,
                },
            ),
        ),
    }
}

/// The shard generation that reads of a shard see.
pub fn readable_shard_key(shard_id: ShardId, info: Option<ShardInfo>) -> (shard: Result<
    ShardKey,
    ReadError,
>)
    ensures
        shard == (match info {
            None => Err(ReadError::ShardNotFound { shard_id }),
            Some(info) => if info.state == ShardState::Active {
                Ok(ShardKey { id: shard_id, generation: info.current_generation })
            } else {
                Err(
                    ReadError::ShardUnavailable {
                        shard_id,
                        generation: info.current_generation,
                        current_generation: info.current_generation,
                        state: info.state,
                    },
                )
            },
        }),
{
    match info {
        None => Err(ReadError::ShardNotFound { shard_id }),
        Some(info) => if info.state == ShardState::Active {
            Ok(ShardKey { id: shard_id, generation: info.current_generation })
        } else {
            Err(
                ReadError::ShardUnavailable {
                    shard_id,
                    generation: info.current_generation,
                    current_generation: info.current_generation,
                    state: info.state,
                },
            )
        },
    }
}

/// A deleted segment cannot be read; any other can.
pub fn segment_state_is_readable(state: SegmentFileState) -> (readable: bool)
    ensures
        readable == (state != SegmentFileState::Deleted),
{
    state != SegmentFileState::Deleted
}

/// How a segment's row looks to reads of one shard: segments of other shards do not exist for it.
#[derive(Clone, Copy, Debug, PartialEq, Eq, Structural)]
pub enum SegmentSight {
    /// No row, or another shard's.
    Absent,
    Readable,
    Deleted,
}

pub open spec fn sight(row: Option<SegmentState>, shard: ShardKey) -> SegmentSight {
    match row {
        None => SegmentSight::Absent,
        Some(row) => if row.owner != SegmentOwner::Store && row.owner != SegmentOwner::Shard(
            shard,
        ) {
            SegmentSight::Absent
        } else if row.state == SegmentFileState::Deleted {
            SegmentSight::Deleted
        } else {
            SegmentSight::Readable
        },
    }
}

/// How a segment's row looks to reads of one shard.
pub fn segment_state_for_read(row: &Option<SegmentState>, shard: ShardKey) -> (seen: SegmentSight)
    ensures
        seen == sight(*row, shard),
{
    match row {
        None => SegmentSight::Absent,
        Some(row) => if row.owner != SegmentOwner::Store && row.owner != SegmentOwner::Shard(
            shard,
        ) {
            SegmentSight::Absent
        } else if row.state == SegmentFileState::Deleted {
            SegmentSight::Deleted
        } else {
            SegmentSight::Readable
        },
    }
}

/// Where one attempt to find a record ended.
#[derive(Clone, Copy, Debug, PartialEq, Eq, Structural)]
pub enum LiveRecordRef {
    Missing,
    Readable(RecordRef),
    Deleted(RecordRef),
}

/// What a first look at a record's segment asks for.
#[derive(Clone, Copy, Debug, PartialEq, Eq, Structural)]
pub enum FirstLook {
    /// The attempt is over.
    Done(LiveRecordRef),
    /// The segment is gone: look for a relocation.
    Relocated,
}

/// The first look at the segment that a row refers to.
pub fn first_look(record_ref: RecordRef, seen: SegmentSight) -> (look: FirstLook)
    ensures
        look == (match seen {
            SegmentSight::Readable => FirstLook::Done(LiveRecordRef::Readable(record_ref)),
            SegmentSight::Absent => FirstLook::Done(LiveRecordRef::Missing),
            SegmentSight::Deleted => FirstLook::Relocated,
        }),
{
    match seen {
        SegmentSight::Readable => FirstLook::Done(LiveRecordRef::Readable(record_ref)),
        SegmentSight::Absent => FirstLook::Done(LiveRecordRef::Missing),
        SegmentSight::Deleted => FirstLook::Relocated,
    }
}

/// Where a relocation leads, before its segment is looked at.
#[derive(Clone, Copy, Debug, PartialEq, Eq, Structural)]
pub enum Translation {
    /// Nowhere else: the record is gone with its segment.
    Gone,
    To(RecordRef),
}

/// Follows a relocation, where there is one. A relocated record has the length of the record that
/// it replaces.
pub fn follow_relocation(record_ref: RecordRef, to: Option<RecordRef>) -> (translation: Result<
    Translation,
    ReadError,
>)
    ensures
        translation == (match to {
            None => Ok(Translation::Gone),
            Some(to) => if to.len != record_ref.len {
                Err(ReadError::RelocationChangesLength { from: record_ref.len, to: to.len })
            } else if to == record_ref {
                Ok(Translation::Gone)
            } else {
                Ok(Translation::To(to))
            },
        }),
{
    match to {
        None => Ok(Translation::Gone),
        Some(to) => if to.len != record_ref.len {
            Err(ReadError::RelocationChangesLength { from: record_ref.len, to: to.len })
        } else if to == record_ref {
            Ok(Translation::Gone)
        } else {
            Ok(Translation::To(to))
        },
    }
}

/// The look at the segment that a relocation leads to.
pub fn second_look(to: RecordRef, seen: SegmentSight) -> (found: LiveRecordRef)
    ensures
        found == (match seen {
            SegmentSight::Readable => LiveRecordRef::Readable(to),
            SegmentSight::Absent => LiveRecordRef::Missing,
            SegmentSight::Deleted => LiveRecordRef::Deleted(to),
        }),
{
    match seen {
        SegmentSight::Readable => LiveRecordRef::Readable(to),
        SegmentSight::Absent => LiveRecordRef::Missing,
        SegmentSight::Deleted => LiveRecordRef::Deleted(to),
    }
}

/// What a look at a segment leaves to do for the caches.
#[derive(Clone, Copy, Debug, PartialEq, Eq, Structural)]
pub enum Upkeep {
    Nothing,
    /// Remember that the record was relocated to this place.
    Remember(RecordRef),
    /// Drop the reader of this place's segment.
    Evict(RecordRef),
}

/// What the first look leaves to do: a segment that cannot be read needs no reader.
pub fn first_upkeep(record_ref: RecordRef, seen: SegmentSight) -> (upkeep: Upkeep)
    ensures
        upkeep == (if seen == SegmentSight::Readable {
            Upkeep::Nothing
        } else {
            Upkeep::Evict(record_ref)
        }),
{
    match seen {
        SegmentSight::Readable => Upkeep::Nothing,
        SegmentSight::Absent | SegmentSight::Deleted => Upkeep::Evict(record_ref),
    }
}

/// What the look at a relocation's segment leaves to do: a relocation that leads to a readable
/// record is remembered, unless it was already.
pub fn second_upkeep(to: RecordRef, seen: SegmentSight, remembered: bool) -> (upkeep: Upkeep)
    ensures
        upkeep == (if seen != SegmentSight::Readable {
            Upkeep::Evict(to)
        } else if remembered {
            Upkeep::Nothing
        } else {
            Upkeep::Remember(to)
        }),
{
    match seen {
        SegmentSight::Readable => if remembered {
            Upkeep::Nothing
        } else {
            Upkeep::Remember(to)
        },
        SegmentSight::Absent | SegmentSight::Deleted => Upkeep::Evict(to),
    }
}

/// Where one attempt to find a record ends, given what each look would see.
pub open spec fn live_record(
    resolved: Option<RecordRef>,
    seen: SegmentSight,
    relocation: Option<RecordRef>,
    seen_there: SegmentSight,
) -> Result<LiveRecordRef, ReadError> {
    match (resolved, seen) {
        (None, _) => Ok(LiveRecordRef::Missing),
        (Some(at), SegmentSight::Readable) => Ok(LiveRecordRef::Readable(at)),
        (Some(_), SegmentSight::Absent) => Ok(LiveRecordRef::Missing),
        (Some(at), SegmentSight::Deleted) => match relocation {
            None => Ok(LiveRecordRef::Deleted(at)),
            Some(to) => if to.len != at.len {
                Err(ReadError::RelocationChangesLength { from: at.len, to: to.len })
            } else if to == at {
                Ok(LiveRecordRef::Deleted(at))
            } else {
                Ok(
                    match seen_there {
                        SegmentSight::Readable => LiveRecordRef::Readable(to),
                        SegmentSight::Absent => LiveRecordRef::Missing,
                        SegmentSight::Deleted => LiveRecordRef::Deleted(to),
                    },
                )
            },
        },
    }
}

/// One attempt to find a record: the segment that the row refers to, or, where that is gone, the
/// one that its relocation leads to.
pub fn live_record_ref_once(
    resolved: Option<RecordRef>,
    seen: SegmentSight,
    relocation: Option<RecordRef>,
    seen_there: SegmentSight,
) -> (found: Result<LiveRecordRef, ReadError>)
    ensures
        found == live_record(resolved, seen, relocation, seen_there),
{
    let at: RecordRef = match resolved {
        None => return Ok(LiveRecordRef::Missing),
        Some(at) => at,
    };
    match first_look(at, seen) {
        FirstLook::Done(found) => Ok(found),
        FirstLook::Relocated => match follow_relocation(at, relocation) {
            Err(error) => Err(error),
            Ok(Translation::Gone) => Ok(LiveRecordRef::Deleted(at)),
            Ok(Translation::To(to)) => Ok(second_look(to, seen_there)),
        },
    }
}

/// What a reader does next.
#[derive(Clone, Copy, Debug, PartialEq, Eq, Structural)]
pub enum ReadStep {
    /// Read the bytes at this place.
    Read(RecordRef),
    /// The blob cannot be read.
    Absent,
    /// Resolve the blob again.
    Again,
    /// Hand the error on.
    Fail,
}

/// One read with at most one retry: between the look-up and the read, GC may have deleted the
/// segment that was found.
#[derive(Clone, Copy, Debug, PartialEq, Eq, Structural)]
pub struct ReadAttempt {
    pub retry_used: bool,
}

impl ReadAttempt {
    pub fn begin() -> (attempt: ReadAttempt)
        ensures
            !attempt.retry_used,
    {
        ReadAttempt { retry_used: false }
    }

    /// Takes the outcome of resolving the blob.
    pub fn resolved(&mut self, found: LiveRecordRef) -> (step: ReadStep)
        ensures
            (step, final(self).retry_used) == after_resolving(old(self).retry_used, found),
    {
        match found {
            LiveRecordRef::Readable(at) => ReadStep::Read(at),
            LiveRecordRef::Missing => ReadStep::Absent,
            LiveRecordRef::Deleted(_) => {
                if self.retry_used {
                    ReadStep::Absent
                } else {
                    self.retry_used = true;
                    ReadStep::Again
                }
            },
        }
    }

    /// Takes a failure to read. Only a file that is gone, and a row that confirms that it was
    /// deleted, are worth another attempt.
    pub fn failed(&mut self, not_found: bool, segment: Option<SegmentFileState>) -> (step: ReadStep)
        ensures
            (step, final(self).retry_used) == after_failing(
                old(self).retry_used,
                not_found && segment == Some(SegmentFileState::Deleted),
            ),
    {
        if not_found && !self.retry_used {
            if let Some(state) = segment {
                if state == SegmentFileState::Deleted {
                    self.retry_used = true;
                    return ReadStep::Again;
                }
            }
        }
        ReadStep::Fail
    }
}

/// What follows when a blob was resolved, and whether the retry is then used.
pub open spec fn after_resolving(retry_used: bool, found: LiveRecordRef) -> (ReadStep, bool) {
    match found {
        LiveRecordRef::Readable(at) => (ReadStep::Read(at), retry_used),
        LiveRecordRef::Missing => (ReadStep::Absent, retry_used),
        LiveRecordRef::Deleted(_) => if retry_used {
            (ReadStep::Absent, true)
        } else {
            (ReadStep::Again, true)
        },
    }
}

/// What follows when the bytes could not be read, and whether the retry is then used.
pub open spec fn after_failing(retry_used: bool, segment_was_deleted: bool) -> (ReadStep, bool) {
    if !retry_used && segment_was_deleted {
        (ReadStep::Again, true)
    } else {
        (ReadStep::Fail, retry_used)
    }
}

/// A record answers a read only under its own key.
pub fn check_record_key(requested: &BlobKey, found: BlobKey) -> (result: Result<(), ReadError>)
    ensures
        match result {
            Ok(()) => requested@ == found@,
            Err(ReadError::KeyMismatch { requested: asked, found: other }) => {
                &&& requested@ != found@
                &&& asked@ == requested@
                &&& other@ == found@
            },
            Err(_) => false,
        },
{
    if same_bytes(&requested.bytes, &found.bytes) {
        Ok(())
    } else {
        Err(ReadError::KeyMismatch { requested: requested.copy(), found })
    }
}

// Laws.

/// A read resolves its blob at most twice: asking for another attempt uses the retry up, and once
/// it is used up, nothing asks for another.
pub proof fn law_reads_retry_at_most_once(retry_used: bool, found: LiveRecordRef, deleted: bool)
    ensures
        retry_used ==> after_resolving(retry_used, found).0 != ReadStep::Again,
        retry_used ==> after_failing(retry_used, deleted).0 != ReadStep::Again,
        after_resolving(retry_used, found).0 == ReadStep::Again ==> after_resolving(
            retry_used,
            found,
        ).1,
        after_failing(retry_used, deleted).0 == ReadStep::Again ==> after_failing(
            retry_used,
            deleted,
        ).1,
{
}

/// A read that finds a record finds one of the length that the blob's row names, whether the record
/// was relocated or not.
pub proof fn law_found_records_keep_their_length(
    at: RecordRef,
    seen: SegmentSight,
    relocation: Option<RecordRef>,
    seen_there: SegmentSight,
)
    ensures
        live_record(Some(at), seen, relocation, seen_there) matches Ok(
            LiveRecordRef::Readable(found),
        ) ==> found.len == at.len,
{
}

/// Reads never leave their shard: a segment of another shard generation is neither readable nor
/// known to be deleted.
pub proof fn law_reads_stay_in_their_shard(row: SegmentState, shard: ShardKey, other: ShardKey)
    requires
        row.owner == SegmentOwner::Shard(other),
        other != shard,
    ensures
        sight(Some(row), shard) == SegmentSight::Absent,
{
}

/// What a blob's state says is what reads see: reading back the encoded state resolves each shard
/// exactly as the state itself does.
pub proof fn law_encoded_states_resolve_alike(
    bytes: Vec<u8>,
    entries: Seq<(ShardKey, BlobVersion)>,
    lifetime: Option<BlobLifetime>,
    shard: ShardKey,
    epoch: Epoch,
)
    requires
        shard_map::shard_sorted(entries),
        entries.len() <= u32::MAX,
        bytes@ == codec::state_bytes(entries, lifetime),
    ensures
        ({
            let state = BlobStateView { versions: shard_map::shard_map_of(entries), lifetime };
            match resolution(Some(StoredValue::Inline(bytes)), shard, epoch) {
                Ok(Some(found)) => state.resolved(shard, epoch) matches Some((version, lifecycle))
                    && found.record_ref == version.record_ref && found.payload_lsn == version.lsn
                    && found.lifecycle == lifecycle,
                Ok(None) => state.resolved(shard, epoch) is None,
                Err(_) => false,
            }
        }),
{
    codec_laws::law_state_round_trip(entries, lifetime, Seq::empty());
}

} // verus!
