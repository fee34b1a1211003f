//! Persisted operation and materialized-state formats for the blob LSM.

use vstd::prelude::*;

use crate::bytes::{push_u32, push_u64, read_le};
use crate::shard_map::ShardMap;
use crate::text;
use crate::text::{decimal_text, joined};
use crate::types::{BlobLifecycle, Epoch, RecordRef, ShardKey, StrataLsn};

verus! {

/// Version byte that opens every encoding.
pub const VERSION: u8 = 3;

pub const PUT: u8 = 1;

pub const SET_LIFETIME: u8 = 2;

pub const TOMBSTONE: u8 = 3;

pub const BATCH: u8 = 4;

pub const RELOCATE: u8 = 5;

/// Why bytes are not an encoding, or a value has none.
#[derive(Clone, Copy, Debug, PartialEq, Eq, Structural)]
pub enum FormatError {
    UnsupportedVersion { version: u8 },
    Truncated,
    TrailingBytes,
    ExpectedPutTag { tag: u8 },
    PutNotInline,
    UnknownMutationTag { tag: u8 },
    UnknownBatchedTag { tag: u8 },
    BatchEmptyOrBeyondOuterLsn,
    LsnsNotIncreasing,
    TooManyMutations,
    TooManyVersions,
    DuplicateShard,
    InvalidLifetimeMarker { marker: u8 },
}

impl FormatError {
    /// What is wrong with the bytes.
    pub open spec fn reason(self) -> Seq<char> {
        match self {
            FormatError::UnsupportedVersion { version } => "unsupported version "@ + text::decimal(
                version as int,
            ),
            FormatError::Truncated => "truncated encoding"@,
            FormatError::TrailingBytes => "trailing bytes"@,
            FormatError::ExpectedPutTag { tag } => "expected segment-backed Put tag, found "@ + text::decimal(
                tag as int,
            ),
            FormatError::PutNotInline => "Put must be segment-backed"@,
            FormatError::UnknownMutationTag { tag } => "unknown mutation tag "@ + text::decimal(
                tag as int,
            ),
            FormatError::UnknownBatchedTag { tag } => "unknown batched mutation tag "@ + text::decimal(
                tag as int,
            ),
            FormatError::BatchEmptyOrBeyondOuterLsn => "batched patch contains no mutations or exceeds its outer LSN"@,
            FormatError::LsnsNotIncreasing => "batched mutation LSNs are not strictly increasing"@,
            FormatError::TooManyMutations => "too many mutations in one blob patch"@,
            FormatError::TooManyVersions => "too many shard versions in one blob state"@,
            FormatError::DuplicateShard => "duplicate shard in blob state"@,
            FormatError::InvalidLifetimeMarker { marker } => "invalid lifetime marker "@ + text::decimal(
                marker as int,
            ),
        }
    }

    /// The error in words.
    pub fn message(&self) -> (words: String)
        ensures
            words@ == "invalid Store blob encoding: "@ + self.reason(),
    {
        let reason: String = match self {
            FormatError::UnsupportedVersion { version } => joined(
                "unsupported version ",
                decimal_text(*version as u64).as_str(),
            ),
            FormatError::Truncated => "truncated encoding".to_owned(),
            FormatError::TrailingBytes => "trailing bytes".to_owned(),
            FormatError::ExpectedPutTag { tag } => joined(
                "expected segment-backed Put tag, found ",
                decimal_text(*tag as u64).as_str(),
            ),
            FormatError::PutNotInline => "Put must be segment-backed".to_owned(),
            FormatError::UnknownMutationTag { tag } => joined(
                "unknown mutation tag ",
                decimal_text(*tag as u64).as_str(),
            ),
            FormatError::UnknownBatchedTag { tag } => joined(
                "unknown batched mutation tag ",
                decimal_text(*tag as u64).as_str(),
            ),
            FormatError::BatchEmptyOrBeyondOuterLsn => "batched patch contains no mutations or exceeds its outer LSN".to_owned(),
            FormatError::LsnsNotIncreasing => "batched mutation LSNs are not strictly increasing".to_owned(),
            FormatError::TooManyMutations => "too many mutations in one blob patch".to_owned(),
            FormatError::TooManyVersions => "too many shard versions in one blob state".to_owned(),
            FormatError::DuplicateShard => "duplicate shard in blob state".to_owned(),
            FormatError::InvalidLifetimeMarker { marker } => joined(
                "invalid lifetime marker ",
                decimal_text(*marker as u64).as_str(),
            ),
        };
        joined("invalid Store blob encoding: ", reason.as_str())
    }
}

/// One self-contained logical mutation to a blob.
#[derive(Clone, Copy, Debug, PartialEq, Eq, Structural)]
pub enum BlobMutation {
    Put { shard: ShardKey, write_epoch: Epoch, record_ref: RecordRef },
    SetLifetime { logical_end_epoch: Epoch, current_epoch: Epoch },
    Tombstone { shard: ShardKey },
    /// Moves the payload written at `payload_lsn` to other bytes of the same length.
    Relocate { shard: ShardKey, payload_lsn: StrataLsn, to: RecordRef },
}

/// A logical blob mutation paired with the LSN at which it originally occurred.
///
/// Merged patches retain this pair because the outer patch row has only one LSN.
#[derive(Clone, Copy, Debug, PartialEq, Eq, Structural)]
pub struct BlobMutationWithLSN {
    pub lsn: StrataLsn,
    pub mutation: BlobMutation,
}

/// The latest payload for one shard generation.
#[derive(Clone, Copy, Debug, PartialEq, Eq, Structural)]
pub struct BlobVersion {
    pub lsn: StrataLsn,
    pub write_epoch: Epoch,
    pub record_ref: RecordRef,
}

/// The current blob-level lifetime and the operation which established it.
#[derive(Clone, Copy, Debug, PartialEq, Eq, Structural)]
pub struct BlobLifetime {
    pub lsn: StrataLsn,
    pub lifecycle: BlobLifecycle,
}

/// Fully materialized store state for one exact blob key.
#[derive(Clone, Debug, PartialEq, Eq)]
pub struct BlobState {
    pub versions: ShardMap<BlobVersion>,
    pub lifetime: Option<BlobLifetime>,
}

/// What a [`BlobState`] says: one version per shard generation, and one lifetime for all of them.
#[verifier::ext_equal]
pub struct BlobStateView {
    pub versions: Map<ShardKey, BlobVersion>,
    pub lifetime: Option<BlobLifetime>,
}

impl View for BlobState {
    type V = BlobStateView;

    open spec fn view(&self) -> BlobStateView {
        BlobStateView { versions: self.versions@, lifetime: self.lifetime }
    }
}

impl BlobState {
    pub open spec fn wf(&self) -> bool {
        self.versions.wf()
    }

    /// A blob without versions and without a lifetime.
    pub fn new() -> (state: BlobState)
        ensures
            state.wf(),
            state@ == (BlobStateView {
                versions: Map::<ShardKey, BlobVersion>::empty(),
                lifetime: None,
            }),
    {
        BlobState { versions: ShardMap::new(), lifetime: None }
    }
}

impl Default for BlobState {
    fn default() -> (state: BlobState)
        ensures
            state.wf(),
            state@ == (BlobStateView {
                versions: Map::<ShardKey, BlobVersion>::empty(),
                lifetime: None,
            }),
    {
        BlobState::new()
    }
}

// The formats, as byte sequences.

pub open spec fn shard_bytes(shard: ShardKey) -> Seq<u8> {
    crate::bytes::le(shard.id as nat, 4) + crate::bytes::le(shard.generation as nat, 8)
}

pub open spec fn record_bytes(record: RecordRef) -> Seq<u8> {
    crate::bytes::le(record.segment_id as nat, 8) + crate::bytes::le(record.offset as nat, 8)
        + crate::bytes::le(record.len as nat, 8)
}

/// The part of a segment-backed put that is known before its bytes have a place.
pub open spec fn put_metadata_bytes(shard: ShardKey, write_epoch: Epoch) -> Seq<u8> {
    seq![VERSION, PUT] + shard_bytes(shard) + crate::bytes::le(write_epoch as nat, 8)
}

/// Tag and fields of one mutation.
pub open spec fn mutation_bytes(mutation: BlobMutation) -> Seq<u8> {
    match mutation {
        BlobMutation::Put { shard, write_epoch, record_ref } => seq![PUT] + shard_bytes(shard)
            + crate::bytes::le(write_epoch as nat, 8) + record_bytes(record_ref),
        BlobMutation::SetLifetime { logical_end_epoch, current_epoch } => seq![SET_LIFETIME]
            + crate::bytes::le(logical_end_epoch as nat, 8) + crate::bytes::le(
            current_epoch as nat,
            8,
        ),
        BlobMutation::Tombstone { shard } => seq![TOMBSTONE] + shard_bytes(shard),
        BlobMutation::Relocate { shard, payload_lsn, to } => seq![RELOCATE] + shard_bytes(shard)
            + crate::bytes::le(payload_lsn as nat, 8) + record_bytes(to),
    }
}

/// A metadata-only mutation on its own.
pub open spec fn inline_bytes(mutation: BlobMutation) -> Seq<u8> {
    seq![VERSION] + mutation_bytes(mutation)
}

/// One member of a batch: its LSN, then the mutation.
pub open spec fn member_bytes(member: BlobMutationWithLSN) -> Seq<u8> {
    crate::bytes::le(member.lsn as nat, 8) + mutation_bytes(member.mutation)
}

/// The members of a batch, one after the other.
pub open spec fn batch_items_bytes(mutations: Seq<BlobMutationWithLSN>) -> Seq<u8>
    decreases mutations.len(),
{
    if mutations.len() == 0 {
        Seq::empty()
    } else {
        batch_items_bytes(mutations.drop_last()) + member_bytes(mutations.last())
    }
}

pub open spec fn batch_bytes(mutations: Seq<BlobMutationWithLSN>) -> Seq<u8> {
    seq![VERSION, BATCH] + crate::bytes::le(mutations.len(), 4) + batch_items_bytes(mutations)
}

pub open spec fn version_bytes(entry: (ShardKey, BlobVersion)) -> Seq<u8> {
    shard_bytes(entry.0) + crate::bytes::le(entry.1.lsn as nat, 8) + crate::bytes::le(
        entry.1.write_epoch as nat,
        8,
    ) + record_bytes(entry.1.record_ref)
}

pub open spec fn versions_bytes(entries: Seq<(ShardKey, BlobVersion)>) -> Seq<u8>
    decreases entries.len(),
{
    if entries.len() == 0 {
        Seq::empty()
    } else {
        versions_bytes(entries.drop_last()) + version_bytes(entries.last())
    }
}

pub open spec fn lifetime_bytes(lifetime: Option<BlobLifetime>) -> Seq<u8> {
    match lifetime {
        None => seq![0u8],
        Some(head) => seq![1u8] + crate::bytes::le(head.lsn as nat, 8) + crate::bytes::le(
            head.lifecycle.logical_end_epoch as nat,
            8,
        ) + crate::bytes::le(head.lifecycle.extension_count as nat, 4),
    }
}

/// A blob's versions in shard order, then its lifetime.
pub open spec fn state_bytes(
    entries: Seq<(ShardKey, BlobVersion)>,
    lifetime: Option<BlobLifetime>,
) -> Seq<u8> {
    seq![VERSION] + crate::bytes::le(entries.len(), 4) + versions_bytes(entries) + lifetime_bytes(
        lifetime,
    )
}

// Encoding.

fn push_shard(bytes: &mut Vec<u8>, shard: ShardKey)
    ensures
        final(bytes)@ == old(bytes)@ + shard_bytes(shard),
{
    push_u32(bytes, shard.id);
    push_u64(bytes, shard.generation);
    assert(bytes@ =~= old(bytes)@ + shard_bytes(shard));
}

fn push_record(bytes: &mut Vec<u8>, record: RecordRef)
    ensures
        final(bytes)@ == old(bytes)@ + record_bytes(record),
{
    push_u64(bytes, record.segment_id);
    push_u64(bytes, record.offset);
    push_u64(bytes, record.len);
    assert(bytes@ =~= old(bytes)@ + record_bytes(record));
}

fn push_mutation(bytes: &mut Vec<u8>, mutation: &BlobMutation)
    ensures
        final(bytes)@ == old(bytes)@ + mutation_bytes(*mutation),
{
    match mutation {
        BlobMutation::Put { shard, write_epoch, record_ref } => {
            bytes.push(PUT);
            push_shard(bytes, *shard);
            push_u64(bytes, *write_epoch);
            push_record(bytes, *record_ref);
        },
        BlobMutation::SetLifetime { logical_end_epoch, current_epoch } => {
            bytes.push(SET_LIFETIME);
            push_u64(bytes, *logical_end_epoch);
            push_u64(bytes, *current_epoch);
        },
        BlobMutation::Tombstone { shard } => {
            bytes.push(TOMBSTONE);
            push_shard(bytes, *shard);
        },
        BlobMutation::Relocate { shard, payload_lsn, to } => {
            bytes.push(RELOCATE);
            push_shard(bytes, *shard);
            push_u64(bytes, *payload_lsn);
            push_record(bytes, *to);
        },
    }
    assert(bytes@ =~= old(bytes)@ + mutation_bytes(*mutation));
}

impl BlobMutation {
    /// Encodes the fields of a put that are available before its bytes have a place.
    pub fn encode_put_metadata(shard: ShardKey, write_epoch: Epoch) -> (bytes: Vec<u8>)
        ensures
            bytes@ == put_metadata_bytes(shard, write_epoch),
    {
        let mut bytes: Vec<u8> = Vec::new();
        bytes.push(VERSION);
        bytes.push(PUT);
        push_shard(&mut bytes, shard);
        push_u64(&mut bytes, write_epoch);
        assert(bytes@ =~= put_metadata_bytes(shard, write_epoch));
        bytes
    }

    /// Encodes a metadata-only mutation. A put is segment-backed and has no inline encoding.
    pub fn encode_inline(&self) -> (result: Result<Vec<u8>, FormatError>)
        ensures
            match result {
                Ok(bytes) => !(self is Put) && bytes@ == inline_bytes(*self),
                Err(error) => self is Put && error == FormatError::PutNotInline,
            },
    {
        if let BlobMutation::Put { .. } = self {
            return Err(FormatError::PutNotInline);
        }
        let mut bytes: Vec<u8> = Vec::new();
        bytes.push(VERSION);
        push_mutation(&mut bytes, self);
        assert(bytes@ =~= inline_bytes(*self));
        Ok(bytes)
    }
}

impl BlobMutationWithLSN {
    /// Encodes a batch of mutations, each with its own LSN.
    pub fn encode_batch(mutations: &Vec<BlobMutationWithLSN>) -> (result: Result<
        Vec<u8>,
        FormatError,
    >)
        ensures
            match result {
                Ok(bytes) => mutations@.len() <= u32::MAX && bytes@ == batch_bytes(mutations@),
                Err(error) => mutations@.len() > u32::MAX && error == FormatError::TooManyMutations,
            },
    {
        if mutations.len() as u64 > u32::MAX as u64 {
            return Err(FormatError::TooManyMutations);
        }
        let mut bytes: Vec<u8> = Vec::new();
        bytes.push(VERSION);
        bytes.push(BATCH);
        push_u32(&mut bytes, mutations.len() as u32);
        let ghost head = bytes@;
        assert(head =~= seq![VERSION, BATCH] + crate::bytes::le(mutations@.len(), 4));
        let mut i: usize = 0;
        assert(bytes@ =~= head + batch_items_bytes(mutations@.take(0)));
        while i < mutations.len()
            invariant
                i <= mutations@.len(),
                bytes@ == head + batch_items_bytes(mutations@.take(i as int)),
            decreases mutations@.len() - i,
        {
            let ghost before = bytes@;
            push_u64(&mut bytes, mutations[i].lsn);
            push_mutation(&mut bytes, &mutations[i].mutation);
            proof {
                let upto = mutations@.take(i + 1);
                assert(upto.drop_last() =~= mutations@.take(i as int));
                assert(bytes@ =~= head + batch_items_bytes(upto));
            }
            i = i + 1;
        }
        assert(mutations@.take(i as int) =~= mutations@);
        assert(bytes@ =~= batch_bytes(mutations@));
        Ok(bytes)
    }
}

impl BlobState {
    /// Encodes the state with its versions in shard order.
    pub fn encode(&self) -> (result: Result<Vec<u8>, FormatError>)
        ensures
            match result {
                Ok(bytes) => self.versions.listed().len() <= u32::MAX && bytes@ == state_bytes(
                    self.versions.listed(),
                    self.lifetime,
                ),
                Err(error) => self.versions.listed().len() > u32::MAX && error
                    == FormatError::TooManyVersions,
            },
    {
        if self.versions.len() as u64 > u32::MAX as u64 {
            return Err(FormatError::TooManyVersions);
        }
        let ghost entries = self.versions.listed();
        let mut bytes: Vec<u8> = Vec::new();
        bytes.push(VERSION);
        push_u32(&mut bytes, self.versions.len() as u32);
        let ghost head = bytes@;
        assert(head =~= seq![VERSION] + crate::bytes::le(entries.len(), 4));
        let mut i: usize = 0;
        assert(bytes@ =~= head + versions_bytes(entries.take(0)));
        while i < self.versions.len()
            invariant
                entries == self.versions.listed(),
                i <= entries.len(),
                bytes@ == head + versions_bytes(entries.take(i as int)),
            decreases entries.len() - i,
        {
            let version: &BlobVersion = self.versions.value_at(i);
            push_shard(&mut bytes, self.versions.shard_at(i));
            push_u64(&mut bytes, version.lsn);
            push_u64(&mut bytes, version.write_epoch);
            push_record(&mut bytes, version.record_ref);
            proof {
                let upto = entries.take(i + 1);
                assert(upto.drop_last() =~= entries.take(i as int));
                assert(bytes@ =~= head + versions_bytes(upto));
            }
            i = i + 1;
        }
        assert(entries.take(i as int) =~= entries);
        match self.lifetime {
            Some(head_lifetime) => {
                bytes.push(1);
                push_u64(&mut bytes, head_lifetime.lsn);
                push_u64(&mut bytes, head_lifetime.lifecycle.logical_end_epoch);
                push_u32(&mut bytes, head_lifetime.lifecycle.extension_count);
            },
            None => {
                bytes.push(0);
            },
        }
        assert(bytes@ =~= state_bytes(entries, self.lifetime));
        Ok(bytes)
    }
}

// Decoding. A reader takes a value off the front of the bytes and leaves the rest.

/// A value read off the front, with the bytes behind it; or why there is none.
pub type Reading<T> = Result<(T, Seq<u8>), FormatError>;

pub open spec fn read_u8(bytes: Seq<u8>) -> Reading<u8> {
    if bytes.len() < 1 {
        Err(FormatError::Truncated)
    } else {
        Ok((bytes[0], bytes.skip(1)))
    }
}

pub open spec fn read_u32(bytes: Seq<u8>) -> Reading<u32> {
    if bytes.len() < 4 {
        Err(FormatError::Truncated)
    } else {
        Ok((crate::bytes::from_le(bytes.take(4)) as u32, bytes.skip(4)))
    }
}

pub open spec fn read_u64(bytes: Seq<u8>) -> Reading<u64> {
    if bytes.len() < 8 {
        Err(FormatError::Truncated)
    } else {
        Ok((crate::bytes::from_le(bytes.take(8)) as u64, bytes.skip(8)))
    }
}

pub open spec fn read_version(bytes: Seq<u8>) -> Reading<()> {
    match read_u8(bytes) {
        Err(error) => Err(error),
        Ok((version, rest)) => if version != VERSION {
            Err(FormatError::UnsupportedVersion { version })
        } else {
            Ok(((), rest))
        },
    }
}

pub open spec fn read_shard(bytes: Seq<u8>) -> Reading<ShardKey> {
    match read_u32(bytes) {
        Err(error) => Err(error),
        Ok((id, rest)) => match read_u64(rest) {
            Err(error) => Err(error),
            Ok((generation, rest)) => Ok((ShardKey { id, generation }, rest)),
        },
    }
}

/// A record reference is one field of 24 bytes.
pub open spec fn read_record(bytes: Seq<u8>) -> Reading<RecordRef> {
    if bytes.len() < 24 {
        Err(FormatError::Truncated)
    } else {
        Ok(
            (
                RecordRef {
                    segment_id: crate::bytes::from_le(bytes.subrange(0, 8)) as u64,
                    offset: crate::bytes::from_le(bytes.subrange(8, 16)) as u64,
                    len: crate::bytes::from_le(bytes.subrange(16, 24)) as u64,
                },
                bytes.skip(24),
            ),
        )
    }
}

/// The fields of a put without its record.
pub open spec fn read_put_fields(bytes: Seq<u8>) -> Reading<(ShardKey, Epoch)> {
    match read_shard(bytes) {
        Err(error) => Err(error),
        Ok((shard, rest)) => match read_u64(rest) {
            Err(error) => Err(error),
            Ok((write_epoch, rest)) => Ok(((shard, write_epoch), rest)),
        },
    }
}

pub open spec fn read_put(bytes: Seq<u8>) -> Reading<BlobMutation> {
    match read_put_fields(bytes) {
        Err(error) => Err(error),
        Ok(((shard, write_epoch), rest)) => match read_record(rest) {
            Err(error) => Err(error),
            Ok((record_ref, rest)) => Ok(
                (BlobMutation::Put { shard, write_epoch, record_ref }, rest),
            ),
        },
    }
}

pub open spec fn read_set_lifetime(bytes: Seq<u8>) -> Reading<BlobMutation> {
    match read_u64(bytes) {
        Err(error) => Err(error),
        Ok((logical_end_epoch, rest)) => match read_u64(rest) {
            Err(error) => Err(error),
            Ok((current_epoch, rest)) => Ok(
                (BlobMutation::SetLifetime { logical_end_epoch, current_epoch }, rest),
            ),
        },
    }
}

pub open spec fn read_tombstone(bytes: Seq<u8>) -> Reading<BlobMutation> {
    match read_shard(bytes) {
        Err(error) => Err(error),
        Ok((shard, rest)) => Ok((BlobMutation::Tombstone { shard }, rest)),
    }
}

pub open spec fn read_relocate(bytes: Seq<u8>) -> Reading<BlobMutation> {
    match read_put_fields(bytes) {
        Err(error) => Err(error),
        Ok(((shard, payload_lsn), rest)) => match read_record(rest) {
            Err(error) => Err(error),
            Ok((to, rest)) => Ok((BlobMutation::Relocate { shard, payload_lsn, to }, rest)),
        },
    }
}

/// The fields behind a mutation's tag.
pub open spec fn read_fields(tag: u8, bytes: Seq<u8>) -> Reading<BlobMutation> {
    if tag == PUT {
        read_put(bytes)
    } else if tag == SET_LIFETIME {
        read_set_lifetime(bytes)
    } else if tag == TOMBSTONE {
        read_tombstone(bytes)
    } else if tag == RELOCATE {
        read_relocate(bytes)
    } else {
        Err(FormatError::UnknownBatchedTag { tag })
    }
}

/// One member of a batch.
pub open spec fn read_batched(bytes: Seq<u8>) -> Reading<BlobMutationWithLSN> {
    match read_u64(bytes) {
        Err(error) => Err(error),
        Ok((lsn, rest)) => match read_u8(rest) {
            Err(error) => Err(error),
            Ok((tag, rest)) => match read_fields(tag, rest) {
                Err(error) => Err(error),
                Ok((mutation, rest)) => Ok((BlobMutationWithLSN { lsn, mutation }, rest)),
            },
        },
    }
}

/// `count` more members of a batch, behind those in `done`.
pub open spec fn read_members(
    bytes: Seq<u8>,
    count: nat,
    done: Seq<BlobMutationWithLSN>,
) -> Reading<Seq<BlobMutationWithLSN>>
    decreases count,
{
    if count == 0 {
        Ok((done, bytes))
    } else {
        match read_batched(bytes) {
            Err(error) => Err(error),
            Ok((member, rest)) => read_members(rest, (count - 1) as nat, done.push(member)),
        }
    }
}

/// Every mutation happened after the one before it.
pub open spec fn lsns_increase(mutations: Seq<BlobMutationWithLSN>) -> bool {
    forall|i: int, j: int|
        0 <= i < j < mutations.len() ==> (#[trigger] mutations[i]).lsn < (
        #[trigger] mutations[j]).lsn
}

pub open spec fn read_batch(bytes: Seq<u8>, outer_lsn: StrataLsn) -> Reading<
    Seq<BlobMutationWithLSN>,
> {
    match read_u32(bytes) {
        Err(error) => Err(error),
        Ok((count, rest)) => match read_members(rest, count as nat, Seq::empty()) {
            Err(error) => Err(error),
            Ok((members, rest)) => if members.len() == 0 || members.last().lsn > outer_lsn {
                Err(FormatError::BatchEmptyOrBeyondOuterLsn)
            } else if !lsns_increase(members) {
                Err(FormatError::LsnsNotIncreasing)
            } else {
                Ok((members, rest))
            },
        },
    }
}

/// Nothing may follow an encoding.
pub open spec fn finished<T>(reading: Reading<T>) -> Result<T, FormatError> {
    match reading {
        Err(error) => Err(error),
        Ok((value, rest)) => if rest.len() > 0 {
            Err(FormatError::TrailingBytes)
        } else {
            Ok(value)
        },
    }
}

/// What [`BlobMutation::decode_put_metadata`] reads from bytes.
pub open spec fn parse_put_metadata(bytes: Seq<u8>) -> Result<(ShardKey, Epoch), FormatError> {
    match read_version(bytes) {
        Err(error) => Err(error),
        Ok((_, rest)) => match read_u8(rest) {
            Err(error) => Err(error),
            Ok((tag, rest)) => if tag != PUT {
                Err(FormatError::ExpectedPutTag { tag })
            } else {
                finished(read_put_fields(rest))
            },
        },
    }
}

/// What a patch row holds behind its version byte.
pub open spec fn read_inline(bytes: Seq<u8>, outer_lsn: StrataLsn) -> Reading<
    Seq<BlobMutationWithLSN>,
> {
    match read_u8(bytes) {
        Err(error) => Err(error),
        Ok((tag, rest)) => if tag == PUT {
            Err(FormatError::PutNotInline)
        } else if tag == BATCH {
            read_batch(rest, outer_lsn)
        } else if tag != SET_LIFETIME && tag != TOMBSTONE && tag != RELOCATE {
            Err(FormatError::UnknownMutationTag { tag })
        } else {
            match read_fields(tag, rest) {
                Err(error) => Err(error),
                Ok((mutation, rest)) => Ok(
                    (seq![BlobMutationWithLSN { lsn: outer_lsn, mutation }], rest),
                ),
            }
        },
    }
}

/// What [`BlobMutationWithLSN::decode_inline`] reads from bytes.
pub open spec fn parse_inline(outer_lsn: StrataLsn, bytes: Seq<u8>) -> Result<
    Seq<BlobMutationWithLSN>,
    FormatError,
> {
    match read_version(bytes) {
        Err(error) => Err(error),
        Ok((_, rest)) => finished(read_inline(rest, outer_lsn)),
    }
}

pub open spec fn read_entry(bytes: Seq<u8>) -> Reading<(ShardKey, BlobVersion)> {
    match read_shard(bytes) {
        Err(error) => Err(error),
        Ok((shard, rest)) => match read_u64(rest) {
            Err(error) => Err(error),
            Ok((lsn, rest)) => match read_u64(rest) {
                Err(error) => Err(error),
                Ok((write_epoch, rest)) => match read_record(rest) {
                    Err(error) => Err(error),
                    Ok((record_ref, rest)) => Ok(
                        ((shard, BlobVersion { lsn, write_epoch, record_ref }), rest),
                    ),
                },
            },
        },
    }
}

/// `count` more versions, beside those in `done`. No shard may occur twice.
pub open spec fn read_versions(
    bytes: Seq<u8>,
    count: nat,
    done: Map<ShardKey, BlobVersion>,
) -> Reading<Map<ShardKey, BlobVersion>>
    decreases count,
{
    if count == 0 {
        Ok((done, bytes))
    } else {
        match read_entry(bytes) {
            Err(error) => Err(error),
            Ok(((shard, version), rest)) => if done.dom().contains(shard) {
                Err(FormatError::DuplicateShard)
            } else {
                read_versions(rest, (count - 1) as nat, done.insert(shard, version))
            },
        }
    }
}

pub open spec fn read_lifetime(bytes: Seq<u8>) -> Reading<Option<BlobLifetime>> {
    match read_u8(bytes) {
        Err(error) => Err(error),
        Ok((marker, rest)) => if marker == 0 {
            Ok((None, rest))
        } else if marker == 1 {
            match read_u64(rest) {
                Err(error) => Err(error),
                Ok((lsn, rest)) => match read_u64(rest) {
                    Err(error) => Err(error),
                    Ok((logical_end_epoch, rest)) => match read_u32(rest) {
                        Err(error) => Err(error),
                        Ok((extension_count, rest)) => Ok(
                            (
                                Some(
                                    BlobLifetime {
                                        lsn,
                                        lifecycle: BlobLifecycle {
                                            logical_end_epoch,
                                            extension_count,
                                        },
                                    },
                                ),
                                rest,
                            ),
                        ),
                    },
                },
            }
        } else {
            Err(FormatError::InvalidLifetimeMarker { marker })
        },
    }
}

/// What [`BlobState::decode`] reads from bytes.
pub open spec fn parse_state(bytes: Seq<u8>) -> Result<BlobStateView, FormatError> {
    match read_version(bytes) {
        Err(error) => Err(error),
        Ok((_, rest)) => match read_u32(rest) {
            Err(error) => Err(error),
            Ok((count, rest)) => match read_versions(rest, count as nat, Map::empty()) {
                Err(error) => Err(error),
                Ok((versions, rest)) => match finished(read_lifetime(rest)) {
                    Err(error) => Err(error),
                    Ok(lifetime) => Ok(BlobStateView { versions, lifetime }),
                },
            },
        },
    }
}

/// Reads values off the front of a byte slice.
struct Decoder<'a> {
    bytes: &'a [u8],
    offset: usize,
}

/// A decoder's step returns what the reader reads, and leaves what it leaves.
spec fn stepped<T>(
    result: Result<T, FormatError>,
    reading: Reading<T>,
    before: &Decoder<'_>,
    after: &Decoder<'_>,
) -> bool {
    &&& after.wf()
    &&& after.bytes == before.bytes
    &&& match reading {
        Ok((value, rest)) => result == Ok::<T, FormatError>(value) && after.rest() == rest,
        Err(error) => result == Err::<T, FormatError>(error),
    }
}

impl<'a> Decoder<'a> {
    spec fn wf(&self) -> bool {
        self.offset <= self.bytes@.len()
    }

    /// The bytes not yet read.
    spec fn rest(&self) -> Seq<u8> {
        self.bytes@.skip(self.offset as int)
    }

    fn new(bytes: &'a [u8]) -> (decoder: Decoder<'a>)
        ensures
            decoder.wf(),
            decoder.rest() == bytes@,
    {
        let decoder = Decoder { bytes, offset: 0 };
        assert(decoder.rest() =~= bytes@);
        decoder
    }

    fn u8(&mut self) -> (result: Result<u8, FormatError>)
        requires
            old(self).wf(),
        ensures
            stepped(result, read_u8(old(self).rest()), old(self), final(self)),
    {
        if self.bytes.len() - self.offset < 1 {
            return Err(FormatError::Truncated);
        }
        let value: u8 = self.bytes[self.offset];
        self.offset = self.offset + 1;
        assert(self.rest() =~= old(self).rest().skip(1));
        Ok(value)
    }

    fn u32(&mut self) -> (result: Result<u32, FormatError>)
        requires
            old(self).wf(),
        ensures
            stepped(result, read_u32(old(self).rest()), old(self), final(self)),
    {
        if self.bytes.len() - self.offset < 4 {
            return Err(FormatError::Truncated);
        }
        let value: u64 = read_le(self.bytes, self.offset, 4);
        proof {
            let digits = self.bytes@.subrange(self.offset as int, self.offset + 4);
            assert(digits =~= self.rest().take(4));
            crate::bytes::lemma_from_le_round_trip(digits);
            crate::bytes::lemma_radix_powers();
        }
        self.offset = self.offset + 4;
        assert(self.rest() =~= old(self).rest().skip(4));
        Ok(value as u32)
    }

    fn u64(&mut self) -> (result: Result<u64, FormatError>)
        requires
            old(self).wf(),
        ensures
            stepped(result, read_u64(old(self).rest()), old(self), final(self)),
    {
        if self.bytes.len() - self.offset < 8 {
            return Err(FormatError::Truncated);
        }
        let value: u64 = read_le(self.bytes, self.offset, 8);
        assert(self.bytes@.subrange(self.offset as int, self.offset + 8) =~= self.rest().take(8));
        self.offset = self.offset + 8;
        assert(self.rest() =~= old(self).rest().skip(8));
        Ok(value)
    }

    fn version(&mut self) -> (result: Result<(), FormatError>)
        requires
            old(self).wf(),
        ensures
            stepped(result, read_version(old(self).rest()), old(self), final(self)),
    {
        let version: u8 = self.u8()?;
        if version != VERSION {
            return Err(FormatError::UnsupportedVersion { version });
        }
        Ok(())
    }

    fn shard(&mut self) -> (result: Result<ShardKey, FormatError>)
        requires
            old(self).wf(),
        ensures
            stepped(result, read_shard(old(self).rest()), old(self), final(self)),
    {
        let id: u32 = self.u32()?;
        let generation: u64 = self.u64()?;
        Ok(ShardKey { id, generation })
    }

    fn record(&mut self) -> (result: Result<RecordRef, FormatError>)
        requires
            old(self).wf(),
        ensures
            stepped(result, read_record(old(self).rest()), old(self), final(self)),
    {
        if self.bytes.len() - self.offset < 24 {
            return Err(FormatError::Truncated);
        }
        let at: usize = self.offset;
        let record = RecordRef {
            segment_id: read_le(self.bytes, at, 8),
            offset: read_le(self.bytes, at + 8, 8),
            len: read_le(self.bytes, at + 16, 8),
        };
        assert(self.bytes@.subrange(at as int, at + 8) =~= self.rest().subrange(0, 8));
        assert(self.bytes@.subrange(at + 8, at + 16) =~= self.rest().subrange(8, 16));
        assert(self.bytes@.subrange(at + 16, at + 24) =~= self.rest().subrange(16, 24));
        self.offset = at + 24;
        assert(self.rest() =~= old(self).rest().skip(24));
        Ok(record)
    }

    /// The fields behind a mutation's tag.
    fn fields(&mut self, tag: u8) -> (result: Result<BlobMutation, FormatError>)
        requires
            old(self).wf(),
        ensures
            stepped(result, read_fields(tag, old(self).rest()), old(self), final(self)),
    {
        if tag == PUT {
            let shard: ShardKey = self.shard()?;
            let write_epoch: u64 = self.u64()?;
            let record_ref: RecordRef = self.record()?;
            Ok(BlobMutation::Put { shard, write_epoch, record_ref })
        } else if tag == SET_LIFETIME {
            let logical_end_epoch: u64 = self.u64()?;
            let current_epoch: u64 = self.u64()?;
            Ok(BlobMutation::SetLifetime { logical_end_epoch, current_epoch })
        } else if tag == TOMBSTONE {
            let shard: ShardKey = self.shard()?;
            Ok(BlobMutation::Tombstone { shard })
        } else if tag == RELOCATE {
            let shard: ShardKey = self.shard()?;
            let payload_lsn: u64 = self.u64()?;
            let to: RecordRef = self.record()?;
            Ok(BlobMutation::Relocate { shard, payload_lsn, to })
        } else {
            Err(FormatError::UnknownBatchedTag { tag })
        }
    }

    /// One member of a batch.
    fn batched(&mut self) -> (result: Result<BlobMutationWithLSN, FormatError>)
        requires
            old(self).wf(),
        ensures
            stepped(result, read_batched(old(self).rest()), old(self), final(self)),
    {
        let lsn: u64 = self.u64()?;
        let tag: u8 = self.u8()?;
        let mutation: BlobMutation = self.fields(tag)?;
        Ok(BlobMutationWithLSN { lsn, mutation })
    }

    /// One version of a blob state.
    fn entry(&mut self) -> (result: Result<(ShardKey, BlobVersion), FormatError>)
        requires
            old(self).wf(),
        ensures
            stepped(result, read_entry(old(self).rest()), old(self), final(self)),
    {
        let shard: ShardKey = self.shard()?;
        let lsn: u64 = self.u64()?;
        let write_epoch: u64 = self.u64()?;
        let record_ref: RecordRef = self.record()?;
        Ok((shard, BlobVersion { lsn, write_epoch, record_ref }))
    }

    /// The lifetime that closes a blob state.
    fn lifetime(&mut self) -> (result: Result<Option<BlobLifetime>, FormatError>)
        requires
            old(self).wf(),
        ensures
            stepped(result, read_lifetime(old(self).rest()), old(self), final(self)),
    {
        let marker: u8 = self.u8()?;
        if marker == 0 {
            Ok(None)
        } else if marker == 1 {
            let lsn: u64 = self.u64()?;
            let logical_end_epoch: u64 = self.u64()?;
            let extension_count: u32 = self.u32()?;
            Ok(
                Some(
                    BlobLifetime {
                        lsn,
                        lifecycle: BlobLifecycle { logical_end_epoch, extension_count },
                    },
                ),
            )
        } else {
            Err(FormatError::InvalidLifetimeMarker { marker })
        }
    }

    /// Nothing may follow an encoding.
    fn finish(&self) -> (result: Result<(), FormatError>)
        requires
            self.wf(),
        ensures
            match result {
                Ok(_) => self.rest().len() == 0,
                Err(error) => self.rest().len() > 0 && error == FormatError::TrailingBytes,
            },
    {
        if self.offset != self.bytes.len() {
            return Err(FormatError::TrailingBytes);
        }
        Ok(())
    }
}

/// Checks that every mutation happened after the one before it.
fn validate_mutation_lsns(mutations: &Vec<BlobMutationWithLSN>) -> (result: Result<(), FormatError>)
    ensures
        match result {
            Ok(_) => lsns_increase(mutations@),
            Err(error) => !lsns_increase(mutations@) && error == FormatError::LsnsNotIncreasing,
        },
{
    let mut i: usize = 1;
    while i < mutations.len()
        invariant
            1 <= i,
            mutations@.len() > 0 ==> i <= mutations@.len(),
            lsns_increase(mutations@.take(if i <= mutations@.len() { i as int } else { 0 })),
        decreases mutations@.len() - i,
    {
        if mutations[i - 1].lsn >= mutations[i].lsn {
            assert(!lsns_increase(mutations@)) by {
                assert(mutations@[i - 1].lsn >= mutations@[i as int].lsn);
            }
            return Err(FormatError::LsnsNotIncreasing);
        }
        proof {
            let done = mutations@.take(i as int);
            let next = mutations@.take(i + 1);
            assert forall|a: int, b: int| 0 <= a < b < next.len() implies (#[trigger] next[a]).lsn
                < (#[trigger] next[b]).lsn by {
                if b < i {
                    assert(done[a].lsn < done[b].lsn);
                } else if a < i - 1 {
                    assert(done[a].lsn < done[i - 1].lsn);
                }
            }
        }
        i = i + 1;
    }
    proof {
        if mutations@.len() > 0 {
            assert(mutations@.take(i as int) =~= mutations@);
        }
    }
    Ok(())
}

impl BlobMutation {
    /// Completes a segment-backed put with the record reference that its bytes were given.
    pub fn decode_put_metadata(bytes: &[u8], record_ref: RecordRef) -> (result: Result<
        BlobMutation,
        FormatError,
    >)
        ensures
            match parse_put_metadata(bytes@) {
                Ok((shard, write_epoch)) => result == Ok::<BlobMutation, FormatError>(
                    BlobMutation::Put { shard, write_epoch, record_ref },
                ),
                Err(error) => result == Err::<BlobMutation, FormatError>(error),
            },
    {
        let mut decoder = Decoder::new(bytes);
        decoder.version()?;
        let tag: u8 = decoder.u8()?;
        if tag != PUT {
            return Err(FormatError::ExpectedPutTag { tag });
        }
        let shard: ShardKey = decoder.shard()?;
        let write_epoch: u64 = decoder.u64()?;
        decoder.finish()?;
        Ok(BlobMutation::Put { shard, write_epoch, record_ref })
    }
}

impl BlobMutationWithLSN {
    /// Decodes either one metadata-only mutation or a batch of mutations.
    ///
    /// A mutation on its own happened at `outer_lsn`; no member of a batch happened later.
    pub fn decode_inline(outer_lsn: StrataLsn, bytes: &[u8]) -> (result: Result<
        Vec<BlobMutationWithLSN>,
        FormatError,
    >)
        ensures
            match parse_inline(outer_lsn, bytes@) {
                Ok(mutations) => result is Ok && result->Ok_0@ == mutations,
                Err(error) => result is Err && result->Err_0 == error,
            },
    {
        let mut decoder = Decoder::new(bytes);
        decoder.version()?;
        let tag: u8 = decoder.u8()?;
        if tag == PUT {
            return Err(FormatError::PutNotInline);
        }
        let mut mutations: Vec<BlobMutationWithLSN> = Vec::new();
        if tag == BATCH {
            let count: u32 = decoder.u32()?;
            let ghost start = decoder.rest();
            let mut left: u32 = count;
            while left > 0
                invariant
                    decoder.wf(),
                    left <= count,
                    read_members(start, count as nat, Seq::empty()) == read_members(
                        decoder.rest(),
                        left as nat,
                        mutations@,
                    ),
                    parse_inline(outer_lsn, bytes@) == (match read_members(
                        start,
                        count as nat,
                        Seq::empty(),
                    ) {
                        Err(error) => Err(error),
                        Ok((members, rest)) => if members.len() == 0 || members.last().lsn
                            > outer_lsn {
                            Err(FormatError::BatchEmptyOrBeyondOuterLsn)
                        } else if !lsns_increase(members) {
                            Err(FormatError::LsnsNotIncreasing)
                        } else {
                            finished(Ok((members, rest)))
                        },
                    }),
                decreases left,
            {
                let member: BlobMutationWithLSN = decoder.batched()?;
                mutations.push(member);
                left = left - 1;
            }
            if mutations.len() == 0 || mutations[mutations.len() - 1].lsn > outer_lsn {
                return Err(FormatError::BatchEmptyOrBeyondOuterLsn);
            }
            validate_mutation_lsns(&mutations)?;
        } else if tag != SET_LIFETIME && tag != TOMBSTONE && tag != RELOCATE {
            return Err(FormatError::UnknownMutationTag { tag });
        } else {
            let mutation: BlobMutation = decoder.fields(tag)?;
            mutations.push(BlobMutationWithLSN { lsn: outer_lsn, mutation });
            assert(mutations@ =~= seq![BlobMutationWithLSN { lsn: outer_lsn, mutation }]);
        }
        decoder.finish()?;
        Ok(mutations)
    }
}

impl BlobState {
    /// Decodes a state, whose versions may come in any order.
    pub fn decode(bytes: &[u8]) -> (result: Result<BlobState, FormatError>)
        ensures
            match parse_state(bytes@) {
                Ok(state) => result is Ok && result->Ok_0.wf() && result->Ok_0@ == state,
                Err(error) => result is Err && result->Err_0 == error,
            },
    {
        let mut decoder = Decoder::new(bytes);
        decoder.version()?;
        let count: u32 = decoder.u32()?;
        let ghost start = decoder.rest();
        let mut versions: ShardMap<BlobVersion> = ShardMap::new();
        let mut left: u32 = count;
        while left > 0
            invariant
                decoder.wf(),
                versions.wf(),
                left <= count,
                read_versions(start, count as nat, Map::empty()) == read_versions(
                    decoder.rest(),
                    left as nat,
                    versions@,
                ),
                parse_state(bytes@) == (match read_versions(start, count as nat, Map::empty()) {
                    Err(error) => Err(error),
                    Ok((versions, rest)) => match finished(read_lifetime(rest)) {
                        Err(error) => Err(error),
                        Ok(lifetime) => Ok(BlobStateView { versions, lifetime }),
                    },
                }),
            decreases left,
        {
            let (shard, version) = decoder.entry()?;
            if versions.insert(shard, version).is_some() {
                return Err(FormatError::DuplicateShard);
            }
            left = left - 1;
        }
        let lifetime: Option<BlobLifetime> = decoder.lifetime()?;
        decoder.finish()?;
        Ok(BlobState { versions, lifetime })
    }
}

} // verus!
