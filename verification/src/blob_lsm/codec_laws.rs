//! Laws of the blob-LSM formats: what is written reads back, and only that.

use vstd::prelude::*;

use super::codec;
use super::codec::{
    BlobLifetime, BlobMutation, BlobMutationWithLSN, BlobStateView, BlobVersion, FormatError, BATCH,
    PUT, RELOCATE, SET_LIFETIME, TOMBSTONE, VERSION,
};
use crate::bytes;
use crate::shard_map;
use crate::types::{Epoch, RecordRef, ShardKey, StrataLsn};

verus! {

proof fn lemma_u32_front(value: u32, rest: Seq<u8>)
    ensures
        codec::read_u32(bytes::le(value as nat, 4) + rest) == Ok::<(u32, Seq<u8>), FormatError>((value, rest)),
{
    bytes::lemma_radix_powers();
    bytes::lemma_le_round_trip(value as nat, 4);
    let bytes = bytes::le(value as nat, 4) + rest;
    assert(bytes.take(4) =~= bytes::le(value as nat, 4));
    assert(bytes.skip(4) =~= rest);
}

proof fn lemma_u64_front(value: u64, rest: Seq<u8>)
    ensures
        codec::read_u64(bytes::le(value as nat, 8) + rest) == Ok::<(u64, Seq<u8>), FormatError>((value, rest)),
{
    bytes::lemma_radix_powers();
    bytes::lemma_le_round_trip(value as nat, 8);
    let bytes = bytes::le(value as nat, 8) + rest;
    assert(bytes.take(8) =~= bytes::le(value as nat, 8));
    assert(bytes.skip(8) =~= rest);
}

proof fn lemma_u8_front(value: u8, rest: Seq<u8>)
    ensures
        codec::read_u8(seq![value] + rest) == Ok::<(u8, Seq<u8>), FormatError>((value, rest)),
{
    assert((seq![value] + rest).skip(1) =~= rest);
}

proof fn lemma_shard_front(shard: ShardKey, rest: Seq<u8>)
    ensures
        codec::read_shard(codec::shard_bytes(shard) + rest) == Ok::<(ShardKey, Seq<u8>), FormatError>(
            (shard, rest),
        ),
{
    let tail = bytes::le(shard.generation as nat, 8) + rest;
    assert(codec::shard_bytes(shard) + rest =~= bytes::le(shard.id as nat, 4) + tail);
    lemma_u32_front(shard.id, tail);
    lemma_u64_front(shard.generation, rest);
}

proof fn lemma_record_front(record: RecordRef, rest: Seq<u8>)
    ensures
        codec::read_record(codec::record_bytes(record) + rest) == Ok::<(RecordRef, Seq<u8>), FormatError>(
            (record, rest),
        ),
{
    bytes::lemma_radix_powers();
    bytes::lemma_le_round_trip(record.segment_id as nat, 8);
    bytes::lemma_le_round_trip(record.offset as nat, 8);
    bytes::lemma_le_round_trip(record.len as nat, 8);
    let bytes = codec::record_bytes(record) + rest;
    assert(bytes.subrange(0, 8) =~= bytes::le(record.segment_id as nat, 8));
    assert(bytes.subrange(8, 16) =~= bytes::le(record.offset as nat, 8));
    assert(bytes.subrange(16, 24) =~= bytes::le(record.len as nat, 8));
    assert(bytes.skip(24) =~= rest);
}

proof fn lemma_put_fields_front(shard: ShardKey, number: u64, rest: Seq<u8>)
    ensures
        codec::read_put_fields(codec::shard_bytes(shard) + bytes::le(number as nat, 8) + rest) == Ok::<
            ((ShardKey, u64), Seq<u8>),
            FormatError,
        >(((shard, number), rest)),
{
    let tail = bytes::le(number as nat, 8) + rest;
    assert(codec::shard_bytes(shard) + bytes::le(number as nat, 8) + rest =~= codec::shard_bytes(shard) + tail);
    lemma_shard_front(shard, tail);
    lemma_u64_front(number, rest);
}

/// The tag that a mutation is written behind.
pub open spec fn tag_of(mutation: BlobMutation) -> u8 {
    match mutation {
        BlobMutation::Put { .. } => PUT,
        BlobMutation::SetLifetime { .. } => SET_LIFETIME,
        BlobMutation::Tombstone { .. } => TOMBSTONE,
        BlobMutation::Relocate { .. } => RELOCATE,
    }
}

proof fn lemma_mutation_front(mutation: BlobMutation, rest: Seq<u8>)
    ensures
        (codec::mutation_bytes(mutation) + rest).len() > 0,
        (codec::mutation_bytes(mutation) + rest)[0] == tag_of(mutation),
        codec::read_fields(tag_of(mutation), (codec::mutation_bytes(mutation) + rest).skip(1)) == Ok::<
            (BlobMutation, Seq<u8>),
            FormatError,
        >((mutation, rest)),
{
    let bytes = codec::mutation_bytes(mutation) + rest;
    match mutation {
        BlobMutation::Put { shard, write_epoch, record_ref } => {
            let tail = codec::record_bytes(record_ref) + rest;
            assert(bytes.skip(1) =~= codec::shard_bytes(shard) + bytes::le(write_epoch as nat, 8) + tail);
            lemma_put_fields_front(shard, write_epoch, tail);
            lemma_record_front(record_ref, rest);
        },
        BlobMutation::SetLifetime { logical_end_epoch, current_epoch } => {
            let tail = bytes::le(current_epoch as nat, 8) + rest;
            assert(bytes.skip(1) =~= bytes::le(logical_end_epoch as nat, 8) + tail);
            lemma_u64_front(logical_end_epoch, tail);
            lemma_u64_front(current_epoch, rest);
        },
        BlobMutation::Tombstone { shard } => {
            assert(bytes.skip(1) =~= codec::shard_bytes(shard) + rest);
            lemma_shard_front(shard, rest);
        },
        BlobMutation::Relocate { shard, payload_lsn, to } => {
            let tail = codec::record_bytes(to) + rest;
            assert(bytes.skip(1) =~= codec::shard_bytes(shard) + bytes::le(payload_lsn as nat, 8) + tail);
            lemma_put_fields_front(shard, payload_lsn, tail);
            lemma_record_front(to, rest);
        },
    }
}

proof fn lemma_version_front(rest: Seq<u8>)
    ensures
        codec::read_version(seq![VERSION] + rest) == Ok::<((), Seq<u8>), FormatError>(((), rest)),
{
    lemma_u8_front(VERSION, rest);
}

/// Put metadata reads back as it was written, and with any byte behind it not at all.
pub proof fn law_put_metadata_round_trip(shard: ShardKey, write_epoch: Epoch, behind: Seq<u8>)
    ensures
        codec::parse_put_metadata(codec::put_metadata_bytes(shard, write_epoch)) == Ok::<
            (ShardKey, Epoch),
            FormatError,
        >((shard, write_epoch)),
        behind.len() > 0 ==> codec::parse_put_metadata(codec::put_metadata_bytes(shard, write_epoch) + behind)
            == Err::<(ShardKey, Epoch), FormatError>(FormatError::TrailingBytes),
{
    lemma_put_metadata_front(shard, write_epoch, Seq::empty());
    lemma_put_metadata_front(shard, write_epoch, behind);
    assert(codec::put_metadata_bytes(shard, write_epoch) + Seq::<u8>::empty() =~= codec::put_metadata_bytes(
        shard,
        write_epoch,
    ));
}

proof fn lemma_put_metadata_front(shard: ShardKey, write_epoch: Epoch, behind: Seq<u8>)
    ensures
        codec::parse_put_metadata(codec::put_metadata_bytes(shard, write_epoch) + behind) == codec::finished(
            Ok(((shard, write_epoch), behind)),
        ),
{
    let fields = codec::shard_bytes(shard) + bytes::le(write_epoch as nat, 8) + behind;
    let tagged = seq![PUT] + fields;
    assert(codec::put_metadata_bytes(shard, write_epoch) + behind =~= seq![VERSION] + tagged);
    lemma_version_front(tagged);
    lemma_u8_front(PUT, fields);
    lemma_put_fields_front(shard, write_epoch, behind);
}

/// An inline mutation reads back at its row's LSN, and with any byte behind it not at all.
pub proof fn law_inline_round_trip(outer_lsn: StrataLsn, mutation: BlobMutation, behind: Seq<u8>)
    requires
        !(mutation is Put),
    ensures
        codec::parse_inline(outer_lsn, codec::inline_bytes(mutation)) == Ok::<
            Seq<BlobMutationWithLSN>,
            FormatError,
        >(seq![BlobMutationWithLSN { lsn: outer_lsn, mutation }]),
        behind.len() > 0 ==> codec::parse_inline(outer_lsn, codec::inline_bytes(mutation) + behind) == Err::<
            Seq<BlobMutationWithLSN>,
            FormatError,
        >(FormatError::TrailingBytes),
{
    lemma_inline_front(outer_lsn, mutation, Seq::empty());
    lemma_inline_front(outer_lsn, mutation, behind);
    assert(codec::inline_bytes(mutation) + Seq::<u8>::empty() =~= codec::inline_bytes(mutation));
}

proof fn lemma_inline_front(outer_lsn: StrataLsn, mutation: BlobMutation, behind: Seq<u8>)
    requires
        !(mutation is Put),
    ensures
        codec::parse_inline(outer_lsn, codec::inline_bytes(mutation) + behind) == codec::finished(
            Ok((seq![BlobMutationWithLSN { lsn: outer_lsn, mutation }], behind)),
        ),
{
    let tagged = codec::mutation_bytes(mutation) + behind;
    assert(codec::inline_bytes(mutation) + behind =~= seq![VERSION] + tagged);
    lemma_version_front(tagged);
    lemma_mutation_front(mutation, behind);
}

proof fn lemma_assoc(a: Seq<u8>, b: Seq<u8>, c: Seq<u8>)
    ensures
        (a + b) + c == a + (b + c),
{
    assert((a + b) + c =~= a + (b + c));
}

proof fn lemma_batched_front(member: BlobMutationWithLSN, rest: Seq<u8>)
    ensures
        codec::read_batched(codec::member_bytes(member) + rest) == Ok::<
            (BlobMutationWithLSN, Seq<u8>),
            FormatError,
        >((member, rest)),
{
    let fields = codec::mutation_bytes(member.mutation) + rest;
    lemma_assoc(bytes::le(member.lsn as nat, 8), codec::mutation_bytes(member.mutation), rest);
    lemma_u64_front(member.lsn, fields);
    lemma_mutation_front(member.mutation, rest);
}

/// Members written one after the other read back in order.
#[verifier::rlimit(60)]
#[verifier::spinoff_prover]
proof fn lemma_members_front(
    mutations: Seq<BlobMutationWithLSN>,
    done: Seq<BlobMutationWithLSN>,
    behind: Seq<u8>,
    more: nat,
)
    ensures
        codec::read_members(codec::batch_items_bytes(mutations) + behind, mutations.len() + more, done)
            == codec::read_members(behind, more, done + mutations),
    decreases mutations.len(),
{
    if mutations.len() == 0 {
        assert(codec::batch_items_bytes(mutations) + behind =~= behind);
        assert(done + mutations =~= done);
    } else {
        let last = mutations.last();
        let init = mutations.drop_last();
        let item = codec::member_bytes(last) + behind;
        lemma_assoc(codec::batch_items_bytes(init), codec::member_bytes(last), behind);
        lemma_members_front(init, done, item, more + 1);
        lemma_batched_front(last, behind);
        assert((done + init).push(last) =~= done + mutations);
    }
}

/// A batch whose LSNs increase up to its row's LSN reads back as it was written, and with any byte
/// behind it not at all.
pub proof fn law_batch_round_trip(
    outer_lsn: StrataLsn,
    mutations: Seq<BlobMutationWithLSN>,
    behind: Seq<u8>,
)
    requires
        0 < mutations.len() <= u32::MAX,
        codec::lsns_increase(mutations),
        mutations.last().lsn <= outer_lsn,
    ensures
        codec::parse_inline(outer_lsn, codec::batch_bytes(mutations)) == Ok::<
            Seq<BlobMutationWithLSN>,
            FormatError,
        >(mutations),
        behind.len() > 0 ==> codec::parse_inline(outer_lsn, codec::batch_bytes(mutations) + behind) == Err::<
            Seq<BlobMutationWithLSN>,
            FormatError,
        >(FormatError::TrailingBytes),
{
    lemma_batch_front(outer_lsn, mutations, Seq::empty());
    lemma_batch_front(outer_lsn, mutations, behind);
    assert(codec::batch_bytes(mutations) + Seq::<u8>::empty() =~= codec::batch_bytes(mutations));
}

#[verifier::rlimit(60)]
#[verifier::spinoff_prover]
proof fn lemma_batch_front(
    outer_lsn: StrataLsn,
    mutations: Seq<BlobMutationWithLSN>,
    behind: Seq<u8>,
)
    requires
        0 < mutations.len() <= u32::MAX,
        codec::lsns_increase(mutations),
        mutations.last().lsn <= outer_lsn,
    ensures
        codec::parse_inline(outer_lsn, codec::batch_bytes(mutations) + behind) == codec::finished(
            Ok((mutations, behind)),
        ),
{
    let items = codec::batch_items_bytes(mutations) + behind;
    let counted = bytes::le(mutations.len(), 4) + items;
    let tagged = seq![BATCH] + counted;
    assert(codec::batch_bytes(mutations) + behind =~= seq![VERSION] + tagged);
    lemma_version_front(tagged);
    lemma_u8_front(BATCH, counted);
    lemma_u32_front(mutations.len() as u32, items);
    lemma_members_front(mutations, Seq::empty(), behind, 0);
    assert(Seq::<BlobMutationWithLSN>::empty() + mutations =~= mutations);
}

proof fn lemma_entry_front(entry: (ShardKey, BlobVersion), rest: Seq<u8>)
    ensures
        codec::read_entry(codec::version_bytes(entry) + rest) == Ok::<
            ((ShardKey, BlobVersion), Seq<u8>),
            FormatError,
        >((entry, rest)),
{
    let (shard, version) = entry;
    let a = codec::shard_bytes(shard);
    let b = bytes::le(version.lsn as nat, 8);
    let c = bytes::le(version.write_epoch as nat, 8);
    let d = codec::record_bytes(version.record_ref);
    assert(a + b + c + d + rest =~= a + (b + (c + (d + rest))));
    lemma_shard_front(shard, b + (c + (d + rest)));
    lemma_u64_front(version.lsn, c + (d + rest));
    lemma_u64_front(version.write_epoch, d + rest);
    lemma_record_front(version.record_ref, rest);
}

proof fn lemma_lifetime_front(lifetime: Option<BlobLifetime>, rest: Seq<u8>)
    ensures
        codec::read_lifetime(codec::lifetime_bytes(lifetime) + rest) == Ok::<
            (Option<BlobLifetime>, Seq<u8>),
            FormatError,
        >((lifetime, rest)),
{
    match lifetime {
        None => {
            lemma_u8_front(0, rest);
        },
        Some(head) => {
            let a = seq![1u8];
            let b = bytes::le(head.lsn as nat, 8);
            let c = bytes::le(head.lifecycle.logical_end_epoch as nat, 8);
            let d = bytes::le(head.lifecycle.extension_count as nat, 4);
            assert(a + b + c + d + rest =~= a + (b + (c + (d + rest))));
            lemma_u8_front(1, b + (c + (d + rest)));
            lemma_u64_front(head.lsn, c + (d + rest));
            lemma_u64_front(head.lifecycle.logical_end_epoch, d + rest);
            lemma_u32_front(head.lifecycle.extension_count, rest);
        },
    }
}

/// One version in front is taken, beside those in `done`.
proof fn lemma_versions_step(
    bytes: Seq<u8>,
    entry: (ShardKey, BlobVersion),
    behind: Seq<u8>,
    more: nat,
    done: Map<ShardKey, BlobVersion>,
)
    requires
        codec::read_entry(bytes) == Ok::<((ShardKey, BlobVersion), Seq<u8>), FormatError>(
            (entry, behind),
        ),
        !done.dom().contains(entry.0),
    ensures
        codec::read_versions(bytes, more + 1, done) == codec::read_versions(
            behind,
            more,
            done.insert(entry.0, entry.1),
        ),
{
    assert((more + 1 - 1) as nat == more);
}

#[verifier::rlimit(60)]
#[verifier::spinoff_prover]
proof fn lemma_versions_front(
    entries: Seq<(ShardKey, BlobVersion)>,
    behind: Seq<u8>,
    more: nat,
)
    requires
        shard_map::shard_sorted(entries),
    ensures
        codec::read_versions(codec::versions_bytes(entries) + behind, entries.len() + more, Map::empty())
            == codec::read_versions(behind, more, shard_map::shard_map_of(entries)),
    decreases entries.len(),
{
    if entries.len() == 0 {
        assert(codec::versions_bytes(entries) + behind =~= behind);
        assert(shard_map::shard_map_of(entries) =~= Map::empty());
    } else {
        let (shard, version) = entries.last();
        let init = entries.drop_last();
        let item = codec::version_bytes((shard, version)) + behind;
        lemma_assoc(codec::versions_bytes(init), codec::version_bytes((shard, version)), behind);
        assert(init.push((shard, version)) =~= entries);
        lemma_append_entry(init, shard, version);
        lemma_versions_front(init, item, more + 1);
        lemma_entry_front((shard, version), behind);
        let before = shard_map::shard_map_of(init);
        lemma_versions_step(item, (shard, version), behind, more, before);
    }
}

#[verifier::rlimit(60)]
#[verifier::spinoff_prover]
proof fn lemma_append_entry(
    init: Seq<(ShardKey, BlobVersion)>,
    shard: ShardKey,
    version: BlobVersion,
)
    requires
        shard_map::shard_sorted(init.push((shard, version))),
    ensures
        shard_map::shard_sorted(init),
        !shard_map::shard_map_of(init).dom().contains(shard),
        shard_map::shard_map_of(init.push((shard, version))) == shard_map::shard_map_of(init).insert(shard, version),
{
    let entries = init.push((shard, version));
    assert(shard_map::shard_sorted(init)) by {
        assert forall|i: int, j: int| 0 <= i < j < init.len() implies (
        #[trigger] init[i]).0.spec_before((#[trigger] init[j]).0) by {
            assert(entries[i].0.spec_before(entries[j].0));
        }
    }
    if shard_map::shard_map_of(init).dom().contains(shard) {
        let i = choose|i: int| 0 <= i < init.len() && (#[trigger] init[i]).0 == shard;
        assert(entries[i].0.spec_before(entries[init.len() as int].0));
    }
    shard_map::lemma_sorted_entry(entries, init.len() as int);
    assert forall|other: ShardKey| #[trigger]
        shard_map::shard_map_of(entries).dom().contains(other) == shard_map::shard_map_of(init).insert(
            shard,
            version,
        ).dom().contains(other) && (shard_map::shard_map_of(entries).dom().contains(other) ==> shard_map::shard_map_of(
        entries,
    )[other] == shard_map::shard_map_of(init).insert(shard, version)[other]) by {
        if shard_map::shard_map_of(entries).dom().contains(other) && other != shard {
            let i = choose|i: int| 0 <= i < entries.len() && (#[trigger] entries[i]).0 == other;
            assert(init[i] == entries[i]);
            shard_map::lemma_sorted_entry(init, i);
            shard_map::lemma_sorted_entry(entries, i);
        }
        if shard_map::shard_map_of(init).dom().contains(other) {
            let i = choose|i: int| 0 <= i < init.len() && (#[trigger] init[i]).0 == other;
            assert(entries[i] == init[i]);
        }
    }
    assert(shard_map::shard_map_of(entries) =~= shard_map::shard_map_of(init).insert(shard, version));
}

/// A state reads back as it was written, and with any byte behind it not at all.
pub proof fn law_state_round_trip(
    entries: Seq<(ShardKey, BlobVersion)>,
    lifetime: Option<BlobLifetime>,
    behind: Seq<u8>,
)
    requires
        shard_map::shard_sorted(entries),
        entries.len() <= u32::MAX,
    ensures
        codec::parse_state(codec::state_bytes(entries, lifetime)) == Ok::<BlobStateView, FormatError>(
            BlobStateView { versions: shard_map::shard_map_of(entries), lifetime },
        ),
        behind.len() > 0 ==> codec::parse_state(codec::state_bytes(entries, lifetime) + behind) == Err::<
            BlobStateView,
            FormatError,
        >(FormatError::TrailingBytes),
{
    lemma_state_front(entries, lifetime, Seq::empty());
    lemma_state_front(entries, lifetime, behind);
    assert(codec::state_bytes(entries, lifetime) + Seq::<u8>::empty() =~= codec::state_bytes(entries, lifetime));
}

proof fn lemma_state_bytes_shape(
    entries: Seq<(ShardKey, BlobVersion)>,
    lifetime: Option<BlobLifetime>,
    behind: Seq<u8>,
)
    ensures
        codec::state_bytes(entries, lifetime) + behind == seq![VERSION] + (bytes::le(
            entries.len(),
            4,
        ) + (codec::versions_bytes(entries) + (codec::lifetime_bytes(lifetime) + behind))),
{
    let count = bytes::le(entries.len(), 4);
    let listed = codec::versions_bytes(entries);
    let closing = codec::lifetime_bytes(lifetime);
    assert(seq![VERSION] + count + listed + closing + behind =~= seq![VERSION] + (count + (listed + (
    closing + behind))));
}

#[verifier::rlimit(60)]
#[verifier::spinoff_prover]
proof fn lemma_state_front(
    entries: Seq<(ShardKey, BlobVersion)>,
    lifetime: Option<BlobLifetime>,
    behind: Seq<u8>,
)
    requires
        shard_map::shard_sorted(entries),
        entries.len() <= u32::MAX,
    ensures
        codec::parse_state(codec::state_bytes(entries, lifetime) + behind) == (
        match codec::finished(Ok((lifetime, behind))) {
            Err(error) => Err(error),
            Ok(lifetime) => Ok(
                BlobStateView { versions: shard_map::shard_map_of(entries), lifetime },
            ),
        }),
{
    let closing = codec::lifetime_bytes(lifetime) + behind;
    let listed = codec::versions_bytes(entries) + closing;
    let counted = bytes::le(entries.len(), 4) + listed;
    lemma_state_bytes_shape(entries, lifetime, behind);
    lemma_version_front(counted);
    lemma_u32_front(entries.len() as u32, listed);
    lemma_versions_front(entries, closing, 0);
    lemma_lifetime_front(lifetime, behind);
    assert(codec::read_versions(listed, entries.len(), Map::empty()) == Ok::<
        (Map<ShardKey, BlobVersion>, Seq<u8>),
        FormatError,
    >((shard_map::shard_map_of(entries), closing)));
}

// The other direction: what reads back was written so.

proof fn lemma_u32_back(bytes: Seq<u8>)
    ensures
        codec::read_u32(bytes) matches Ok((value, rest)) ==> bytes == bytes::le(value as nat, 4) + rest,
{
    if bytes.len() >= 4 {
        bytes::lemma_radix_powers();
        bytes::lemma_from_le_round_trip(bytes.take(4));
        assert(bytes =~= bytes.take(4) + bytes.skip(4));
    }
}

proof fn lemma_u64_back(bytes: Seq<u8>)
    ensures
        codec::read_u64(bytes) matches Ok((value, rest)) ==> bytes == bytes::le(value as nat, 8) + rest,
{
    if bytes.len() >= 8 {
        bytes::lemma_radix_powers();
        bytes::lemma_from_le_round_trip(bytes.take(8));
        assert(bytes =~= bytes.take(8) + bytes.skip(8));
    }
}

proof fn lemma_u8_back(bytes: Seq<u8>)
    ensures
        codec::read_u8(bytes) matches Ok((value, rest)) ==> bytes == seq![value] + rest,
{
    if bytes.len() > 0 {
        assert(bytes =~= seq![bytes[0]] + bytes.skip(1));
    }
}

proof fn lemma_shard_back(bytes: Seq<u8>)
    ensures
        codec::read_shard(bytes) matches Ok((shard, rest)) ==> bytes == codec::shard_bytes(shard) + rest,
{
    lemma_u32_back(bytes);
    if let Ok((id, tail)) = codec::read_u32(bytes) {
        lemma_u64_back(tail);
        if let Ok((shard, rest)) = codec::read_shard(bytes) {
            assert(bytes =~= codec::shard_bytes(shard) + rest);
        }
    }
}

proof fn lemma_record_back(bytes: Seq<u8>)
    ensures
        codec::read_record(bytes) matches Ok((record, rest)) ==> bytes == codec::record_bytes(record) + rest,
{
    if bytes.len() >= 24 {
        bytes::lemma_radix_powers();
        bytes::lemma_from_le_round_trip(bytes.subrange(0, 8));
        bytes::lemma_from_le_round_trip(bytes.subrange(8, 16));
        bytes::lemma_from_le_round_trip(bytes.subrange(16, 24));
        assert(bytes =~= bytes.subrange(0, 8) + bytes.subrange(8, 16) + bytes.subrange(16, 24)
            + bytes.skip(24));
    }
}

proof fn lemma_put_fields_back(bytes: Seq<u8>)
    ensures
        codec::read_put_fields(bytes) matches Ok(((shard, number), rest)) ==> bytes == codec::shard_bytes(shard)
            + bytes::le(number as nat, 8) + rest,
{
    lemma_shard_back(bytes);
    if let Ok((shard, tail)) = codec::read_shard(bytes) {
        lemma_u64_back(tail);
        if let Ok((number, rest)) = codec::read_u64(tail) {
            assert(bytes =~= codec::shard_bytes(shard) + bytes::le(number as nat, 8) + rest);
        }
    }
}

proof fn lemma_fields_back(tag: u8, bytes: Seq<u8>)
    ensures
        codec::read_fields(tag, bytes) matches Ok((mutation, rest)) ==> tag == tag_of(mutation) && seq![tag]
            + bytes == codec::mutation_bytes(mutation) + rest,
{
    lemma_put_fields_back(bytes);
    lemma_shard_back(bytes);
    lemma_u64_back(bytes);
    if let Ok((mutation, rest)) = codec::read_fields(tag, bytes) {
        match mutation {
            BlobMutation::Put { shard, write_epoch, record_ref } => {
                let tail = codec::read_put_fields(bytes)->Ok_0.1;
                lemma_record_back(tail);
            },
            BlobMutation::SetLifetime { logical_end_epoch, current_epoch } => {
                let tail = codec::read_u64(bytes)->Ok_0.1;
                lemma_u64_back(tail);
            },
            BlobMutation::Tombstone { shard } => {},
            BlobMutation::Relocate { shard, payload_lsn, to } => {
                let tail = codec::read_put_fields(bytes)->Ok_0.1;
                lemma_record_back(tail);
            },
        }
        assert(seq![tag] + bytes =~= codec::mutation_bytes(mutation) + rest);
    }
}

/// Put metadata is read only from the bytes that are written for it.
pub proof fn law_put_metadata_canonical(bytes: Seq<u8>)
    ensures
        codec::parse_put_metadata(bytes) matches Ok((shard, write_epoch)) ==> bytes == codec::put_metadata_bytes(
            shard,
            write_epoch,
        ),
{
    lemma_u8_back(bytes);
    if let Ok((_, tagged)) = codec::read_version(bytes) {
        lemma_u8_back(tagged);
        if let Ok((tag, fields)) = codec::read_u8(tagged) {
            lemma_put_fields_back(fields);
            if let Ok((shard, write_epoch)) = codec::parse_put_metadata(bytes) {
                let rest = codec::read_put_fields(fields)->Ok_0.1;
                assert(rest =~= Seq::<u8>::empty());
                assert(bytes =~= codec::put_metadata_bytes(shard, write_epoch));
            }
        }
    }
}

proof fn lemma_batched_back(bytes: Seq<u8>)
    ensures
        codec::read_batched(bytes) matches Ok((member, rest)) ==> bytes == codec::member_bytes(member)
            + rest,
{
    lemma_u64_back(bytes);
    if let Ok((lsn, tail)) = codec::read_u64(bytes) {
        lemma_u8_back(tail);
        if let Ok((tag, fields)) = codec::read_u8(tail) {
            lemma_fields_back(tag, fields);
            if let Ok((mutation, rest)) = codec::read_fields(tag, fields) {
                lemma_assoc(bytes::le(lsn as nat, 8), codec::mutation_bytes(mutation), rest);
            }
        }
    }
}

proof fn lemma_member_before(
    bytes: Seq<u8>,
    member: BlobMutationWithLSN,
    tail: Seq<u8>,
    after: Seq<BlobMutationWithLSN>,
    rest: Seq<u8>,
    done: Seq<BlobMutationWithLSN>,
    all: Seq<BlobMutationWithLSN>,
)
    requires
        bytes == codec::member_bytes(member) + tail,
        tail == codec::batch_items_bytes(after) + rest,
        all == done.push(member) + after,
    ensures
        all == done + (seq![member] + after),
        bytes == codec::batch_items_bytes(seq![member] + after) + rest,
{
    lemma_items_cons(member, after);
    lemma_assoc(codec::member_bytes(member), codec::batch_items_bytes(after), rest);
    assert(all =~= done + (seq![member] + after));
}

#[verifier::rlimit(60)]
#[verifier::spinoff_prover]
proof fn lemma_members_back(bytes: Seq<u8>, count: nat, done: Seq<BlobMutationWithLSN>)
    ensures
        codec::read_members(bytes, count, done) matches Ok((all, rest)) ==> exists|
            later: Seq<BlobMutationWithLSN>,
        |
            all == done + later && later.len() == count && bytes
                == #[trigger] codec::batch_items_bytes(later) + rest,
    decreases count,
{
    if count == 0 {
        let later = Seq::<BlobMutationWithLSN>::empty();
        assert(done =~= done + later);
        assert(bytes =~= codec::batch_items_bytes(later) + bytes);
    } else if let Ok((member, tail)) = codec::read_batched(bytes) {
        lemma_members_back(tail, (count - 1) as nat, done.push(member));
        lemma_batched_back(bytes);
        if let Ok((all, rest)) = codec::read_members(bytes, count, done) {
            let after = choose|later: Seq<BlobMutationWithLSN>|
                all == done.push(member) + later && later.len() == count - 1 && tail
                    == #[trigger] codec::batch_items_bytes(later) + rest;
            lemma_member_before(bytes, member, tail, after, rest, done, all);
        }
    }
}

proof fn lemma_items_cons(first: BlobMutationWithLSN, later: Seq<BlobMutationWithLSN>)
    ensures
        codec::batch_items_bytes(seq![first] + later) == codec::member_bytes(first)
            + codec::batch_items_bytes(later),
    decreases later.len(),
{
    let all = seq![first] + later;
    if later.len() == 0 {
        assert(all.drop_last() =~= Seq::empty());
        assert(codec::batch_items_bytes(all.drop_last()) =~= Seq::empty());
        assert(all.last() == first);
        assert(codec::batch_items_bytes(all) =~= codec::member_bytes(first));
        assert(codec::batch_items_bytes(later) =~= Seq::empty());
        assert(codec::member_bytes(first) + Seq::<u8>::empty() =~= codec::member_bytes(first));
    } else {
        let init = later.drop_last();
        lemma_items_cons(first, init);
        assert(all.drop_last() =~= seq![first] + init);
        assert(all.last() == later.last());
        lemma_assoc(
            codec::member_bytes(first),
            codec::batch_items_bytes(init),
            codec::member_bytes(later.last()),
        );
    }
}

proof fn lemma_batch_back(bytes: Seq<u8>, outer_lsn: StrataLsn)
    ensures
        codec::read_batch(bytes, outer_lsn) matches Ok((mutations, rest)) ==> bytes == bytes::le(
            mutations.len(),
            4,
        ) + codec::batch_items_bytes(mutations) + rest && mutations.len() > 0
            && codec::lsns_increase(mutations) && mutations.last().lsn <= outer_lsn,
{
    lemma_u32_back(bytes);
    if let Ok((count, items)) = codec::read_u32(bytes) {
        lemma_members_back(items, count as nat, Seq::empty());
        if let Ok((mutations, rest)) = codec::read_batch(bytes, outer_lsn) {
            let later = choose|later: Seq<BlobMutationWithLSN>|
                mutations == Seq::<BlobMutationWithLSN>::empty() + later && later.len() == count
                    && items == #[trigger] codec::batch_items_bytes(later) + rest;
            assert(mutations =~= later);
            lemma_assoc(bytes::le(count as nat, 4), codec::batch_items_bytes(later), rest);
        }
    }
}

proof fn lemma_inline_back(tagged: Seq<u8>, outer_lsn: StrataLsn)
    ensures
        codec::read_inline(tagged, outer_lsn) matches Ok((mutations, rest)) ==> {
            ||| tagged == seq![BATCH] + (bytes::le(mutations.len(), 4) + codec::batch_items_bytes(
                mutations,
            ) + rest) && mutations.len() > 0 && codec::lsns_increase(mutations)
                && mutations.last().lsn <= outer_lsn
            ||| mutations.len() == 1 && mutations[0].lsn == outer_lsn && !(
            mutations[0].mutation is Put) && tagged == codec::mutation_bytes(mutations[0].mutation)
                + rest
        },
{
    lemma_u8_back(tagged);
    if let Ok((tag, fields)) = codec::read_u8(tagged) {
        if tag == BATCH {
            lemma_batch_back(fields, outer_lsn);
        } else {
            lemma_fields_back(tag, fields);
        }
    }
}

proof fn lemma_batch_bytes_shape(mutations: Seq<BlobMutationWithLSN>)
    ensures
        seq![VERSION] + (seq![BATCH] + (bytes::le(mutations.len(), 4) + codec::batch_items_bytes(
            mutations,
        ) + Seq::<u8>::empty())) == codec::batch_bytes(mutations),
{
    let count = bytes::le(mutations.len(), 4);
    let items = codec::batch_items_bytes(mutations);
    let nothing = Seq::<u8>::empty();
    assert(seq![VERSION] + (seq![BATCH] + (count + items + nothing)) =~= seq![VERSION, BATCH] + count
        + items);
}

/// Mutations are read only from the bytes that are written for them: a batch, or one metadata-only
/// mutation at its row's LSN. The members of a batch have increasing LSNs, none beyond the row's.
pub proof fn law_inline_canonical(outer_lsn: StrataLsn, bytes: Seq<u8>)
    ensures
        codec::parse_inline(outer_lsn, bytes) matches Ok(mutations) ==> {
            ||| bytes == codec::batch_bytes(mutations) && mutations.len() > 0
                && codec::lsns_increase(mutations) && mutations.last().lsn <= outer_lsn
            ||| mutations.len() == 1 && mutations[0].lsn == outer_lsn && !(
            mutations[0].mutation is Put) && bytes == codec::inline_bytes(mutations[0].mutation)
        },
{
    if let Ok(mutations) = codec::parse_inline(outer_lsn, bytes) {
        lemma_u8_back(bytes);
        let tagged = codec::read_version(bytes)->Ok_0.1;
        lemma_inline_back(tagged, outer_lsn);
        let rest = codec::read_inline(tagged, outer_lsn)->Ok_0.1;
        assert(rest =~= Seq::<u8>::empty());
        lemma_batch_bytes_shape(mutations);
        assert(bytes == seq![VERSION] + tagged);
        if mutations.len() == 1 {
            let one = codec::mutation_bytes(mutations[0].mutation);
            assert(one + Seq::<u8>::empty() =~= one);
        }
    }
}

// What follows a field does not change it.

proof fn lemma_numbers_extended(bytes: Seq<u8>, behind: Seq<u8>)
    ensures
        codec::read_u8(bytes) matches Ok((value, rest)) ==> codec::read_u8(bytes + behind) == Ok::<
            (u8, Seq<u8>),
            FormatError,
        >((value, rest + behind)),
        codec::read_u32(bytes) matches Ok((value, rest)) ==> codec::read_u32(bytes + behind) == Ok::<
            (u32, Seq<u8>),
            FormatError,
        >((value, rest + behind)),
        codec::read_u64(bytes) matches Ok((value, rest)) ==> codec::read_u64(bytes + behind) == Ok::<
            (u64, Seq<u8>),
            FormatError,
        >((value, rest + behind)),
{
    let all = bytes + behind;
    if bytes.len() >= 1 {
        assert(all.skip(1) =~= bytes.skip(1) + behind);
    }
    if bytes.len() >= 4 {
        assert(all.skip(4) =~= bytes.skip(4) + behind);
        assert(all.take(4) =~= bytes.take(4));
    }
    if bytes.len() >= 8 {
        assert(all.skip(8) =~= bytes.skip(8) + behind);
        assert(all.take(8) =~= bytes.take(8));
    }
}

proof fn lemma_shard_extended(bytes: Seq<u8>, behind: Seq<u8>)
    ensures
        codec::read_shard(bytes) matches Ok((shard, rest)) ==> codec::read_shard(bytes + behind)
            == Ok::<(ShardKey, Seq<u8>), FormatError>((shard, rest + behind)),
{
    lemma_numbers_extended(bytes, behind);
    if let Ok((_, rest)) = codec::read_u32(bytes) {
        lemma_numbers_extended(rest, behind);
    }
}

proof fn lemma_record_extended(bytes: Seq<u8>, behind: Seq<u8>)
    ensures
        codec::read_record(bytes) matches Ok((record, rest)) ==> codec::read_record(bytes + behind)
            == Ok::<(RecordRef, Seq<u8>), FormatError>((record, rest + behind)),
{
    let all = bytes + behind;
    if bytes.len() >= 24 {
        assert(all.skip(24) =~= bytes.skip(24) + behind);
        assert(all.subrange(0, 8) =~= bytes.subrange(0, 8));
        assert(all.subrange(8, 16) =~= bytes.subrange(8, 16));
        assert(all.subrange(16, 24) =~= bytes.subrange(16, 24));
    }
}

proof fn lemma_entry_extended(bytes: Seq<u8>, behind: Seq<u8>)
    ensures
        codec::read_entry(bytes) matches Ok((entry, rest)) ==> codec::read_entry(bytes + behind)
            == Ok::<((ShardKey, BlobVersion), Seq<u8>), FormatError>((entry, rest + behind)),
{
    lemma_shard_extended(bytes, behind);
    if let Ok((_, rest)) = codec::read_shard(bytes) {
        lemma_numbers_extended(rest, behind);
        if let Ok((_, rest)) = codec::read_u64(rest) {
            lemma_numbers_extended(rest, behind);
            if let Ok((_, rest)) = codec::read_u64(rest) {
                lemma_record_extended(rest, behind);
            }
        }
    }
}

#[verifier::rlimit(60)]
#[verifier::spinoff_prover]
proof fn lemma_versions_extended(
    bytes: Seq<u8>,
    count: nat,
    done: Map<ShardKey, BlobVersion>,
    behind: Seq<u8>,
)
    ensures
        codec::read_versions(bytes, count, done) matches Ok((versions, rest))
            ==> codec::read_versions(bytes + behind, count, done) == Ok::<
            (Map<ShardKey, BlobVersion>, Seq<u8>),
            FormatError,
        >((versions, rest + behind)),
    decreases count,
{
    if count > 0 {
        lemma_entry_extended(bytes, behind);
        if let Ok(((shard, version), rest)) = codec::read_entry(bytes) {
            lemma_versions_extended(
                rest,
                (count - 1) as nat,
                done.insert(shard, version),
                behind,
            );
        }
    }
}

proof fn lemma_lifetime_extended(bytes: Seq<u8>, behind: Seq<u8>)
    ensures
        codec::read_lifetime(bytes) matches Ok((lifetime, rest)) ==> codec::read_lifetime(
            bytes + behind,
        ) == Ok::<(Option<BlobLifetime>, Seq<u8>), FormatError>((lifetime, rest + behind)),
{
    lemma_numbers_extended(bytes, behind);
    if let Ok((marker, rest)) = codec::read_u8(bytes) {
        lemma_numbers_extended(rest, behind);
        if let Ok((_, rest)) = codec::read_u64(rest) {
            lemma_numbers_extended(rest, behind);
            if let Ok((_, rest)) = codec::read_u64(rest) {
                lemma_numbers_extended(rest, behind);
            }
        }
    }
}

/// What reads back as a state does not with any of its end cut off.
pub proof fn law_no_prefix_is_a_state(bytes: Seq<u8>, kept: int)
    requires
        codec::parse_state(bytes) is Ok,
        0 <= kept < bytes.len(),
    ensures
        codec::parse_state(bytes.take(kept)) is Err,
{
    let part = bytes.take(kept);
    let behind = bytes.skip(kept);
    assert(part + behind =~= bytes);
    if codec::parse_state(part) is Ok {
        lemma_numbers_extended(part, behind);
        let counted = codec::read_version(part)->Ok_0.1;
        lemma_numbers_extended(counted, behind);
        let (count, listed) = codec::read_u32(counted)->Ok_0;
        lemma_versions_extended(listed, count as nat, Map::empty(), behind);
        let last = codec::read_versions(listed, count as nat, Map::empty())->Ok_0.1;
        lemma_lifetime_extended(last, behind);
        let rest = codec::read_lifetime(last)->Ok_0.1;
        assert((rest + behind).len() > 0);
    }
}

/// A batch without a mutation, with one beyond its row's LSN at the end, or with LSNs that do not
/// increase, is refused.
pub proof fn law_disordered_batches_are_refused(
    outer_lsn: StrataLsn,
    mutations: Seq<BlobMutationWithLSN>,
)
    requires
        mutations.len() <= u32::MAX,
    ensures
        mutations.len() == 0 || mutations.last().lsn > outer_lsn ==> codec::parse_inline(
            outer_lsn,
            codec::batch_bytes(mutations),
        ) == Err::<Seq<BlobMutationWithLSN>, FormatError>(FormatError::BatchEmptyOrBeyondOuterLsn),
        mutations.len() > 0 && mutations.last().lsn <= outer_lsn && !codec::lsns_increase(mutations)
            ==> codec::parse_inline(outer_lsn, codec::batch_bytes(mutations)) == Err::<
            Seq<BlobMutationWithLSN>,
            FormatError,
        >(FormatError::LsnsNotIncreasing),
{
    let behind = Seq::<u8>::empty();
    let items = codec::batch_items_bytes(mutations) + behind;
    let counted = bytes::le(mutations.len(), 4) + items;
    let tagged = seq![BATCH] + counted;
    assert(codec::batch_bytes(mutations) =~= seq![VERSION] + tagged);
    lemma_version_front(tagged);
    lemma_u8_front(BATCH, counted);
    lemma_u32_front(mutations.len() as u32, items);
    lemma_members_front(mutations, Seq::empty(), behind, 0);
    assert(Seq::<BlobMutationWithLSN>::empty() + mutations =~= mutations);
}

/// A batch reads back where every mutation is later than those before it, and with two that are not
/// it is refused.
pub proof fn law_batches_go_forward(
    outer_lsn: StrataLsn,
    mutations: Seq<BlobMutationWithLSN>,
    earlier: int,
    later: int,
)
    requires
        0 < mutations.len() <= u32::MAX,
        mutations.last().lsn <= outer_lsn,
    ensures
        (forall|i: int, j: int|
            0 <= i < j < mutations.len() ==> (#[trigger] mutations[i]).lsn < (
            #[trigger] mutations[j]).lsn) ==> codec::parse_inline(
            outer_lsn,
            codec::batch_bytes(mutations),
        ) == Ok::<Seq<BlobMutationWithLSN>, FormatError>(mutations),
        0 <= earlier < later < mutations.len() && mutations[earlier].lsn >= mutations[later].lsn
            ==> codec::parse_inline(outer_lsn, codec::batch_bytes(mutations)) == Err::<
            Seq<BlobMutationWithLSN>,
            FormatError,
        >(FormatError::LsnsNotIncreasing),
{
    if codec::lsns_increase(mutations) {
        law_batch_round_trip(outer_lsn, mutations, Seq::empty());
    }
    law_disordered_batches_are_refused(outer_lsn, mutations);
}

} // verus!
