//! What the encodings refuse, and as what.

use vstd::prelude::*;

use super::codec;
use super::codec::{BlobMutation, BlobMutationWithLSN, BlobStateView, FormatError};
use crate::types::{Epoch, ShardKey, StrataLsn};

verus! {

/// Every encoding begins with the third version's byte. Another is not supported, and nothing is too
/// short.
pub proof fn law_other_versions_are_not_supported(outer_lsn: StrataLsn, version: u8, rest: Seq<u8>)
    requires
        version != 3,
    ensures
        ({
            let bytes = seq![version] + rest;
            let refused = FormatError::UnsupportedVersion { version };
            &&& codec::parse_put_metadata(bytes) == Err::<(ShardKey, Epoch), FormatError>(refused)
            &&& codec::parse_inline(outer_lsn, bytes) == Err::<
                Seq<BlobMutationWithLSN>,
                FormatError,
            >(refused)
            &&& codec::parse_state(bytes) == Err::<BlobStateView, FormatError>(refused)
            &&& codec::parse_put_metadata(Seq::empty()) == Err::<(ShardKey, Epoch), FormatError>(
                FormatError::Truncated,
            )
            &&& codec::parse_inline(outer_lsn, Seq::empty()) == Err::<
                Seq<BlobMutationWithLSN>,
                FormatError,
            >(FormatError::Truncated)
            &&& codec::parse_state(Seq::empty()) == Err::<BlobStateView, FormatError>(
                FormatError::Truncated,
            )
        }),
{
    assert((seq![version] + rest)[0] == version);
}

/// Put metadata has the put's tag and twenty bytes behind it, no more and no fewer.
pub proof fn law_put_metadata_has_its_tag_and_length(tag: u8, fields: Seq<u8>)
    ensures
        ({
            let read = codec::parse_put_metadata(seq![3u8, tag] + fields);
            &&& tag != 1 ==> read == Err::<(ShardKey, Epoch), FormatError>(
                FormatError::ExpectedPutTag { tag },
            )
            &&& tag == 1 && fields.len() < 20 ==> read == Err::<(ShardKey, Epoch), FormatError>(
                FormatError::Truncated,
            )
            &&& tag == 1 && fields.len() == 20 ==> read is Ok
            &&& tag == 1 && fields.len() > 20 ==> read == Err::<(ShardKey, Epoch), FormatError>(
                FormatError::TrailingBytes,
            )
        }),
{
    let bytes = seq![3u8, tag] + fields;
    assert(bytes[0] == 3);
    assert(bytes.skip(1)[0] == tag);
    assert(bytes.skip(1).skip(1) =~= fields);
    if fields.len() >= 4 {
        assert(fields.skip(4).len() == fields.len() - 4);
        if fields.len() >= 12 {
            assert(fields.skip(4).skip(8).len() == fields.len() - 12);
            if fields.len() >= 20 {
                assert(fields.skip(4).skip(8).skip(8).len() == fields.len() - 20);
            }
        }
    }
}

/// An inline mutation has one of the inline tags, and so many bytes behind it as its fields take; a
/// put is never inline.
pub proof fn law_inline_mutations_have_their_tag_and_length(
    outer_lsn: StrataLsn,
    tag: u8,
    fields: Seq<u8>,
)
    ensures
        ({
            let read = codec::parse_inline(outer_lsn, seq![3u8, tag] + fields);
            let refused = |error: FormatError|
                read == Err::<Seq<BlobMutationWithLSN>, FormatError>(error);
            &&& tag == 1 ==> refused(FormatError::PutNotInline)
            &&& tag == 0 || tag > 5 ==> refused(FormatError::UnknownMutationTag { tag })
            &&& tag == 2 && fields.len() < 16 ==> refused(FormatError::Truncated)
            &&& tag == 2 && fields.len() > 16 ==> refused(FormatError::TrailingBytes)
            &&& tag == 2 && fields.len() == 16 ==> (read matches Ok(mutations) && mutations.len()
                == 1 && mutations[0].lsn == outer_lsn && mutations[0].mutation is SetLifetime)
            &&& tag == 3 && fields.len() < 12 ==> refused(FormatError::Truncated)
            &&& tag == 3 && fields.len() > 12 ==> refused(FormatError::TrailingBytes)
            &&& tag == 3 && fields.len() == 12 ==> (read matches Ok(mutations) && mutations.len()
                == 1 && mutations[0].lsn == outer_lsn && mutations[0].mutation is Tombstone)
            &&& tag == 5 && fields.len() < 44 ==> refused(FormatError::Truncated)
            &&& tag == 5 && fields.len() > 44 ==> refused(FormatError::TrailingBytes)
            &&& tag == 5 && fields.len() == 44 ==> (read matches Ok(mutations) && mutations.len()
                == 1 && mutations[0].lsn == outer_lsn && mutations[0].mutation is Relocate)
        }),
{
    let bytes = seq![3u8, tag] + fields;
    assert(bytes[0] == 3);
    assert(bytes.skip(1)[0] == tag);
    assert(bytes.skip(1).skip(1) =~= fields);
    if fields.len() >= 8 {
        assert(fields.skip(8).len() == fields.len() - 8);
    }
    if fields.len() >= 4 {
        assert(fields.skip(4).len() == fields.len() - 4);
    }
    if fields.len() >= 12 {
        assert(fields.skip(4).skip(8).len() == fields.len() - 12);
    }
    if fields.len() >= 16 {
        assert(fields.skip(8).skip(8).len() == fields.len() - 16);
    }
    if fields.len() >= 20 {
        assert(fields.skip(4).skip(8).skip(8).len() == fields.len() - 20);
    }
    if fields.len() >= 44 {
        assert(fields.skip(4).skip(8).skip(8).skip(24).len() == fields.len() - 44);
    }
}

/// A member of a batch has one of the mutations' tags; another is not known.
pub proof fn law_batched_mutations_have_their_tag(lsn: Seq<u8>, tag: u8, fields: Seq<u8>)
    requires
        lsn.len() == 8,
    ensures
        tag != 1 && tag != 2 && tag != 3 && tag != 5 ==> codec::read_batched(
            lsn + seq![tag] + fields,
        ) == Err::<(BlobMutationWithLSN, Seq<u8>), FormatError>(
            FormatError::UnknownBatchedTag { tag },
        ),
        codec::read_batched(lsn + seq![tag] + fields) matches Ok((member, _)) ==> match member.mutation {
            BlobMutation::Put { .. } => tag == 1,
            BlobMutation::SetLifetime { .. } => tag == 2,
            BlobMutation::Tombstone { .. } => tag == 3,
            BlobMutation::Relocate { .. } => tag == 5,
        },
{
    let bytes = lsn + seq![tag] + fields;
    assert(bytes.skip(8)[0] == tag);
}

/// A state's lifetime is marked as absent or present; another mark is invalid.
pub proof fn law_lifetimes_are_marked(marker: u8, fields: Seq<u8>)
    ensures
        ({
            let read = codec::parse_state(seq![3u8, 0, 0, 0, 0, marker] + fields);
            &&& marker == 0 && fields.len() == 0 ==> (read matches Ok(state)
                && state.lifetime is None)
            &&& marker == 0 && fields.len() > 0 ==> read == Err::<BlobStateView, FormatError>(
                FormatError::TrailingBytes,
            )
            &&& marker == 1 && fields.len() < 20 ==> read == Err::<BlobStateView, FormatError>(
                FormatError::Truncated,
            )
            &&& marker == 1 && fields.len() == 20 ==> (read matches Ok(state)
                && state.lifetime is Some)
            &&& marker == 1 && fields.len() > 20 ==> read == Err::<BlobStateView, FormatError>(
                FormatError::TrailingBytes,
            )
            &&& marker > 1 ==> read == Err::<BlobStateView, FormatError>(
                FormatError::InvalidLifetimeMarker { marker },
            )
        }),
{
    let bytes = seq![3u8, 0, 0, 0, 0, marker] + fields;
    assert(bytes[0] == 3);
    let rest = bytes.skip(1);
    let zeros = rest.take(4);
    assert(zeros =~= seq![0u8, 0, 0, 0]);
    assert(crate::bytes::from_le(zeros) == 0) by {
        reveal_with_fuel(crate::bytes::from_le, 5);
        assert(zeros.skip(1) =~= seq![0u8, 0, 0]);
        assert(zeros.skip(1).skip(1) =~= seq![0u8, 0]);
        assert(zeros.skip(1).skip(1).skip(1) =~= seq![0u8]);
        assert(zeros.skip(1).skip(1).skip(1).skip(1) =~= Seq::empty());
    }
    let marked = rest.skip(4);
    assert(marked[0] == marker);
    assert(marked.skip(1) =~= fields);
    if fields.len() >= 8 {
        assert(fields.skip(8).len() == fields.len() - 8);
    }
    if fields.len() >= 16 {
        assert(fields.skip(8).skip(8).len() == fields.len() - 16);
    }
    if fields.len() >= 20 {
        assert(fields.skip(8).skip(8).skip(4).len() == fields.len() - 20);
    }
}

/// A shard that comes twice in a state is refused; a version that is short cuts the state off.
pub proof fn law_shards_come_once(
    bytes: Seq<u8>,
    count: nat,
    done: Map<ShardKey, codec::BlobVersion>,
)
    requires
        count > 0,
    ensures
        bytes.len() < 52 ==> codec::read_versions(bytes, count, done) == Err::<
            (Map<ShardKey, codec::BlobVersion>, Seq<u8>),
            FormatError,
        >(FormatError::Truncated),
        codec::read_entry(bytes) matches Ok(((shard, version), rest)) ==> {
            &&& rest == bytes.skip(52)
            &&& done.dom().contains(shard) ==> codec::read_versions(bytes, count, done) == Err::<
                (Map<ShardKey, codec::BlobVersion>, Seq<u8>),
                FormatError,
            >(FormatError::DuplicateShard)
            &&& !done.dom().contains(shard) ==> codec::read_versions(bytes, count, done)
                == codec::read_versions(rest, (count - 1) as nat, done.insert(shard, version))
        },
{
    if bytes.len() >= 4 {
        assert(bytes.skip(4).len() == bytes.len() - 4);
    }
    if bytes.len() >= 12 {
        assert(bytes.skip(4).skip(8) =~= bytes.skip(12));
    }
    if bytes.len() >= 20 {
        assert(bytes.skip(12).skip(8) =~= bytes.skip(20));
    }
    if bytes.len() >= 28 {
        assert(bytes.skip(20).skip(8) =~= bytes.skip(28));
    }
    if bytes.len() >= 52 {
        assert(bytes.skip(28).skip(24) =~= bytes.skip(52));
    }
}

} // verus!
