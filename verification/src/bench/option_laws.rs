//! What options promise: their names, their values, their defaults and what is refused.

use vstd::prelude::*;

use super::config;
use super::config::{Config, EngineKind, Flag, LifetimeMode};
use super::lifetimes;
use super::options;
use crate::config::{GcPlannerConfig, SealedSegmentIntegrityPolicy, StrataRecoveryPolicy};
use crate::double;
use crate::numeral;
use crate::numeral::Standing;
use crate::stress;
use crate::stress::{KeySpec, StressConfig, StressFlag, StressOptions};
use crate::text;

verus! {

// Values.

/// A size counts its unit: bytes, or powers of 1024 of them.
pub proof fn law_sizes_have_binary_units(suffix: Seq<char>)
    ensures
        options::size_unit(suffix) == Some(1usize) ==> suffix == ""@ || suffix == "b"@,
        options::size_unit(suffix) == Some(1_024usize) ==> suffix == "k"@ || suffix == "kb"@
            || suffix == "kib"@,
        options::size_unit(suffix) == Some((1_024 * 1_024) as usize) ==> suffix == "m"@ || suffix
            == "mb"@ || suffix == "mib"@,
        options::size_unit(suffix) == Some((1_024 * 1_024 * 1_024) as usize) ==> suffix == "g"@
            || suffix == "gb"@ || suffix == "gib"@,
        options::size_unit(suffix) matches Some(unit) ==> unit == 1 || unit == 1_024 || unit
            == 1_024 * 1_024 || unit == 1_024 * 1_024 * 1_024,
        options::size_unit(suffix) is None ==> suffix != ""@ && suffix != "b"@ && suffix != "k"@
            && suffix != "kb"@ && suffix != "kib"@ && suffix != "m"@ && suffix != "mb"@ && suffix
            != "mib"@ && suffix != "g"@ && suffix != "gb"@ && suffix != "gib"@,
{
}

/// A duration counts its unit: seconds, thousandths of them, minutes, hours or days.
pub proof fn law_durations_have_units(suffix: Seq<char>)
    ensures
        suffix == ""@ || suffix == "s"@ || suffix == "sec"@ || suffix == "secs"@
            ==> options::duration_unit(suffix) == Some(double::nearest(1, 1)),
        options::duration_unit(suffix) is None ==> suffix != "ms"@ && suffix != "m"@ && suffix
            != "min"@ && suffix != "mins"@ && suffix != "h"@ && suffix != "hr"@ && suffix != "hrs"@
            && suffix != "d"@ && suffix != "day"@ && suffix != "days"@,
        suffix == "ms"@ ==> options::duration_unit(suffix) == Some(double::nearest(1, 1_000)),
        suffix == "m"@ || suffix == "min"@ || suffix == "mins"@ ==> options::duration_unit(suffix)
            == Some(double::nearest(60, 1)),
        suffix == "h"@ || suffix == "hr"@ || suffix == "hrs"@ ==> options::duration_unit(suffix)
            == Some(double::nearest(60 * 60, 1)),
        suffix == "d"@ || suffix == "day"@ || suffix == "days"@ ==> options::duration_unit(suffix)
            == Some(double::nearest(24 * 60 * 60, 1)),
{
    reveal_strlit("");
    reveal_strlit("s");
    reveal_strlit("sec");
    reveal_strlit("secs");
    reveal_strlit("ms");
    reveal_strlit("m");
    reveal_strlit("min");
    reveal_strlit("mins");
    reveal_strlit("h");
    reveal_strlit("hr");
    reveal_strlit("hrs");
    reveal_strlit("d");
    reveal_strlit("day");
    reveal_strlit("days");
    assert(""@.len() == 0 && "s"@.len() == 1 && "m"@.len() == 1 && "h"@.len() == 1 && "d"@.len()
        == 1);
    assert("ms"@.len() == 2 && "hr"@.len() == 2);
    assert("sec"@.len() == 3 && "min"@.len() == 3 && "hrs"@.len() == 3 && "day"@.len() == 3);
    assert("secs"@.len() == 4 && "mins"@.len() == 4 && "days"@.len() == 4);
    assert("s"@[0] == 's' && "m"@[0] == 'm' && "h"@[0] == 'h' && "d"@[0] == 'd');
    assert("ms"@[0] == 'm' && "hr"@[0] == 'h');
    assert("sec"@[0] == 's' && "min"@[0] == 'm' && "hrs"@[0] == 'h' && "day"@[0] == 'd');
    assert("secs"@[0] == 's' && "mins"@[0] == 'm' && "days"@[0] == 'd');
}

/// A size is its number of units, where that fits, whatever spaces and capitals stand around its
/// unit. Without digits, with an unknown unit or beyond what fits it is refused.
pub proof fn law_sizes_are_numbers_of_units(digits: Seq<char>, rest: Seq<char>)
    requires
        text::all_digits(digits),
        rest.len() > 0 ==> !('0' <= rest[0] <= '9'),
    ensures
        ({
            let unit = options::size_unit(text::lower_case(text::trimmed(rest)));
            let read = options::size(digits + rest);
            let number = text::place_value(digits);
            &&& digits.len() == 0 ==> read is Err
            &&& digits.len() > 0 && number <= usize::MAX ==> match unit {
                Some(unit) => if number * unit <= usize::MAX {
                    read == Ok::<usize, Seq<char>>((number * unit) as usize)
                } else {
                    read is Err
                },
                None => read is Err,
            }
        }),
{
    assert forall|i: int| 0 <= i < digits.len() implies '0' <= #[trigger] digits[i] <= '9' by {
        assert(text::digit_value(digits[i]) is Some);
    }
    crate::text_laws::law_amounts_end_before_other_characters(digits, rest, false);
    assert((digits + rest).take(digits.len() as int) =~= digits);
    assert((digits + rest).skip(digits.len() as int) =~= rest);
    crate::text_laws::law_digits_are_read_as_their_number(digits, usize::MAX as int);
    if digits.len() > 0 {
        assert(text::digit_value(digits[0]) is Some);
    }
}

/// A duration is its amount times its unit, in nanoseconds; an amount that is none, an unknown unit
/// and a span beyond what a duration holds are refused.
pub proof fn law_durations_are_amounts_of_units(amount: Seq<char>, rest: Seq<char>)
    requires
        forall|i: int|
            0 <= i < amount.len() ==> '0' <= #[trigger] amount[i] <= '9' || amount[i] == '.',
        rest.len() > 0 ==> !('0' <= rest[0] <= '9') && rest[0] != '.',
    ensures
        ({
            let unit = options::duration_unit(text::lower_case(text::trimmed(rest)));
            let read = options::duration(amount + rest);
            let finite = numeral::amount_number(amount).exponent < 972;
            &&& numeral::amount_fault(amount) is Some ==> read is Err
            &&& !finite ==> read is Err
            &&& unit is None ==> read is Err
            &&& numeral::amount_fault(amount) is None && finite ==> (unit matches Some(unit)
                ==> match double::nanos_of(numeral::amount_number(amount).times(unit)) {
                Some(nanos) => read == Ok::<u128, Seq<char>>(nanos as u128),
                None => read is Err,
            })
        }),
{
    crate::text_laws::law_amounts_end_before_other_characters(amount, rest, true);
    assert((amount + rest).take(amount.len() as int) =~= amount);
    assert((amount + rest).skip(amount.len() as int) =~= rest);
}

/// Values of flags, counts and choices are read as what they say; anything else is refused.
pub proof fn law_values_say_what_they_mean(value: Seq<char>)
    ensures
        options::spec_parse_bool(value) matches Ok(flag) ==> value == (if flag {
            "true"@
        } else {
            "false"@
        }),
        options::spec_parse_bool(value) is Err ==> value != "true"@ && value != "false"@,
        match text::number(value, u64::MAX as int) {
            Ok(number) => options::spec_parse_u64(value) == Ok::<u64, Seq<char>>(number as u64),
            Err(_) => options::spec_parse_u64(value) is Err,
        },
        match text::number(value, usize::MAX as int) {
            Ok(number) => if number == 0 {
                options::spec_parse_nonzero_usize(value) is Err
            } else {
                options::spec_parse_nonzero_usize(value) == Ok::<usize, Seq<char>>(number as usize)
            },
            Err(_) => options::spec_parse_nonzero_usize(value) is Err,
        },
        options::spec_parse_size(value) == options::size(text::trimmed(value)),
        options::spec_parse_duration(value) == options::duration(text::trimmed(value)),
        options::spec_check_percent(value) is Ok <==> numeral::standing(value, 100)
            == Standing::Within,
        options::spec_check_fraction(value) is Ok <==> numeral::standing(value, 1)
            == Standing::Within,
{
}

/// Percentages and fractions outside of their range are told as they stand, and texts that are no
/// numbers with what is wrong with them: there is nothing, or it is no number.
pub proof fn law_refused_shares_say_why(
    value: Seq<char>,
    most: nat,
    malformed: Seq<char>,
    outside: Seq<char>,
)
    ensures
        ({
            let result = options::share(value, most, malformed, outside);
            let refused = malformed + value + "': "@;
            &&& numeral::standing(value, most) is Outside ==> result == Err::<(), Seq<char>>(
                outside + value + "'"@,
            )
            &&& numeral::standing(value, most) is Malformed && value == Seq::<char>::empty()
                ==> result == Err::<(), Seq<char>>(
                refused + "cannot parse float from empty string"@,
            )
            &&& numeral::standing(value, most) is Malformed && value != Seq::<char>::empty()
                ==> result == Err::<(), Seq<char>>(refused + "invalid float literal"@)
        }),
{
    if value.len() == 0 {
        assert(value =~= Seq::<char>::empty());
    }
}

/// Modes, engines, addresses and the settings with rules of their own are read as what they say.
pub proof fn law_choices_are_told_by_name(value: String)
    ensures
        config::spec_parse_mode(value@) matches Ok(mode) ==> match mode {
            LifetimeMode::Retention => value@ == "retention"@ || value@ == "manual-retention"@,
            LifetimeMode::Epoch => value@ == "epoch"@ || value@ == "epochs"@ || value@
                == "epoch-lifetime"@,
        },
        config::spec_parse_mode(value@) is Err ==> value@ != "retention"@ && value@
            != "manual-retention"@ && value@ != "epoch"@ && value@ != "epochs"@ && value@
            != "epoch-lifetime"@,
        config::spec_parse_engine(value@) matches Ok(engine) ==> match engine {
            EngineKind::Strata => value@ == "strata"@,
            EngineKind::BlobDb => value@ == "blobdb"@ || value@ == "rocksdb-blobdb"@,
        },
        config::spec_parse_engine(value@) is Err ==> value@ != "strata"@ && value@ != "blobdb"@
            && value@ != "rocksdb-blobdb"@,
        value@ == "off"@ || value@ == "none"@ <==> config::listen_address(value) is None,
        config::listen_address(value) matches Some(address) ==> address == value,
        value@ == "off"@ ==> config::spec_parse_writeback(value@) == Ok::<
            Option<usize>,
            Seq<char>,
        >(None),
        config::spec_parse_writeback(value@) matches Ok(None) ==> value@ == "off"@,
        config::spec_parse_writeback(value@) matches Ok(Some(count))
            ==> options::spec_parse_nonzero_usize(value@) == Ok::<usize, Seq<char>>(count),
        config::spec_parse_partitions(value@) matches Ok(count) ==> count > 0
            && options::spec_parse_u64(value@) == Ok::<u64, Seq<char>>(count as u64),
        options::spec_parse_u64(value@) matches Ok(count) ==> (0 < count <= u32::MAX
            ==> config::spec_parse_partitions(value@) is Ok),
        config::spec_parse_age(value@) matches Ok(age) ==> age > 0
            && options::spec_parse_duration(value@) == Ok::<u128, Seq<char>>(age),
        options::spec_parse_duration(value@) matches Ok(age) ==> (age > 0
            ==> config::spec_parse_age(value@) is Ok),
{
}

// Names and defaults.

/// An option is told by its name.
pub proof fn law_options_are_told_by_name(name: Seq<char>)
    ensures
        config::flag_named(name) == Some(Flag::Engine) ==> name == "--engine"@,
        config::flag_named(name) == Some(Flag::Root) ==> name == "--root"@,
        config::flag_named(name) == Some(Flag::Namespace) ==> name == "--namespace"@,
        config::flag_named(name) == Some(Flag::Duration) ==> name == "--duration"@,
        config::flag_named(name) == Some(Flag::LifetimeMode) ==> name == "--lifetime-mode"@,
        config::flag_named(name) == Some(Flag::Retention) ==> name == "--retention"@,
        config::flag_named(name) == Some(Flag::RetentionJitterPercent) ==> name == "--retention-jitter-percent"@,
        config::flag_named(name) == Some(Flag::EpochDuration) ==> name == "--epoch-duration"@,
        config::flag_named(name) == Some(Flag::FutureEpochs) ==> name == "--future-epochs"@,
        config::flag_named(name) == Some(Flag::MinFutureEpochOffset) ==> name == "--min-future-epoch-offset"@,
        config::flag_named(name) == Some(Flag::LifetimeSeed) ==> name == "--lifetime-seed"@,
        config::flag_named(name) == Some(Flag::HashedKeys) ==> name == "--hashed-keys"@,
        config::flag_named(name) == Some(Flag::CleanupGrace) ==> name == "--cleanup-grace"@,
        config::flag_named(name) == Some(Flag::PayloadSize) ==> name == "--payload-size"@,
        config::flag_named(name) == Some(Flag::PutOpsPerSecond) ==> name == "--put-ops-per-second"@,
        config::flag_named(name) == Some(Flag::InitialWriteWorkers) ==> name == "--initial-write-workers"@,
        config::flag_named(name) == Some(Flag::MinWriteWorkers) ==> name == "--min-write-workers"@,
        config::flag_named(name) == Some(Flag::MaxWriteWorkers) ==> name == "--max-write-workers"@,
        config::flag_named(name) == Some(Flag::ReadWorkers) ==> name == "--read-workers"@,
        config::flag_named(name) == Some(Flag::ReadOpsPerSecond) ==> name == "--read-ops-per-second"@,
        config::flag_named(name) == Some(Flag::ReadDeletedPercent) ==> name == "--read-deleted-percent"@,
        config::flag_named(name) == Some(Flag::ReadP99Slo) ==> name == "--read-p99-slo"@,
        config::flag_named(name) == Some(Flag::ReadAttainmentPercent) ==> name == "--read-attainment-percent"@,
        config::flag_named(name) == Some(Flag::DeleteWorkers) ==> name == "--delete-workers"@,
        config::flag_named(name) == Some(Flag::DeleteLagSlo) ==> name == "--delete-lag-slo"@,
        config::flag_named(name) == Some(Flag::DeleteTimelyPercent) ==> name == "--delete-timely-percent"@,
        config::flag_named(name) == Some(Flag::ControlInterval) ==> name == "--control-interval"@,
        config::flag_named(name) == Some(Flag::ControllerDebounceWindows) ==> name == "--controller-debounce-windows"@,
        config::flag_named(name) == Some(Flag::WriterIncreasePercent) ==> name == "--writer-increase-percent"@,
        config::flag_named(name) == Some(Flag::WriterDecreasePercent) ==> name == "--writer-decrease-percent"@,
        config::flag_named(name) == Some(Flag::SyncInterval) ==> name == "--sync-interval"@,
        config::flag_named(name) == Some(Flag::SpaceSampleInterval) ==> name == "--space-sample-interval"@,
        config::flag_named(name) == Some(Flag::DeletedSampleCapacity) ==> name == "--deleted-sample-capacity"@,
        config::flag_named(name) == Some(Flag::MetricsListen) ==> name == "--metrics-listen"@,
        config::flag_named(name) == Some(Flag::QueueCapacity) ==> name == "--queue-capacity"@,
        config::flag_named(name) == Some(Flag::MaxUnsealedSegments) ==> name == "--max-unsealed-segments"@,
        config::flag_named(name) == Some(Flag::SegmentMaxBytes) ==> name == "--segment-max-bytes"@,
        config::flag_named(name) == Some(Flag::StrataGc) ==> name == "--strata-gc"@,
        config::flag_named(name) == Some(Flag::StrataGcMinEpochCopyDistance) ==> name == "--strata-gc-min-epoch-copy-distance"@,
        config::flag_named(name) == Some(Flag::StrataGcMaxCopyBytesPerPlan) ==> name == "--strata-gc-max-copy-bytes-per-plan"@,
        config::flag_named(name) == Some(Flag::StrataGcWorkers) ==> name == "--strata-gc-workers"@,
        config::flag_named(name) == Some(Flag::StrataLsmPartitions) ==> name == "--strata-lsm-partitions"@,
        config::flag_named(name) == Some(Flag::StrataMemtableMaxAge) ==> name == "--strata-memtable-max-age"@,
        config::flag_named(name) == Some(Flag::StrataRelocationWriteback) ==> name == "--strata-relocation-writeback"@,
        config::flag_named(name) == Some(Flag::RelocationProfileReads) ==> name == "--relocation-profile-reads"@,
        config::flag_named(name) == Some(Flag::RelocationProfileTimeout) ==> name == "--relocation-profile-timeout"@,
        config::flag_named(name) == Some(Flag::RocksdbMinBlobSize) ==> name == "--rocksdb-min-blob-size"@,
        config::flag_named(name) == Some(Flag::RocksdbBlobFileSize) ==> name == "--rocksdb-blob-file-size"@,
        config::flag_named(name) == Some(Flag::RocksdbWriteBufferSize) ==> name == "--rocksdb-write-buffer-size"@,
        config::flag_named(name) == Some(Flag::RocksdbDbWriteBufferSize) ==> name == "--rocksdb-db-write-buffer-size"@,
        config::flag_named(name) == Some(Flag::RocksdbMaxWriteBufferNumber) ==> name == "--rocksdb-max-write-buffer-number"@,
        config::flag_named(name) == Some(Flag::RocksdbMaxBackgroundFlushes) ==> name == "--rocksdb-max-background-flushes"@,
        config::flag_named(name) == Some(Flag::RocksdbMaxSubcompactions) ==> name == "--rocksdb-max-subcompactions"@,
        config::flag_named(name) == Some(Flag::RocksdbHighPriThreads) ==> name == "--rocksdb-high-pri-threads"@,
        config::flag_named(name) == Some(Flag::RocksdbLowPriThreads) ==> name == "--rocksdb-low-pri-threads"@,
        config::flag_named(name) == Some(Flag::RocksdbBlobGc) ==> name == "--rocksdb-blob-gc"@,
        config::flag_named(name) == Some(Flag::RocksdbBlobGcAgeCutoff) ==> name == "--rocksdb-blob-gc-age-cutoff"@,
        config::flag_named(name) == Some(Flag::RocksdbBlobGcForceThreshold) ==> name == "--rocksdb-blob-gc-force-threshold"@,
        config::flag_named(name) is None ==> {
            &&& name != "--engine"@
            &&& name != "--root"@
            &&& name != "--namespace"@
            &&& name != "--duration"@
            &&& name != "--lifetime-mode"@
            &&& name != "--retention"@
            &&& name != "--retention-jitter-percent"@
            &&& name != "--epoch-duration"@
            &&& name != "--future-epochs"@
            &&& name != "--min-future-epoch-offset"@
            &&& name != "--lifetime-seed"@
            &&& name != "--hashed-keys"@
            &&& name != "--cleanup-grace"@
            &&& name != "--payload-size"@
            &&& name != "--put-ops-per-second"@
            &&& name != "--initial-write-workers"@
            &&& name != "--min-write-workers"@
            &&& name != "--max-write-workers"@
            &&& name != "--read-workers"@
            &&& name != "--read-ops-per-second"@
            &&& name != "--read-deleted-percent"@
            &&& name != "--read-p99-slo"@
            &&& name != "--read-attainment-percent"@
            &&& name != "--delete-workers"@
            &&& name != "--delete-lag-slo"@
            &&& name != "--delete-timely-percent"@
            &&& name != "--control-interval"@
            &&& name != "--controller-debounce-windows"@
            &&& name != "--writer-increase-percent"@
            &&& name != "--writer-decrease-percent"@
            &&& name != "--sync-interval"@
            &&& name != "--space-sample-interval"@
            &&& name != "--deleted-sample-capacity"@
            &&& name != "--metrics-listen"@
            &&& name != "--queue-capacity"@
            &&& name != "--max-unsealed-segments"@
            &&& name != "--segment-max-bytes"@
            &&& name != "--strata-gc"@
            &&& name != "--strata-gc-min-epoch-copy-distance"@
            &&& name != "--strata-gc-max-copy-bytes-per-plan"@
            &&& name != "--strata-gc-workers"@
            &&& name != "--strata-lsm-partitions"@
            &&& name != "--strata-memtable-max-age"@
            &&& name != "--strata-relocation-writeback"@
            &&& name != "--relocation-profile-reads"@
            &&& name != "--relocation-profile-timeout"@
            &&& name != "--rocksdb-min-blob-size"@
            &&& name != "--rocksdb-blob-file-size"@
            &&& name != "--rocksdb-write-buffer-size"@
            &&& name != "--rocksdb-db-write-buffer-size"@
            &&& name != "--rocksdb-max-write-buffer-number"@
            &&& name != "--rocksdb-max-background-flushes"@
            &&& name != "--rocksdb-max-subcompactions"@
            &&& name != "--rocksdb-high-pri-threads"@
            &&& name != "--rocksdb-low-pri-threads"@
            &&& name != "--rocksdb-blob-gc"@
            &&& name != "--rocksdb-blob-gc-age-cutoff"@
            &&& name != "--rocksdb-blob-gc-force-threshold"@
        },
{
}

/// An option of the workload sets its own setting to what its value says, and no other; a value that
/// says nothing is told.
pub proof fn law_workload_options_set_their_setting(config: Config, value: String)
    ensures
        match config::spec_parse_engine(value@) {
            Ok(parsed) => config::assigned(config, Flag::Engine, value) matches Ok(next) && next == (
            Config { engine: next.engine, ..config }) && next.engine == parsed,
            Err(message) => config::assigned(config, Flag::Engine, value) matches Err(told) && told
                == message,
        },
        config::assigned(config, Flag::Root, value) matches Ok(next) && next == (Config {
            root_dir: next.root_dir,
            ..config
        }) && next.root_dir == value,
        config::assigned(config, Flag::Namespace, value) matches Ok(next) && next == (Config {
            namespace: next.namespace,
            ..config
        }) && next.namespace == value,
        match options::spec_parse_duration(value@) {
            Ok(parsed) => config::assigned(config, Flag::Duration, value) matches Ok(next) && next == (
            Config { duration: next.duration, ..config }) && next.duration == parsed,
            Err(message) => config::assigned(config, Flag::Duration, value) matches Err(told) && told
                == message,
        },
        match config::spec_parse_mode(value@) {
            Ok(parsed) => config::assigned(config, Flag::LifetimeMode, value) matches Ok(next) && next == (
            Config { lifetime_mode: next.lifetime_mode, ..config }) && next.lifetime_mode == parsed,
            Err(message) => config::assigned(config, Flag::LifetimeMode, value) matches Err(told) && told
                == message,
        },
        match options::spec_parse_duration(value@) {
            Ok(parsed) => config::assigned(config, Flag::Retention, value) matches Ok(next) && next == (
            Config { retention: next.retention, ..config }) && next.retention == parsed,
            Err(message) => config::assigned(config, Flag::Retention, value) matches Err(told) && told
                == message,
        },
        match options::spec_parse_u64(value@) {
            Ok(parsed) => config::assigned(config, Flag::RetentionJitterPercent, value) matches Ok(next) && next == (
            Config { retention_jitter_percent: next.retention_jitter_percent, ..config }) && next.retention_jitter_percent == parsed,
            Err(message) => config::assigned(config, Flag::RetentionJitterPercent, value) matches Err(told) && told
                == message,
        },
        match options::spec_parse_duration(value@) {
            Ok(parsed) => config::assigned(config, Flag::EpochDuration, value) matches Ok(next) && next == (
            Config { epoch_duration: next.epoch_duration, ..config }) && next.epoch_duration == parsed,
            Err(message) => config::assigned(config, Flag::EpochDuration, value) matches Err(told) && told
                == message,
        },
        match options::spec_parse_u64(value@) {
            Ok(parsed) => config::assigned(config, Flag::FutureEpochs, value) matches Ok(next) && next == (
            Config { future_epochs: next.future_epochs, ..config }) && next.future_epochs == parsed,
            Err(message) => config::assigned(config, Flag::FutureEpochs, value) matches Err(told) && told
                == message,
        },
        match options::spec_parse_u64(value@) {
            Ok(parsed) => config::assigned(config, Flag::MinFutureEpochOffset, value) matches Ok(next) && next == (
            Config { min_future_epoch_offset: next.min_future_epoch_offset, ..config }) && next.min_future_epoch_offset == parsed,
            Err(message) => config::assigned(config, Flag::MinFutureEpochOffset, value) matches Err(told) && told
                == message,
        },
        match options::spec_parse_u64(value@) {
            Ok(parsed) => config::assigned(config, Flag::LifetimeSeed, value) matches Ok(next) && next == (
            Config { lifetime_seed: next.lifetime_seed, ..config }) && next.lifetime_seed == parsed,
            Err(message) => config::assigned(config, Flag::LifetimeSeed, value) matches Err(told) && told
                == message,
        },
        match options::spec_parse_bool(value@) {
            Ok(parsed) => config::assigned(config, Flag::HashedKeys, value) matches Ok(next) && next == (
            Config { hashed_keys: next.hashed_keys, ..config }) && next.hashed_keys == parsed,
            Err(message) => config::assigned(config, Flag::HashedKeys, value) matches Err(told) && told
                == message,
        },
        match options::spec_parse_duration(value@) {
            Ok(parsed) => config::assigned(config, Flag::CleanupGrace, value) matches Ok(next) && next == (
            Config { cleanup_grace: next.cleanup_grace, ..config }) && next.cleanup_grace == parsed,
            Err(message) => config::assigned(config, Flag::CleanupGrace, value) matches Err(told) && told
                == message,
        },
        match options::spec_parse_size(value@) {
            Ok(parsed) => config::assigned(config, Flag::PayloadSize, value) matches Ok(next) && next == (
            Config { payload_size: next.payload_size, ..config }) && next.payload_size == parsed,
            Err(message) => config::assigned(config, Flag::PayloadSize, value) matches Err(told) && told
                == message,
        },
        match options::spec_parse_u64(value@) {
            Ok(parsed) => config::assigned(config, Flag::PutOpsPerSecond, value) matches Ok(next) && next == (
            Config { put_ops_per_second: next.put_ops_per_second, ..config }) && next.put_ops_per_second == parsed,
            Err(message) => config::assigned(config, Flag::PutOpsPerSecond, value) matches Err(told) && told
                == message,
        },
        match options::spec_parse_nonzero_usize(value@) {
            Ok(parsed) => config::assigned(config, Flag::InitialWriteWorkers, value) matches Ok(next) && next == (
            Config { initial_write_workers: next.initial_write_workers, ..config }) && next.initial_write_workers == parsed,
            Err(message) => config::assigned(config, Flag::InitialWriteWorkers, value) matches Err(told) && told
                == message,
        },
        match options::spec_parse_nonzero_usize(value@) {
            Ok(parsed) => config::assigned(config, Flag::MinWriteWorkers, value) matches Ok(next) && next == (
            Config { min_write_workers: next.min_write_workers, ..config }) && next.min_write_workers == parsed,
            Err(message) => config::assigned(config, Flag::MinWriteWorkers, value) matches Err(told) && told
                == message,
        },
        match options::spec_parse_nonzero_usize(value@) {
            Ok(parsed) => config::assigned(config, Flag::MaxWriteWorkers, value) matches Ok(next) && next == (
            Config { max_write_workers: next.max_write_workers, ..config }) && next.max_write_workers == parsed,
            Err(message) => config::assigned(config, Flag::MaxWriteWorkers, value) matches Err(told) && told
                == message,
        },
        match options::spec_parse_nonzero_usize(value@) {
            Ok(parsed) => config::assigned(config, Flag::ReadWorkers, value) matches Ok(next) && next == (
            Config { read_workers: next.read_workers, ..config }) && next.read_workers == parsed,
            Err(message) => config::assigned(config, Flag::ReadWorkers, value) matches Err(told) && told
                == message,
        },
        match options::spec_parse_u64(value@) {
            Ok(parsed) => config::assigned(config, Flag::ReadOpsPerSecond, value) matches Ok(next) && next == (
            Config { read_ops_per_second: next.read_ops_per_second, ..config }) && next.read_ops_per_second == parsed,
            Err(message) => config::assigned(config, Flag::ReadOpsPerSecond, value) matches Err(told) && told
                == message,
        },
        match options::spec_check_percent(value@) {
            Ok(_) => config::assigned(config, Flag::ReadDeletedPercent, value) matches Ok(next) && next == (
            Config { read_deleted_percent: next.read_deleted_percent, ..config }) && next.read_deleted_percent == Some(value),
            Err(message) => config::assigned(config, Flag::ReadDeletedPercent, value) matches Err(told) && told
                == message,
        },
        match options::spec_parse_duration(value@) {
            Ok(parsed) => config::assigned(config, Flag::ReadP99Slo, value) matches Ok(next) && next == (
            Config { read_p99_slo: next.read_p99_slo, ..config }) && next.read_p99_slo == parsed,
            Err(message) => config::assigned(config, Flag::ReadP99Slo, value) matches Err(told) && told
                == message,
        },
        match options::spec_check_percent(value@) {
            Ok(_) => config::assigned(config, Flag::ReadAttainmentPercent, value) matches Ok(next) && next == (
            Config { read_attainment_percent: next.read_attainment_percent, ..config }) && next.read_attainment_percent == Some(value),
            Err(message) => config::assigned(config, Flag::ReadAttainmentPercent, value) matches Err(told) && told
                == message,
        },
        match options::spec_parse_nonzero_usize(value@) {
            Ok(parsed) => config::assigned(config, Flag::DeleteWorkers, value) matches Ok(next) && next == (
            Config { delete_workers: next.delete_workers, ..config }) && next.delete_workers == parsed,
            Err(message) => config::assigned(config, Flag::DeleteWorkers, value) matches Err(told) && told
                == message,
        },
        match options::spec_parse_duration(value@) {
            Ok(parsed) => config::assigned(config, Flag::DeleteLagSlo, value) matches Ok(next) && next == (
            Config { delete_lag_slo: next.delete_lag_slo, ..config }) && next.delete_lag_slo == parsed,
            Err(message) => config::assigned(config, Flag::DeleteLagSlo, value) matches Err(told) && told
                == message,
        },
        match options::spec_check_percent(value@) {
            Ok(_) => config::assigned(config, Flag::DeleteTimelyPercent, value) matches Ok(next) && next == (
            Config { delete_timely_percent: next.delete_timely_percent, ..config }) && next.delete_timely_percent == Some(value),
            Err(message) => config::assigned(config, Flag::DeleteTimelyPercent, value) matches Err(told) && told
                == message,
        },
        match options::spec_parse_duration(value@) {
            Ok(parsed) => config::assigned(config, Flag::ControlInterval, value) matches Ok(next) && next == (
            Config { control_interval: next.control_interval, ..config }) && next.control_interval == parsed,
            Err(message) => config::assigned(config, Flag::ControlInterval, value) matches Err(told) && told
                == message,
        },
        match options::spec_parse_nonzero_usize(value@) {
            Ok(parsed) => config::assigned(config, Flag::ControllerDebounceWindows, value) matches Ok(next) && next == (
            Config { controller_debounce_windows: next.controller_debounce_windows, ..config }) && next.controller_debounce_windows == parsed,
            Err(message) => config::assigned(config, Flag::ControllerDebounceWindows, value) matches Err(told) && told
                == message,
        },
        match options::spec_parse_u64(value@) {
            Ok(parsed) => config::assigned(config, Flag::WriterIncreasePercent, value) matches Ok(next) && next == (
            Config { writer_increase_percent: next.writer_increase_percent, ..config }) && next.writer_increase_percent == parsed,
            Err(message) => config::assigned(config, Flag::WriterIncreasePercent, value) matches Err(told) && told
                == message,
        },
        match options::spec_parse_u64(value@) {
            Ok(parsed) => config::assigned(config, Flag::WriterDecreasePercent, value) matches Ok(next) && next == (
            Config { writer_decrease_percent: next.writer_decrease_percent, ..config }) && next.writer_decrease_percent == parsed,
            Err(message) => config::assigned(config, Flag::WriterDecreasePercent, value) matches Err(told) && told
                == message,
        },
        match options::spec_parse_duration(value@) {
            Ok(parsed) => config::assigned(config, Flag::SyncInterval, value) matches Ok(next) && next == (
            Config { sync_interval: next.sync_interval, ..config }) && next.sync_interval == parsed,
            Err(message) => config::assigned(config, Flag::SyncInterval, value) matches Err(told) && told
                == message,
        },
        match options::spec_parse_duration(value@) {
            Ok(parsed) => config::assigned(config, Flag::SpaceSampleInterval, value) matches Ok(next) && next == (
            Config { space_sample_interval: next.space_sample_interval, ..config }) && next.space_sample_interval == parsed,
            Err(message) => config::assigned(config, Flag::SpaceSampleInterval, value) matches Err(told) && told
                == message,
        },
        match options::spec_parse_nonzero_usize(value@) {
            Ok(parsed) => config::assigned(config, Flag::DeletedSampleCapacity, value) matches Ok(next) && next == (
            Config { deleted_sample_capacity: next.deleted_sample_capacity, ..config }) && next.deleted_sample_capacity == parsed,
            Err(message) => config::assigned(config, Flag::DeletedSampleCapacity, value) matches Err(told) && told
                == message,
        },
        config::assigned(config, Flag::MetricsListen, value) matches Ok(next) && next == (Config {
            metrics_listen: next.metrics_listen,
            ..config
        }) && next.metrics_listen == config::listen_address(value),
{
}

/// An option of a store sets its own setting to what its value says, and no other; a value that says
/// nothing is told.
pub proof fn law_store_options_set_their_setting(config: Config, value: String)
    ensures
        match options::spec_parse_nonzero_usize(value@) {
            Ok(parsed) => config::assigned(config, Flag::QueueCapacity, value) matches Ok(next) && next == (
            Config { queue_capacity: next.queue_capacity, ..config }) && next.queue_capacity == parsed,
            Err(message) => config::assigned(config, Flag::QueueCapacity, value) matches Err(told) && told
                == message,
        },
        match options::spec_parse_nonzero_usize(value@) {
            Ok(parsed) => config::assigned(config, Flag::MaxUnsealedSegments, value) matches Ok(next) && next == (
            Config { max_unsealed_segments: next.max_unsealed_segments, ..config }) && next.max_unsealed_segments == parsed,
            Err(message) => config::assigned(config, Flag::MaxUnsealedSegments, value) matches Err(told) && told
                == message,
        },
        match options::spec_parse_size(value@) {
            Ok(parsed) => config::assigned(config, Flag::SegmentMaxBytes, value) matches Ok(next) && next == (
            Config { segment_max_bytes: next.segment_max_bytes, ..config }) && next.segment_max_bytes == parsed as u64,
            Err(message) => config::assigned(config, Flag::SegmentMaxBytes, value) matches Err(told) && told
                == message,
        },
        match options::spec_parse_bool(value@) {
            Ok(parsed) => config::assigned(config, Flag::StrataGc, value) matches Ok(next) && next == (
            Config { strata_gc: next.strata_gc, ..config }) && next.strata_gc == parsed,
            Err(message) => config::assigned(config, Flag::StrataGc, value) matches Err(told) && told
                == message,
        },
        match options::spec_parse_u64(value@) {
            Ok(parsed) => config::assigned(config, Flag::StrataGcMinEpochCopyDistance, value) matches Ok(next) && next == (
            Config { strata_gc_min_epoch_copy_distance: next.strata_gc_min_epoch_copy_distance, ..config }) && next.strata_gc_min_epoch_copy_distance == Some(parsed),
            Err(message) => config::assigned(config, Flag::StrataGcMinEpochCopyDistance, value) matches Err(told) && told
                == message,
        },
        match options::spec_parse_size(value@) {
            Ok(parsed) => config::assigned(config, Flag::StrataGcMaxCopyBytesPerPlan, value) matches Ok(next) && next == (
            Config { strata_gc_max_copy_bytes_per_plan: next.strata_gc_max_copy_bytes_per_plan, ..config }) && next.strata_gc_max_copy_bytes_per_plan == Some(parsed as u64),
            Err(message) => config::assigned(config, Flag::StrataGcMaxCopyBytesPerPlan, value) matches Err(told) && told
                == message,
        },
        match options::spec_parse_nonzero_usize(value@) {
            Ok(parsed) => config::assigned(config, Flag::StrataGcWorkers, value) matches Ok(next) && next == (
            Config { strata_gc_workers: next.strata_gc_workers, ..config }) && next.strata_gc_workers == Some(parsed),
            Err(message) => config::assigned(config, Flag::StrataGcWorkers, value) matches Err(told) && told
                == message,
        },
        match config::spec_parse_partitions(value@) {
            Ok(parsed) => config::assigned(config, Flag::StrataLsmPartitions, value) matches Ok(next) && next == (
            Config { strata_lsm_partitions: next.strata_lsm_partitions, ..config }) && next.strata_lsm_partitions == Some(parsed),
            Err(message) => config::assigned(config, Flag::StrataLsmPartitions, value) matches Err(told) && told
                == message,
        },
        match config::spec_parse_age(value@) {
            Ok(parsed) => config::assigned(config, Flag::StrataMemtableMaxAge, value) matches Ok(next) && next == (
            Config { strata_memtable_max_age: next.strata_memtable_max_age, ..config }) && next.strata_memtable_max_age == Some(parsed),
            Err(message) => config::assigned(config, Flag::StrataMemtableMaxAge, value) matches Err(told) && told
                == message,
        },
        match config::spec_parse_writeback(value@) {
            Ok(parsed) => config::assigned(config, Flag::StrataRelocationWriteback, value) matches Ok(next) && next == (
            Config { strata_relocation_writeback: next.strata_relocation_writeback, ..config }) && next.strata_relocation_writeback == parsed,
            Err(message) => config::assigned(config, Flag::StrataRelocationWriteback, value) matches Err(told) && told
                == message,
        },
        match options::spec_parse_nonzero_usize(value@) {
            Ok(parsed) => config::assigned(config, Flag::RelocationProfileReads, value) matches Ok(next) && next == (
            Config { relocation_profile_reads: next.relocation_profile_reads, ..config }) && next.relocation_profile_reads == parsed,
            Err(message) => config::assigned(config, Flag::RelocationProfileReads, value) matches Err(told) && told
                == message,
        },
        match options::spec_parse_duration(value@) {
            Ok(parsed) => config::assigned(config, Flag::RelocationProfileTimeout, value) matches Ok(next) && next == (
            Config { relocation_profile_timeout: next.relocation_profile_timeout, ..config }) && next.relocation_profile_timeout == parsed,
            Err(message) => config::assigned(config, Flag::RelocationProfileTimeout, value) matches Err(told) && told
                == message,
        },
        match options::spec_parse_size(value@) {
            Ok(parsed) => config::assigned(config, Flag::RocksdbMinBlobSize, value) matches Ok(next) && next == (
            Config { rocksdb_min_blob_size: next.rocksdb_min_blob_size, ..config }) && next.rocksdb_min_blob_size == parsed as u64,
            Err(message) => config::assigned(config, Flag::RocksdbMinBlobSize, value) matches Err(told) && told
                == message,
        },
        match options::spec_parse_size(value@) {
            Ok(parsed) => config::assigned(config, Flag::RocksdbBlobFileSize, value) matches Ok(next) && next == (
            Config { rocksdb_blob_file_size: next.rocksdb_blob_file_size, ..config }) && next.rocksdb_blob_file_size == parsed as u64,
            Err(message) => config::assigned(config, Flag::RocksdbBlobFileSize, value) matches Err(told) && told
                == message,
        },
        match options::spec_parse_size(value@) {
            Ok(parsed) => config::assigned(config, Flag::RocksdbWriteBufferSize, value) matches Ok(next) && next == (
            Config { rocksdb_write_buffer_size: next.rocksdb_write_buffer_size, ..config }) && next.rocksdb_write_buffer_size == parsed,
            Err(message) => config::assigned(config, Flag::RocksdbWriteBufferSize, value) matches Err(told) && told
                == message,
        },
        match options::spec_parse_size(value@) {
            Ok(parsed) => config::assigned(config, Flag::RocksdbDbWriteBufferSize, value) matches Ok(next) && next == (
            Config { rocksdb_db_write_buffer_size: next.rocksdb_db_write_buffer_size, ..config }) && next.rocksdb_db_write_buffer_size == parsed,
            Err(message) => config::assigned(config, Flag::RocksdbDbWriteBufferSize, value) matches Err(told) && told
                == message,
        },
        match options::spec_parse_nonzero_usize(value@) {
            Ok(parsed) => config::assigned(config, Flag::RocksdbMaxWriteBufferNumber, value) matches Ok(next) && next == (
            Config { rocksdb_max_write_buffer_number: next.rocksdb_max_write_buffer_number, ..config }) && next.rocksdb_max_write_buffer_number == parsed,
            Err(message) => config::assigned(config, Flag::RocksdbMaxWriteBufferNumber, value) matches Err(told) && told
                == message,
        },
        match options::spec_parse_nonzero_usize(value@) {
            Ok(parsed) => config::assigned(config, Flag::RocksdbMaxBackgroundFlushes, value) matches Ok(next) && next == (
            Config { rocksdb_max_background_flushes: next.rocksdb_max_background_flushes, ..config }) && next.rocksdb_max_background_flushes == Some(parsed),
            Err(message) => config::assigned(config, Flag::RocksdbMaxBackgroundFlushes, value) matches Err(told) && told
                == message,
        },
        match options::spec_parse_nonzero_usize(value@) {
            Ok(parsed) => config::assigned(config, Flag::RocksdbMaxSubcompactions, value) matches Ok(next) && next == (
            Config { rocksdb_max_subcompactions: next.rocksdb_max_subcompactions, ..config }) && next.rocksdb_max_subcompactions == parsed,
            Err(message) => config::assigned(config, Flag::RocksdbMaxSubcompactions, value) matches Err(told) && told
                == message,
        },
        match options::spec_parse_nonzero_usize(value@) {
            Ok(parsed) => config::assigned(config, Flag::RocksdbHighPriThreads, value) matches Ok(next) && next == (
            Config { rocksdb_high_pri_threads: next.rocksdb_high_pri_threads, ..config }) && next.rocksdb_high_pri_threads == parsed,
            Err(message) => config::assigned(config, Flag::RocksdbHighPriThreads, value) matches Err(told) && told
                == message,
        },
        match options::spec_parse_nonzero_usize(value@) {
            Ok(parsed) => config::assigned(config, Flag::RocksdbLowPriThreads, value) matches Ok(next) && next == (
            Config { rocksdb_low_pri_threads: next.rocksdb_low_pri_threads, ..config }) && next.rocksdb_low_pri_threads == parsed,
            Err(message) => config::assigned(config, Flag::RocksdbLowPriThreads, value) matches Err(told) && told
                == message,
        },
        match options::spec_parse_bool(value@) {
            Ok(parsed) => config::assigned(config, Flag::RocksdbBlobGc, value) matches Ok(next) && next == (
            Config { rocksdb_blob_gc: next.rocksdb_blob_gc, ..config }) && next.rocksdb_blob_gc == parsed,
            Err(message) => config::assigned(config, Flag::RocksdbBlobGc, value) matches Err(told) && told
                == message,
        },
        match options::spec_check_fraction(value@) {
            Ok(_) => config::assigned(config, Flag::RocksdbBlobGcAgeCutoff, value) matches Ok(next) && next == (
            Config { rocksdb_blob_gc_age_cutoff: next.rocksdb_blob_gc_age_cutoff, ..config }) && next.rocksdb_blob_gc_age_cutoff == Some(value),
            Err(message) => config::assigned(config, Flag::RocksdbBlobGcAgeCutoff, value) matches Err(told) && told
                == message,
        },
        match options::spec_check_fraction(value@) {
            Ok(_) => config::assigned(config, Flag::RocksdbBlobGcForceThreshold, value) matches Ok(next) && next == (
            Config { rocksdb_blob_gc_force_threshold: next.rocksdb_blob_gc_force_threshold, ..config }) && next.rocksdb_blob_gc_force_threshold == Some(value),
            Err(message) => config::assigned(config, Flag::RocksdbBlobGcForceThreshold, value) matches Err(told) && told
                == message,
        },
{
}

/// A run that says nothing else lasts half an hour, with keys of one MiB that are kept for five
/// minutes.
pub proof fn law_a_run_starts_with_its_defaults(config: Config)
    requires
        config::has_defaults(config),
    ensures
        config.root_dir@ == ""@,
        config.namespace@ == "realistic"@,
        config.engine == EngineKind::Strata,
        config.duration == 1_800_000_000_000,
        config.lifetime_mode == LifetimeMode::Retention,
        config.retention == 300_000_000_000,
        config.retention_jitter_percent == 0,
        config.epoch_duration == 300_000_000_000,
        config.future_epochs == 52,
        config.min_future_epoch_offset == 1,
        config.lifetime_seed == 0x5eed_1eaf_cafe_f00d,
        !config.hashed_keys,
        config.cleanup_grace == 300_000_000_000,
        config.payload_size == 1_048_576,
        config.put_ops_per_second == 0,
        config.initial_write_workers == 1,
        config.min_write_workers == 1,
        config.max_write_workers == 64,
        config.read_workers == 4,
        config.read_ops_per_second == 1_000,
        config.read_deleted_percent is None,
        config.read_p99_slo == 100_000_000,
        config.read_attainment_percent is None,
        config.delete_workers == 4,
        config.delete_lag_slo == 30_000_000_000,
        config.delete_timely_percent is None,
        config.control_interval == 5_000_000_000,
        config.controller_debounce_windows == 3,
        config.writer_increase_percent == 25,
        config.writer_decrease_percent == 25,
        config.sync_interval == 0,
        config.space_sample_interval == 10_000_000_000,
        config.deleted_sample_capacity == 1_000_000,
        config.metrics_listen is None,
        config.queue_capacity == 1024,
        config.max_unsealed_segments == 8,
        config.segment_max_bytes == 1_073_741_824,
        config.strata_gc,
        config.strata_gc_min_epoch_copy_distance is None,
        config.strata_gc_max_copy_bytes_per_plan is None,
        config.strata_gc_workers is None,
        config.strata_lsm_partitions is None,
        config.strata_memtable_max_age is None,
        config.strata_relocation_writeback is None,
        config.relocation_profile_reads == 0,
        config.relocation_profile_timeout == 600_000_000_000,
        config.rocksdb_min_blob_size == 1,
        config.rocksdb_blob_file_size == 268_435_456,
        config.rocksdb_write_buffer_size == 536_870_912,
        config.rocksdb_db_write_buffer_size == 1_073_741_824,
        config.rocksdb_max_write_buffer_number == 2,
        config.rocksdb_max_background_flushes is None,
        config.rocksdb_max_subcompactions == 1,
        config.rocksdb_high_pri_threads == 4,
        config.rocksdb_low_pri_threads == 1,
        config.rocksdb_blob_gc,
        config.rocksdb_blob_gc_age_cutoff is None,
        config.rocksdb_blob_gc_force_threshold is None,
{
}

// Command lines.

/// Arguments come in pairs of a name and a value; help, a name that is none, a name without a value
/// and a value that is refused end the reading. Whether an engine was named is remembered.
pub proof fn law_arguments_come_in_pairs(
    config: Config,
    engine_set: bool,
    name: String,
    value: String,
    rest: Seq<String>,
)
    ensures
        ({
            let help = name@ == "--help"@ || name@ == "-h"@;
            let read = config::applied(config, engine_set, seq![name, value] + rest);
            let alone = config::applied(config, engine_set, seq![name]);
            &&& config::applied(config, engine_set, Seq::empty()) == Ok::<
                (Config, bool),
                Seq<char>,
            >((config, engine_set))
            &&& help ==> read is Err && alone is Err
            &&& !help ==> match config::flag_named(name@) {
                None => read is Err && alone is Err,
                Some(flag) => alone is Err && match config::assigned(config, flag, value) {
                    Ok(next) => read == config::applied(
                        next,
                        engine_set || flag == Flag::Engine,
                        rest,
                    ),
                    Err(message) => read matches Err(told) && told == message,
                },
            }
        }),
{
    let args = seq![name, value] + rest;
    assert(args[0] == name && args[1] == value);
    assert(args.skip(2) =~= rest);
}

/// A command line is accepted where it is read through, names an engine and asks for nothing that is
/// refused; what it gives is what was read.
pub proof fn law_accepted_command_lines_are_sound(defaults: Config, args: Seq<String>)
    ensures
        config::parsed(defaults, args) matches Ok(config) ==> config::applied(defaults, false, args)
            == Ok::<(Config, bool), Seq<char>>((config, true)) && config::config_fault(
            config,
        ) is None,
        config::applied(defaults, false, args) matches Ok((config, named)) ==> (named
            && config::config_fault(config) is None ==> config::parsed(defaults, args) == Ok::<
            Config,
            Seq<char>,
        >(config)),
{
}

/// A run is accepted exactly where its times are set, its lifetimes have a window, its sizes and
/// worker counts have their bounds, and what only one store has is asked of that store.
pub proof fn law_runs_are_accepted_within_bounds(config: Config)
    ensures
        ({
            let strata = config.engine == EngineKind::Strata;
            config::config_fault(config) is None <==> {
                &&& config.root_dir@.len() > 0
                &&& config.duration > 0
                &&& config.read_p99_slo > 0
                &&& config.delete_lag_slo > 0
                &&& config.control_interval > 0
                &&& config.space_sample_interval > 0
                &&& config.retention_jitter_percent <= 100
                &&& config.lifetime_mode == LifetimeMode::Epoch ==> config.epoch_duration > 0 && 1
                    <= config.min_future_epoch_offset <= config.future_epochs <= 10_000
                &&& config.payload_size > 0
                &&& config.segment_max_bytes > 0
                &&& config.max_unsealed_segments >= 2
                &&& config.min_write_workers <= config.initial_write_workers
                    <= config.max_write_workers
                &&& config.writer_increase_percent > 0
                &&& 1 <= config.writer_decrease_percent <= 99
                &&& config.rocksdb_min_blob_size > 0 && config.rocksdb_blob_file_size > 0
                    && config.rocksdb_write_buffer_size > 0
                &&& 2 <= config.rocksdb_max_write_buffer_number <= i32::MAX
                &&& config.rocksdb_max_background_flushes matches Some(flushes) ==> 4 * flushes
                    <= i32::MAX
                &&& config.rocksdb_max_subcompactions <= u32::MAX
                &&& config.rocksdb_high_pri_threads <= i32::MAX
                &&& config.rocksdb_low_pri_threads <= i32::MAX
                &&& !strata ==> config.relocation_profile_reads == 0
                    && config.strata_gc_min_epoch_copy_distance is None
                    && config.strata_gc_workers is None && config.strata_lsm_partitions is None
                    && config.strata_memtable_max_age is None
                    && config.strata_gc_max_copy_bytes_per_plan is None
                    && config.strata_relocation_writeback is None
                &&& config.relocation_profile_reads > 0 ==> config.relocation_profile_timeout > 0
            }
        }),
{
}

// What a run asks of its store.

/// A run's store has the run's root, sizes and counts, the defaults for what the run leaves open, and
/// a GC of its own unless the run moves records itself.
pub proof fn law_runs_configure_their_store(config: Config)
    ensures
        ({
            let store = config.store_settings();
            &&& store.root_dir == config.root_dir && store.namespace == config.namespace
            &&& store.segment_max_bytes == config.segment_max_bytes
            &&& store.write_queue_capacity == config.queue_capacity
            &&& store.max_unsealed_segments == config.max_unsealed_segments
            &&& store.segment_reader_cache_capacity == 64_000
            &&& config.strata_lsm_partitions is None ==> store.lsm_partition_count == 1
            &&& config.strata_lsm_partitions matches Some(count) ==> store.lsm_partition_count
                == count
            &&& store.lsm_compaction_patch_bytes == 64 * 1024 * 1024
            &&& config.strata_memtable_max_age is None ==> store.lsm_memtable_max_age
                == 1_000_000_000
            &&& config.strata_memtable_max_age matches Some(age) ==> store.lsm_memtable_max_age
                == age
            &&& store.recovery_policy == StrataRecoveryPolicy::PointInTime
            &&& store.sealed_segment_integrity_policy == SealedSegmentIntegrityPolicy::MetadataOnly
            &&& store.gc_workers_enabled <==> config.strata_gc && config.relocation_profile_reads
                == 0
            &&& store.gc_interval == 60 * 1_000_000_000
            &&& config.strata_gc_workers is None ==> store.gc_worker_count == 1
                && store.gc_initial_worker_count == 1
            &&& config.strata_gc_workers matches Some(count) ==> store.gc_worker_count == count
                && store.gc_initial_worker_count == count
            &&& store.gc_tuning_window_cycles == 8
            &&& store.gc_sync_impact_threshold == 250 * 1_000_000
            &&& store.gc_io_bytes_per_sec == 1024 * 1024 * 1024
            &&& store.gc_min_io_bytes_per_sec == 4 * 1024 * 1024
            &&& store.gc_planner_config == config.planner_settings()
            &&& store.shard_drop_gc_drain_timeout == 30 * 1_000_000_000
            &&& store.starting_epoch == 1
            &&& store.relocation_writeback_chunk == config.strata_relocation_writeback
        }),
{
}

/// A run that moves records itself plans as eagerly as it can, another by the defaults; a distance
/// and a cap that were asked for replace what is planned with.
pub proof fn law_runs_plan_as_asked(config: Config)
    ensures
        ({
            let planner = config.planner_settings();
            let eager = config.relocation_profile_reads > 0;
            let distance = config.strata_gc_min_epoch_copy_distance;
            let cap = config.strata_gc_max_copy_bytes_per_plan;
            let or = |asked: Option<u64>, otherwise: Option<u64>|
                if asked is Some {
                    asked
                } else {
                    otherwise
                };
            &&& eager ==> planner == (GcPlannerConfig {
                max_copy_bytes_per_plan: or(cap, Some(u64::MAX)),
                max_l0_copy_bytes_per_plan: Some(u64::MAX),
                min_l0_rewrite_epoch_distance: or(distance, Some(1)),
                min_l0_rewrite_useful_ratio_bps: Some(1),
                min_reclaim_bytes: Some(1),
                min_garbage_ratio_bps: Some(1),
                min_exact_epoch_bucket_bytes: Some(u64::MAX),
                min_exact_epoch_distance: or(distance, Some(1)),
                max_exact_epoch_extension_count: Some(1),
                min_join_output_bytes: Some(u64::MAX),
                max_join_sources: Some(2),
            })
            &&& !eager ==> planner == (GcPlannerConfig {
                max_copy_bytes_per_plan: or(cap, None),
                max_l0_copy_bytes_per_plan: None,
                min_l0_rewrite_epoch_distance: or(distance, None),
                min_l0_rewrite_useful_ratio_bps: Some(6_600),
                min_reclaim_bytes: None,
                min_garbage_ratio_bps: None,
                min_exact_epoch_bucket_bytes: None,
                min_exact_epoch_distance: or(distance, None),
                max_exact_epoch_extension_count: None,
                min_join_output_bytes: None,
                max_join_sources: None,
            })
        }),
{
}

// Stress runs.

/// Stress arguments come in pairs of a name and a value; a name that is none, a name without a value
/// and a value that is refused end the reading.
pub proof fn law_stress_arguments_come_in_pairs(
    given: StressOptions,
    name: String,
    value: String,
    rest: Seq<String>,
)
    ensures
        ({
            let read = stress::stress_applied(given, seq![name, value] + rest);
            let alone = stress::stress_applied(given, seq![name]);
            &&& stress::stress_applied(given, Seq::empty()) == Ok::<StressOptions, Seq<char>>(given)
            &&& alone is Err
            &&& match stress::stress_flag_named(name@) {
                None => read is Err,
                Some(flag) => match stress::stress_assigned(given, flag, name@, value) {
                    Ok(next) => read == stress::stress_applied(next, rest),
                    Err(message) => read matches Err(told) && told == message,
                },
            }
        }),
{
    let args = seq![name, value] + rest;
    assert(args[0] == name && args[1] == value);
    assert(args.skip(2) =~= rest);
}

/// A stress option sets its own setting to the number that its value says, and no other.
pub proof fn law_stress_options_set_their_setting(
    given: StressOptions,
    name: Seq<char>,
    value: String,
)
    ensures
        stress::stress_assigned(given, StressFlag::Root, name, value) == Ok::<
            StressOptions,
            Seq<char>,
        >(StressOptions { root_dir: Some(value), ..given }),
        stress::stress_assigned(given, StressFlag::Namespace, name, value) == Ok::<
            StressOptions,
            Seq<char>,
        >(StressOptions { namespace: value, ..given }),
        match text::number(value@, u64::MAX as int) {
            Err(_) => forall|flag: StressFlag|
                flag == StressFlag::RunId || flag == StressFlag::Seed || flag
                    == StressFlag::SegmentMaxBytes || flag == StressFlag::StartingEpoch
                    ==> #[trigger] stress::stress_assigned(given, flag, name, value) is Err,
            Ok(number) => {
                &&& stress::stress_assigned(given, StressFlag::RunId, name, value) == Ok::<
                    StressOptions,
                    Seq<char>,
                >(StressOptions { run_id: Some(number as u64), ..given })
                &&& stress::stress_assigned(given, StressFlag::Seed, name, value) == Ok::<
                    StressOptions,
                    Seq<char>,
                >(StressOptions { seed: number as u64, ..given })
                &&& stress::stress_assigned(given, StressFlag::SegmentMaxBytes, name, value)
                    == Ok::<StressOptions, Seq<char>>(
                    StressOptions { segment_max_bytes: number as u64, ..given },
                )
                &&& stress::stress_assigned(given, StressFlag::StartingEpoch, name, value) == Ok::<
                    StressOptions,
                    Seq<char>,
                >(StressOptions { starting_epoch: number as u64, ..given })
            },
        },
        match text::number(value@, usize::MAX as int) {
            Err(_) => forall|flag: StressFlag|
                flag == StressFlag::WriterThreads || flag == StressFlag::ReaderThreads || flag
                    == StressFlag::PayloadBytes || flag == StressFlag::WriteQueueCapacity || flag
                    == StressFlag::MaxUnsealedSegments ==> #[trigger] stress::stress_assigned(
                    given,
                    flag,
                    name,
                    value,
                ) is Err,
            Ok(number) => number <= usize::MAX ==> {
                &&& stress::stress_assigned(given, StressFlag::WriterThreads, name, value) == Ok::<
                    StressOptions,
                    Seq<char>,
                >(StressOptions { writer_threads: number as u64 as usize, ..given })
                &&& stress::stress_assigned(given, StressFlag::ReaderThreads, name, value) == Ok::<
                    StressOptions,
                    Seq<char>,
                >(StressOptions { reader_threads: number as u64 as usize, ..given })
                &&& stress::stress_assigned(given, StressFlag::PayloadBytes, name, value) == Ok::<
                    StressOptions,
                    Seq<char>,
                >(StressOptions { payload_bytes: number as u64 as usize, ..given })
                &&& stress::stress_assigned(given, StressFlag::WriteQueueCapacity, name, value)
                    == Ok::<StressOptions, Seq<char>>(
                    StressOptions { write_queue_capacity: number as u64 as usize, ..given },
                )
                &&& stress::stress_assigned(given, StressFlag::MaxUnsealedSegments, name, value)
                    == Ok::<StressOptions, Seq<char>>(
                    StressOptions { max_unsealed_segments: number as u64 as usize, ..given },
                )
            },
        },
{
}

/// A stress run needs a root and a run, a writer, a payload and two unsealed segments, and has then
/// what was given.
pub proof fn law_stress_runs_are_accepted_within_bounds(given: StressOptions)
    ensures
        stress::stress_checked(given) is Ok <==> {
            &&& given.root_dir is Some
            &&& given.run_id is Some
            &&& given.writer_threads > 0
            &&& given.payload_bytes > 0
            &&& given.max_unsealed_segments >= 2
        },
        stress::stress_checked(given) matches Ok(run) ==> {
            &&& given.root_dir == Some(run.root_dir) && given.run_id == Some(run.run_id)
            &&& run.namespace == given.namespace && run.seed == given.seed
            &&& run.writer_threads == given.writer_threads
            &&& run.reader_threads == given.reader_threads
            &&& run.payload_bytes == given.payload_bytes
            &&& run.segment_max_bytes == given.segment_max_bytes
            &&& run.write_queue_capacity == given.write_queue_capacity
            &&& run.max_unsealed_segments == given.max_unsealed_segments
            &&& run.starting_epoch == given.starting_epoch
        },
{
}

/// A stress run that says nothing else has eight writers, four readers and small segments.
pub proof fn law_a_stress_run_starts_with_its_defaults(given: StressOptions)
    requires
        stress::stress_defaults(given),
    ensures
        given.namespace@ == "default"@,
        given.root_dir is None && given.run_id is None,
        given.seed == 1,
        given.writer_threads == 8,
        given.reader_threads == 4,
        given.payload_bytes == 128,
        given.segment_max_bytes == 512,
        given.write_queue_capacity == 4,
        given.max_unsealed_segments == 3,
        given.starting_epoch == 1,
{
}

/// A stress run's store has the run's settings, few readers, and a GC that runs every hour.
pub proof fn law_stress_runs_configure_their_store(run: StressConfig)
    ensures
        ({
            let store = run.store_settings();
            &&& store.root_dir == run.root_dir && store.namespace == run.namespace
            &&& store.segment_max_bytes == run.segment_max_bytes
            &&& store.write_queue_capacity == run.write_queue_capacity
            &&& store.max_unsealed_segments == run.max_unsealed_segments
            &&& store.segment_reader_cache_capacity == 8
            &&& store.lsm_partition_count == 1
            &&& store.lsm_compaction_patch_bytes == 64 * 1024 * 1024
            &&& store.lsm_memtable_max_age == 1_000_000_000
            &&& store.recovery_policy == StrataRecoveryPolicy::PointInTime
            &&& store.sealed_segment_integrity_policy == SealedSegmentIntegrityPolicy::MetadataOnly
            &&& store.gc_workers_enabled
            &&& store.gc_interval == 60 * 60 * 1_000_000_000
            &&& store.gc_worker_count == 1 && store.gc_initial_worker_count == 1
            &&& store.gc_tuning_window_cycles == 8
            &&& store.gc_sync_impact_threshold == 250 * 1_000_000
            &&& store.gc_io_bytes_per_sec == 32 * 1024 * 1024
            &&& store.gc_min_io_bytes_per_sec == 4 * 1024 * 1024
            &&& store.gc_planner_config == GcPlannerConfig::spec_default()
            &&& store.shard_drop_gc_drain_timeout == 30 * 1_000_000_000
            &&& store.starting_epoch == run.starting_epoch
            &&& store.relocation_writeback_chunk is None
        }),
{
}

/// A stress key names its run, its thread and its number, behind its mark and between colons.
pub proof fn law_stress_keys_name_their_origin(spec: KeySpec)
    ensures
        ({
            let colon = seq![':' as u8];
            let mark = seq!['s' as u8, 't' as u8, 'r' as u8, 'e' as u8, 's' as u8, 's' as u8];
            stress::stress_key(spec) == mark + colon + lifetimes::decimal_bytes(spec.run_id as int)
                + colon + lifetimes::decimal_bytes(spec.thread_id as int) + colon
                + lifetimes::decimal_bytes(spec.sequence as int)
        }),
{
    let colon = seq![':' as u8];
    let mark = seq!['s' as u8, 't' as u8, 'r' as u8, 'e' as u8, 's' as u8, 's' as u8];
    assert(stress::stress_prefix() =~= mark + colon);
    assert(stress::stress_key(spec) =~= mark + colon + lifetimes::decimal_bytes(spec.run_id as int)
        + colon + lifetimes::decimal_bytes(spec.thread_id as int) + colon
        + lifetimes::decimal_bytes(spec.sequence as int));
}

/// A stress option is told by its name.
pub proof fn law_stress_options_are_told_by_name(name: Seq<char>)
    ensures
        stress::stress_flag_named(name) == Some(StressFlag::Root) ==> name == "--root"@,
        stress::stress_flag_named(name) == Some(StressFlag::Namespace) ==> name == "--namespace"@,
        stress::stress_flag_named(name) == Some(StressFlag::RunId) ==> name == "--run-id"@,
        stress::stress_flag_named(name) == Some(StressFlag::Seed) ==> name == "--seed"@,
        stress::stress_flag_named(name) == Some(StressFlag::WriterThreads) ==> name == "--writer-threads"@,
        stress::stress_flag_named(name) == Some(StressFlag::ReaderThreads) ==> name == "--reader-threads"@,
        stress::stress_flag_named(name) == Some(StressFlag::PayloadBytes) ==> name == "--payload-bytes"@,
        stress::stress_flag_named(name) == Some(StressFlag::SegmentMaxBytes) ==> name == "--segment-max-bytes"@,
        stress::stress_flag_named(name) == Some(StressFlag::WriteQueueCapacity) ==> name == "--write-queue-capacity"@,
        stress::stress_flag_named(name) == Some(StressFlag::MaxUnsealedSegments) ==> name == "--max-unsealed-segments"@,
        stress::stress_flag_named(name) == Some(StressFlag::StartingEpoch) ==> name == "--starting-epoch"@,
        stress::stress_flag_named(name) is None ==> {
            &&& name != "--root"@
            &&& name != "--namespace"@
            &&& name != "--run-id"@
            &&& name != "--seed"@
            &&& name != "--writer-threads"@
            &&& name != "--reader-threads"@
            &&& name != "--payload-bytes"@
            &&& name != "--segment-max-bytes"@
            &&& name != "--write-queue-capacity"@
            &&& name != "--max-unsealed-segments"@
            &&& name != "--starting-epoch"@
        },
{
}

} // verus!
