//! The stress worker's arguments, keys and payloads.

use strata::bench::random::mix64;
use strata::stress::{
    chosen_put, key_for, payload_for, publish, reads_back, sync_delay_millis, KeySpec,
    StressConfig, PUBLISHED_WINDOW,
};

fn parse(args: &[&str]) -> Result<StressConfig, String> {
    StressConfig::parse(&args.iter().map(|arg| (*arg).to_owned()).collect())
}

fn spec(run_id: u64, thread_id: u64, sequence: u64) -> KeySpec {
    KeySpec { run_id, thread_id, sequence }
}

#[test]
fn arguments_are_read() {
    let config = parse(&[
        "--root",
        "/tmp/s",
        "--run-id",
        "3",
        "--seed",
        "9",
        "--writer-threads",
        "5",
        "--segment-max-bytes",
        "4096",
        "--starting-epoch",
        "2",
    ])
    .unwrap();
    assert_eq!(config.root_dir, "/tmp/s");
    assert_eq!((config.run_id, config.seed, config.writer_threads), (3, 9, 5));
    let store = config.store_config();
    assert_eq!((store.segment_max_bytes, store.starting_epoch), (4096, 2));
    assert!(parse(&["--run-id", "3"]).is_err());
    assert!(parse(&["--root", "/tmp/s"]).is_err());
    assert!(parse(&["--root"]).is_err());
    assert!(parse(&["--nonsense", "1"]).is_err());
    assert!(parse(&["--root", "/tmp/s", "--run-id", "x"]).is_err());
}

#[test]
fn keys_name_their_put() {
    assert_eq!(key_for(spec(3, 1, 20)), b"stress:3:1:20".to_vec());
    assert_ne!(key_for(spec(1, 11, 1)), key_for(spec(11, 1, 1)));
}

#[test]
fn payloads_can_be_computed_again() {
    let payload = payload_for(spec(3, 1, 20), 9, 21);
    assert_eq!(payload.len(), 21);
    assert_eq!(payload, payload_for(spec(3, 1, 20), 9, 21));
    assert_ne!(payload, payload_for(spec(3, 1, 21), 9, 21));
    // A longer payload begins with the shorter one.
    assert!(payload_for(spec(3, 1, 20), 9, 40).starts_with(&payload));
    let seed = 9 ^ 3u64.rotate_left(17) ^ 1u64.rotate_left(31) ^ 20u64.rotate_left(43);
    assert_eq!(payload[..8], mix64(seed).to_le_bytes());
    assert!(payload_for(spec(3, 1, 20), 9, 0).is_empty());
}

#[test]
fn syncs_are_spread() {
    for count in 0..100 {
        assert!((3..=15).contains(&sync_delay_millis(7, 1, count)));
    }
    assert_eq!(sync_delay_millis(7, 1, 2), 3 + mix64(7 ^ 1 ^ 2) % 13);
}

#[test]
fn readers_choose_from_the_last_puts() {
    let mut published = Vec::new();
    for sequence in 0..PUBLISHED_WINDOW as u64 + 2 {
        publish(&mut published, spec(1, 1, sequence));
    }
    assert_eq!(published.len(), PUBLISHED_WINDOW);
    assert_eq!(published[0], spec(1, 1, 2));
}

#[test]
fn every_fifth_put_is_read_back() {
    let read: Vec<u64> = (1..=16).filter(|sequence| reads_back(*sequence)).collect();
    assert_eq!(read, [5, 10, 15]);
}

#[test]
fn readers_go_round_the_published_puts() {
    assert_eq!(chosen_put(&vec![], 7), None);
    let published = vec![spec(1, 0, 1), spec(1, 0, 2), spec(1, 0, 3)];
    assert_eq!(chosen_put(&published, 0), Some(spec(1, 0, 1)));
    assert_eq!(chosen_put(&published, 5), Some(spec(1, 0, 3)));
    assert_eq!(chosen_put(&published, usize::MAX), Some(published[usize::MAX % 3]));
}
