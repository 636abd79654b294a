use goesbox::stats::{Stat, Stats};

#[test]
fn counters_start_at_zero() {
    let s = Stats::new();
    assert_eq!((s.packets, s.bytes, s.fills, s.discards), (0, 0, 0, 0));
    assert!(s.bucket_starts.is_empty());
    assert_eq!(s.apid.len(), 2048);
}

#[test]
fn frame_counts_share_a_bucket_within_a_second() {
    let mut s = Stats::new();
    s.record_at(Stat::VCDUPacket(3), 100);
    s.record_at(Stat::VCDUPacket(3), 900);
    s.record_at(Stat::VCDUPacket(5), 1099);
    s.record_at(Stat::VCDUPacket(3), 1100);
    assert_eq!(s.bucket_starts, vec![100, 1100]);
    assert_eq!(s.bucket_counts[3], 2);
    assert_eq!(s.bucket_counts[5], 1);
    assert_eq!(s.bucket_counts[64 + 3], 1);
}

#[test]
fn tallies_and_reset() {
    let mut s = Stats::new();
    s.record(Stat::Packet);
    s.record(Stat::Bytes(892));
    s.record(Stat::FillPacket);
    s.record(Stat::DiscardedDataPacket);
    s.record(Stat::APID(2047));
    s.record(Stat::APID(7));
    assert_eq!((s.packets, s.bytes, s.fills, s.discards), (1, 892, 1, 1));
    assert_eq!(s.apid[7], 1);
    assert_eq!(s.apid[2047], 1);
    s.reset();
    assert_eq!((s.packets, s.bytes, s.fills, s.discards), (0, 0, 0, 0));
    assert_eq!(s.apid[7], 1);
}
