//! Rolling counters of the data path: per-second frame counts per virtual channel,
//! lifetime packet counts per APID, and a few global tallies.
use vstd::prelude::*;

verus! {

/// Number of virtual channel ids.
pub const NUM_VCIDS: usize = 64;

/// Number of APIDs (11 bits).
pub const NUM_APIDS: usize = 2048;

/// Length of a frame-count bucket, in milliseconds.
pub const BUCKET_MS: u64 = 1000;

/// std::time::Instant, carried opaquely: the moment a recorder was made.
#[verifier::external_type_specification]
#[verifier::external_body]
pub struct ExInstant(std::time::Instant);

/// Relies on std::time::Instant::now: some instant; nothing is known of which.
#[verifier::external_body]
fn instant_now() -> (r: std::time::Instant) {
    std::time::Instant::now()
}

/// Relies on std::time::Instant::elapsed: the milliseconds since `t`, whatever the clock
/// says; nothing is known of the value.
#[verifier::external_body]
fn elapsed_ms(t: &std::time::Instant) -> (r: u64) {
    t.elapsed().as_millis() as u64
}

/// One event of the data path.
#[derive(Clone, Copy, Debug)]
pub enum Stat {
    /// A frame arrived.
    Packet,
    /// A frame arrived on the given virtual channel.
    VCDUPacket(u8),
    /// That many bytes arrived.
    Bytes(usize),
    /// A fill frame (virtual channel 63) arrived.
    FillPacket,
    /// A packet was discarded: a continuation with no session, or a CRC mismatch.
    DiscardedDataPacket,
    /// A packet for the given APID was routed.
    APID(u16),
}

/// The counters. Frame counts per virtual channel are kept in buckets of up to one
/// second each, oldest first: bucket `k` starts at `bucket_starts[k]` milliseconds after
/// the recorder was made and holds its 64 counts at `bucket_counts[64 * k ..]`.
pub struct Stats {
    pub time: std::time::Instant,
    pub packets: usize,
    pub bytes: usize,
    pub fills: usize,
    pub discards: usize,
    pub bucket_starts: Vec<u64>,
    pub bucket_counts: Vec<usize>,
    pub apid: Vec<usize>,
}

/// `x + 1`, held at the largest value.
pub open spec fn bump(x: usize) -> usize {
    if x == usize::MAX {
        x
    } else {
        (x + 1) as usize
    }
}

impl Stats {
    /// The counters have their shapes: one count per APID, 64 counts per bucket.
    pub open spec fn wf(&self) -> bool {
        &&& self.apid@.len() == NUM_APIDS
        &&& self.bucket_counts@.len() == NUM_VCIDS * self.bucket_starts@.len()
    }

    /// Only the APID counts differ between `self` and `o`, and only at `a`, by one.
    pub open spec fn apid_recorded(&self, o: &Stats, a: int) -> bool {
        &&& o.apid@ == self.apid@.update(a, bump(self.apid@[a]))
        &&& o.packets == self.packets
        &&& o.bytes == self.bytes
        &&& o.fills == self.fills
        &&& o.discards == self.discards
        &&& o.bucket_starts@ == self.bucket_starts@
        &&& o.bucket_counts@ == self.bucket_counts@
    }

    /// Only the discard count differs between `self` and `o`, by one.
    pub open spec fn discard_recorded(&self, o: &Stats) -> bool {
        &&& o.apid@ == self.apid@
        &&& o.packets == self.packets
        &&& o.bytes == self.bytes
        &&& o.fills == self.fills
        &&& o.discards == bump(self.discards)
        &&& o.bucket_starts@ == self.bucket_starts@
        &&& o.bucket_counts@ == self.bucket_counts@
    }

    /// All counters are zero and there is no bucket.
    pub open spec fn is_empty(&self) -> bool {
        &&& self.wf()
        &&& self.packets == 0 && self.bytes == 0 && self.fills == 0 && self.discards == 0
        &&& self.bucket_starts@.len() == 0
        &&& forall|i: int| 0 <= i < NUM_APIDS ==> self.apid@[i] == 0
    }

    /// A recorder with every counter at zero.
    pub fn new() -> (r: Stats)
        ensures
            r.is_empty(),
    {
        Stats {
            time: instant_now(),
            packets: 0,
            bytes: 0,
            fills: 0,
            discards: 0,
            bucket_starts: Vec::new(),
            bucket_counts: Vec::new(),
            apid: vec![0; NUM_APIDS],
        }
    }

    /// `o` is `self` after recording `stat` at `now_ms` milliseconds after the recorder
    /// was made.
    pub open spec fn recorded(&self, stat: Stat, now_ms: u64, o: Stats) -> bool {
        &&& (match stat {
                Stat::Packet => o.packets == bump(self.packets),
                Stat::Bytes(b) => o.bytes == self.bytes.saturating_add(b),
                Stat::FillPacket => o.fills == bump(self.fills),
                Stat::DiscardedDataPacket => o.discards == bump(self.discards),
                Stat::APID(a) => o.apid@ == (if a < NUM_APIDS {
                    self.apid@.update(a as int, bump(self.apid@[a as int]))
                } else {
                    self.apid@
                }),
                Stat::VCDUPacket(id) => {
                    let n = self.bucket_starts@.len();
                    let v = id as int % 64;
                    if n > 0 && self.bucket_starts@[n - 1] <= now_ms
                        < self.bucket_starts@[n - 1] + BUCKET_MS {
                        &&& o.bucket_starts@ == self.bucket_starts@
                        &&& o.bucket_counts@ == self.bucket_counts@.update(
                            64 * (n - 1) + v,
                            bump(self.bucket_counts@[64 * (n - 1) + v]),
                        )
                    } else {
                        &&& o.bucket_starts@ == self.bucket_starts@.push(now_ms)
                        &&& o.bucket_counts@ == self.bucket_counts@ + Seq::new(
                            64,
                            |i: int| if i == v { 1usize } else { 0usize },
                        )
                    }
                },
            })
        &&& (match stat {
                Stat::Packet => true,
                _ => o.packets == self.packets,
            })
        &&& (match stat {
                Stat::Bytes(_) => true,
                _ => o.bytes == self.bytes,
            })
        &&& (match stat {
                Stat::FillPacket => true,
                _ => o.fills == self.fills,
            })
        &&& (match stat {
                Stat::DiscardedDataPacket => true,
                _ => o.discards == self.discards,
            })
        &&& (match stat {
                Stat::APID(_) => true,
                _ => o.apid@ == self.apid@,
            })
        &&& (match stat {
                Stat::VCDUPacket(_) => true,
                _ => o.bucket_starts@ == self.bucket_starts@
                    && o.bucket_counts@ == self.bucket_counts@,
            })
    }

    /// Records one event at `now_ms` milliseconds after the recorder was made. A frame
    /// count goes to the newest bucket if it began less than a second before `now_ms`,
    /// else to a new bucket that begins at `now_ms`.
    pub fn record_at(&mut self, stat: Stat, now_ms: u64)
        requires
            old(self).wf(),
        ensures
            final(self).wf(),
            old(self).recorded(stat, now_ms, *final(self)),
    {
        match stat {
            Stat::Packet => self.packets = self.packets.saturating_add(1),
            Stat::Bytes(b) => self.bytes = self.bytes.saturating_add(b),
            Stat::FillPacket => self.fills = self.fills.saturating_add(1),
            Stat::DiscardedDataPacket => self.discards = self.discards.saturating_add(1),
            Stat::APID(a) => {
                if (a as usize) < NUM_APIDS {
                    let c = self.apid[a as usize];
                    self.apid.set(a as usize, c.saturating_add(1));
                }
            },
            Stat::VCDUPacket(id) => {
                let v = (id % 64) as usize;
                let n = self.bucket_starts.len();
                if n > 0 && self.bucket_starts[n - 1] <= now_ms && now_ms - self.bucket_starts[n
                    - 1] < BUCKET_MS {
                    let total = self.bucket_counts.len();
                    assert(NUM_VCIDS * (n - 1) + v < total);
                    let k = NUM_VCIDS * (n - 1) + v;
                    let c = self.bucket_counts[k];
                    self.bucket_counts.set(k, c.saturating_add(1));
                } else {
                    self.bucket_starts.push(now_ms);
                    let mut fresh: Vec<usize> = Vec::with_capacity(NUM_VCIDS);
                    let mut i: usize = 0;
                    while i < NUM_VCIDS
                        invariant
                            i <= NUM_VCIDS,
                            v < 64,
                            fresh@ == Seq::new(
                                i as nat,
                                |j: int| if j == v { 1usize } else { 0usize },
                            ),
                        decreases NUM_VCIDS - i,
                    {
                        fresh.push(if i == v { 1 } else { 0 });
                        assert(fresh@ =~= Seq::new(
                            (i + 1) as nat,
                            |j: int| if j == v { 1usize } else { 0usize },
                        ));
                        i = i + 1;
                    }
                    self.bucket_counts.append(&mut fresh);
                }
            },
        }
    }

    /// Records one event now (see `record_at`).
    pub fn record(&mut self, stat: Stat)
        requires
            old(self).wf(),
        ensures
            final(self).wf(),
            exists|now_ms: u64| #[trigger] old(self).recorded(stat, now_ms, *final(self)),
    {
        let now = elapsed_ms(&self.time);
        self.record_at(stat, now);
    }

    /// Sets the global tallies back to zero; the per-channel buckets and per-APID counts
    /// are kept.
    pub fn reset(&mut self)
        requires
            old(self).wf(),
        ensures
            final(self).wf(),
            final(self).packets == 0,
            final(self).bytes == 0,
            final(self).fills == 0,
            final(self).discards == 0,
            final(self).apid@ == old(self).apid@,
            final(self).bucket_starts@ == old(self).bucket_starts@,
            final(self).bucket_counts@ == old(self).bucket_counts@,
    {
        self.time = instant_now();
        self.packets = 0;
        self.bytes = 0;
        self.fills = 0;
        self.discards = 0;
    }
}

} // verus!
