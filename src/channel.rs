//! Per-virtual-channel orchestration (frame slicing, gap detection, session routing) and
//! the demultiplexer that owns one channel per virtual channel id.
use vstd::prelude::*;
use crate::packet::{
    absorb, frame_counter, frame_payload, frame_vcid, pdu_apid, pdu_body, pdu_complete,
    pdu_crc_ok, pdu_flags, pdu_malformed, FRAME_LEN, TP_PDU, VCDU,
};
use crate::session::{
    append_result, diff_with_wrap, finish_ok, lrit_of_buffer, opened_session, opening_bytes,
    AppendOutcome, ScanlineDecoder, Session, SessionModel, LRIT,
};
use crate::stats::{bump, Stat, Stats, NUM_APIDS, NUM_VCIDS};

verus! {

/// The first-header pointer that says no packet header begins in a frame.
pub const NO_FIRST_HEADER: usize = 2047;

/// The APID of fill packets.
pub const FILL_APID: u16 = 2047;

/// The modulus of the per-channel frame counter.
pub const COUNTER_MODULUS: u32 = 0x100_0000;

/// The first-header pointer of a frame payload: the low 11 bits of its first two bytes.
pub open spec fn first_header_pointer(m: Seq<u8>) -> int {
    (m[0] as int % 8) * 256 + m[1] as int
}

/// The frame counter moved by more than one: at least one frame was lost.
pub open spec fn counter_gap(last: int, next: int) -> bool {
    (next - last) % (COUNTER_MODULUS as int) > 1
}

/// The packets that begin at offset `o` of the frame payload `m`, one after another:
/// the complete ones in order, and the incomplete last one, if any. A packet whose header
/// declares an invalid length ends the scan and is dropped.
pub open spec fn scan_packets(m: Seq<u8>, o: int) -> (Seq<Seq<u8>>, Option<Seq<u8>>)
    decreases m.len() - o,
{
    if o < 0 || o >= m.len() {
        (Seq::empty(), None)
    } else {
        let t = absorb(Seq::empty(), m.subrange(o, m.len() as int));
        if pdu_complete(t) {
            if o + t.len() >= m.len() {
                (seq![t], None)
            } else {
                let rest = scan_packets(m, o + t.len());
                (seq![t] + rest.0, rest.1)
            }
        } else if pdu_malformed(t) {
            (Seq::empty(), None)
        } else {
            (Seq::empty(), Some(t))
        }
    }
}

/// The packets a frame payload `m` completes, in order, and the packet left in flight,
/// given the packet `cur` in flight before it.
///
/// The packet in flight takes the bytes after the two-byte pointer first. If it completes
/// it is kept when the pointer is 2047 or points just past it; else it is dropped. With
/// the pointer at 2047 nothing else begins in the frame, and an unfinished packet stays in
/// flight. Otherwise new packets are read from the pointer on.
pub open spec fn frame_split(cur: Option<Seq<u8>>, m: Seq<u8>) -> (
    Seq<Seq<u8>>,
    Option<Seq<u8>>,
) {
    let ptr = first_header_pointer(m);
    match cur {
        Some(c) => {
            let t = absorb(c, m.subrange(2, m.len() as int));
            let used = t.len() - c.len();
            let done: Seq<Seq<u8>> = if pdu_complete(t) && (ptr == NO_FIRST_HEADER || used
                == ptr) {
                seq![t]
            } else {
                Seq::empty()
            };
            if ptr == NO_FIRST_HEADER {
                (done, if !pdu_complete(t) && !pdu_malformed(t) {
                    Some(t)
                } else {
                    None
                })
            } else {
                let s = scan_packets(m, 2 + ptr);
                (done + s.0, s.1)
            }
        },
        None => if ptr == NO_FIRST_HEADER {
            (Seq::empty(), None)
        } else {
            scan_packets(m, 2 + ptr)
        },
    }
}

/// The byte views of a sequence of packets.
pub open spec fn pdu_views(v: Seq<TP_PDU>) -> Seq<Seq<u8>> {
    Seq::new(v.len(), |i: int| v[i]@)
}

/// The model of an optional session.
pub open spec fn session_view(o: Option<Session>) -> Option<SessionModel> {
    match o {
        Some(s) => Some(s@),
        None => None,
    }
}

/// The reassembly state of one virtual channel.
pub struct VirtualChannel {
    id: u8,
    current_tp_pdu: Option<TP_PDU>,
    apid_map: Vec<Option<Session>>,
    last_counter: u32,
}

impl VirtualChannel {
    /// The channel's virtual channel id.
    pub closed spec fn spec_id(&self) -> u8 {
        self.id
    }

    /// The counter of the last frame seen.
    pub closed spec fn spec_last_counter(&self) -> u32 {
        self.last_counter
    }

    /// The bytes of the packet in flight, if any.
    pub closed spec fn current(&self) -> Option<Seq<u8>> {
        match self.current_tp_pdu {
            Some(p) => Some(p@),
            None => None,
        }
    }

    /// The session being assembled for APID `a`, if any.
    pub closed spec fn session(&self, a: int) -> Option<SessionModel> {
        if 0 <= a < self.apid_map@.len() {
            session_view(self.apid_map@[a])
        } else {
            None
        }
    }

    /// The sessions being assembled, one entry per APID.
    pub closed spec fn sessions(&self) -> Seq<Option<SessionModel>> {
        Seq::new(self.apid_map@.len(), |a: int| session_view(self.apid_map@[a]))
    }

    /// The channel's state is consistent.
    pub closed spec fn wf(&self) -> bool {
        &&& self.apid_map@.len() == NUM_APIDS
        &&& self.last_counter < COUNTER_MODULUS
        &&& forall|a: int|
            0 <= a < NUM_APIDS && #[trigger] self.apid_map@[a] is Some ==> self.apid_map@[a]->0@.vcid
                == self.id
        &&& match self.current_tp_pdu {
            Some(p) => p.wf() && p.spec_vcid() == self.id && !pdu_complete(p@) && !pdu_malformed(
                p@,
            ),
            None => true,
        }
    }

    /// The packets that the frame `f` completes on this channel, and the packet it leaves
    /// in flight: a counter gap drops the packet in flight first.
    pub open spec fn frame_result(&self, f: Seq<u8>) -> (Seq<Seq<u8>>, Option<Seq<u8>>) {
        frame_split(
            if counter_gap(self.spec_last_counter() as int, frame_counter(f)) {
                None
            } else {
                self.current()
            },
            frame_payload(f),
        )
    }

    /// Sessions on all APIDs but `a` are the same in `self` and `o`.
    pub open spec fn same_sessions_except(&self, o: &VirtualChannel, a: int) -> bool {
        forall|b: int| b != a ==> #[trigger] o.session(b) == self.session(b)
    }

    /// A channel with no packet in flight and no session, whose counter starts at
    /// `initial_counter`.
    pub fn new(id: u8, initial_counter: u32) -> (r: VirtualChannel)
        requires
            initial_counter < COUNTER_MODULUS,
        ensures
            r.wf(),
            r.spec_id() == id,
            r.spec_last_counter() == initial_counter,
            r.current() is None,
            forall|a: int| r.session(a) is None,
            r.sessions() == no_sessions(),
    {
        let mut apid_map: Vec<Option<Session>> = Vec::with_capacity(NUM_APIDS);
        let mut i: usize = 0;
        while i < NUM_APIDS
            invariant
                i <= NUM_APIDS,
                apid_map@.len() == i,
                forall|a: int| 0 <= a < i ==> apid_map@[a] is None,
            decreases NUM_APIDS - i,
        {
            apid_map.push(None);
            i = i + 1;
        }
        VirtualChannel { id, current_tp_pdu: None, apid_map, last_counter: initial_counter }
    }

    /// The channel's virtual channel id.
    pub fn id(&self) -> (r: u8)
        ensures
            r == self.spec_id(),
    {
        self.id
    }

    /// Reads a frame's payload into packets: checks the frame counter (a gap drops the
    /// packet in flight), finishes the packet in flight, then reads the packets that begin
    /// in the frame. Returns the completed packets in order; an unfinished last packet
    /// stays in flight.
    pub fn extract_packets(&mut self, vcdu: &VCDU) -> (r: Vec<TP_PDU>)
        requires
            old(self).wf(),
            vcdu@.len() == FRAME_LEN,
            frame_vcid(vcdu@) == old(self).spec_id(),
        ensures
            final(self).wf(),
            final(self).spec_id() == old(self).spec_id(),
            final(self).spec_last_counter() == frame_counter(vcdu@),
            forall|a: int| #[trigger] final(self).session(a) == old(self).session(a),
            final(self).sessions() == old(self).sessions(),
            pdu_views(r@) == old(self).frame_result(vcdu@).0,
            final(self).current() == old(self).frame_result(vcdu@).1,
            forall|i: int|
                #![trigger r@[i]]
                0 <= i < r@.len() ==> r@[i].wf() && pdu_complete(r@[i]@) && r@[i].spec_vcid()
                    == old(self).spec_id(),
    {
        let counter = vcdu.counter();
        if diff_with_wrap(self.last_counter, counter, COUNTER_MODULUS) > 1 {
            self.current_tp_pdu = None;
        }
        self.last_counter = counter;
        let data = vcdu.data();
        let ghost m = data@;
        let ghost cur = self.current();
        let ptr = ((data[0] % 8) as usize) * 256 + data[1] as usize;
        let mut out: Vec<TP_PDU> = Vec::new();
        let taken = self.current_tp_pdu.take();
        match taken {
            Some(p) => {
                let mut p = p;
                let used = p.process_bytes(&data[2..data.len()]);
                if p.data_complete() {
                    if ptr == NO_FIRST_HEADER || used == ptr {
                        out.push(p);
                    }
                    if ptr == NO_FIRST_HEADER {
                        proof {
                            assert(pdu_views(out@) =~= frame_split(cur, m).0);
                        }
                        return out;
                    }
                } else if ptr == NO_FIRST_HEADER {
                    if !p.header_complete() || p.packet_length().is_some() {
                        self.current_tp_pdu = Some(p);
                    }
                    proof {
                        assert(pdu_views(out@) =~= frame_split(cur, m).0);
                    }
                    return out;
                }
            },
            None => {
                if ptr == NO_FIRST_HEADER {
                    proof {
                        assert(pdu_views(out@) =~= frame_split(cur, m).0);
                    }
                    return out;
                }
            },
        }
        let mut offset: usize = 2 + ptr;
        proof {
            let s = scan_packets(m, offset as int);
            assert(pdu_views(out@) + s.0 =~= frame_split(cur, m).0);
        }
        while offset < data.len()
            invariant
                data@ == m,
                m.len() == 886,
                m == frame_payload(vcdu@),
                cur == (if counter_gap(old(self).spec_last_counter() as int, frame_counter(vcdu@)) {
                    None
                } else {
                    old(self).current()
                }),
                2 <= offset,
                self.wf(),
                self.current_tp_pdu is None,
                self.id == old(self).id,
                self.last_counter == frame_counter(vcdu@),
                self.apid_map@ == old(self).apid_map@,
                pdu_views(out@) + scan_packets(m, offset as int).0 == frame_split(cur, m).0,
                scan_packets(m, offset as int).1 == frame_split(cur, m).1,
                forall|i: int|
                    #![trigger out@[i]]
                    0 <= i < out@.len() ==> out@[i].wf() && pdu_complete(out@[i]@)
                        && out@[i].spec_vcid() == self.id,
            decreases data.len() - offset,
        {
            let mut p = TP_PDU::new(self.id);
            let rest = &data[offset..data.len()];
            let used = p.process_bytes(rest);
            assert(rest@ == m.subrange(offset as int, m.len() as int));
            assert(p@ == absorb(Seq::<u8>::empty(), m.subrange(offset as int, m.len() as int)));
            if p.data_complete() {
                let ghost before = out@;
                out.push(p);
                proof {
                    let s = scan_packets(m, offset as int);
                    let s2 = scan_packets(m, offset + used);
                    assert(pdu_views(out@) =~= pdu_views(before).push(p@));
                    if offset + used < m.len() {
                        assert(s.0 =~= seq![p@] + s2.0);
                        assert(pdu_views(out@) + s2.0 =~= pdu_views(before) + s.0);
                    } else {
                        assert(pdu_views(out@) + scan_packets(m, offset + used).0 =~= pdu_views(before) + s.0);
                    }
                }
                offset = offset + used;
            } else if p.header_complete() && p.packet_length().is_none() {
                proof {
                    assert(pdu_malformed(p@));
                    assert(scan_packets(m, offset as int).0 =~= Seq::<Seq<u8>>::empty());
                    assert(pdu_views(out@) =~= pdu_views(out@) + scan_packets(m, offset as int).0);
                }
                return out;
            } else {
                let ghost pv = p@;
                self.current_tp_pdu = Some(p);
                proof {
                    assert(!pdu_malformed(pv) && !pdu_complete(pv));
                    assert(scan_packets(m, offset as int).1 == Some(pv));
                    assert(scan_packets(m, offset as int).0 =~= Seq::<Seq<u8>>::empty());
                    assert(pdu_views(out@) =~= pdu_views(out@) + scan_packets(m, offset as int).0);
                    assert(self.current() == Some(pv));
                }
                return out;
            }
        }
        proof {
            assert(pdu_views(out@) =~= pdu_views(out@) + scan_packets(m, offset as int).0);
        }
        out
    }

    /// Routes a completed packet by its sequence flag (see `routed`), recording its APID
    /// and any discard in `stats`.
    fn process<D: ScanlineDecoder>(&mut self, tp_pdu: TP_PDU, stats: &mut Stats, decoder: &mut D) -> (r:
        Option<LRIT>)
        requires
            old(self).wf(),
            old(stats).wf(),
            tp_pdu.wf(),
            pdu_complete(tp_pdu@),
            tp_pdu.spec_vcid() == old(self).spec_id(),
        ensures
            final(self).wf(),
            final(stats).wf(),
            final(self).spec_id() == old(self).spec_id(),
            final(self).spec_last_counter() == old(self).spec_last_counter(),
            final(self).current() == old(self).current(),
            old(self).same_sessions_except(final(self), pdu_apid(tp_pdu@)),
            routed(
                old(self).session(pdu_apid(tp_pdu@)),
                tp_pdu@,
                old(self).spec_id(),
                final(self).session(pdu_apid(tp_pdu@)),
                r,
            ),
            route_recorded(*old(stats), tp_pdu@, old(self).session(pdu_apid(tp_pdu@)), *final(stats)),
            r matches Some(l) ==> l.vcid == old(self).spec_id() && exists|buf: Seq<u8>|
                lrit_of_buffer(l, buf),
            r is Some ==> is_terminator(tp_pdu@),
    {
        let apid = match tp_pdu.APID() {
            Some(a) => a,
            None => 0,
        };
        if apid == FILL_APID {
            return None;
        }
        let flags = match tp_pdu.flags() {
            Some(f) => f,
            None => 0,
        };
        let a = apid as usize;
        stats.record(Stat::APID(apid));
        if !tp_pdu.is_crc_ok() {
            stats.record(Stat::DiscardedDataPacket);
            if flags == 2 {
                let _dropped = self.apid_map[a].take();
            }
            return None;
        }
        if flags == 3 {
            let _evicted = self.apid_map[a].take();
            let session = Session::new_from_pdu(tp_pdu);
            return match session.finish() {
                Ok(l) => Some(l),
                Err(_) => None,
            };
        }
        if flags == 1 {
            let session = Session::new_from_pdu(tp_pdu);
            self.apid_map.set(a, Some(session));
            return None;
        }
        let slot = self.apid_map[a].take();
        if flags == 0 {
            match slot {
                Some(s) => {
                    let mut s = s;
                    let out = s.append(tp_pdu, decoder);
                    if !matches!(out, AppendOutcome::DecodeFailed) {
                        self.apid_map.set(a, Some(s));
                    }
                },
                None => {
                    stats.record(Stat::DiscardedDataPacket);
                },
            }
            return None;
        }
        match slot {
            Some(s) => {
                let mut s = s;
                let out = s.append(tp_pdu, decoder);
                if matches!(out, AppendOutcome::Appended) || matches!(
                    out,
                    AppendOutcome::AppendedAfterGap
                ) {
                    match s.finish() {
                        Ok(l) => Some(l),
                        Err(_) => None,
                    }
                } else {
                    None
                }
            },
            None => None,
        }
    }

    /// Extracts the packets of a non-fill frame of this channel and routes each completed
    /// one in order. Returns the LRIT files completed, in order of completion.
    pub fn process_vcdu<D: ScanlineDecoder>(
        &mut self,
        vcdu: VCDU,
        stats: &mut Stats,
        decoder: &mut D,
    ) -> (r: Vec<LRIT>)
        requires
            old(self).wf(),
            old(stats).wf(),
            vcdu@.len() == FRAME_LEN,
            frame_vcid(vcdu@) == old(self).spec_id(),
        ensures
            final(self).wf(),
            final(stats).wf(),
            final(self).spec_id() == old(self).spec_id(),
            final(self).spec_last_counter() == frame_counter(vcdu@),
            final(stats).packets == old(stats).packets,
            final(stats).fills == old(stats).fills,
            final(stats).bytes == old(stats).bytes,
            final(self).current() == old(self).frame_result(vcdu@).1,
            forall|i: int|
                #![trigger r@[i]]
                0 <= i < r@.len() ==> r@[i].vcid == old(self).spec_id() && exists|buf: Seq<u8>|
                    lrit_of_buffer(r@[i], buf),
            exists|idx: Seq<int>|
                files_follow_terminators(old(self).frame_result(vcdu@).0, idx, r@.len() as int),
            forall|a: int|
                (forall|i: int|
                    0 <= i < old(self).frame_result(vcdu@).0.len() ==> pdu_apid(
                        #[trigger] old(self).frame_result(vcdu@).0[i],
                    ) != a) ==> #[trigger] final(self).session(a) == old(self).session(a),
            frame_routed(
                old(self).frame_result(vcdu@).0,
                old(self).spec_id(),
                old(self).sessions(),
                *old(stats),
                final(self).sessions(),
                *final(stats),
                r@,
            ),
            sessions_of_channel(final(self).sessions(), old(self).spec_id()),
    {
        let ghost done = old(self).frame_result(vcdu@).0;
        let mut pdus = self.extract_packets(&vcdu);
        assert(pdu_views(pdus@) == done);
        let ghost total = pdus@.len();
        let ghost mut idx: Seq<int> = Seq::empty();
        let ghost tail = self.current();
        let mut lrits: Vec<LRIT> = Vec::new();
        let ghost mut sess: Seq<Seq<Option<SessionModel>>> = seq![self.sessions()];
        let ghost mut sts: Seq<Stats> = seq![*stats];
        let ghost mut outs: Seq<Option<LRIT>> = Seq::empty();
        assert(files_of(outs) =~= lrits@);
        while pdus.len() > 0
            invariant
                self.wf(),
                stats.wf(),
                self.spec_id() == old(self).spec_id(),
                self.spec_last_counter() == frame_counter(vcdu@),
                self.current() == tail,
                stats.packets == old(stats).packets,
                stats.fills == old(stats).fills,
                stats.bytes == old(stats).bytes,
                forall|i: int|
                    #![trigger pdus@[i]]
                    0 <= i < pdus@.len() ==> pdus@[i].wf() && pdu_complete(pdus@[i]@)
                        && pdus@[i].spec_vcid() == old(self).spec_id(),
                forall|i: int|
                    #![trigger lrits@[i]]
                    0 <= i < lrits@.len() ==> lrits@[i].vcid == old(self).spec_id() && exists|
                        buf: Seq<u8>,
                    | lrit_of_buffer(lrits@[i], buf),
                total == done.len(),
                pdus@.len() <= total,
                files_follow_terminators(done, idx, lrits@.len() as int),
                forall|i: int| 0 <= i < idx.len() ==> #[trigger] idx[i] < total - pdus@.len(),
                forall|i: int|
                    0 <= i < pdus@.len() ==> #[trigger] pdus@[i]@ == done[total - pdus@.len() + i],
                forall|a: int|
                    (forall|i: int|
                        0 <= i < total - pdus@.len() ==> pdu_apid(#[trigger] done[i]) != a)
                        ==> #[trigger] self.session(a) == old(self).session(a),
                routing_trace(done.take(total - pdus@.len()), old(self).spec_id(), sess, sts, outs),
                sess[0] == old(self).sessions(),
                sts[0] == *old(stats),
                sess.last() == self.sessions(),
                sts.last() == *stats,
                files_of(outs) == lrits@,
            decreases pdus@.len(),
        {
            let ghost before = pdus@;
            let ghost k = total - pdus@.len();
            let p = pdus.remove(0);
            assert(forall|i: int| 0 <= i < pdus@.len() ==> pdus@[i] == before[i + 1]);
            assert(p@ == done[k]);
            let ghost ss = self.sessions();
            let ghost st = *stats;
            let ghost pv = p@;
            let ghost pre: VirtualChannel = *self;
            assert(forall|a: int| 0 <= a < NUM_APIDS ==> #[trigger] self.session(a) == ss[a]);
            let res = self.process(p, stats, decoder);
            let ghost o = res;
            proof {
                let a = pdu_apid(pv);
                assert(forall|b: int| 0 <= b < NUM_APIDS ==> #[trigger] self.session(b) == self.sessions()[b]);
                assert(self.sessions().len() == ss.len());
                assert(0 <= a < ss.len());
                assert(self.session(a) == self.sessions()[a]);
                assert(routed(ss[a], pv, old(self).spec_id(), self.sessions()[a], o));
                assert forall|b: int| 0 <= b < ss.len() && b != a implies #[trigger] self.sessions()[b]
                    == ss[b] by {
                    assert(self.session(b) == pre.session(b));
                    assert(pre.session(b) == ss[b]);
                    assert(self.session(b) == self.sessions()[b]);
                }
                assert(route_recorded(st, pv, ss[a], *stats));
                assert(routing_step(ss, st, pv, old(self).spec_id(), self.sessions(), *stats, o));
                let d0 = done.take(k);
                let sess0 = sess;
                let sts0 = sts;
                let outs0 = outs;
                sess = sess.push(self.sessions());
                sts = sts.push(*stats);
                outs = outs.push(o);
                let d1 = done.take(k + 1);
                assert(d1 =~= d0.push(pv));
                assert forall|i: int| 0 <= i < d1.len() implies #[trigger] routing_step(
                    sess[i],
                    sts[i],
                    d1[i],
                    old(self).spec_id(),
                    sess[i + 1],
                    sts[i + 1],
                    outs[i],
                ) by {
                    if i < k {
                        assert(sess[i] == sess0[i] && sess[i + 1] == sess0[i + 1]);
                        assert(sts[i] == sts0[i] && sts[i + 1] == sts0[i + 1]);
                        assert(outs[i] == outs0[i] && d1[i] == d0[i]);
                        assert(routing_step(sess0[i], sts0[i], d0[i], old(self).spec_id(), sess0[i + 1], sts0[i + 1], outs0[i]));
                    }
                }
                assert(outs.drop_last() =~= outs0);
            }
            match res {
                Some(l) => {
                    lrits.push(l);
                    proof {
                        idx = idx.push(k);
                    }
                },
                None => {},
            }
        }
        proof {
            assert(done.take(total as int) =~= done);
            assert(routing_trace(done, old(self).spec_id(), sess, sts, outs));
        }
        lrits
    }
}

/// A packet that closes a file: a data packet with a matching CRC whose flag is 3
/// (unsegmented) or 2 (last).
pub open spec fn is_terminator(p: Seq<u8>) -> bool {
    pdu_apid(p) != FILL_APID && pdu_crc_ok(p) && (pdu_flags(p) == 3 || pdu_flags(p) == 2)
}

/// `idx` picks, in increasing order, one terminator of `done` for each of `n` files.
pub open spec fn files_follow_terminators(done: Seq<Seq<u8>>, idx: Seq<int>, n: int) -> bool {
    &&& idx.len() == n
    &&& forall|i: int, j: int| 0 <= i < j < idx.len() ==> idx[i] < idx[j]
    &&& forall|i: int|
        0 <= i < idx.len() ==> 0 <= #[trigger] idx[i] < done.len() && is_terminator(done[idx[i]])
}

/// No session on any APID.
pub open spec fn no_sessions() -> Seq<Option<SessionModel>> {
    Seq::new(NUM_APIDS as nat, |a: int| None)
}

/// One entry per APID, and every session belongs to channel `vcid`.
pub open spec fn sessions_of_channel(ss: Seq<Option<SessionModel>>, vcid: u8) -> bool {
    &&& ss.len() == NUM_APIDS
    &&& forall|a: int| 0 <= a < ss.len() && #[trigger] ss[a] is Some ==> ss[a]->0.vcid == vcid
}

/// Routing the complete packet `p` on channel `vcid` takes the sessions `ss` and counters
/// `st` to `ss2` and `st2` and yields `o`: the session of its APID as `routed` says, the
/// others untouched, the counters as `route_recorded` says.
pub open spec fn routing_step(
    ss: Seq<Option<SessionModel>>,
    st: Stats,
    p: Seq<u8>,
    vcid: u8,
    ss2: Seq<Option<SessionModel>>,
    st2: Stats,
    o: Option<LRIT>,
) -> bool {
    let a = pdu_apid(p);
    &&& ss2.len() == ss.len()
    &&& 0 <= a < ss.len()
    &&& routed(ss[a], p, vcid, ss2[a], o)
    &&& forall|b: int| 0 <= b < ss.len() && b != a ==> #[trigger] ss2[b] == ss[b]
    &&& route_recorded(st, p, ss[a], st2)
}

/// The files among the outcomes, in order.
pub open spec fn files_of(outs: Seq<Option<LRIT>>) -> Seq<LRIT>
    decreases outs.len(),
{
    if outs.len() == 0 {
        Seq::empty()
    } else {
        files_of(outs.drop_last()) + match outs.last() {
            Some(l) => seq![l],
            None => Seq::empty(),
        }
    }
}

/// `sess`, `sts` and `outs` are the sessions, counters and outcomes of routing the packets
/// `done` one after the other on channel `vcid`.
pub open spec fn routing_trace(
    done: Seq<Seq<u8>>,
    vcid: u8,
    sess: Seq<Seq<Option<SessionModel>>>,
    sts: Seq<Stats>,
    outs: Seq<Option<LRIT>>,
) -> bool {
    &&& sess.len() == done.len() + 1
    &&& sts.len() == done.len() + 1
    &&& outs.len() == done.len()
    &&& forall|i: int|
        0 <= i < done.len() ==> #[trigger] routing_step(
            sess[i],
            sts[i],
            done[i],
            vcid,
            sess[i + 1],
            sts[i + 1],
            outs[i],
        )
}

/// Routing the packets `done` in order on channel `vcid` takes the sessions `ss0` and
/// counters `st0` to `ss1` and `st1`, and the files it yields are `r`, in order.
pub open spec fn frame_routed(
    done: Seq<Seq<u8>>,
    vcid: u8,
    ss0: Seq<Option<SessionModel>>,
    st0: Stats,
    ss1: Seq<Option<SessionModel>>,
    st1: Stats,
    r: Seq<LRIT>,
) -> bool {
    exists|sess: Seq<Seq<Option<SessionModel>>>, sts: Seq<Stats>, outs: Seq<Option<LRIT>>|
        #[trigger] routing_trace(done, vcid, sess, sts, outs) && sess[0] == ss0 && sts[0] == st0
            && sess.last() == ss1 && sts.last() == st1 && files_of(outs) == r
}

/// What routing the complete packet `p` does to the session `s` of its APID on channel
/// `vcid`, giving the session `n` and the file `r`:
/// - fill packets (APID 2047) change nothing;
/// - a packet whose CRC fails is dropped; a last packet takes its session with it;
/// - an unsegmented packet (flag 3) evicts any session and yields its own file;
/// - a first packet (flag 1) replaces any session with a new one;
/// - a middle packet (flag 0) is appended to the session, if there is one, as
///   `append_result` says for the line its decoder gave; a session whose scanline failed
///   to decode is dropped;
/// - a last packet (flag 2) is appended the same way to the session, if there is one, which
///   is then closed: there is a file exactly when the packet was taken and the buffer makes
///   one (`finish_ok`). Only a session that decodes depends on its decoder's line.
pub open spec fn routed(
    s: Option<SessionModel>,
    p: Seq<u8>,
    vcid: u8,
    n: Option<SessionModel>,
    r: Option<LRIT>,
) -> bool {
    let f = pdu_flags(p);
    if pdu_apid(p) == FILL_APID {
        n == s && r is None
    } else if !pdu_crc_ok(p) {
        r is None && n == (if f == 2 {
            None
        } else {
            s
        })
    } else if f == 3 {
        &&& n is None
        &&& r is Some <==> finish_ok(opening_bytes(p))
        &&& r matches Some(l) ==> lrit_of_buffer(l, opening_bytes(p)) && l.vcid == vcid
    } else if f == 1 {
        r is None && n == Some(opened_session(p, vcid))
    } else if f == 0 {
        &&& r is None
        &&& match s {
            None => n is None,
            Some(s0) => exists|line: Option<Seq<u8>>|
                {
                    let (n0, o) = #[trigger] append_result(s0, p, line);
                    n == (if o == AppendOutcome::DecodeFailed {
                        None
                    } else {
                        Some(n0)
                    })
                },
        }
    } else {
        &&& n is None
        &&& match s {
            None => r is None,
            Some(s0) => exists|line: Option<Seq<u8>>|
                {
                    let (n0, o) = #[trigger] append_result(s0, p, line);
                    &&& r is Some <==> (o != AppendOutcome::DecodeFailed && finish_ok(n0.bytes))
                    &&& r matches Some(l) ==> lrit_of_buffer(l, n0.bytes) && l.vcid == vcid
                },
        }
    }
}

/// The counters after routing the packet `p` whose APID had the session `s`: the APID
/// count of a data packet goes up by one, and the discard count too when its CRC fails
/// or when it is a middle packet with no session.
pub open spec fn route_recorded(st: Stats, p: Seq<u8>, s: Option<SessionModel>, o: Stats) -> bool {
    if pdu_apid(p) == FILL_APID {
        o == st
    } else {
        &&& o.apid@ == st.apid@.update(pdu_apid(p), bump(st.apid@[pdu_apid(p)]))
        &&& o.discards == (if !pdu_crc_ok(p) || (pdu_flags(p) == 0 && s is None) {
            bump(st.discards)
        } else {
            st.discards
        })
        &&& o.packets == st.packets
        &&& o.bytes == st.bytes
        &&& o.fills == st.fills
        &&& o.bucket_starts@ == st.bucket_starts@
        &&& o.bucket_counts@ == st.bucket_counts@
    }
}

/// Routes frames by virtual channel id to one `VirtualChannel` each, made on the first
/// non-fill frame of that id.
pub struct Demultiplexer {
    vcs: Vec<Option<VirtualChannel>>,
}

/// `o` is `st` after a frame on virtual channel `vcid` was counted: once in the total
/// and once in the frame counts of `vcid` (at some instant); nothing else changes.
pub open spec fn frame_arrival_recorded(st: Stats, vcid: u8, o: Stats) -> bool {
    exists|mid: Stats, n1: u64, n2: u64|
        #[trigger] st.recorded(Stat::Packet, n1, mid) && #[trigger] mid.recorded(
            Stat::VCDUPacket(vcid),
            n2,
            o,
        )
}

/// The virtual channel id of fill frames.
pub const FILL_VCID: u8 = 63;

impl Demultiplexer {
    /// The channel of virtual channel id `id`, if one was made.
    pub closed spec fn channel(&self, id: int) -> Option<VirtualChannel> {
        if 0 <= id < self.vcs@.len() {
            self.vcs@[id]
        } else {
            None
        }
    }

    /// Every channel is consistent and sits under its own id.
    pub closed spec fn wf(&self) -> bool {
        &&& self.vcs@.len() == NUM_VCIDS
        &&& forall|i: int|
            #![trigger self.vcs@[i]]
            0 <= i < NUM_VCIDS && self.vcs@[i] is Some ==> self.vcs@[i]->0.wf()
                && self.vcs@[i]->0.spec_id() == i
    }

    /// What the frame `f` completes and leaves in flight on the channel of its virtual
    /// channel id; a channel made for it has nothing in flight and sees no gap.
    pub open spec fn frame_result(&self, f: Seq<u8>) -> (Seq<Seq<u8>>, Option<Seq<u8>>) {
        match self.channel(frame_vcid(f)) {
            Some(c) => c.frame_result(f),
            None => frame_split(None, frame_payload(f)),
        }
    }

    /// The sessions of the channel `id`; none for a channel not made yet.
    pub open spec fn sessions_for(&self, id: int) -> Seq<Option<SessionModel>> {
        match self.channel(id) {
            Some(c) => c.sessions(),
            None => no_sessions(),
        }
    }

    /// After the frame `f` was counted, routing the packets it completes on its channel
    /// takes that channel's sessions (none for a channel not made yet) and the counters to
    /// those of `after` and `st`, and yields the files `r`, in order.
    pub open spec fn frame_routed_to(&self, st0: Stats, f: Seq<u8>, after: Demultiplexer, st: Stats, r: Seq<LRIT>) -> bool {
        let id = frame_vcid(f);
        exists|st1: Stats|
            #[trigger] frame_arrival_recorded(st0, id as u8, st1) && frame_routed(
                self.frame_result(f).0,
                id as u8,
                self.sessions_for(id),
                st1,
                after.channel(id)->0.sessions(),
                st,
                r,
            )
    }

    /// A demultiplexer with no channel.
    pub fn new() -> (r: Demultiplexer)
        ensures
            r.wf(),
            forall|id: int| r.channel(id) is None,
    {
        let mut vcs: Vec<Option<VirtualChannel>> = Vec::with_capacity(NUM_VCIDS);
        let mut i: usize = 0;
        while i < NUM_VCIDS
            invariant
                i <= NUM_VCIDS,
                vcs@.len() == i,
                forall|a: int| 0 <= a < i ==> vcs@[a] is None,
            decreases NUM_VCIDS - i,
        {
            vcs.push(None);
            i = i + 1;
        }
        Demultiplexer { vcs }
    }

    /// Takes one frame: records it in `stats`, passes over fill frames, makes the frame's
    /// channel if it has none yet (seeded with the frame's own counter, so no gap is seen),
    /// and hands the frame to it. Returns the LRIT files completed, in order.
    pub fn process<D: ScanlineDecoder>(&mut self, vcdu: VCDU, stats: &mut Stats, decoder: &mut D) -> (r:
        Vec<LRIT>)
        requires
            old(self).wf(),
            old(stats).wf(),
            vcdu@.len() == FRAME_LEN,
        ensures
            final(self).wf(),
            final(stats).wf(),
            final(stats).packets == bump(old(stats).packets),
            frame_vcid(vcdu@) == FILL_VCID ==> frame_arrival_recorded(
                *old(stats),
                FILL_VCID,
                *final(stats),
            ),
            frame_vcid(vcdu@) == FILL_VCID ==> r@.len() == 0 && forall|id: int|
                #[trigger] final(self).channel(id) == old(self).channel(id),
            frame_vcid(vcdu@) != FILL_VCID ==> {
                let id = frame_vcid(vcdu@);
                &&& final(self).channel(id) is Some
                &&& final(self).channel(id)->0.spec_last_counter() == frame_counter(vcdu@)
                &&& final(self).channel(id)->0.current() == old(self).frame_result(vcdu@).1
                &&& forall|j: int| j != id ==> #[trigger] final(self).channel(j) == old(self).channel(j)
                &&& exists|idx: Seq<int>|
                    files_follow_terminators(old(self).frame_result(vcdu@).0, idx, r@.len() as int)
                &&& old(self).frame_routed_to(*old(stats), vcdu@, *final(self), *final(stats), r@)
            },
            forall|i: int|
                #![trigger r@[i]]
                0 <= i < r@.len() ==> r@[i].vcid == frame_vcid(vcdu@) && exists|buf: Seq<u8>|
                    lrit_of_buffer(r@[i], buf),
    {
        let id = vcdu.VCID();
        let ghost st0 = *stats;
        stats.record(Stat::Packet);
        let ghost mid = *stats;
        stats.record(Stat::VCDUPacket(id));
        let ghost st1 = *stats;
        assert(frame_arrival_recorded(st0, id, st1)) by {
            let n1 = choose|n: u64| st0.recorded(Stat::Packet, n, mid);
            let n2 = choose|n: u64| mid.recorded(Stat::VCDUPacket(id), n, st1);
            assert(st0.recorded(Stat::Packet, n1, mid) && mid.recorded(Stat::VCDUPacket(id), n2, st1));
        }
        if vcdu.is_fill() {
            return Vec::new();
        }
        let i = id as usize;
        let slot = self.vcs[i].take();
        let mut vc = match slot {
            Some(vc) => vc,
            None => VirtualChannel::new(id, vcdu.counter()),
        };
        proof {
            if old(self).channel(i as int) is None {
                assert(!counter_gap(vc.spec_last_counter() as int, frame_counter(vcdu@)));
            }
            assert(vc.frame_result(vcdu@) == old(self).frame_result(vcdu@));
            assert(vc.sessions() == old(self).sessions_for(i as int));
        }
        let ghost vc0 = vc;
        let lrits = vc.process_vcdu(vcdu, stats, decoder);
        let ghost vc1 = vc;
        self.vcs.set(i, Some(vc));
        proof {
            assert(vc0.spec_id() == id);
            assert(self.channel(i as int) == Some(vc1));
            assert(frame_routed(
                old(self).frame_result(vcdu@).0,
                id,
                old(self).sessions_for(i as int),
                st1,
                vc1.sessions(),
                *stats,
                lrits@,
            ));
            assert(frame_arrival_recorded(st0, id, st1));
            assert(frame_vcid(vcdu@) == i as int);
            assert(frame_vcid(vcdu@) as u8 == id);
            assert(self.channel(frame_vcid(vcdu@))->0.sessions() == vc1.sessions());
            assert(old(self).frame_routed_to(st0, vcdu@, *self, *stats, lrits@));
        }
        lrits
    }
}

} // verus!
