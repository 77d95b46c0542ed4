//! The bytes of timing records and of what is measured by them. A record has a fixed form of its own
//! besides, which travels with realtime packets.
use crate::protocol::timing::{
    FrameTimingCheckpoints, PipelineTelemetryReport, StageLatencyStats, TraceSpan,
};
use crate::wire::{begins, lemma_append, Wire, WireError};
use vstd::prelude::*;

verus! {

/// The fields of `FrameTimingCheckpoints`, in the order in which they are sent.
pub type FrameTimingCheckpointsFields = (u64, (u32, (u32, (u32, (u32, (u32, (u32, (u32, (u32,
    (u32, (u32, u32)))))))))));

impl FrameTimingCheckpoints {
    pub open spec fn parts(m: FrameTimingCheckpoints) -> <FrameTimingCheckpointsFields as Wire>::Model {
        (m.capture_ts_us, (m.encode_queue_ts_us, (m.encode_done_ts_us,
            (m.packetize_ts_us, (m.send_ts_us, (m.recv_ts_us, (m.jitter_enter_ts_us,
            (m.jitter_exit_ts_us, (m.decode_enter_ts_us, (m.decode_done_ts_us,
            (m.render_submit_ts_us, m.render_done_ts_us)))))))))))
    }
}

impl Wire for FrameTimingCheckpoints {
    type Model = FrameTimingCheckpoints;

    open spec fn model(&self) -> FrameTimingCheckpoints {
        *self
    }

    open spec fn fits(m: FrameTimingCheckpoints) -> bool {
        FrameTimingCheckpointsFields::fits(Self::parts(m))
    }

    open spec fn wire(m: FrameTimingCheckpoints) -> Seq<u8> {
        FrameTimingCheckpointsFields::wire(Self::parts(m))
    }

    proof fn unique(a: FrameTimingCheckpoints, b: FrameTimingCheckpoints, s: Seq<u8>, t: Seq<u8>) {
        FrameTimingCheckpointsFields::unique(Self::parts(a), Self::parts(b), s, t);
    }

    fn put(&self, out: &mut Vec<u8>) {
        let ghost s0 = out@;
        self.capture_ts_us.put(out);
        let ghost s1 = out@;
        self.encode_queue_ts_us.put(out);
        let ghost s2 = out@;
        self.encode_done_ts_us.put(out);
        let ghost s3 = out@;
        self.packetize_ts_us.put(out);
        let ghost s4 = out@;
        self.send_ts_us.put(out);
        let ghost s5 = out@;
        self.recv_ts_us.put(out);
        let ghost s6 = out@;
        self.jitter_enter_ts_us.put(out);
        let ghost s7 = out@;
        self.jitter_exit_ts_us.put(out);
        let ghost s8 = out@;
        self.decode_enter_ts_us.put(out);
        let ghost s9 = out@;
        self.decode_done_ts_us.put(out);
        let ghost s10 = out@;
        self.render_submit_ts_us.put(out);
        self.render_done_ts_us.put(out);
        proof {
            let row = u32::wire(self.render_done_ts_us.model());
            lemma_append(s10, u32::wire(self.render_submit_ts_us.model()), row);
            let row = u32::wire(self.render_submit_ts_us.model()) + row;
            lemma_append(s9, u32::wire(self.decode_done_ts_us.model()), row);
            let row = u32::wire(self.decode_done_ts_us.model()) + row;
            lemma_append(s8, u32::wire(self.decode_enter_ts_us.model()), row);
            let row = u32::wire(self.decode_enter_ts_us.model()) + row;
            lemma_append(s7, u32::wire(self.jitter_exit_ts_us.model()), row);
            let row = u32::wire(self.jitter_exit_ts_us.model()) + row;
            lemma_append(s6, u32::wire(self.jitter_enter_ts_us.model()), row);
            let row = u32::wire(self.jitter_enter_ts_us.model()) + row;
            lemma_append(s5, u32::wire(self.recv_ts_us.model()), row);
            let row = u32::wire(self.recv_ts_us.model()) + row;
            lemma_append(s4, u32::wire(self.send_ts_us.model()), row);
            let row = u32::wire(self.send_ts_us.model()) + row;
            lemma_append(s3, u32::wire(self.packetize_ts_us.model()), row);
            let row = u32::wire(self.packetize_ts_us.model()) + row;
            lemma_append(s2, u32::wire(self.encode_done_ts_us.model()), row);
            let row = u32::wire(self.encode_done_ts_us.model()) + row;
            lemma_append(s1, u32::wire(self.encode_queue_ts_us.model()), row);
            let row = u32::wire(self.encode_queue_ts_us.model()) + row;
            lemma_append(s0, u64::wire(self.capture_ts_us.model()), row);
        }
    }

    fn take(data: &[u8], from: usize) -> (r: Result<(FrameTimingCheckpoints, usize), WireError>) {
        match FrameTimingCheckpointsFields::take(data, from) {
            Ok((fields, to)) => {
                let (capture_ts_us, (encode_queue_ts_us, (encode_done_ts_us,
                    (packetize_ts_us, (send_ts_us, (recv_ts_us,
                    (jitter_enter_ts_us, (jitter_exit_ts_us,
                    (decode_enter_ts_us, (decode_done_ts_us,
                    (render_submit_ts_us, render_done_ts_us))))))))))) = fields;
                let value = FrameTimingCheckpoints {
                    capture_ts_us,
                    encode_queue_ts_us,
                    encode_done_ts_us,
                    packetize_ts_us,
                    send_ts_us,
                    recv_ts_us,
                    jitter_enter_ts_us,
                    jitter_exit_ts_us,
                    decode_enter_ts_us,
                    decode_done_ts_us,
                    render_submit_ts_us,
                    render_done_ts_us,
                };
                Ok((value, to))
            },
            Err(e) => {
                proof {
                    assert forall|m: FrameTimingCheckpoints| Self::fits(m) implies !begins(
                        data@.subrange(from as int, data@.len() as int),
                        #[trigger] <Self as Wire>::wire(m),
                    ) by {
                        assert(FrameTimingCheckpointsFields::fits(Self::parts(m)));
                    }
                }
                Err(e)
            },
        }
    }
}

/// What is sent of `TraceSpan`.
pub ghost struct Span {
    pub name: Seq<char>,
    pub cat: Seq<char>,
    pub ph: char,
    pub ts_us: u64,
    pub dur_us: u64,
    pub pid: u32,
    pub tid: u32,
}

/// The fields of `TraceSpan`, in the order in which they are sent.
pub type TraceSpanFields = (String, (String, (char, (u64, (u64, (u32, u32))))));

impl TraceSpan {
    pub open spec fn parts(m: Span) -> <TraceSpanFields as Wire>::Model {
        (m.name, (m.cat, (m.ph, (m.ts_us, (m.dur_us, (m.pid, m.tid))))))
    }
}

impl Wire for TraceSpan {
    type Model = Span;

    open spec fn model(&self) -> Span {
        Span {
            name: self.name@,
            cat: self.cat@,
            ph: self.ph,
            ts_us: self.ts_us,
            dur_us: self.dur_us,
            pid: self.pid,
            tid: self.tid,
        }
    }

    open spec fn fits(m: Span) -> bool {
        TraceSpanFields::fits(Self::parts(m))
    }

    open spec fn wire(m: Span) -> Seq<u8> {
        TraceSpanFields::wire(Self::parts(m))
    }

    proof fn unique(a: Span, b: Span, s: Seq<u8>, t: Seq<u8>) {
        TraceSpanFields::unique(Self::parts(a), Self::parts(b), s, t);
    }

    fn put(&self, out: &mut Vec<u8>) {
        let ghost s0 = out@;
        self.name.put(out);
        let ghost s1 = out@;
        self.cat.put(out);
        let ghost s2 = out@;
        self.ph.put(out);
        let ghost s3 = out@;
        self.ts_us.put(out);
        let ghost s4 = out@;
        self.dur_us.put(out);
        let ghost s5 = out@;
        self.pid.put(out);
        self.tid.put(out);
        proof {
            let row = u32::wire(self.tid.model());
            lemma_append(s5, u32::wire(self.pid.model()), row);
            let row = u32::wire(self.pid.model()) + row;
            lemma_append(s4, u64::wire(self.dur_us.model()), row);
            let row = u64::wire(self.dur_us.model()) + row;
            lemma_append(s3, u64::wire(self.ts_us.model()), row);
            let row = u64::wire(self.ts_us.model()) + row;
            lemma_append(s2, char::wire(self.ph.model()), row);
            let row = char::wire(self.ph.model()) + row;
            lemma_append(s1, String::wire(self.cat.model()), row);
            let row = String::wire(self.cat.model()) + row;
            lemma_append(s0, String::wire(self.name.model()), row);
        }
    }

    fn take(data: &[u8], from: usize) -> (r: Result<(TraceSpan, usize), WireError>) {
        match TraceSpanFields::take(data, from) {
            Ok((fields, to)) => {
                let (name, (cat, (ph, (ts_us, (dur_us, (pid, tid)))))) = fields;
                let value = TraceSpan {
                    name,
                    cat,
                    ph,
                    ts_us,
                    dur_us,
                    pid,
                    tid,
                };
                Ok((value, to))
            },
            Err(e) => {
                proof {
                    assert forall|m: Span| Self::fits(m) implies !begins(
                        data@.subrange(from as int, data@.len() as int),
                        #[trigger] <Self as Wire>::wire(m),
                    ) by {
                        assert(TraceSpanFields::fits(Self::parts(m)));
                    }
                }
                Err(e)
            },
        }
    }
}

/// The fields of `StageLatencyStats`, in the order in which they are sent.
pub type StageLatencyStatsFields = (u32, (u32, (u32, (u32, (u32, (u32, (u32, u32)))))));

impl StageLatencyStats {
    pub open spec fn parts(m: StageLatencyStats) -> <StageLatencyStatsFields as Wire>::Model {
        (m.min_us, (m.p50_us, (m.p95_us, (m.p99_us, (m.max_us, (m.avg_us, (m.stddev_us,
            m.sample_count)))))))
    }
}

impl Wire for StageLatencyStats {
    type Model = StageLatencyStats;

    open spec fn model(&self) -> StageLatencyStats {
        *self
    }

    open spec fn fits(m: StageLatencyStats) -> bool {
        StageLatencyStatsFields::fits(Self::parts(m))
    }

    open spec fn wire(m: StageLatencyStats) -> Seq<u8> {
        StageLatencyStatsFields::wire(Self::parts(m))
    }

    proof fn unique(a: StageLatencyStats, b: StageLatencyStats, s: Seq<u8>, t: Seq<u8>) {
        StageLatencyStatsFields::unique(Self::parts(a), Self::parts(b), s, t);
    }

    fn put(&self, out: &mut Vec<u8>) {
        let ghost s0 = out@;
        self.min_us.put(out);
        let ghost s1 = out@;
        self.p50_us.put(out);
        let ghost s2 = out@;
        self.p95_us.put(out);
        let ghost s3 = out@;
        self.p99_us.put(out);
        let ghost s4 = out@;
        self.max_us.put(out);
        let ghost s5 = out@;
        self.avg_us.put(out);
        let ghost s6 = out@;
        self.stddev_us.put(out);
        self.sample_count.put(out);
        proof {
            let row = u32::wire(self.sample_count.model());
            lemma_append(s6, u32::wire(self.stddev_us.model()), row);
            let row = u32::wire(self.stddev_us.model()) + row;
            lemma_append(s5, u32::wire(self.avg_us.model()), row);
            let row = u32::wire(self.avg_us.model()) + row;
            lemma_append(s4, u32::wire(self.max_us.model()), row);
            let row = u32::wire(self.max_us.model()) + row;
            lemma_append(s3, u32::wire(self.p99_us.model()), row);
            let row = u32::wire(self.p99_us.model()) + row;
            lemma_append(s2, u32::wire(self.p95_us.model()), row);
            let row = u32::wire(self.p95_us.model()) + row;
            lemma_append(s1, u32::wire(self.p50_us.model()), row);
            let row = u32::wire(self.p50_us.model()) + row;
            lemma_append(s0, u32::wire(self.min_us.model()), row);
        }
    }

    fn take(data: &[u8], from: usize) -> (r: Result<(StageLatencyStats, usize), WireError>) {
        match StageLatencyStatsFields::take(data, from) {
            Ok((fields, to)) => {
                let (min_us, (p50_us, (p95_us, (p99_us, (max_us, (avg_us,
                    (stddev_us, sample_count))))))) = fields;
                let value = StageLatencyStats {
                    min_us,
                    p50_us,
                    p95_us,
                    p99_us,
                    max_us,
                    avg_us,
                    stddev_us,
                    sample_count,
                };
                Ok((value, to))
            },
            Err(e) => {
                proof {
                    assert forall|m: StageLatencyStats| Self::fits(m) implies !begins(
                        data@.subrange(from as int, data@.len() as int),
                        #[trigger] <Self as Wire>::wire(m),
                    ) by {
                        assert(StageLatencyStatsFields::fits(Self::parts(m)));
                    }
                }
                Err(e)
            },
        }
    }
}

/// Nine of them, one behind the other.
pub type NineStats = (StageLatencyStats, (StageLatencyStats, (StageLatencyStats, (StageLatencyStats, (StageLatencyStats, (StageLatencyStats, (StageLatencyStats,
    (StageLatencyStats, StageLatencyStats))))))));

/// The nine of a sequence.
pub open spec fn nine(m: Seq<StageLatencyStats>) -> <NineStats as Wire>::Model {
    (m[0], (m[1], (m[2], (m[3], (m[4], (m[5], (m[6], (m[7], m[8]))))))))
}

impl Wire for [StageLatencyStats; 9] {
    type Model = Seq<StageLatencyStats>;

    open spec fn model(&self) -> Seq<StageLatencyStats> {
        self@
    }

    open spec fn fits(m: Seq<StageLatencyStats>) -> bool {
        m.len() == 9 && NineStats::fits(nine(m))
    }

    open spec fn wire(m: Seq<StageLatencyStats>) -> Seq<u8> {
        NineStats::wire(nine(m))
    }

    proof fn unique(a: Seq<StageLatencyStats>, b: Seq<StageLatencyStats>, s: Seq<u8>, t: Seq<u8>) {
        NineStats::unique(nine(a), nine(b), s, t);
        assert(a =~= b);
    }

    fn put(&self, out: &mut Vec<u8>) {
        let row: NineStats = (self[0], (self[1], (self[2], (self[3], (self[4], (self[5], (self[6],
            (self[7], self[8]))))))));
        proof {
            assert(row.model() == nine(self@));
        }
        row.put(out);
    }

    fn take(data: &[u8], from: usize) -> (r: Result<([StageLatencyStats; 9], usize), WireError>) {
        match NineStats::take(data, from) {
            Ok((fields, to)) => {
                let (a, (b, (c, (d, (e, (f, (g, (h, i)))))))) = fields;
                let value = [a, b, c, d, e, f, g, h, i];
                proof {
                    assert(nine(value@) == fields.model());
                }
                Ok((value, to))
            },
            Err(e) => {
                proof {
                    assert forall|m: Seq<StageLatencyStats>| Self::fits(m) implies !begins(
                        data@.subrange(from as int, data@.len() as int),
                        #[trigger] Self::wire(m),
                    ) by {
                        assert(NineStats::fits(nine(m)));
                    }
                }
                Err(e)
            },
        }
    }
}

/// What is sent of `PipelineTelemetryReport`.
pub ghost struct Report {
    pub session_id: u32,
    pub timestamp_ms: u64,
    pub fps_bits: u32,
    pub bitrate_kbps: u32,
    pub stage_stats: Seq<StageLatencyStats>,
    pub e2e_stats: StageLatencyStats,
    pub jitter_buffer_depth: usize,
    pub packets_lost: u64,
    pub late_frames_dropped: u64,
    pub queue_full_dropped: u64,
    pub corrupt_frames_dropped: u64,
}

/// The fields of `PipelineTelemetryReport`, in the order in which they are sent.
pub type PipelineTelemetryReportFields = (u32, (u64, (u32, (u32, ([StageLatencyStats; 9],
    (StageLatencyStats, (usize, (u64, (u64, (u64, u64))))))))));

impl PipelineTelemetryReport {
    pub open spec fn parts(m: Report) -> <PipelineTelemetryReportFields as Wire>::Model {
        (m.session_id, (m.timestamp_ms, (m.fps_bits, (m.bitrate_kbps, (m.stage_stats,
            (m.e2e_stats, (m.jitter_buffer_depth, (m.packets_lost,
            (m.late_frames_dropped, (m.queue_full_dropped,
            m.corrupt_frames_dropped))))))))))
    }
}

impl Wire for PipelineTelemetryReport {
    type Model = Report;

    open spec fn model(&self) -> Report {
        Report {
            session_id: self.session_id,
            timestamp_ms: self.timestamp_ms,
            fps_bits: self.fps_bits,
            bitrate_kbps: self.bitrate_kbps,
            stage_stats: self.stage_stats@,
            e2e_stats: self.e2e_stats,
            jitter_buffer_depth: self.jitter_buffer_depth,
            packets_lost: self.packets_lost,
            late_frames_dropped: self.late_frames_dropped,
            queue_full_dropped: self.queue_full_dropped,
            corrupt_frames_dropped: self.corrupt_frames_dropped,
        }
    }

    open spec fn fits(m: Report) -> bool {
        PipelineTelemetryReportFields::fits(Self::parts(m))
    }

    open spec fn wire(m: Report) -> Seq<u8> {
        PipelineTelemetryReportFields::wire(Self::parts(m))
    }

    proof fn unique(a: Report, b: Report, s: Seq<u8>, t: Seq<u8>) {
        PipelineTelemetryReportFields::unique(Self::parts(a), Self::parts(b), s, t);
    }

    fn put(&self, out: &mut Vec<u8>) {
        let ghost s0 = out@;
        self.session_id.put(out);
        let ghost s1 = out@;
        self.timestamp_ms.put(out);
        let ghost s2 = out@;
        self.fps_bits.put(out);
        let ghost s3 = out@;
        self.bitrate_kbps.put(out);
        let ghost s4 = out@;
        self.stage_stats.put(out);
        let ghost s5 = out@;
        self.e2e_stats.put(out);
        let ghost s6 = out@;
        self.jitter_buffer_depth.put(out);
        let ghost s7 = out@;
        self.packets_lost.put(out);
        let ghost s8 = out@;
        self.late_frames_dropped.put(out);
        let ghost s9 = out@;
        self.queue_full_dropped.put(out);
        self.corrupt_frames_dropped.put(out);
        proof {
            let row = u64::wire(self.corrupt_frames_dropped.model());
            lemma_append(s9, u64::wire(self.queue_full_dropped.model()), row);
            let row = u64::wire(self.queue_full_dropped.model()) + row;
            lemma_append(s8, u64::wire(self.late_frames_dropped.model()), row);
            let row = u64::wire(self.late_frames_dropped.model()) + row;
            lemma_append(s7, u64::wire(self.packets_lost.model()), row);
            let row = u64::wire(self.packets_lost.model()) + row;
            lemma_append(s6, usize::wire(self.jitter_buffer_depth.model()), row);
            let row = usize::wire(self.jitter_buffer_depth.model()) + row;
            lemma_append(s5, StageLatencyStats::wire(self.e2e_stats.model()), row);
            let row = StageLatencyStats::wire(self.e2e_stats.model()) + row;
            lemma_append(s4, <[StageLatencyStats; 9]>::wire(self.stage_stats.model()), row);
            let row = <[StageLatencyStats; 9]>::wire(self.stage_stats.model()) + row;
            lemma_append(s3, u32::wire(self.bitrate_kbps.model()), row);
            let row = u32::wire(self.bitrate_kbps.model()) + row;
            lemma_append(s2, u32::wire(self.fps_bits.model()), row);
            let row = u32::wire(self.fps_bits.model()) + row;
            lemma_append(s1, u64::wire(self.timestamp_ms.model()), row);
            let row = u64::wire(self.timestamp_ms.model()) + row;
            lemma_append(s0, u32::wire(self.session_id.model()), row);
        }
    }

    fn take(data: &[u8], from: usize) -> (r: Result<(PipelineTelemetryReport, usize), WireError>) {
        match PipelineTelemetryReportFields::take(data, from) {
            Ok((fields, to)) => {
                let (session_id, (timestamp_ms, (fps_bits, (bitrate_kbps,
                    (stage_stats, (e2e_stats, (jitter_buffer_depth,
                    (packets_lost, (late_frames_dropped, (queue_full_dropped,
                    corrupt_frames_dropped)))))))))) = fields;
                let value = PipelineTelemetryReport {
                    session_id,
                    timestamp_ms,
                    fps_bits,
                    bitrate_kbps,
                    stage_stats,
                    e2e_stats,
                    jitter_buffer_depth,
                    packets_lost,
                    late_frames_dropped,
                    queue_full_dropped,
                    corrupt_frames_dropped,
                };
                Ok((value, to))
            },
            Err(e) => {
                proof {
                    assert forall|m: Report| Self::fits(m) implies !begins(
                        data@.subrange(from as int, data@.len() as int),
                        #[trigger] <Self as Wire>::wire(m),
                    ) by {
                        assert(PipelineTelemetryReportFields::fits(Self::parts(m)));
                    }
                }
                Err(e)
            },
        }
    }
}

} // verus!
