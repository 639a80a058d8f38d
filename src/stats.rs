use vstd::prelude::*;
use crate::progress::Direction;
use crate::registry::{saturate, unreported_sum, IntervalSample, Registry, StreamRecord};

verus! {

/// Count, minimum, maximum and saturating total of a set of latencies
/// (microseconds). All zero when there are none.
#[derive(Clone, Copy, Debug, PartialEq, Eq, Structural)]
pub struct LatencySummary {
    pub count: u64,
    pub min: u64,
    pub max: u64,
    pub total: u64,
}

/// One report of the statistics loop.
#[derive(Clone, Copy, Debug, PartialEq, Eq, Structural)]
pub struct IntervalReport {
    /// Length of the interval, microseconds.
    pub elapsed: u64,
    /// Upload bytes in the interval.
    pub sent: u64,
    /// Response bytes in the interval.
    pub received: u64,
    /// Upload throughput in the interval, bytes per second.
    pub send_rate: u64,
    /// Response throughput in the interval, bytes per second.
    pub receive_rate: u64,
    /// Uploads that finished in the interval.
    pub uploads_finished: u64,
    /// Responses that finished in the interval.
    pub responses_finished: u64,
    /// First-byte latency of the responses that finished in the interval.
    pub first_byte: LatencySummary,
    /// Total duration of the uploads that finished in the interval.
    pub upload_duration: LatencySummary,
    /// Total duration of the responses that finished in the interval.
    pub response_duration: LatencySummary,
    /// Upload bytes since the start.
    pub total_sent: u64,
    /// Response bytes since the start.
    pub total_received: u64,
    /// Time since the start, microseconds.
    pub total_elapsed: u64,
    /// Upload throughput since the start, bytes per second.
    pub total_send_rate: u64,
    /// Response throughput since the start, bytes per second.
    pub total_receive_rate: u64,
}

/// Bytes per second for `bytes` moved in `micros` microseconds; zero for an
/// empty interval, saturating at the top.
pub open spec fn rate_spec(bytes: u64, micros: u64) -> u64 {
    if micros == 0 {
        0
    } else {
        saturate(bytes * 1000000 / micros as int)
    }
}

pub fn rate_per_sec(bytes: u64, micros: u64) -> (r: u64)
    ensures
        r == rate_spec(bytes, micros),
{
    if micros == 0 {
        return 0;
    }
    assert((bytes as u128) * 1000000 < 0x1_0000_0000_0000_0000_0000_0000) by (nonlinear_arith);
    let q = (bytes as u128) * 1000000u128 / (micros as u128);
    if q > u64::MAX as u128 {
        u64::MAX
    } else {
        q as u64
    }
}

/// The latencies that the records of `s` in direction `d` carry: their
/// first-byte times where `first_byte`, else their durations.
pub open spec fn latency_values(s: Seq<StreamRecord>, d: Direction, first_byte: bool) -> Seq<u64>
    decreases s.len(),
{
    if s.len() == 0 {
        seq![]
    } else {
        let prev = latency_values(s.drop_last(), d, first_byte);
        let p = s.last().progress;
        if p.direction != d {
            prev
        } else {
            match if first_byte { p.first_byte } else { p.elapsed } {
                Some(t) => prev.push(t),
                None => prev,
            }
        }
    }
}

pub open spec fn seq_min(s: Seq<u64>) -> u64
    decreases s.len(),
{
    if s.len() == 0 {
        0
    } else if s.len() == 1 {
        s[0]
    } else if s.last() < seq_min(s.drop_last()) {
        s.last()
    } else {
        seq_min(s.drop_last())
    }
}

pub open spec fn seq_max(s: Seq<u64>) -> u64
    decreases s.len(),
{
    if s.len() == 0 {
        0
    } else if s.last() > seq_max(s.drop_last()) {
        s.last()
    } else {
        seq_max(s.drop_last())
    }
}

pub open spec fn seq_sum(s: Seq<u64>) -> int
    decreases s.len(),
{
    if s.len() == 0 {
        0
    } else {
        seq_sum(s.drop_last()) + s.last()
    }
}

pub open spec fn summary_of(s: Seq<u64>) -> LatencySummary {
    LatencySummary { count: s.len() as u64, min: seq_min(s), max: seq_max(s), total: saturate(seq_sum(s)) }
}

/// The latencies of `records` in direction `d`.
pub fn latencies(records: &Vec<StreamRecord>, d: Direction, first_byte: bool) -> (r: Vec<u64>)
    ensures
        r@ == latency_values(records@, d, first_byte),
{
    let mut out: Vec<u64> = Vec::new();
    let mut i: usize = 0;
    while i < records.len()
        invariant
            i <= records@.len(),
            out@ == latency_values(records@.take(i as int), d, first_byte),
        decreases records@.len() - i,
    {
        proof {
            assert(records@.take(i + 1).drop_last() =~= records@.take(i as int));
        }
        let p = records[i].progress;
        if p.direction == d {
            let t = if first_byte { p.first_byte } else { p.elapsed };
            if let Some(t) = t {
                out.push(t);
            }
        }
        i = i + 1;
    }
    proof {
        assert(records@.take(records@.len() as int) =~= records@);
    }
    out
}

/// Count, minimum, maximum and total of `values`.
pub fn summarize(values: &Vec<u64>) -> (r: LatencySummary)
    ensures
        r == summary_of(values@),
{
    let mut min: u64 = 0;
    let mut max: u64 = 0;
    let mut total: u64 = 0;
    let mut i: usize = 0;
    while i < values.len()
        invariant
            i <= values@.len(),
            min == seq_min(values@.take(i as int)),
            max == seq_max(values@.take(i as int)),
            total == saturate(seq_sum(values@.take(i as int))),
            seq_sum(values@.take(i as int)) >= 0,
        decreases values@.len() - i,
    {
        proof {
            assert(values@.take(i + 1).drop_last() =~= values@.take(i as int));
        }
        let v = values[i];
        if i == 0 || v < min {
            min = v;
        }
        if v > max {
            max = v;
        }
        total = total.saturating_add(v);
        i = i + 1;
    }
    proof {
        assert(values@.take(values@.len() as int) =~= values@);
    }
    LatencySummary { count: values.len() as u64, min, max, total }
}

/// Running totals of a measurement, updated once per interval.
pub struct Stats {
    pub total_sent: u64,
    pub total_received: u64,
    pub uploads_finished: u64,
    pub responses_finished: u64,
    pub total_elapsed: u64,
}

impl Stats {
    /// Totals at the start of a run: all zero.
    pub fn new() -> (r: Stats)
        ensures
            r.total_sent == 0 && r.total_received == 0 && r.uploads_finished == 0,
            r.responses_finished == 0 && r.total_elapsed == 0,
    {
        Stats { total_sent: 0, total_received: 0, uploads_finished: 0, responses_finished: 0, total_elapsed: 0 }
    }

    /// Folds one interval of `elapsed` microseconds into the totals: takes the
    /// bytes counted since the last tick from the registry (open streams
    /// included) and the streams that finished, and reports on both. The
    /// cumulative counters never decrease.
    pub fn on_interval(&mut self, registry: &mut Registry, elapsed: u64) -> (r: IntervalReport)
        requires
            old(registry).wf(),
        ensures
            final(registry).wf(),
            final(registry).finished().len() == 0,
            r.elapsed == elapsed,
            r.sent == saturate(
                old(registry).carried(Direction::Send) + unreported_sum(old(registry).active(), Direction::Send)
                    + unreported_sum(old(registry).finished(), Direction::Send),
            ),
            r.received == saturate(
                old(registry).carried(Direction::Receive) + unreported_sum(
                    old(registry).active(),
                    Direction::Receive,
                ) + unreported_sum(old(registry).finished(), Direction::Receive),
            ),
            r.send_rate == rate_spec(r.sent, elapsed),
            r.receive_rate == rate_spec(r.received, elapsed),
            r.uploads_finished == latency_values(old(registry).finished(), Direction::Send, false).len(),
            r.responses_finished == latency_values(old(registry).finished(), Direction::Receive, false).len(),
            r.first_byte == summary_of(latency_values(old(registry).finished(), Direction::Receive, true)),
            r.upload_duration == summary_of(latency_values(old(registry).finished(), Direction::Send, false)),
            r.response_duration == summary_of(
                latency_values(old(registry).finished(), Direction::Receive, false),
            ),
            final(self).total_sent == saturate(old(self).total_sent + r.sent),
            final(self).total_received == saturate(old(self).total_received + r.received),
            final(self).total_elapsed == saturate(old(self).total_elapsed + elapsed),
            final(self).uploads_finished == saturate(old(self).uploads_finished + r.uploads_finished),
            final(self).responses_finished == saturate(old(self).responses_finished + r.responses_finished),
            final(self).total_sent >= old(self).total_sent,
            final(self).total_received >= old(self).total_received,
            final(self).total_elapsed >= old(self).total_elapsed,
            final(self).uploads_finished >= old(self).uploads_finished,
            final(self).responses_finished >= old(self).responses_finished,
            r.total_sent == final(self).total_sent,
            r.total_received == final(self).total_received,
            r.total_elapsed == final(self).total_elapsed,
            r.total_send_rate == rate_spec(r.total_sent, r.total_elapsed),
            r.total_receive_rate == rate_spec(r.total_received, r.total_elapsed),
    {
        let sample: IntervalSample = registry.take_interval();
        let n_finished = sample.finished.len();
        proof {
            assert(n_finished as int <= u64::MAX);
            lemma_latency_values_len(sample.finished@, Direction::Send, false);
            lemma_latency_values_len(sample.finished@, Direction::Receive, false);
            lemma_latency_values_len(sample.finished@, Direction::Receive, true);
        }
        let upload_times = latencies(&sample.finished, Direction::Send, false);
        let response_times = latencies(&sample.finished, Direction::Receive, false);
        let first_bytes = latencies(&sample.finished, Direction::Receive, true);
        let upload_duration = summarize(&upload_times);
        let response_duration = summarize(&response_times);
        let first_byte = summarize(&first_bytes);
        self.total_sent = self.total_sent.saturating_add(sample.sent);
        self.total_received = self.total_received.saturating_add(sample.received);
        self.total_elapsed = self.total_elapsed.saturating_add(elapsed);
        self.uploads_finished = self.uploads_finished.saturating_add(upload_duration.count);
        self.responses_finished = self.responses_finished.saturating_add(response_duration.count);
        IntervalReport {
            elapsed,
            sent: sample.sent,
            received: sample.received,
            send_rate: rate_per_sec(sample.sent, elapsed),
            receive_rate: rate_per_sec(sample.received, elapsed),
            uploads_finished: upload_duration.count,
            responses_finished: response_duration.count,
            first_byte,
            upload_duration,
            response_duration,
            total_sent: self.total_sent,
            total_received: self.total_received,
            total_elapsed: self.total_elapsed,
            total_send_rate: rate_per_sec(self.total_sent, self.total_elapsed),
            total_receive_rate: rate_per_sec(self.total_received, self.total_elapsed),
        }
    }
}

proof fn lemma_latency_values_len(s: Seq<StreamRecord>, d: Direction, first_byte: bool)
    ensures
        latency_values(s, d, first_byte).len() <= s.len(),
    decreases s.len(),
{
    if s.len() > 0 {
        lemma_latency_values_len(s.drop_last(), d, first_byte);
    }
}

} // verus!
