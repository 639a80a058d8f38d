//! Engine of a load-generating client for a stream-multiplexed transport:
//! request framing, per-stream progress accounting, the concurrency budget of
//! each direction, interval statistics and the shutdown decision. The transport
//! itself, timers and signals are driven by the caller, which hands plain values
//! (byte counts, elapsed microseconds, stream identities) to this library.

mod codec;
mod progress;
mod registry;
mod scheduler;
mod lifecycle;
mod driver;
mod stats;

pub use codec::{
    decode_header, encode_header, next_chunk_len, header_value, header_bytes, lemma_header_round_trip,
    CHUNK_SIZE, HEADER_LEN,
};
pub use progress::{Direction, StreamError, StreamProgress};
pub use registry::{lemma_finished_record, reported, saturate, unreported_sum, IntervalSample, Registry, StreamRecord};
pub use scheduler::{lemma_in_flight_bounded, Scheduler, SchedulerAction, SlotEvent};
pub use lifecycle::{close_reason, deadline_millis, Outcome, CLOSE_CODE, GRACE_MILLIS};
pub use driver::{
    batch_len, chunk_plan, expects_response, len_sum, lemma_chunk_plan_exact, plan_sum, SendAction, Upload,
};
pub use stats::{
    latencies, latency_values, rate_per_sec, rate_spec, seq_max, seq_min, seq_sum, summarize, summary_of,
    IntervalReport, LatencySummary, Stats,
};
