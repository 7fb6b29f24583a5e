//! A small telemetry pipeline: a drift-corrected acquirer that batches
//! simulated temperature readings, and a forwarder that hands each batch to a
//! time-series sink with per-batch failure isolation.
//!
//! The decisions of both tasks are verified state machines; the program
//! around them performs the sleeps, the channel hand-off and the sink writes.
mod acquirer;
mod config;
mod forwarder;
mod outside;
mod pipeline;
mod sample;
mod schedule;

pub use acquirer::{
    handed_out, is_run, lemma_run_hands_out_batches, lemma_run_shape, run_fits, AcquireError, Acquirer, AcquirerModel, SampleOutcome,
};
pub use config::{
    check_command_bytes, check_response_chars, monitor_readout_bytes, ConfigError, ConfigKey,
    DemoMachineConfig, DeviceConfigModel, SinkConfig,
};
pub use forwarder::{
    after_writes, count_results, lemma_failure_keeps_forwarding, lemma_forwarding_run,
    ForwardStep, Forwarder, ForwarderModel, WriteVerdict,
};
pub use pipeline::{
    combine_outcomes, PipelineError, DEFAULT_BATCH_COUNT, DEFAULT_BATCH_SIZE,
    DEFAULT_CHANNEL_CAPACITY, DEFAULT_INTERVAL_NANOS,
};
pub use sample::{
    next_stamp, stamp_after, stamps_increasing, step_in_range, walk_within, Sample, WalkState,
    INITIAL_TENTHS, MAX_STEP_TENTHS,
};
pub use schedule::{
    lateness, lemma_lag_does_not_grow, lemma_never_early, lemma_single_overrun_bounded,
    sleep_for, sleep_until, tick_at, wake_at,
};
