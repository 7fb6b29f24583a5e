use machine_collector::{
    combine_outcomes, stamp_after, sleep_until, AcquireError, Acquirer, ConfigError, ConfigKey,
    DemoMachineConfig, ForwardStep, Forwarder, PipelineError, Sample, SinkConfig, WalkState,
    WriteVerdict, DEFAULT_BATCH_COUNT, DEFAULT_BATCH_SIZE, INITIAL_TENTHS, MAX_STEP_TENTHS,
};

const MILLI: u64 = 1_000_000;

/// Runs an acquirer to the end with a clock that advances by `work` per
/// sample, fixed steps, and a wall clock that follows the monotonic one.
fn drive(acq: &mut Acquirer, work: &[u64], wall_origin: i64) -> (Vec<Vec<Sample>>, Vec<u64>) {
    let mut now: u64 = 0;
    let mut batches = Vec::new();
    let mut sleeps = Vec::new();
    let mut i = 0;
    while !acq.is_finished() {
        now += work[i % work.len()];
        let out = acq.step(wall_origin + now as i64, 3, -2, 1, now).unwrap();
        sleeps.push(out.sleep_nanos);
        now += out.sleep_nanos;
        if let Some(b) = out.batch {
            batches.push(b);
        }
        i += 1;
    }
    (batches, sleeps)
}

/// Feeds the batches through a forwarder whose sink answers with `sink`.
fn forward(batches: Vec<Vec<Sample>>, sink: &dyn Fn(usize) -> bool) -> (Forwarder, Vec<Vec<Sample>>, Result<(), PipelineError>) {
    let mut fwd = Forwarder::new();
    let mut written = Vec::new();
    let mut attempt = 0;
    let mut items: Vec<Option<Vec<Sample>>> = batches.into_iter().map(Some).collect();
    items.push(None);
    for item in items {
        match fwd.on_receive(item) {
            ForwardStep::Write(b) => {
                let ok = sink(attempt);
                attempt += 1;
                if ok {
                    written.push(b);
                }
                fwd.on_write_result(ok);
            }
            ForwardStep::Finish => break,
        }
    }
    (fwd, written, Ok(()))
}

#[test]
fn scenario_two_batches_of_three() {
    let mut acq = Acquirer::new(2, 3, 10 * MILLI, 0).unwrap();
    let (batches, _) = drive(&mut acq, &[MILLI], 1_000);
    let (fwd, written, fwd_result) = forward(batches, &|_| true);
    assert_eq!(written.len(), 2);
    assert!(written.iter().all(|b| b.len() == 3));
    assert_eq!(fwd.delivered(), 2);
    assert_eq!(fwd.dropped(), 0);
    assert_eq!(combine_outcomes(Ok(()), fwd_result), Ok(()));
}

#[test]
fn scenario_first_write_fails() {
    let mut acq = Acquirer::new(3, 3, 10 * MILLI, 0).unwrap();
    let (batches, _) = drive(&mut acq, &[MILLI], 1_000);
    let second = batches[1].clone();
    let (fwd, written, fwd_result) = forward(batches, &|attempt| attempt != 0);
    assert_eq!(fwd.received(), 3);
    assert_eq!(fwd.dropped(), 1);
    assert_eq!(fwd.delivered(), 2);
    assert_eq!(written[0], second);
    assert_eq!(combine_outcomes(Ok(()), fwd_result), Ok(()));
}

#[test]
fn scenario_missing_setting() {
    let r = SinkConfig::resolve(Some("h".to_string()), Some("o".to_string()), None, Some("b".to_string()));
    assert!(matches!(r, Err(ConfigError::Missing(ConfigKey::SinkToken))));
    let as_pipeline = r.map(|_| ()).map_err(PipelineError::Config);
    assert_eq!(as_pipeline, Err(PipelineError::Config(ConfigError::Missing(ConfigKey::SinkToken))));
    assert!(matches!(
        DemoMachineConfig::create_from_env(None, vec![1, 2]),
        Err(ConfigError::Missing(ConfigKey::DeviceAddress))
    ));
}

#[test]
fn sink_settings_first_missing_key_in_order() {
    let s = |v: &str| Some(v.to_string());
    assert!(matches!(SinkConfig::resolve(None, None, None, None), Err(ConfigError::Missing(ConfigKey::SinkHost))));
    assert!(matches!(SinkConfig::resolve(s("h"), None, None, None), Err(ConfigError::Missing(ConfigKey::SinkOrg))));
    assert!(matches!(SinkConfig::resolve(s("h"), s("o"), s("t"), None), Err(ConfigError::Missing(ConfigKey::SinkBucket))));
    let ok = SinkConfig::resolve(s("h"), s("o"), s("t"), s("b")).unwrap();
    assert_eq!((ok.host.as_str(), ok.org.as_str(), ok.token.as_str(), ok.bucket.as_str()), ("h", "o", "t", "b"));
}

#[test]
fn device_config_holds_machine_commands() {
    let c = DemoMachineConfig::create_from_env(Some("192.168.0.10:8501".to_string()), b"MS\r".to_vec()).unwrap();
    assert_eq!(c.get_address(), "192.168.0.10:8501");
    assert_eq!(c.get_check_command(), b"?K\r".to_vec());
    assert_eq!(c.get_check_response(), "55");
    assert_eq!(c.get_set_moniter_command(), b"MS\r".to_vec());
    assert_eq!(c.get_monitor_readout_command(), b"MWR\r".to_vec());
}

#[test]
fn run_gives_exact_batches_in_stamp_order() {
    let mut acq = Acquirer::new(4, 5, 7, 100).unwrap();
    let (batches, _) = drive(&mut acq, &[2, 9, 1], 50);
    assert_eq!(batches.len(), 4);
    assert!(batches.iter().all(|b| b.len() == 5));
    let all: Vec<Sample> = batches.concat();
    assert!(all.windows(2).all(|w| w[0].timestamp_nanos < w[1].timestamp_nanos));
    assert!(matches!(acq.step(0, 0, 0, 0, 0), Err(AcquireError::Finished)));
}

#[test]
fn default_run_shape() {
    let mut acq = Acquirer::new(DEFAULT_BATCH_COUNT, DEFAULT_BATCH_SIZE, 5, 0).unwrap();
    let (batches, _) = drive(&mut acq, &[1], 0);
    assert_eq!(batches.len(), 20);
    assert!(batches.iter().all(|b| b.len() == 10));
}

#[test]
fn walk_values_follow_steps() {
    let mut acq = Acquirer::new(1, 3, 10, 0).unwrap();
    let (batches, _) = drive(&mut acq, &[1], 0);
    let t1: Vec<i64> = batches[0].iter().map(|s| s.tempureture_1).collect();
    let t2: Vec<i64> = batches[0].iter().map(|s| s.tempureture_2).collect();
    assert_eq!(t1, vec![500, 503, 506]);
    assert_eq!(t2, vec![500, 498, 496]);
    let w = WalkState::initial().advance(-100, 100, 0);
    assert_eq!((w.tempureture_1, w.tempureture_2, w.tempureture_3), (400, 600, 500));
}

#[test]
fn slow_sample_shrinks_following_sleeps() {
    // interval 10; the second sample works 25, the others 2
    let mut acq = Acquirer::new(1, 5, 10, 0).unwrap();
    let (_, sleeps) = drive(&mut acq, &[2, 25, 2, 2, 2], 0);
    // busy until 2, 35, 37, 39, 42; wakes at 10, 35, 37, 40, 50
    assert_eq!(sleeps, vec![8, 0, 0, 1, 8]);
}

#[test]
fn total_time_tracks_schedule_not_overruns() {
    let mut acq = Acquirer::new(2, 4, 10, 0).unwrap();
    let (_, sleeps) = drive(&mut acq, &[3, 3, 18, 3, 3, 3, 3, 3], 0);
    let work_total: u64 = [3u64, 3, 18, 3, 3, 3, 3, 3].iter().sum();
    let sleep_total: u64 = sleeps.iter().sum();
    assert_eq!(work_total + sleep_total, 80);
}

#[test]
fn sleep_until_tick() {
    assert_eq!(sleep_until(100, 40), 60);
    assert_eq!(sleep_until(100, 100), 0);
    assert_eq!(sleep_until(100, 170), 0);
}

#[test]
fn stamps_move_past_a_stalled_clock() {
    assert_eq!(stamp_after(None, 5), Some(5));
    assert_eq!(stamp_after(Some(10), 11), Some(11));
    assert_eq!(stamp_after(Some(10), 10), Some(11));
    assert_eq!(stamp_after(Some(10), 3), Some(11));
    assert_eq!(stamp_after(Some(i64::MAX), 3), None);
    let mut acq = Acquirer::new(1, 3, 10, 0).unwrap();
    let a = acq.step(1_000, 0, 0, 0, 0).unwrap();
    let b = acq.step(900, 0, 0, 0, 0).unwrap();
    let c = acq.step(1_000, 0, 0, 0, 0).unwrap().batch.unwrap();
    assert!(a.batch.is_none() && b.batch.is_none());
    let stamps: Vec<i64> = c.iter().map(|s| s.timestamp_nanos).collect();
    assert_eq!(stamps, vec![1_000, 1_001, 1_002]);
}

#[test]
fn stamps_exhausted_at_the_largest_stamp() {
    let mut acq = Acquirer::new(1, 3, 10, 0).unwrap();
    acq.step(i64::MAX, 0, 0, 0, 0).unwrap();
    assert!(matches!(acq.step(0, 0, 0, 0, 0), Err(AcquireError::StampsExhausted)));
}

#[test]
fn runs_that_do_not_fit_are_refused() {
    assert!(Acquirer::new(1, 0, 10, 0).is_none());
    assert!(Acquirer::new(u64::MAX, 2, 1, 0).is_none());
    assert!(Acquirer::new(2, 2, u64::MAX / 2, 1).is_none());
    assert!(Acquirer::new(0, 1, 10, 0).unwrap().is_finished());
}

#[test]
fn failed_write_does_not_stop_the_next() {
    let mut fwd = Forwarder::new();
    let batch = vec![WalkState::initial().sample_at(1)];
    assert!(matches!(fwd.on_receive(Some(batch.clone())), ForwardStep::Write(_)));
    assert_eq!(fwd.on_write_result(false), WriteVerdict::Dropped);
    assert!(fwd.is_ready());
    match fwd.on_receive(Some(batch.clone())) {
        ForwardStep::Write(b) => assert_eq!(b, batch),
        ForwardStep::Finish => panic!("the next batch must be written"),
    }
    assert_eq!(fwd.on_write_result(true), WriteVerdict::Delivered);
    assert!(matches!(fwd.on_receive(None), ForwardStep::Finish));
    assert!(!fwd.is_ready());
    assert_eq!((fwd.received(), fwd.delivered(), fwd.dropped()), (2, 1, 1));
}

#[test]
fn first_failure_wins() {
    let a = Err(PipelineError::ChannelClosed);
    let b = Err(PipelineError::Acquire(AcquireError::ClockUnavailable));
    assert_eq!(combine_outcomes(a, b), a);
    assert_eq!(combine_outcomes(Ok(()), b), b);
    assert_eq!(combine_outcomes(b, Ok(())), b);
    assert_eq!(combine_outcomes(Ok(()), Ok(())), Ok(()));
}

#[test]
fn sampling_from_clock_and_random_steps() {
    let mut acq = Acquirer::new(1, 60, 0, 0).unwrap();
    let mut samples = Vec::new();
    while !acq.is_finished() {
        if let Some(b) = acq.sample_now(0).unwrap().batch {
            samples = b;
        }
    }
    assert_eq!(samples.len(), 60);
    assert_eq!(samples[0].tempureture_1, INITIAL_TENTHS);
    assert!(samples.windows(2).all(|w| w[0].timestamp_nanos < w[1].timestamp_nanos));
    let steps: Vec<i64> = samples.windows(2).map(|w| w[1].tempureture_1 - w[0].tempureture_1).collect();
    assert!(steps.iter().all(|d| -MAX_STEP_TENTHS <= *d && *d <= MAX_STEP_TENTHS));
    // a draw that always gave its lower bound would walk straight down
    assert!(steps.iter().any(|d| *d != -MAX_STEP_TENTHS));
    // the wall clock is read: stamps lie after 2001
    assert!(samples[0].timestamp_nanos > 1_000_000_000_000_000_000);
}

#[test]
fn second_send_waits_for_a_slow_forwarder() {
    let rt = tokio::runtime::Runtime::new().unwrap();
    rt.block_on(async {
        let (tx, mut rx) = tokio::sync::mpsc::channel::<Vec<Sample>>(1);
        let consumer = tokio::spawn(async move {
            tokio::time::sleep(std::time::Duration::from_millis(80)).await;
            let mut n = 0;
            while rx.recv().await.is_some() {
                n += 1;
            }
            n
        });
        let mut acq = Acquirer::new(2, 1, 0, 0).unwrap();
        let begin = std::time::Instant::now();
        let mut send_times = Vec::new();
        while !acq.is_finished() {
            if let Some(b) = acq.step(1, 0, 0, 0, 0).unwrap().batch {
                tx.send(b).await.unwrap();
                send_times.push(begin.elapsed());
            }
        }
        drop(tx);
        assert_eq!(consumer.await.unwrap(), 2);
        assert!(send_times[0] < std::time::Duration::from_millis(40));
        assert!(send_times[1] >= std::time::Duration::from_millis(60));
    });
}

#[test]
fn mixed_write_results_are_each_counted_once() {
    let mut acq = Acquirer::new(4, 2, 10, 0).unwrap();
    let (batches, _) = drive(&mut acq, &[1], 0);
    let results = [false, true, false, true];
    let expected: Vec<Vec<Sample>> = vec![batches[1].clone(), batches[3].clone()];
    let (fwd, written, fwd_result) = forward(batches, &|attempt| results[attempt]);
    assert_eq!(written, expected);
    assert_eq!((fwd.received(), fwd.delivered(), fwd.dropped()), (4, 2, 2));
    assert!(!fwd.is_ready());
    assert_eq!(fwd_result, Ok(()));
}
