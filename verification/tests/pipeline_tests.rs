use logcfg::queue::{DeliveryQueue, EnqueueOutcome};
use logcfg::rolling::{bucket_of, file_name, RollEffect, RollState};
use logcfg::sink::{resolve, resolve_deferred, OpenAttempt, ResolvedSink, WriteEffect};
use logcfg::timefmt::{civil_from_epoch, render_rfc3339, render_uptime};
use logcfg::{BackpressureBehaviour, NonBlocking, Roll, Rolling, Rotation, Writer};

fn record(i: usize) -> Vec<u8> {
    format!("record {}\n", i).into_bytes()
}

/// Blocking overflow: a slow consumer makes the producer wait, but every
/// record comes out, in order, with nothing dropped.
#[test]
fn block_policy_delivers_everything_in_order() {
    let capacity = 4;
    let extra = 3;
    let mut q = DeliveryQueue::new(&NonBlocking {
        buffer_length: Some(capacity),
        behaviour: Some(BackpressureBehaviour::Block),
    });
    let mut delivered: Vec<Vec<u8>> = Vec::new();
    let mut blocked = 0;
    for i in 0..capacity + extra {
        loop {
            match q.enqueue(record(i)) {
                EnqueueOutcome::Enqueued => break,
                EnqueueOutcome::WouldBlock => {
                    // the producer is suspended until the worker makes room
                    blocked += 1;
                    if let Some(rec) = q.worker_step() {
                        delivered.push(rec);
                    }
                }
                EnqueueOutcome::Dropped => panic!("the blocking policy never drops"),
            }
        }
    }
    assert!(blocked > 0, "the scenario must actually overflow");
    assert_eq!(q.dropped_count(), 0);
    let mut rest = q.shutdown();
    delivered.append(&mut rest);
    assert_eq!(delivered.len(), capacity + extra);
    for (i, rec) in delivered.iter().enumerate() {
        assert_eq!(rec, &record(i));
    }
}

/// Dropping overflow: the same scenario without a worker keeps the first
/// `capacity` records in order and counts exactly the overflow.
#[test]
fn drop_policy_counts_overflow_exactly() {
    let capacity = 4;
    let extra = 3;
    let mut q = DeliveryQueue::new(&NonBlocking {
        buffer_length: Some(capacity),
        behaviour: Some(BackpressureBehaviour::Drop),
    });
    for i in 0..capacity + extra {
        let out = q.enqueue(record(i));
        if i < capacity {
            assert_eq!(out, EnqueueOutcome::Enqueued);
        } else {
            assert_eq!(out, EnqueueOutcome::Dropped);
        }
    }
    assert_eq!(q.dropped_count(), extra as u64);
    assert_eq!(q.queued_count(), capacity);
    // shutdown still drains what was accepted, in order: dropping only
    // ever happens on overflow
    let rest = q.shutdown();
    assert_eq!(rest.len(), capacity);
    for (i, rec) in rest.iter().enumerate() {
        assert_eq!(rec, &record(i));
    }
    assert_eq!(q.dropped_count(), extra as u64);
}

#[test]
fn queue_defaults_are_lossy_with_large_buffer() {
    let q = DeliveryQueue::new(&NonBlocking {
        buffer_length: None,
        behaviour: None,
    });
    assert_eq!(q.capacity, 128000);
    assert_eq!(q.policy, BackpressureBehaviour::Drop);
}

/// A simulated clock crossing three minute boundaries creates exactly
/// three files, each holding only its own bucket's records; a retention
/// limit of two then prunes the oldest at the next boundary.
#[test]
fn minutely_rotation_partitions_by_bucket() {
    let mut roll = RollState::new(
        Rotation::Minutely,
        Some("app".to_string()),
        Some("log".to_string()),
        None,
    );
    // two writes in minute 100, one in 101, one in 102
    assert!(matches!(
        roll.write(&b"a".to_vec(), 6000),
        RollEffect::Rotated(_)
    ));
    assert!(matches!(roll.write(&b"b".to_vec(), 6030), RollEffect::Appended));
    assert!(matches!(
        roll.write(&b"c".to_vec(), 6061),
        RollEffect::Rotated(_)
    ));
    assert!(matches!(
        roll.write(&b"d".to_vec(), 6125),
        RollEffect::Rotated(_)
    ));
    assert_eq!(roll.file_count(), 3);
    let f0 = roll.file_at(0);
    let f1 = roll.file_at(1);
    let f2 = roll.file_at(2);
    assert_eq!(f0.name, "app.1970-01-01-01-40.log");
    assert_eq!(f1.name, "app.1970-01-01-01-41.log");
    assert_eq!(f2.name, "app.1970-01-01-01-42.log");
    assert_eq!(f0.data, b"ab".to_vec());
    assert_eq!(f1.data, b"c".to_vec());
    assert_eq!(f2.data, b"d".to_vec());
    assert_ne!(f0.bucket, f1.bucket);
    assert_ne!(f1.bucket, f2.bucket);
}

#[test]
fn retention_limit_prunes_oldest() {
    let mut roll = RollState::new(Rotation::Minutely, Some("app".to_string()), None, Some(2));
    roll.write(&b"a".to_vec(), 0);
    roll.write(&b"b".to_vec(), 60);
    roll.write(&b"c".to_vec(), 120);
    assert_eq!(roll.file_count(), 2);
    roll.write(&b"d".to_vec(), 180);
    assert_eq!(roll.file_count(), 2);
    assert_eq!(roll.file_at(0).name, "app.1970-01-01-00-02");
    assert_eq!(roll.file_at(1).name, "app.1970-01-01-00-03");
}

#[test]
fn never_rotation_keeps_one_fixed_name() {
    let mut roll = RollState::new(
        Rotation::Never,
        Some("app".to_string()),
        Some("log".to_string()),
        None,
    );
    assert!(matches!(
        roll.write(&b"x".to_vec(), 5),
        RollEffect::Rotated(name) if name == "app.log"
    ));
    assert!(matches!(
        roll.write(&b"y".to_vec(), 900000),
        RollEffect::Appended
    ));
    assert_eq!(roll.file_count(), 1);
    assert_eq!(roll.file_at(0).data, b"xy".to_vec());
}

#[test]
fn file_names_follow_rotation_granularity() {
    assert_eq!(
        file_name(Rotation::Minutely, &Some("p".to_string()), &Some("s".to_string()), 6000),
        "p.1970-01-01-01-40.s"
    );
    assert_eq!(
        file_name(Rotation::Hourly, &None, &Some("log".to_string()), 7200),
        "1970-01-01-02.log"
    );
    assert_eq!(
        file_name(Rotation::Daily, &Some("p".to_string()), &None, 86400),
        "p.1970-01-02"
    );
    assert_eq!(file_name(Rotation::Never, &None, &None, 86400), "1970-01-02");
    assert_eq!(bucket_of(Rotation::Minutely, 119), 1);
    assert_eq!(bucket_of(Rotation::Hourly, 7199), 1);
    assert_eq!(bucket_of(Rotation::Daily, 86399), 0);
    assert_eq!(bucket_of(Rotation::Never, u64::MAX), 0);
}

/// Resolving the discarding or console destinations never errors, and two
/// resolutions behave identically.
#[test]
fn console_resolution_is_idempotent() {
    for spec in [Writer::Null, Writer::Stdout] {
        let first = resolve(&spec, OpenAttempt::Untried).unwrap();
        let second = resolve(&spec, OpenAttempt::Untried).unwrap();
        match (&spec, &first.sink, &second.sink) {
            (Writer::Null, ResolvedSink::Null, ResolvedSink::Null) => {}
            (Writer::Stdout, ResolvedSink::Stdout, ResolvedSink::Stdout) => {}
            other => panic!("unexpected resolution: {:?}", other),
        }
        assert!(first.queue.is_none());
        assert!(second.queue.is_none());
    }
    // both resolutions accept writes with the same effect
    let mut a = resolve(&Writer::Null, OpenAttempt::Untried).unwrap().sink;
    let mut b = resolve(&Writer::Null, OpenAttempt::Untried).unwrap().sink;
    assert_eq!(a.write(&b"x".to_vec(), 0).unwrap(), WriteEffect::Discarded);
    assert_eq!(b.write(&b"x".to_vec(), 0).unwrap(), WriteEffect::Discarded);
    let mut out = resolve(&Writer::Stdout, OpenAttempt::Untried).unwrap().sink;
    assert_eq!(out.write(&b"x".to_vec(), 0).unwrap(), WriteEffect::ToStdout);
    // healthy sinks accept a flush
    assert!(out.flush().is_ok());
    assert!(a.flush().is_ok());
}

#[test]
fn failed_file_open_surfaces_or_defers() {
    let spec = Writer::File(logcfg::File {
        path: "/no/such/dir/app.log".to_string(),
        behaviour: logcfg::FileOpenBehaviour::Append,
        non_blocking: None,
    });
    let err = resolve(&spec, OpenAttempt::Failed("permission denied".to_string())).unwrap_err();
    assert_eq!(
        err.message,
        "couldn't open log file /no/such/dir/app.log: permission denied"
    );
    let res = resolve_deferred(&spec, OpenAttempt::Failed("permission denied".to_string()));
    assert!(matches!(res.sink, ResolvedSink::Poisoned(_)));
    assert!(res.queue.is_none());
}

/// Every write against a sink that failed to open returns an error whose
/// message names the original failure, and consecutive writes observe the
/// very same shared cause, not a copy.
#[test]
fn poisoned_sink_shares_one_cause() {
    let spec = Writer::Rolling(Rolling {
        directory: "/missing/logs".to_string(),
        roll: Some(Roll {
            limit: None,
            prefix: Some("app".to_string()),
            suffix: None,
            rotation: Some(Rotation::Minutely),
        }),
        non_blocking: Some(NonBlocking {
            buffer_length: None,
            behaviour: None,
        }),
    });
    let res = resolve_deferred(&spec, OpenAttempt::Failed("no such directory".to_string()));
    // asynchronous delivery is never wrapped around a poisoned sink
    assert!(res.queue.is_none());
    let mut sink = res.sink;
    let e1 = sink.write(&b"x".to_vec(), 0).unwrap_err();
    let e2 = sink.write(&b"y".to_vec(), 1).unwrap_err();
    assert!(e1.cause.message.contains("/missing/logs"));
    assert!(e1.cause.message.contains("no such directory"));
    assert_eq!(e1.cause.message, e2.cause.message);
    assert!(std::sync::Arc::ptr_eq(&e1.cause, &e2.cause));
    // a flush fails with the very same shared cause
    let f = sink.flush().unwrap_err();
    assert!(std::sync::Arc::ptr_eq(&f.cause, &e1.cause));
}

#[test]
fn rolling_resolution_applies_roll_defaults() {
    let spec = Writer::Rolling(Rolling {
        directory: "/var/log/app".to_string(),
        roll: None,
        non_blocking: Some(NonBlocking {
            buffer_length: Some(16),
            behaviour: Some(BackpressureBehaviour::Block),
        }),
    });
    let res = resolve(&spec, OpenAttempt::Opened).unwrap();
    match res.sink {
        ResolvedSink::Rolling(st) => {
            assert_eq!(st.rotation, Rotation::Never);
            assert!(st.prefix.is_none());
            assert!(st.suffix.is_none());
            assert!(st.limit.is_none());
            assert_eq!(st.files.len(), 0);
        }
        other => panic!("unexpected: {:?}", other),
    }
    assert_eq!(
        res.queue,
        Some(NonBlocking {
            buffer_length: Some(16),
            behaviour: Some(BackpressureBehaviour::Block),
        })
    );
}

#[test]
fn rfc3339_rendering_exact() {
    assert_eq!(render_rfc3339(0, 0), "1970-01-01T00:00:00.000000+00:00");
    // a leap day, at noon
    assert_eq!(
        render_rfc3339(1709208000, 123456),
        "2024-02-29T12:00:00.123456+00:00"
    );
    // the second before a leap year's March
    assert_eq!(
        render_rfc3339(1709251199, 999999),
        "2024-02-29T23:59:59.999999+00:00"
    );
    let c = civil_from_epoch(951782400);
    assert_eq!(
        (c.year, c.month, c.day, c.hour, c.minute, c.second),
        (2000, 2, 29, 0, 0, 0)
    );
}

#[test]
fn uptime_rendering_exact() {
    assert_eq!(render_uptime(0, 0), "0.000000s");
    assert_eq!(render_uptime(2, 26), "2.000026s");
    assert_eq!(render_uptime(3600, 999999), "3600.999999s");
}
