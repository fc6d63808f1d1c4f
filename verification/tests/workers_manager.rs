use audio_streamer::protocol::StreamStats;
use audio_streamer::workers_manager::{RegistryError, WorkerRegistry, PORT_RANGE_END, PORT_RANGE_START};
use std::cell::Cell;

#[derive(Debug, PartialEq)]
struct Handle(u16);

fn issue(r: &mut WorkerRegistry<Handle>, starts: &Cell<u32>) -> Result<u16, RegistryError<String>> {
    r.issue_new_worker(
        || {
            starts.set(starts.get() + 1);
            Ok(())
        },
        |port| Ok(port),
        |port, frames: u16| {
            assert_eq!(port, frames);
            Handle(port)
        },
    )
}

#[test]
fn new_registry_draws_distinct_ports_from_the_range() {
    let r: WorkerRegistry<Handle> = WorkerRegistry::new(10);
    let mut r = r;
    let starts = Cell::new(0);
    let mut issued = Vec::new();
    for _ in 0..10 {
        issued.push(issue(&mut r, &starts).unwrap());
    }
    for p in &issued {
        assert!(PORT_RANGE_START <= *p && *p < PORT_RANGE_END);
    }
    let mut sorted = issued.clone();
    sorted.sort();
    sorted.dedup();
    assert_eq!(sorted.len(), 10);
    assert!(matches!(issue(&mut r, &starts), Err(RegistryError::PortIssueError())));
}

#[test]
fn the_whole_range_when_more_ports_are_asked_for() {
    let mut r: WorkerRegistry<Handle> = WorkerRegistry::new(100_000);
    let starts = Cell::new(0);
    let mut n = 0usize;
    while issue(&mut r, &starts).is_ok() {
        n += 1;
    }
    assert_eq!(n, (PORT_RANGE_END - PORT_RANGE_START) as usize);
}

#[test]
fn issuing_takes_the_last_free_port_and_starts_the_pipeline_once() {
    let mut r = WorkerRegistry::with_ports(vec![50001, 50002, 50003]);
    let starts = Cell::new(0);
    assert!(!r.has_active_workers());
    assert_eq!(issue(&mut r, &starts).unwrap(), 50003);
    assert_eq!(starts.get(), 1);
    assert_eq!(issue(&mut r, &starts).unwrap(), 50002);
    assert_eq!(starts.get(), 1);
    assert_eq!(r.active_ports(), vec![50003, 50002]);
    assert!(r.has_active_workers());
}

#[test]
fn a_failed_pipeline_start_issues_nothing() {
    let mut r: WorkerRegistry<Handle> = WorkerRegistry::with_ports(vec![50001]);
    let res = r.issue_new_worker(
        || Err("no device".to_string()),
        |port| Ok::<u16, String>(port),
        |port, _frames| Handle(port),
    );
    match res {
        Err(RegistryError::AudioPipelineError(e)) => assert_eq!(e, "no device"),
        other => panic!("unexpected {:?}", other),
    }
    assert_eq!(r.active_ports(), Vec::<u16>::new());
    // the port is still free
    let starts = Cell::new(0);
    assert_eq!(issue(&mut r, &starts).unwrap(), 50001);
}

#[test]
fn a_failed_subscription_loses_the_taken_port() {
    let mut r: WorkerRegistry<Handle> = WorkerRegistry::with_ports(vec![50001, 50002]);
    let res = r.issue_new_worker(
        || Ok(()),
        |_port| Err::<u16, String>("not running".to_string()),
        |port, _frames| Handle(port),
    );
    assert!(matches!(res, Err(RegistryError::AudioPipelineError(_))));
    let starts = Cell::new(0);
    assert_eq!(issue(&mut r, &starts).unwrap(), 50001);
    assert!(matches!(issue(&mut r, &starts), Err(RegistryError::PortIssueError())));
}

#[test]
fn stopping_gives_the_port_back_and_stops_the_pipeline_when_idle() {
    let mut r = WorkerRegistry::with_ports(vec![50001, 50002]);
    let starts = Cell::new(0);
    let a = issue(&mut r, &starts).unwrap();
    let b = issue(&mut r, &starts).unwrap();

    let h = r.begin_stop::<String>(a).unwrap();
    assert_eq!(h, Handle(a));
    let unsubscribed = Cell::new(0u16);
    let stop_pipeline = r.finish_stop(a, |p| unsubscribed.set(p));
    assert!(!stop_pipeline);
    assert_eq!(unsubscribed.get(), a);
    assert_eq!(r.active_ports(), vec![b]);

    r.begin_stop::<String>(b).unwrap();
    let stop_pipeline = r.finish_stop(b, |p| unsubscribed.set(p));
    assert!(stop_pipeline);
    assert_eq!(unsubscribed.get(), b);
    // both ports can be issued again, the last returned first
    assert_eq!(issue(&mut r, &starts).unwrap(), b);
    assert_eq!(issue(&mut r, &starts).unwrap(), a);
}

#[test]
fn stopping_an_unknown_port_fails() {
    let mut r: WorkerRegistry<Handle> = WorkerRegistry::with_ports(vec![50001]);
    match r.begin_stop::<String>(1234) {
        Err(RegistryError::NoSuchWorkerError(1234)) => {}
        other => panic!("unexpected {:?}", other),
    }
    assert_eq!(r.active_ports(), Vec::<u16>::new());
}

#[test]
fn an_empty_pool_subscribes_and_spawns_nothing() {
    let mut r: WorkerRegistry<Handle> = WorkerRegistry::with_ports(vec![]);
    let starts = Cell::new(0);
    let subscribed = Cell::new(0);
    let spawned = Cell::new(0);
    let res = r.issue_new_worker(
        || {
            starts.set(starts.get() + 1);
            Ok::<(), String>(())
        },
        |port| {
            subscribed.set(subscribed.get() + 1);
            Ok::<u16, String>(port)
        },
        |port, _frames| {
            spawned.set(spawned.get() + 1);
            Handle(port)
        },
    );
    assert!(matches!(res, Err(RegistryError::PortIssueError())));
    // the pipeline is started before the pool is looked at
    assert_eq!(starts.get(), 1);
    assert_eq!(subscribed.get(), 0);
    assert_eq!(spawned.get(), 0);
    assert!(!r.has_active_workers());
}

#[test]
fn clean_up_signals_the_worker_and_frees_its_port() {
    let mut r = WorkerRegistry::with_ports(vec![50001, 50002]);
    let starts = Cell::new(0);
    let a = issue(&mut r, &starts).unwrap();
    let b = issue(&mut r, &starts).unwrap();
    let signalled = Cell::new(0u16);
    let unsubscribed = Cell::new(0u16);
    let stop_pipeline = r.clean_up(a, |h: Handle| signalled.set(h.0), |p| unsubscribed.set(p));
    assert!(!stop_pipeline);
    assert_eq!(signalled.get(), a);
    assert_eq!(unsubscribed.get(), a);
    assert_eq!(r.active_ports(), vec![b]);
    let stop_pipeline = r.clean_up(b, |h: Handle| signalled.set(h.0), |p| unsubscribed.set(p));
    assert!(stop_pipeline);
    assert_eq!(signalled.get(), b);
    assert_eq!(unsubscribed.get(), b);
    assert_eq!(issue(&mut r, &starts).unwrap(), b);
}

#[test]
fn clean_up_of_an_inactive_id_still_pools_it() {
    let mut r: WorkerRegistry<Handle> = WorkerRegistry::with_ports(vec![]);
    let signalled = Cell::new(false);
    let unsubscribed = Cell::new(0u16);
    let stop_pipeline = r.clean_up(777, |_h: Handle| signalled.set(true), |p| unsubscribed.set(p));
    assert!(stop_pipeline);
    assert!(!signalled.get());
    assert_eq!(unsubscribed.get(), 777);
    let starts = Cell::new(0);
    assert_eq!(issue(&mut r, &starts).unwrap(), 777);
}

#[test]
fn a_late_clean_up_pools_a_stopped_port_twice() {
    let mut r = WorkerRegistry::with_ports(vec![50001]);
    let starts = Cell::new(0);
    let a = issue(&mut r, &starts).unwrap();
    r.begin_stop::<String>(a).unwrap();
    r.finish_stop(a, |_| {});
    // the stopped worker reports a failure afterwards
    r.clean_up(a, |_h: Handle| {}, |_| {});
    assert_eq!(issue(&mut r, &starts).unwrap(), a);
    assert_eq!(issue(&mut r, &starts).unwrap(), a);
    assert_eq!(r.active_ports(), vec![a]);
}

#[test]
fn take_all_empties_the_registry_in_order() {
    let mut r = WorkerRegistry::with_ports(vec![1, 2, 3]);
    let starts = Cell::new(0);
    issue(&mut r, &starts).unwrap();
    issue(&mut r, &starts).unwrap();
    issue(&mut r, &starts).unwrap();
    assert_eq!(r.take_all(), vec![Handle(3), Handle(2), Handle(1)]);
    assert!(!r.has_active_workers());
    // the ports are not returned
    assert!(matches!(issue(&mut r, &starts), Err(RegistryError::PortIssueError())));
}

#[test]
fn stats_are_placeholders() {
    let r: WorkerRegistry<Handle> = WorkerRegistry::with_ports(vec![]);
    assert_eq!(
        r.get_stats(50001),
        (42069, StreamStats { frames_sent: 42, frames_dropped: 69, connected_duration_secs: 420 })
    );
}
