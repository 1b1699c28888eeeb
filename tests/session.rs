use kperf::{Call, Event, KPerf, KPerfError, Phase, Reply, Results, MAX_COUNTERS};

fn counters(values: &[(usize, u64)]) -> Vec<u64> {
    let mut v = vec![0u64; MAX_COUNTERS];
    for &(slot, x) in values {
        v[slot] = x;
    }
    v
}

fn identity_map() -> Vec<usize> {
    (0..MAX_COUNTERS).collect()
}

/// Brings a session through construction with every native call succeeding.
fn ready_session() -> KPerf {
    let mut k = KPerf::new();
    assert_eq!(k.init(), Ok(Some(Call::ProbePermission)));
    assert_eq!(k.resume(Reply::Status(0)), Ok(Some(Call::CreateDatabase)));
    assert_eq!(k.resume(Reply::Status(0)), Ok(Some(Call::CreateConfig)));
    assert_eq!(k.resume(Reply::Status(0)), Ok(Some(Call::ForceConfigCounters)));
    assert_eq!(k.resume(Reply::Done), Ok(None));
    assert_eq!(k.phase(), Phase::Ready);
    k
}

fn register(k: &mut KPerf, user_only: bool, e: Event) {
    let mode = if user_only { 1 } else { 0 };
    assert_eq!(k.add_event(user_only, e), Ok(Some(Call::LookupEvent { event: e })));
    assert_eq!(k.resume(Reply::Found(true)), Ok(Some(Call::AddToConfig { mode })));
    assert_eq!(k.resume(Reply::Status(0)), Ok(None));
}

/// Starts counting with fixed-class counters only and the given start readings.
fn start_with(k: &mut KPerf, map: Vec<usize>, start: Vec<u64>) {
    assert_eq!(k.start(), Ok(Some(Call::ReadClasses)));
    assert_eq!(k.resume(Reply::Classes(0, 1)), Ok(Some(Call::ReadRegisterCount)));
    assert_eq!(k.resume(Reply::RegisterCount(0, 0)), Ok(Some(Call::ReadCounterMap)));
    assert_eq!(k.resume(Reply::CounterMap(0, map)), Ok(Some(Call::ReadRegisterValues)));
    assert_eq!(
        k.resume(Reply::Registers(0, vec![0u64; MAX_COUNTERS])),
        Ok(Some(Call::ForceAllCounters))
    );
    assert_eq!(k.resume(Reply::Status(0)), Ok(Some(Call::SetCounting { classes: 1 })));
    assert_eq!(k.resume(Reply::Status(0)), Ok(Some(Call::SetThreadCounting { classes: 1 })));
    assert_eq!(k.resume(Reply::Status(0)), Ok(Some(Call::ReadCounters)));
    assert_eq!(k.resume(Reply::Counters(0, start)), Ok(None));
    assert_eq!(k.phase(), Phase::Started);
}

fn stop_with(k: &mut KPerf, stop: Vec<u64>) -> Results {
    assert_eq!(k.stop(), Ok(Some(Call::ReadCounters)));
    assert_eq!(k.resume(Reply::Counters(0, stop)), Ok(Some(Call::SetCounting { classes: 0 })));
    assert_eq!(k.resume(Reply::Status(0)), Ok(Some(Call::SetThreadCounting { classes: 0 })));
    assert_eq!(k.resume(Reply::Status(0)), Ok(None));
    assert_eq!(k.phase(), Phase::Stopped);
    k.get_results()
}

#[test]
fn permission_denied_before_any_resource() {
    let mut k = KPerf::new();
    assert_eq!(k.init(), Ok(Some(Call::ProbePermission)));
    assert_eq!(k.resume(Reply::Status(-1)), Err(KPerfError::PermissionDenied));
    assert_eq!(k.phase(), Phase::Broken);
    assert_eq!(k.release(), Vec::<Call>::new());
}

#[test]
fn database_failure_is_init_error() {
    let mut k = KPerf::new();
    k.init().unwrap();
    k.resume(Reply::Status(0)).unwrap();
    assert_eq!(k.resume(Reply::Status(5)), Err(KPerfError::InitError));
    assert_eq!(k.phase(), Phase::Broken);
    assert_eq!(k.release(), Vec::<Call>::new());
}

#[test]
fn config_failure_releases_database_only() {
    let mut k = KPerf::new();
    k.init().unwrap();
    k.resume(Reply::Status(0)).unwrap();
    k.resume(Reply::Status(0)).unwrap();
    assert_eq!(k.resume(Reply::Status(1)), Err(KPerfError::InitError));
    assert_eq!(k.release(), vec![Call::FreeDatabase]);
}

#[test]
fn init_twice_is_refused() {
    let mut k = ready_session();
    assert_eq!(k.init(), Err(KPerfError::Unknown));
    assert_eq!(k.phase(), Phase::Ready);
}

#[test]
fn unknown_event_leaves_registration_unchanged() {
    let mut k = ready_session();
    register(&mut k, false, Event::Cycles);
    assert_eq!(
        k.add_event(false, Event::Branches),
        Ok(Some(Call::LookupEvent { event: Event::Branches }))
    );
    assert_eq!(k.resume(Reply::Found(false)), Err(KPerfError::InvalidEvent));
    assert_eq!(k.events().len(), 1);
    assert_eq!(k.events()[0], Event::Cycles);
}

#[test]
fn rejected_add_leaves_registration_unchanged() {
    let mut k = ready_session();
    k.add_event(true, Event::Branches).unwrap();
    assert_eq!(k.resume(Reply::Found(true)), Ok(Some(Call::AddToConfig { mode: 1 })));
    assert_eq!(k.resume(Reply::Status(12)), Err(KPerfError::InvalidEvent));
    assert!(k.events().is_empty());
}

#[test]
fn add_events_in_order_and_stops_at_first_failure() {
    let mut k = ready_session();
    let batch = [Event::Cycles, Event::Instructions, Event::Branches];
    assert_eq!(
        k.add_events(false, &batch),
        Ok(Some(Call::LookupEvent { event: Event::Cycles }))
    );
    k.resume(Reply::Found(true)).unwrap();
    assert_eq!(
        k.resume(Reply::Status(0)),
        Ok(Some(Call::LookupEvent { event: Event::Instructions }))
    );
    assert_eq!(k.resume(Reply::Found(false)), Err(KPerfError::InvalidEvent));
    assert_eq!(k.events(), &vec![Event::Cycles]);
    // the rest of the batch was dropped
    assert_eq!(k.resume(Reply::Status(0)), Err(KPerfError::Unknown));
    assert_eq!(k.events().len(), 1);
}

#[test]
fn add_events_empty_batch() {
    let mut k = ready_session();
    assert_eq!(k.add_events(true, &[]), Ok(None));
    assert!(k.events().is_empty());
}

#[test]
fn register_map_capacity_is_enforced() {
    let mut k = ready_session();
    for _ in 0..MAX_COUNTERS {
        register(&mut k, false, Event::Cycles);
    }
    assert_eq!(k.add_event(false, Event::Cycles), Err(KPerfError::InvalidEvent));
    assert_eq!(k.events().len(), MAX_COUNTERS);
}

#[test]
fn zero_events_start_and_stop_are_no_ops() {
    let mut k = ready_session();
    assert_eq!(k.start(), Ok(None));
    assert_eq!(k.phase(), Phase::Ready);
    assert_eq!(k.stop(), Ok(None));
    assert!(k.get_results().is_empty());
    assert!(k.get_results().entries().is_empty());
}

#[test]
fn cycles_and_instructions_deltas() {
    let mut k = ready_session();
    register(&mut k, false, Event::Cycles);
    register(&mut k, false, Event::Instructions);
    let mut map = identity_map();
    map[0] = 2;
    map[1] = 0;
    start_with(&mut k, map, counters(&[(0, 1000), (2, 50)]));
    let r = stop_with(&mut k, counters(&[(0, 4000), (2, 1050)]));
    assert_eq!(r.get(Event::Cycles), Some(1000));
    assert_eq!(r.get(Event::Instructions), Some(3000));
    assert_eq!(r.get(Event::Branches), None);
    assert_eq!(r.get(Event::BranchMisses), None);
    assert_eq!(
        r.entries(),
        vec![(Event::Cycles, 1000), (Event::Instructions, 3000)]
    );
}

#[test]
fn results_read_twice_are_identical() {
    let mut k = ready_session();
    register(&mut k, true, Event::Cycles);
    register(&mut k, true, Event::Instructions);
    start_with(&mut k, identity_map(), counters(&[(0, 7), (1, 9)]));
    let first = stop_with(&mut k, counters(&[(0, 17), (1, 109)]));
    let second = k.get_results();
    let third = k.get_results();
    assert_eq!(first, second);
    assert_eq!(second, third);
    assert_eq!(second.get(Event::Cycles), Some(10));
    assert_eq!(second.get(Event::Instructions), Some(100));
}

#[test]
fn delta_wraps_modulo_two_to_the_64() {
    let mut k = ready_session();
    register(&mut k, false, Event::Branches);
    start_with(&mut k, identity_map(), counters(&[(0, u64::MAX - 1)]));
    let r = stop_with(&mut k, counters(&[(0, 3)]));
    assert_eq!(r.get(Event::Branches), Some(5));
}

#[test]
fn repeated_event_keeps_last_registration() {
    let mut k = ready_session();
    register(&mut k, false, Event::Cycles);
    register(&mut k, false, Event::Cycles);
    start_with(&mut k, identity_map(), counters(&[(0, 10), (1, 20)]));
    let r = stop_with(&mut k, counters(&[(0, 11), (1, 22)]));
    assert_eq!(r.entries(), vec![(Event::Cycles, 2)]);
}

#[test]
fn configurable_counters_are_programmed() {
    let mut k = ready_session();
    register(&mut k, false, Event::BranchMisses);
    assert_eq!(k.start(), Ok(Some(Call::ReadClasses)));
    k.resume(Reply::Classes(0, 3)).unwrap();
    k.resume(Reply::RegisterCount(0, 2)).unwrap();
    k.resume(Reply::CounterMap(0, identity_map())).unwrap();
    let regs = counters(&[(0, 0xAB), (1, 0xCD)]);
    k.resume(Reply::Registers(0, regs.clone())).unwrap();
    assert_eq!(k.registers(), &regs);
    assert_eq!(k.resume(Reply::Status(0)), Ok(Some(Call::ProgramConfig { classes: 3 })));
    assert_eq!(k.resume(Reply::Status(0)), Ok(Some(Call::SetCounting { classes: 3 })));
}

#[test]
fn configurable_class_without_registers_is_not_programmed() {
    let mut k = ready_session();
    register(&mut k, false, Event::Cycles);
    k.start().unwrap();
    k.resume(Reply::Classes(0, 2)).unwrap();
    k.resume(Reply::RegisterCount(0, 0)).unwrap();
    k.resume(Reply::CounterMap(0, identity_map())).unwrap();
    k.resume(Reply::Registers(0, vec![0u64; MAX_COUNTERS])).unwrap();
    assert_eq!(k.resume(Reply::Status(0)), Ok(Some(Call::SetCounting { classes: 2 })));
}

#[test]
fn start_derivation_failure_is_init_error() {
    let mut k = ready_session();
    register(&mut k, false, Event::Cycles);
    k.start().unwrap();
    assert_eq!(k.resume(Reply::Classes(3, 0)), Err(KPerfError::InitError));
    assert_eq!(k.phase(), Phase::Ready);
    // a failed start is not a start
    assert_eq!(k.stop(), Err(KPerfError::Unknown));
}

#[test]
fn start_snapshot_failure() {
    let mut k = ready_session();
    register(&mut k, false, Event::Cycles);
    k.start().unwrap();
    k.resume(Reply::Classes(0, 1)).unwrap();
    k.resume(Reply::RegisterCount(0, 0)).unwrap();
    k.resume(Reply::CounterMap(0, identity_map())).unwrap();
    k.resume(Reply::Registers(0, vec![0u64; MAX_COUNTERS])).unwrap();
    k.resume(Reply::Status(0)).unwrap();
    k.resume(Reply::Status(0)).unwrap();
    k.resume(Reply::Status(0)).unwrap();
    assert_eq!(
        k.resume(Reply::Counters(1, vec![0u64; MAX_COUNTERS])),
        Err(KPerfError::FetchCountersFailed)
    );
}

#[test]
fn malformed_register_map_is_unknown() {
    let mut k = ready_session();
    register(&mut k, false, Event::Cycles);
    k.start().unwrap();
    k.resume(Reply::Classes(0, 1)).unwrap();
    k.resume(Reply::RegisterCount(0, 0)).unwrap();
    let mut map = identity_map();
    map[4] = MAX_COUNTERS;
    assert_eq!(k.resume(Reply::CounterMap(0, map)), Err(KPerfError::Unknown));
}

#[test]
fn reply_of_wrong_shape_is_unknown() {
    let mut k = ready_session();
    assert_eq!(k.resume(Reply::Status(0)), Err(KPerfError::Unknown));
    register(&mut k, false, Event::Cycles);
    k.start().unwrap();
    assert_eq!(k.resume(Reply::Status(0)), Err(KPerfError::Unknown));
}

#[test]
fn stop_snapshot_failure_is_fetch_error() {
    let mut k = ready_session();
    register(&mut k, false, Event::Cycles);
    start_with(&mut k, identity_map(), counters(&[]));
    assert_eq!(k.stop(), Ok(Some(Call::ReadCounters)));
    assert_eq!(
        k.resume(Reply::Counters(-1, vec![0u64; MAX_COUNTERS])),
        Err(KPerfError::FetchCountersFailed)
    );
    assert_eq!(k.phase(), Phase::Started);
}

#[test]
fn disable_failure_keeps_stop_snapshot() {
    let mut k = ready_session();
    register(&mut k, false, Event::Cycles);
    start_with(&mut k, identity_map(), counters(&[(0, 100)]));
    k.stop().unwrap();
    k.resume(Reply::Counters(0, counters(&[(0, 160)]))).unwrap();
    assert_eq!(k.resume(Reply::Status(1)), Err(KPerfError::DeinitError));
    assert_eq!(k.phase(), Phase::Stopped);
    assert_eq!(k.get_results().get(Event::Cycles), Some(60));
}

#[test]
fn thread_disable_failure_is_deinit_error() {
    let mut k = ready_session();
    register(&mut k, false, Event::Cycles);
    start_with(&mut k, identity_map(), counters(&[]));
    k.stop().unwrap();
    k.resume(Reply::Counters(0, counters(&[(0, 8)]))).unwrap();
    k.resume(Reply::Status(0)).unwrap();
    assert_eq!(k.resume(Reply::Status(2)), Err(KPerfError::DeinitError));
    assert_eq!(k.get_results().get(Event::Cycles), Some(8));
}

#[test]
fn release_exactly_once_in_every_phase() {
    let mut ready = ready_session();
    assert_eq!(ready.release(), vec![Call::FreeConfig, Call::FreeDatabase]);
    assert_eq!(ready.release(), Vec::<Call>::new());
    assert_eq!(ready.phase(), Phase::Released);
    assert_eq!(ready.add_event(false, Event::Cycles), Err(KPerfError::Unknown));
    assert_eq!(ready.start(), Ok(None));

    let mut started = ready_session();
    register(&mut started, false, Event::Cycles);
    start_with(&mut started, identity_map(), counters(&[]));
    assert_eq!(started.release(), vec![Call::FreeConfig, Call::FreeDatabase]);
    assert_eq!(started.release(), Vec::<Call>::new());

    let mut stopped = ready_session();
    register(&mut stopped, false, Event::Cycles);
    start_with(&mut stopped, identity_map(), counters(&[]));
    stop_with(&mut stopped, counters(&[]));
    assert_eq!(stopped.release(), vec![Call::FreeConfig, Call::FreeDatabase]);
    assert_eq!(stopped.release(), Vec::<Call>::new());
}

#[test]
fn results_mapping_basics() {
    let mut r = Results::new();
    assert!(r.is_empty());
    r.set(Event::BranchMisses, 4);
    r.set(Event::Cycles, 1);
    r.set(Event::BranchMisses, 9);
    assert!(!r.is_empty());
    assert_eq!(r.get(Event::BranchMisses), Some(9));
    assert_eq!(r.entries(), vec![(Event::Cycles, 1), (Event::BranchMisses, 9)]);
}

#[test]
fn registration_after_start_is_refused() {
    let mut k = ready_session();
    register(&mut k, false, Event::Cycles);
    start_with(&mut k, identity_map(), counters(&[]));
    assert_eq!(k.add_event(false, Event::Branches), Err(KPerfError::Unknown));
    assert_eq!(k.add_events(false, &[Event::Branches]), Err(KPerfError::Unknown));
    assert_eq!(k.events(), &vec![Event::Cycles]);
}

#[test]
fn second_start_is_refused() {
    let mut k = ready_session();
    register(&mut k, false, Event::Cycles);
    start_with(&mut k, identity_map(), counters(&[(0, 3)]));
    assert_eq!(k.start(), Err(KPerfError::Unknown));
    stop_with(&mut k, counters(&[(0, 5)]));
    assert_eq!(k.start(), Err(KPerfError::Unknown));
    assert_eq!(k.get_results().get(Event::Cycles), Some(2));
}

#[test]
fn zero_events_start_and_stop_in_any_state() {
    let mut k = KPerf::new();
    assert_eq!(k.start(), Ok(None));
    assert_eq!(k.stop(), Ok(None));
    assert_eq!(k.phase(), Phase::Initializing);
    k.init().unwrap();
    assert_eq!(k.resume(Reply::Status(1)), Err(KPerfError::PermissionDenied));
    assert_eq!(k.start(), Ok(None));
    assert_eq!(k.stop(), Ok(None));
    assert_eq!(k.phase(), Phase::Broken);
    assert!(k.get_results().is_empty());
}

#[test]
fn entries_follow_declaration_order() {
    let mut k = ready_session();
    register(&mut k, false, Event::BranchMisses);
    register(&mut k, false, Event::Instructions);
    register(&mut k, false, Event::Cycles);
    start_with(&mut k, identity_map(), counters(&[]));
    let r = stop_with(&mut k, counters(&[(0, 1), (1, 2), (2, 3)]));
    assert_eq!(
        r.entries(),
        vec![(Event::Cycles, 3), (Event::Instructions, 2), (Event::BranchMisses, 1)]
    );
}
