use kperf::{Arch, Event, KPerfError};
use std::str::FromStr;

#[test]
fn name_round_trip_all_events() {
    for e in Event::all() {
        assert_eq!(Event::from_name(e.name()), Some(e));
    }
}

#[test]
fn short_names() {
    assert_eq!(Event::Cycles.name(), "cycles");
    assert_eq!(Event::Instructions.name(), "instructions");
    assert_eq!(Event::Branches.name(), "branches");
    assert_eq!(Event::BranchMisses.name(), "branch-misses");
}

#[test]
fn unknown_names_are_rejected() {
    assert_eq!(Event::from_name(""), None);
    assert_eq!(Event::from_name("Cycles"), None);
    assert_eq!(Event::from_name("banch-misses"), None);
    assert_eq!(Event::from_name("cycles "), None);
    assert_eq!(Event::from_name("branch"), None);
}

#[test]
fn from_str_and_into_str() {
    assert_eq!(Event::from_str("branch-misses"), Ok(Event::BranchMisses));
    assert_eq!(Event::from_str("misses"), Err(()));
    let s: &str = Event::Instructions.into();
    assert_eq!(s, "instructions");
}

#[test]
fn internal_names_x86() {
    assert_eq!(Event::Cycles.get_internal_name(Arch::X86_64), "CPU_CLK_UNHALTED.THREAD\0");
    assert_eq!(Event::Instructions.get_internal_name(Arch::X86_64), "INST_RETIRED.ANY\0");
    assert_eq!(
        Event::Branches.get_internal_name(Arch::X86_64),
        "BR_INST_RETIRED.ALL_BRANCHES\0"
    );
    assert_eq!(
        Event::BranchMisses.get_internal_name(Arch::X86_64),
        "BR_MISP_RETIRED.ALL_BRANCHES\0"
    );
}

#[test]
fn internal_names_arm() {
    assert_eq!(Event::Cycles.get_internal_name(Arch::Aarch64), "FIXED_CYCLES\0");
    assert_eq!(Event::Instructions.get_internal_name(Arch::Aarch64), "FIXED_INSTRUCTIONS\0");
    assert_eq!(Event::Branches.get_internal_name(Arch::Aarch64), "INST_BRANCH\0");
    assert_eq!(
        Event::BranchMisses.get_internal_name(Arch::Aarch64),
        "BRANCH_MISPRED_NONSPEC\0"
    );
}

#[test]
fn error_messages() {
    assert_eq!(KPerfError::PermissionDenied.message(), "permission denied");
    assert_eq!(KPerfError::InvalidEvent.message(), "failed to enable kperf event");
    assert_eq!(KPerfError::Unknown.message(), "unknown error");
}

#[test]
fn from_str_parses_every_short_name() {
    assert_eq!(Event::from_str("cycles"), Ok(Event::Cycles));
    assert_eq!(Event::from_str("instructions"), Ok(Event::Instructions));
    assert_eq!(Event::from_str("branches"), Ok(Event::Branches));
    assert_eq!(Event::from_str("branch-misses"), Ok(Event::BranchMisses));
    for e in Event::all() {
        let name: &str = e.into();
        assert_eq!(Event::from_str(name), Ok(e));
    }
}

#[test]
fn from_str_rejects_other_text() {
    assert_eq!(Event::from_str(""), Err(()));
    assert_eq!(Event::from_str("CYCLES"), Err(()));
    assert_eq!(Event::from_str("banch-misses"), Err(()));
    assert_eq!(Event::from_str("branch-misses\0"), Err(()));
}

#[test]
fn every_error_message() {
    assert_eq!(KPerfError::InitError.message(), "failed to initialize kperf");
    assert_eq!(KPerfError::DeinitError.message(), "failed to deinitialize kperf");
    assert_eq!(KPerfError::FetchCountersFailed.message(), "failed to fetch counter values");
}
