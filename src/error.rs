use vstd::prelude::*;

verus! {

/// Every way a counter session can fail.
#[derive(Debug, Clone, Copy, PartialEq, Eq, Structural)]
pub enum KPerfError {
    /// The privilege probe failed: the process may not force the counters.
    PermissionDenied,
    /// A native allocation, a configuration derivation or enabling counting failed.
    InitError,
    /// Disabling counting failed while stopping.
    DeinitError,
    /// The event is unknown to the platform database, or the configuration rejected it.
    InvalidEvent,
    /// Reading the per-thread counters failed.
    FetchCountersFailed,
    /// Reserved fallback: the driver answered a native call out of protocol.
    Unknown,
}

/// The description of each error.
pub open spec fn message_of(e: KPerfError) -> Seq<char> {
    match e {
        KPerfError::PermissionDenied => "permission denied"@,
        KPerfError::InitError => "failed to initialize kperf"@,
        KPerfError::DeinitError => "failed to deinitialize kperf"@,
        KPerfError::InvalidEvent => "failed to enable kperf event"@,
        KPerfError::FetchCountersFailed => "failed to fetch counter values"@,
        KPerfError::Unknown => "unknown error"@,
    }
}

impl KPerfError {
    /// A short human-readable description of the error.
    pub fn message(&self) -> (r: &'static str)
        ensures
            r@ == message_of(*self),
    {
        let r = match self {
            KPerfError::PermissionDenied => "permission denied",
            KPerfError::InitError => "failed to initialize kperf",
            KPerfError::DeinitError => "failed to deinitialize kperf",
            KPerfError::InvalidEvent => "failed to enable kperf event",
            KPerfError::FetchCountersFailed => "failed to fetch counter values",
            KPerfError::Unknown => "unknown error",
        };
        r
    }
}

} // verus!
