use vstd::prelude::*;

use crate::error::KPerfError;
use crate::event::Event;
use crate::results::Results;

verus! {

/// The number of counter slots in a snapshot and in the register map: the
/// platform's maximum counter count.
pub const MAX_COUNTERS: usize = 32;

/// The class-mask bit of the configurable counters.
pub const CONFIGURABLE_CLASS_MASK: u32 = 2;

/// Where a session stands in its lifecycle.
#[derive(Debug, Clone, Copy, PartialEq, Eq, Structural)]
pub enum Phase {
    /// Constructed; the native resources are not yet all acquired.
    Initializing,
    /// Construction failed: no further operation is legal.
    Broken,
    /// Initialized; events may be registered and counting started.
    Ready,
    /// Counting, with a start snapshot taken.
    Started,
    /// Counting ended, with a stop snapshot taken.
    Stopped,
    /// The native resources were released: no further operation is legal.
    Released,
}

/// The native call a session waits on, or `Idle` when none is pending.
#[derive(Debug, Clone, Copy, PartialEq, Eq, Structural)]
pub enum Step {
    Idle,
    Probe,
    CreateDatabase,
    CreateConfig,
    ForceConfig,
    Lookup,
    AddToConfig,
    Classes,
    RegisterCount,
    CounterMap,
    Registers,
    ForceAll,
    ProgramConfig,
    Counting,
    ThreadCounting,
    StartSnapshot,
    StopSnapshot,
    Disable,
    ThreadDisable,
}

/// A native call that the driver makes on the session's behalf.
#[derive(Debug, Clone, Copy, PartialEq, Eq, Structural)]
pub enum Call {
    /// Probe the "force all counters" capability; answer `Status`.
    ProbePermission,
    /// Create the event database; answer `Status`.
    CreateDatabase,
    /// Create the configuration from the database; answer `Status`.
    CreateConfig,
    /// Force the configuration onto forceable counters; answer `Done`.
    ForceConfigCounters,
    /// Look the event's internal name up in the database; answer `Found`.
    LookupEvent { event: Event },
    /// Add the event just looked up to the configuration with the given
    /// mode flag (1: user mode only, 0: user and kernel); answer `Status`.
    AddToConfig { mode: u32 },
    /// Derive the class mask; answer `Classes`.
    ReadClasses,
    /// Derive the required register count; answer `RegisterCount`.
    ReadRegisterCount,
    /// Derive the register map; answer `CounterMap`.
    ReadCounterMap,
    /// Derive the register values; answer `Registers`.
    ReadRegisterValues,
    /// Force all counters to be available; answer `Status`.
    ForceAllCounters,
    /// Program the configurable counters with the session's register values;
    /// answer `Status`.
    ProgramConfig { classes: u32 },
    /// Set global counting for a class mask (0 disables); answer `Status`.
    SetCounting { classes: u32 },
    /// Set counting of the calling thread for a class mask (0 disables);
    /// answer `Status`.
    SetThreadCounting { classes: u32 },
    /// Read the calling thread's counters; answer `Counters`.
    ReadCounters,
    /// Release the configuration.
    FreeConfig,
    /// Release the event database.
    FreeDatabase,
}

/// What a native call gave back. A status is 0 on success.
pub enum Reply {
    Done,
    Status(i32),
    Found(bool),
    Classes(i32, u32),
    RegisterCount(i32, usize),
    CounterMap(i32, Vec<usize>),
    Registers(i32, Vec<u64>),
    Counters(i32, Vec<u64>),
}

/// The mathematical state of a session.
pub struct SessionView {
    pub phase: Phase,
    pub step: Step,
    pub db_held: bool,
    pub config_held: bool,
    pub user_only: bool,
    pub current: Event,
    pub queued: Seq<Event>,
    pub events: Seq<Event>,
    pub classes: u32,
    pub reg_count: usize,
    pub counter_map: Seq<usize>,
    pub regs: Seq<u64>,
    pub start: Seq<u64>,
    pub stop: Seq<u64>,
}

/// A counter session: registered events, register map and snapshots. The
/// native calls are made by a driver, which hands their outcomes back through
/// `resume`.
pub struct KPerf {
    phase: Phase,
    step: Step,
    db_held: bool,
    config_held: bool,
    user_only: bool,
    current: Event,
    queued: Vec<Event>,
    events: Vec<Event>,
    classes: u32,
    reg_count: usize,
    counter_map: Vec<usize>,
    regs: Vec<u64>,
    start_counters: Vec<u64>,
    stop_counters: Vec<u64>,
}

impl View for KPerf {
    type V = SessionView;

    closed spec fn view(&self) -> SessionView {
        SessionView {
            phase: self.phase,
            step: self.step,
            db_held: self.db_held,
            config_held: self.config_held,
            user_only: self.user_only,
            current: self.current,
            queued: self.queued@,
            events: self.events@,
            classes: self.classes,
            reg_count: self.reg_count,
            counter_map: self.counter_map@,
            regs: self.regs@,
            start: self.start_counters@,
            stop: self.stop_counters@,
        }
    }
}

/// Every slot of a register map names a counter of a snapshot.
pub open spec fn valid_map(m: Seq<usize>) -> bool {
    m.len() == MAX_COUNTERS && forall|i: int| 0 <= i < m.len() ==> #[trigger] m[i] < MAX_COUNTERS
}

/// The invariant of a session's state.
pub open spec fn session_wf(s: SessionView) -> bool {
    &&& valid_map(s.counter_map)
    &&& s.regs.len() == MAX_COUNTERS
    &&& s.start.len() == MAX_COUNTERS
    &&& s.stop.len() == MAX_COUNTERS
    &&& s.events.len() <= MAX_COUNTERS
    &&& (s.step == Step::Lookup || s.step == Step::AddToConfig) ==> s.events.len()
        < MAX_COUNTERS
    &&& s.step == Step::CreateConfig ==> s.db_held
    &&& s.step == Step::ForceConfig ==> s.db_held && s.config_held
    &&& is_live(s.phase) ==> s.db_held && s.config_held
    &&& s.step != Step::Idle && !is_construction(s.step) ==> is_live(s.phase)
}

/// The steps of construction.
pub open spec fn is_construction(st: Step) -> bool {
    st == Step::Probe || st == Step::CreateDatabase || st == Step::CreateConfig || st
        == Step::ForceConfig
}

/// The phases in which a session is fully initialized.
pub open spec fn is_live(p: Phase) -> bool {
    p == Phase::Ready || p == Phase::Started || p == Phase::Stopped
}

/// The mode flag handed to the configuration for an event.
pub open spec fn mode_flag(user_only: bool) -> u32 {
    if user_only {
        1
    } else {
        0
    }
}

/// Whether starting must program the configurable counters.
pub open spec fn needs_programming(s: SessionView) -> bool {
    s.classes & CONFIGURABLE_CLASS_MASK != 0 && s.reg_count != 0
}

/// Whether an operation may begin.
pub open spec fn can_begin(s: SessionView) -> bool {
    s.step == Step::Idle && is_live(s.phase)
}

/// Whether events may be registered or counting started: the session is
/// initialized, nothing is pending, and counting has not begun. A session is
/// started at most once.
pub open spec fn can_configure(s: SessionView) -> bool {
    s.step == Step::Idle && s.phase == Phase::Ready
}

/// The outcome of a transition: the next state and the next call, if any.
pub type Outcome = (SessionView, Result<Option<Call>, KPerfError>);

/// An operation fails with `e`: nothing is pending any more, queued events are
/// dropped, and a failed construction leaves the session broken.
pub open spec fn failed(s: SessionView, e: KPerfError) -> Outcome {
    (
        SessionView {
            step: Step::Idle,
            queued: Seq::empty(),
            phase: if s.phase == Phase::Initializing {
                Phase::Broken
            } else {
                s.phase
            },
            ..s
        },
        Err(e),
    )
}

/// The operation goes on with `call`.
pub open spec fn proceed(s: SessionView, step: Step, call: Call) -> Outcome {
    (SessionView { step: step, ..s }, Ok(Some(call)))
}

/// The operation is complete.
pub open spec fn done(s: SessionView) -> Outcome {
    (SessionView { step: Step::Idle, ..s }, Ok(None))
}

/// Registration of `e` begins, unless the register map has no room for it.
pub open spec fn begin_lookup(s: SessionView, e: Event) -> Outcome {
    if s.events.len() >= MAX_COUNTERS {
        failed(s, KPerfError::InvalidEvent)
    } else {
        proceed(SessionView { current: e, ..s }, Step::Lookup, Call::LookupEvent { event: e })
    }
}

/// After an event is registered, the next queued one follows.
pub open spec fn next_queued(s: SessionView) -> Outcome {
    if s.queued.len() > 0 {
        begin_lookup(SessionView { queued: s.queued.remove(0), ..s }, s.queued[0])
    } else {
        done(s)
    }
}

/// How a session answers a reply to its pending call. A reply of another
/// shape than the pending call asks for, or with a buffer of the wrong size,
/// gives `Unknown`.
pub open spec fn resume_spec(s: SessionView, reply: Reply) -> Outcome {
    match (s.step, reply) {
        (Step::Probe, Reply::Status(x)) => if x == 0 {
            proceed(s, Step::CreateDatabase, Call::CreateDatabase)
        } else {
            failed(s, KPerfError::PermissionDenied)
        },
        (Step::CreateDatabase, Reply::Status(x)) => if x == 0 {
            proceed(SessionView { db_held: true, ..s }, Step::CreateConfig, Call::CreateConfig)
        } else {
            failed(s, KPerfError::InitError)
        },
        (Step::CreateConfig, Reply::Status(x)) => if x == 0 {
            proceed(
                SessionView { config_held: true, ..s },
                Step::ForceConfig,
                Call::ForceConfigCounters,
            )
        } else {
            failed(s, KPerfError::InitError)
        },
        (Step::ForceConfig, Reply::Done) => done(SessionView { phase: Phase::Ready, ..s }),
        (Step::Lookup, Reply::Found(f)) => if f {
            proceed(s, Step::AddToConfig, Call::AddToConfig { mode: mode_flag(s.user_only) })
        } else {
            failed(s, KPerfError::InvalidEvent)
        },
        (Step::AddToConfig, Reply::Status(x)) => if x == 0 {
            next_queued(SessionView { events: s.events.push(s.current), ..s })
        } else {
            failed(s, KPerfError::InvalidEvent)
        },
        (Step::Classes, Reply::Classes(x, c)) => if x == 0 {
            proceed(SessionView { classes: c, ..s }, Step::RegisterCount, Call::ReadRegisterCount)
        } else {
            failed(s, KPerfError::InitError)
        },
        (Step::RegisterCount, Reply::RegisterCount(x, n)) => if x == 0 {
            proceed(SessionView { reg_count: n, ..s }, Step::CounterMap, Call::ReadCounterMap)
        } else {
            failed(s, KPerfError::InitError)
        },
        (Step::CounterMap, Reply::CounterMap(x, m)) => if x != 0 {
            failed(s, KPerfError::InitError)
        } else if !valid_map(m@) {
            failed(s, KPerfError::Unknown)
        } else {
            proceed(SessionView { counter_map: m@, ..s }, Step::Registers, Call::ReadRegisterValues)
        },
        (Step::Registers, Reply::Registers(x, v)) => if x != 0 {
            failed(s, KPerfError::InitError)
        } else if v@.len() != MAX_COUNTERS {
            failed(s, KPerfError::Unknown)
        } else {
            proceed(SessionView { regs: v@, ..s }, Step::ForceAll, Call::ForceAllCounters)
        },
        (Step::ForceAll, Reply::Status(x)) => if x != 0 {
            failed(s, KPerfError::InitError)
        } else if needs_programming(s) {
            proceed(s, Step::ProgramConfig, Call::ProgramConfig { classes: s.classes })
        } else {
            proceed(s, Step::Counting, Call::SetCounting { classes: s.classes })
        },
        (Step::ProgramConfig, Reply::Status(x)) => if x == 0 {
            proceed(s, Step::Counting, Call::SetCounting { classes: s.classes })
        } else {
            failed(s, KPerfError::InitError)
        },
        (Step::Counting, Reply::Status(x)) => if x == 0 {
            proceed(s, Step::ThreadCounting, Call::SetThreadCounting { classes: s.classes })
        } else {
            failed(s, KPerfError::InitError)
        },
        (Step::ThreadCounting, Reply::Status(x)) => if x == 0 {
            proceed(s, Step::StartSnapshot, Call::ReadCounters)
        } else {
            failed(s, KPerfError::InitError)
        },
        (Step::StartSnapshot, Reply::Counters(x, v)) => if x != 0 {
            failed(s, KPerfError::FetchCountersFailed)
        } else if v@.len() != MAX_COUNTERS {
            failed(s, KPerfError::Unknown)
        } else {
            done(SessionView { start: v@, phase: Phase::Started, ..s })
        },
        (Step::StopSnapshot, Reply::Counters(x, v)) => if x != 0 {
            failed(s, KPerfError::FetchCountersFailed)
        } else if v@.len() != MAX_COUNTERS {
            failed(s, KPerfError::Unknown)
        } else {
            proceed(
                SessionView { stop: v@, ..s },
                Step::Disable,
                Call::SetCounting { classes: 0 },
            )
        },
        (Step::Disable, Reply::Status(x)) => if x == 0 {
            proceed(s, Step::ThreadDisable, Call::SetThreadCounting { classes: 0 })
        } else {
            failed(SessionView { phase: Phase::Stopped, ..s }, KPerfError::DeinitError)
        },
        (Step::ThreadDisable, Reply::Status(x)) => if x == 0 {
            done(SessionView { phase: Phase::Stopped, ..s })
        } else {
            failed(SessionView { phase: Phase::Stopped, ..s }, KPerfError::DeinitError)
        },
        _ => failed(s, KPerfError::Unknown),
    }
}

/// An operation asked for out of protocol: nothing changes.
pub open spec fn refused(s: SessionView) -> Outcome {
    (s, Err(KPerfError::Unknown))
}

/// A fresh session, before construction.
pub open spec fn initial_view() -> SessionView {
    SessionView {
        phase: Phase::Initializing,
        step: Step::Idle,
        db_held: false,
        config_held: false,
        user_only: false,
        current: Event::Cycles,
        queued: Seq::empty(),
        events: Seq::empty(),
        classes: 0,
        reg_count: 0,
        counter_map: Seq::new(MAX_COUNTERS as nat, |i: int| 0usize),
        regs: Seq::new(MAX_COUNTERS as nat, |i: int| 0u64),
        start: Seq::new(MAX_COUNTERS as nat, |i: int| 0u64),
        stop: Seq::new(MAX_COUNTERS as nat, |i: int| 0u64),
    }
}

/// Construction begins with the privilege probe.
pub open spec fn init_spec(s: SessionView) -> Outcome {
    if s.phase == Phase::Initializing && s.step == Step::Idle {
        proceed(s, Step::Probe, Call::ProbePermission)
    } else {
        refused(s)
    }
}

/// Registration of one event begins.
pub open spec fn add_event_spec(s: SessionView, user_only: bool, e: Event) -> Outcome {
    if !can_configure(s) {
        refused(s)
    } else {
        begin_lookup(SessionView { user_only: user_only, queued: Seq::empty(), ..s }, e)
    }
}

/// Registration of several events, in order, begins.
pub open spec fn add_events_spec(s: SessionView, user_only: bool, es: Seq<Event>) -> Outcome {
    if !can_configure(s) {
        refused(s)
    } else if es.len() == 0 {
        done(s)
    } else {
        begin_lookup(
            SessionView { user_only: user_only, queued: es.subrange(1, es.len() as int), ..s },
            es[0],
        )
    }
}

/// Starting: without events nothing is done and nothing changes; else the
/// configuration is derived, once, from an initialized session.
pub open spec fn start_spec(s: SessionView) -> Outcome {
    if s.events.len() == 0 {
        (s, Ok(None))
    } else if !can_configure(s) {
        refused(s)
    } else {
        proceed(s, Step::Classes, Call::ReadClasses)
    }
}

/// Stopping: nothing to do without events, else the stop snapshot is taken.
pub open spec fn stop_spec(s: SessionView) -> Outcome {
    if s.events.len() == 0 {
        (s, Ok(None))
    } else if !(s.step == Step::Idle && s.phase == Phase::Started) {
        refused(s)
    } else {
        proceed(s, Step::StopSnapshot, Call::ReadCounters)
    }
}

/// The native releases that teardown makes: the configuration, then the
/// database, each only if it is held.
pub open spec fn release_plan(s: SessionView) -> Seq<Call> {
    (if s.config_held {
        seq![Call::FreeConfig]
    } else {
        Seq::empty()
    }) + (if s.db_held {
        seq![Call::FreeDatabase]
    } else {
        Seq::empty()
    })
}

/// The state after teardown.
pub open spec fn released(s: SessionView) -> SessionView {
    SessionView { phase: Phase::Released, step: Step::Idle, db_held: false, config_held: false, ..s }
}

/// Stop reading minus start reading, modulo 2^64.
pub open spec fn counter_delta(start: u64, stop: u64) -> u64 {
    if stop >= start {
        (stop - start) as u64
    } else {
        (stop - start + 0x1_0000_0000_0000_0000int) as u64
    }
}

/// The delta of the counter slot assigned to the `i`-th registered event.
pub open spec fn event_delta(s: SessionView, i: int) -> u64 {
    let slot = s.counter_map[i] as int;
    counter_delta(s.start[slot], s.stop[slot])
}

/// The result mapping over the first `n` registered events: a later
/// registration of an event replaces an earlier one.
pub open spec fn results_upto(s: SessionView, n: nat) -> Map<Event, u64>
    decreases n,
{
    if n == 0 {
        Map::empty()
    } else {
        results_upto(s, (n - 1) as nat).insert(s.events[n - 1], event_delta(s, n - 1))
    }
}

/// The result mapping of a session.
pub open spec fn results_of(s: SessionView) -> Map<Event, u64> {
    results_upto(s, s.events.len())
}

fn zeroed_u64() -> (r: Vec<u64>)
    ensures
        r@ == Seq::new(MAX_COUNTERS as nat, |i: int| 0u64),
{
    let mut r: Vec<u64> = Vec::new();
    while r.len() < MAX_COUNTERS
        invariant
            r@.len() <= MAX_COUNTERS,
            forall|i: int| 0 <= i < r@.len() ==> r@[i] == 0,
        decreases MAX_COUNTERS - r@.len(),
    {
        r.push(0);
    }
    assert(r@ =~= Seq::new(MAX_COUNTERS as nat, |i: int| 0u64));
    r
}

fn zeroed_usize() -> (r: Vec<usize>)
    ensures
        r@ == Seq::new(MAX_COUNTERS as nat, |i: int| 0usize),
{
    let mut r: Vec<usize> = Vec::new();
    while r.len() < MAX_COUNTERS
        invariant
            r@.len() <= MAX_COUNTERS,
            forall|i: int| 0 <= i < r@.len() ==> r@[i] == 0,
        decreases MAX_COUNTERS - r@.len(),
    {
        r.push(0);
    }
    assert(r@ =~= Seq::new(MAX_COUNTERS as nat, |i: int| 0usize));
    r
}

impl KPerf {
    /// The session's invariant.
    pub open spec fn wf(&self) -> bool {
        session_wf(self@)
    }

    /// A fresh session. `init` then drives its construction.
    pub fn new() -> (r: KPerf)
        ensures
            r@ == initial_view(),
            r.wf(),
    {
        KPerf {
            phase: Phase::Initializing,
            step: Step::Idle,
            db_held: false,
            config_held: false,
            user_only: false,
            current: Event::Cycles,
            queued: Vec::new(),
            events: Vec::new(),
            classes: 0,
            reg_count: 0,
            counter_map: zeroed_usize(),
            regs: zeroed_u64(),
            start_counters: zeroed_u64(),
            stop_counters: zeroed_u64(),
        }
    }

    fn fail(&mut self, e: KPerfError) -> (r: Result<Option<Call>, KPerfError>)
        ensures
            (final(self)@, r) == failed(old(self)@, e),
    {
        self.step = Step::Idle;
        self.queued = Vec::new();
        if self.phase == Phase::Initializing {
            self.phase = Phase::Broken;
        }
        Err(e)
    }

    fn proceed(&mut self, step: Step, call: Call) -> (r: Result<Option<Call>, KPerfError>)
        ensures
            (final(self)@, r) == proceed(old(self)@, step, call),
    {
        self.step = step;
        Ok(Some(call))
    }

    fn finish(&mut self) -> (r: Result<Option<Call>, KPerfError>)
        ensures
            (final(self)@, r) == done(old(self)@),
    {
        self.step = Step::Idle;
        Ok(None)
    }

    fn begin_lookup(&mut self, e: Event) -> (r: Result<Option<Call>, KPerfError>)
        ensures
            (final(self)@, r) == begin_lookup(old(self)@, e),
    {
        if self.events.len() >= MAX_COUNTERS {
            self.fail(KPerfError::InvalidEvent)
        } else {
            self.current = e;
            self.proceed(Step::Lookup, Call::LookupEvent { event: e })
        }
    }

    fn next_queued(&mut self) -> (r: Result<Option<Call>, KPerfError>)
        ensures
            (final(self)@, r) == next_queued(old(self)@),
    {
        if self.queued.len() > 0 {
            let e = self.queued.remove(0);
            self.begin_lookup(e)
        } else {
            self.finish()
        }
    }

    /// Begins construction: the driver first probes the privilege.
    pub fn init(&mut self) -> (r: Result<Option<Call>, KPerfError>)
        requires
            old(self).wf(),
        ensures
            final(self).wf(),
            (final(self)@, r) == init_spec(old(self)@),
    {
        if self.phase == Phase::Initializing && self.step == Step::Idle {
            self.proceed(Step::Probe, Call::ProbePermission)
        } else {
            Err(KPerfError::Unknown)
        }
    }

    /// Registers one event, counted in user mode only or in user and kernel
    /// mode. On a rejection the registered events stay as they were.
    pub fn add_event(&mut self, user_only: bool, e: Event) -> (r: Result<Option<Call>, KPerfError>)
        requires
            old(self).wf(),
        ensures
            final(self).wf(),
            (final(self)@, r) == add_event_spec(old(self)@, user_only, e),
    {
        if !(self.step == Step::Idle && self.phase == Phase::Ready) {
            return Err(KPerfError::Unknown);
        }
        self.user_only = user_only;
        self.queued = Vec::new();
        self.begin_lookup(e)
    }

    /// Registers several events in the given order, stopping at the first
    /// rejection.
    pub fn add_events(&mut self, user_only: bool, events: &[Event]) -> (r: Result<
        Option<Call>,
        KPerfError,
    >)
        requires
            old(self).wf(),
        ensures
            final(self).wf(),
            (final(self)@, r) == add_events_spec(old(self)@, user_only, events@),
    {
        if !(self.step == Step::Idle && self.phase == Phase::Ready) {
            return Err(KPerfError::Unknown);
        }
        if events.len() == 0 {
            return self.finish();
        }
        let mut rest: Vec<Event> = Vec::new();
        let mut i: usize = 1;
        while i < events.len()
            invariant
                1 <= i <= events@.len(),
                rest@ == events@.subrange(1, i as int),
            decreases events@.len() - i,
        {
            rest.push(events[i]);
            proof {
                assert(events@.subrange(1, i + 1) =~= events@.subrange(1, i as int).push(
                    events@[i as int],
                ));
            }
            i = i + 1;
        }
        self.user_only = user_only;
        self.queued = rest;
        self.begin_lookup(events[0])
    }

    /// Starts counting. Without registered events nothing is done. A session
    /// is started at most once: reuse after a stop is refused.
    pub fn start(&mut self) -> (r: Result<Option<Call>, KPerfError>)
        requires
            old(self).wf(),
        ensures
            final(self).wf(),
            (final(self)@, r) == start_spec(old(self)@),
    {
        if self.events.len() == 0 {
            return Ok(None);
        }
        if !(self.step == Step::Idle && self.phase == Phase::Ready) {
            return Err(KPerfError::Unknown);
        }
        self.proceed(Step::Classes, Call::ReadClasses)
    }

    /// Stops counting. Without registered events nothing is done.
    pub fn stop(&mut self) -> (r: Result<Option<Call>, KPerfError>)
        requires
            old(self).wf(),
        ensures
            final(self).wf(),
            (final(self)@, r) == stop_spec(old(self)@),
    {
        if self.events.len() == 0 {
            return Ok(None);
        }
        if !(self.step == Step::Idle && self.phase == Phase::Started) {
            return Err(KPerfError::Unknown);
        }
        self.proceed(Step::StopSnapshot, Call::ReadCounters)
    }

    /// Takes the outcome of the pending native call, and gives the next call,
    /// `None` when the operation is complete, or the error that ends it.
    pub fn resume(&mut self, reply: Reply) -> (r: Result<Option<Call>, KPerfError>)
        requires
            old(self).wf(),
        ensures
            final(self).wf(),
            (final(self)@, r) == resume_spec(old(self)@, reply),
    {
        match (self.step, reply) {
            (Step::Probe, Reply::Status(x)) => if x == 0 {
                self.proceed(Step::CreateDatabase, Call::CreateDatabase)
            } else {
                self.fail(KPerfError::PermissionDenied)
            },
            (Step::CreateDatabase, Reply::Status(x)) => if x == 0 {
                self.db_held = true;
                self.proceed(Step::CreateConfig, Call::CreateConfig)
            } else {
                self.fail(KPerfError::InitError)
            },
            (Step::CreateConfig, Reply::Status(x)) => if x == 0 {
                self.config_held = true;
                self.proceed(Step::ForceConfig, Call::ForceConfigCounters)
            } else {
                self.fail(KPerfError::InitError)
            },
            (Step::ForceConfig, Reply::Done) => {
                self.phase = Phase::Ready;
                self.finish()
            },
            (Step::Lookup, Reply::Found(f)) => if f {
                let mode: u32 = if self.user_only {
                    1
                } else {
                    0
                };
                self.proceed(Step::AddToConfig, Call::AddToConfig { mode })
            } else {
                self.fail(KPerfError::InvalidEvent)
            },
            (Step::AddToConfig, Reply::Status(x)) => if x == 0 {
                let e = self.current;
                self.events.push(e);
                self.next_queued()
            } else {
                self.fail(KPerfError::InvalidEvent)
            },
            (Step::Classes, Reply::Classes(x, c)) => if x == 0 {
                self.classes = c;
                self.proceed(Step::RegisterCount, Call::ReadRegisterCount)
            } else {
                self.fail(KPerfError::InitError)
            },
            (Step::RegisterCount, Reply::RegisterCount(x, n)) => if x == 0 {
                self.reg_count = n;
                self.proceed(Step::CounterMap, Call::ReadCounterMap)
            } else {
                self.fail(KPerfError::InitError)
            },
            (Step::CounterMap, Reply::CounterMap(x, m)) => if x != 0 {
                self.fail(KPerfError::InitError)
            } else if !map_is_valid(&m) {
                self.fail(KPerfError::Unknown)
            } else {
                self.counter_map = m;
                self.proceed(Step::Registers, Call::ReadRegisterValues)
            },
            (Step::Registers, Reply::Registers(x, v)) => if x != 0 {
                self.fail(KPerfError::InitError)
            } else if v.len() != MAX_COUNTERS {
                self.fail(KPerfError::Unknown)
            } else {
                self.regs = v;
                self.proceed(Step::ForceAll, Call::ForceAllCounters)
            },
            (Step::ForceAll, Reply::Status(x)) => if x != 0 {
                self.fail(KPerfError::InitError)
            } else if self.classes & CONFIGURABLE_CLASS_MASK != 0 && self.reg_count != 0 {
                let classes = self.classes;
                self.proceed(Step::ProgramConfig, Call::ProgramConfig { classes })
            } else {
                let classes = self.classes;
                self.proceed(Step::Counting, Call::SetCounting { classes })
            },
            (Step::ProgramConfig, Reply::Status(x)) => if x == 0 {
                let classes = self.classes;
                self.proceed(Step::Counting, Call::SetCounting { classes })
            } else {
                self.fail(KPerfError::InitError)
            },
            (Step::Counting, Reply::Status(x)) => if x == 0 {
                let classes = self.classes;
                self.proceed(Step::ThreadCounting, Call::SetThreadCounting { classes })
            } else {
                self.fail(KPerfError::InitError)
            },
            (Step::ThreadCounting, Reply::Status(x)) => if x == 0 {
                self.proceed(Step::StartSnapshot, Call::ReadCounters)
            } else {
                self.fail(KPerfError::InitError)
            },
            (Step::StartSnapshot, Reply::Counters(x, v)) => if x != 0 {
                self.fail(KPerfError::FetchCountersFailed)
            } else if v.len() != MAX_COUNTERS {
                self.fail(KPerfError::Unknown)
            } else {
                self.start_counters = v;
                self.phase = Phase::Started;
                self.finish()
            },
            (Step::StopSnapshot, Reply::Counters(x, v)) => if x != 0 {
                self.fail(KPerfError::FetchCountersFailed)
            } else if v.len() != MAX_COUNTERS {
                self.fail(KPerfError::Unknown)
            } else {
                self.stop_counters = v;
                self.proceed(Step::Disable, Call::SetCounting { classes: 0 })
            },
            (Step::Disable, Reply::Status(x)) => if x == 0 {
                self.proceed(Step::ThreadDisable, Call::SetThreadCounting { classes: 0 })
            } else {
                self.phase = Phase::Stopped;
                self.fail(KPerfError::DeinitError)
            },
            (Step::ThreadDisable, Reply::Status(x)) => if x == 0 {
                self.phase = Phase::Stopped;
                self.finish()
            } else {
                self.phase = Phase::Stopped;
                self.fail(KPerfError::DeinitError)
            },
            _ => self.fail(KPerfError::Unknown),
        }
    }

    /// The delta of each registered event, from the two snapshots and the
    /// register map. Reading does not touch the hardware.
    pub fn get_results(&self) -> (r: Results)
        requires
            self.wf(),
        ensures
            r@ == results_of(self@),
    {
        let mut r = Results::new();
        let mut i: usize = 0;
        while i < self.events.len()
            invariant
                self.wf(),
                i <= self.events@.len(),
                r@ == results_upto(self@, i as nat),
            decreases self.events@.len() - i,
        {
            let slot = self.counter_map[i];
            let d = self.stop_counters[slot].wrapping_sub(self.start_counters[slot]);
            r.set(self.events[i], d);
            i = i + 1;
        }
        r
    }

    /// Teardown: the native releases to make, configuration first. Each held
    /// resource is named once; afterwards none is held.
    pub fn release(&mut self) -> (r: Vec<Call>)
        requires
            old(self).wf(),
        ensures
            final(self).wf(),
            r@ == release_plan(old(self)@),
            final(self)@ == released(old(self)@),
    {
        let mut r: Vec<Call> = Vec::new();
        if self.config_held {
            r.push(Call::FreeConfig);
        }
        if self.db_held {
            r.push(Call::FreeDatabase);
        }
        self.config_held = false;
        self.db_held = false;
        self.phase = Phase::Released;
        self.step = Step::Idle;
        assert(r@ =~= release_plan(old(self)@));
        r
    }

    /// Where the session stands in its lifecycle.
    pub fn phase(&self) -> (r: Phase)
        ensures
            r == self@.phase,
    {
        self.phase
    }

    /// The registered events, in registration order.
    pub fn events(&self) -> (r: &Vec<Event>)
        ensures
            r@ == self@.events,
    {
        &self.events
    }

    /// The register values to program the configurable counters with.
    pub fn registers(&self) -> (r: &Vec<u64>)
        ensures
            r@ == self@.regs,
    {
        &self.regs
    }
}

/// Whether a register map reply names only counters of a snapshot.
fn map_is_valid(m: &Vec<usize>) -> (r: bool)
    ensures
        r == valid_map(m@),
{
    if m.len() != MAX_COUNTERS {
        return false;
    }
    let mut i: usize = 0;
    while i < m.len()
        invariant
            i <= m@.len(),
            forall|j: int| 0 <= j < i ==> #[trigger] m@[j] < MAX_COUNTERS,
        decreases m@.len() - i,
    {
        if m[i] >= MAX_COUNTERS {
            return false;
        }
        i = i + 1;
    }
    true
}

/// A failed privilege probe ends construction with `PermissionDenied`
/// before any native resource is acquired: nothing is left to release.
pub proof fn lemma_probe_failure_acquires_nothing(s: SessionView, x: i32)
    requires
        s.step == Step::Probe,
        !s.db_held,
        !s.config_held,
        x != 0,
    ensures
        resume_spec(s, Reply::Status(x)).1 == Err::<Option<Call>, KPerfError>(
            KPerfError::PermissionDenied,
        ),
        !resume_spec(s, Reply::Status(x)).0.db_held,
        !resume_spec(s, Reply::Status(x)).0.config_held,
        release_plan(resume_spec(s, Reply::Status(x)).0).len() == 0,
{
}

/// Teardown releases each held resource exactly once, the configuration
/// before the database; a fully initialized session holds both, whatever
/// its counting phase. After teardown nothing is left to release.
pub proof fn lemma_release_exactly_once(s: SessionView)
    requires
        session_wf(s),
    ensures
        is_live(s.phase) ==> release_plan(s) == seq![Call::FreeConfig, Call::FreeDatabase],
        release_plan(s).contains(Call::FreeConfig) == s.config_held,
        release_plan(s).contains(Call::FreeDatabase) == s.db_held,
        forall|i: int, j: int|
            0 <= i < j < release_plan(s).len() ==> release_plan(s)[i] != release_plan(s)[j],
        release_plan(released(s)).len() == 0,
{
    let p = release_plan(s);
    if s.config_held && s.db_held {
        assert(p =~= seq![Call::FreeConfig, Call::FreeDatabase]);
        assert(p[0] == Call::FreeConfig);
        assert(p[1] == Call::FreeDatabase);
    } else if s.config_held {
        assert(p =~= seq![Call::FreeConfig]);
        assert(p[0] == Call::FreeConfig);
    } else if s.db_held {
        assert(p =~= seq![Call::FreeDatabase]);
        assert(p[0] == Call::FreeDatabase);
    } else {
        assert(p =~= Seq::<Call>::empty());
    }
    assert(release_plan(released(s)) =~= Seq::<Call>::empty());
}

/// An event that the database does not know, or that the configuration
/// rejects, gives `InvalidEvent` and leaves the registered events unchanged.
pub proof fn lemma_rejected_event_keeps_events(s: SessionView, reply: Reply)
    requires
        (s.step == Step::Lookup && reply == Reply::Found(false)) || (s.step == Step::AddToConfig
            && reply is Status && reply->Status_0 != 0),
    ensures
        resume_spec(s, reply).1 == Err::<Option<Call>, KPerfError>(KPerfError::InvalidEvent),
        resume_spec(s, reply).0.events == s.events,
{
}

/// With no registered event, starting and stopping succeed without any
/// native call or change, and the result mapping is empty.
pub proof fn lemma_no_events(s: SessionView)
    requires
        s.events.len() == 0,
    ensures
        start_spec(s) == (s, Ok::<Option<Call>, KPerfError>(None)),
        stop_spec(s) == (s, Ok::<Option<Call>, KPerfError>(None)),
        results_of(s) == Map::<Event, u64>::empty(),
{
}

proof fn lemma_results_upto_keys(s: SessionView, n: nat, e: Event)
    requires
        n <= s.events.len(),
    ensures
        results_upto(s, n).contains_key(e) <==> exists|i: int| 0 <= i < n && s.events[i] == e,
    decreases n,
{
    if n > 0 {
        lemma_results_upto_keys(s, (n - 1) as nat, e);
        if s.events[n - 1] != e && results_upto(s, n).contains_key(e) {
            let i = choose|i: int| 0 <= i < n - 1 && s.events[i] == e;
        }
        if exists|i: int| 0 <= i < n && s.events[i] == e {
            let i = choose|i: int| 0 <= i < n && s.events[i] == e;
            if i < n - 1 {
                assert(exists|i: int| 0 <= i < n - 1 && s.events[i] == e);
            }
        }
    }
}

proof fn lemma_results_upto_value(s: SessionView, n: nat, i: int)
    requires
        n <= s.events.len(),
        0 <= i < n,
        forall|j: int| i < j < n ==> s.events[j] != s.events[i],
    ensures
        results_upto(s, n)[s.events[i]] == event_delta(s, i),
    decreases n,
{
    if i < n - 1 {
        lemma_results_upto_value(s, (n - 1) as nat, i);
    }
}

/// The result mapping holds exactly the registered events, and each maps to
/// the delta of the counter slot of its last registration.
pub proof fn lemma_results_cover_registered(s: SessionView)
    ensures
        forall|e: Event| #[trigger]
            results_of(s).contains_key(e) <==> s.events.contains(e),
        forall|i: int|
            0 <= i < s.events.len() && (forall|j: int|
                i < j < s.events.len() ==> s.events[j] != s.events[i]) ==> #[trigger] results_of(
                s,
            )[s.events[i]] == event_delta(s, i),
{
    assert forall|e: Event| #[trigger] results_of(s).contains_key(e) <==> s.events.contains(e) by {
        lemma_results_upto_keys(s, s.events.len(), e);
    }
    assert forall|i: int|
        0 <= i < s.events.len() && (forall|j: int|
            i < j < s.events.len() ==> s.events[j] != s.events[i]) implies #[trigger] results_of(
        s,
    )[s.events[i]] == event_delta(s, i) by {
        lemma_results_upto_value(s, s.events.len(), i);
    }
}

proof fn lemma_results_upto_same(s: SessionView, t: SessionView, n: nat)
    requires
        n <= s.events.len(),
        s.events == t.events,
        s.counter_map == t.counter_map,
        s.start == t.start,
        s.stop == t.stop,
    ensures
        results_upto(s, n) == results_upto(t, n),
    decreases n,
{
    if n > 0 {
        lemma_results_upto_same(s, t, (n - 1) as nat);
    }
}

/// The result mapping is a function of the registered events, the register
/// map and the two snapshots alone: reading it again gives the same mapping.
pub proof fn lemma_results_from_snapshots(s: SessionView, t: SessionView)
    requires
        s.events == t.events,
        s.counter_map == t.counter_map,
        s.start == t.start,
        s.stop == t.stop,
    ensures
        results_of(s) == results_of(t),
{
    lemma_results_upto_same(s, t, s.events.len());
}

/// Stopping a started session whose native calls all succeed takes the stop
/// snapshot, disables counting globally and for the thread, and ends in
/// `Stopped`. The result mapping then holds exactly the registered events,
/// each with the delta of its counter slot: the plain difference of the two
/// readings when the counter did not wrap.
pub proof fn lemma_stop_run(s: SessionView, snapshot: Reply)
    requires
        session_wf(s),
        s.step == Step::Idle,
        s.phase == Phase::Started,
        s.events.len() > 0,
        snapshot is Counters,
        snapshot->Counters_0 == 0,
        snapshot->Counters_1@.len() == MAX_COUNTERS,
    ensures
        ({
            let t1 = stop_spec(s);
            let t2 = resume_spec(t1.0, snapshot);
            let t3 = resume_spec(t2.0, Reply::Status(0));
            let t4 = resume_spec(t3.0, Reply::Status(0));
            let v = snapshot->Counters_1@;
            &&& t1.1 == Ok::<Option<Call>, KPerfError>(Some(Call::ReadCounters))
            &&& t2.1 == Ok::<Option<Call>, KPerfError>(Some(Call::SetCounting { classes: 0 }))
            &&& t3.1 == Ok::<Option<Call>, KPerfError>(
                Some(Call::SetThreadCounting { classes: 0 }),
            )
            &&& t4.1 == Ok::<Option<Call>, KPerfError>(None)
            &&& t4.0.phase == Phase::Stopped
            &&& t4.0.stop == v
            &&& t4.0.events == s.events
            &&& t4.0.start == s.start
            &&& t4.0.counter_map == s.counter_map
            &&& forall|e: Event| #[trigger]
                results_of(t4.0).contains_key(e) <==> s.events.contains(e)
            &&& forall|i: int|
                0 <= i < s.events.len() && (forall|j: int|
                    i < j < s.events.len() ==> s.events[j] != s.events[i]) ==> #[trigger] results_of(
                    t4.0,
                )[s.events[i]] == counter_delta(
                    s.start[s.counter_map[i] as int],
                    v[s.counter_map[i] as int],
                )
            &&& forall|i: int|
                0 <= i < s.events.len() && (forall|j: int|
                    i < j < s.events.len() ==> s.events[j] != s.events[i]) && v[s.counter_map[i] as int]
                    >= s.start[s.counter_map[i] as int] ==> #[trigger] results_of(t4.0)[s.events[i]]
                    == v[s.counter_map[i] as int] - s.start[s.counter_map[i] as int]
        }),
{
    let t1 = stop_spec(s);
    let t2 = resume_spec(t1.0, snapshot);
    let t3 = resume_spec(t2.0, Reply::Status(0));
    let t4 = resume_spec(t3.0, Reply::Status(0));
    lemma_results_cover_registered(t4.0);
}

/// An operation that a caller makes on a session, teardown aside.
pub enum Op {
    Init,
    AddEvent(bool, Event),
    AddEvents(bool, Vec<Event>),
    Start,
    Stop,
    Resume(Reply),
}

/// The outcome of one operation.
pub open spec fn apply(s: SessionView, op: Op) -> Outcome {
    match op {
        Op::Init => init_spec(s),
        Op::AddEvent(u, e) => add_event_spec(s, u, e),
        Op::AddEvents(u, es) => add_events_spec(s, u, es@),
        Op::Start => start_spec(s),
        Op::Stop => stop_spec(s),
        Op::Resume(r) => resume_spec(s, r),
    }
}

/// The state after a sequence of operations.
pub open spec fn run(s: SessionView, ops: Seq<Op>) -> SessionView
    decreases ops.len(),
{
    if ops.len() == 0 {
        s
    } else {
        run(apply(s, ops[0]).0, ops.drop_first())
    }
}

/// Whether an outcome asks the driver to free a native handle.
pub open spec fn frees(r: Result<Option<Call>, KPerfError>) -> bool {
    r == Ok::<Option<Call>, KPerfError>(Some(Call::FreeConfig)) || r == Ok::<
        Option<Call>,
        KPerfError,
    >(Some(Call::FreeDatabase))
}

/// Whether some operation of a sequence asks the driver to free a handle.
pub open spec fn frees_along(s: SessionView, ops: Seq<Op>) -> bool
    decreases ops.len(),
{
    ops.len() > 0 && (frees(apply(s, ops[0]).1) || frees_along(apply(s, ops[0]).0, ops.drop_first()))
}

proof fn lemma_apply_keeps_handles(s: SessionView, op: Op)
    requires
        session_wf(s),
        is_live(s.phase),
    ensures
        session_wf(apply(s, op).0),
        is_live(apply(s, op).0.phase),
        !frees(apply(s, op).1),
{
}

/// A fully initialized session keeps both native handles through any
/// sequence of operations, successful or not, none of which frees one; its
/// teardown then frees the configuration and the database exactly once each,
/// and a second teardown frees nothing.
pub proof fn lemma_handles_freed_once(s: SessionView, ops: Seq<Op>)
    requires
        session_wf(s),
        is_live(s.phase),
    ensures
        session_wf(run(s, ops)),
        is_live(run(s, ops).phase),
        !frees_along(s, ops),
        release_plan(run(s, ops)) == seq![Call::FreeConfig, Call::FreeDatabase],
        release_plan(released(run(s, ops))).len() == 0,
    decreases ops.len(),
{
    if ops.len() > 0 {
        lemma_apply_keeps_handles(s, ops[0]);
        lemma_handles_freed_once(apply(s, ops[0]).0, ops.drop_first());
    }
    lemma_release_exactly_once(run(s, ops));
}

} // verus!
