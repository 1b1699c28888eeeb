use vstd::prelude::*;

verus! {

/// A measurable CPU activity, independent of the processor family.
#[derive(Debug, Clone, Copy, PartialEq, Eq, Hash, Structural)]
pub enum Event {
    Cycles,
    Instructions,
    Branches,
    BranchMisses,
}

/// The processor family whose event-name table is in use.
#[derive(Debug, Clone, Copy, PartialEq, Eq, Structural)]
pub enum Arch {
    X86_64,
    Aarch64,
}

/// The short textual name of an event.
pub open spec fn name_of(e: Event) -> Seq<char> {
    match e {
        Event::Cycles => seq!['c', 'y', 'c', 'l', 'e', 's'],
        Event::Instructions => seq!['i', 'n', 's', 't', 'r', 'u', 'c', 't', 'i', 'o', 'n', 's'],
        Event::Branches => seq!['b', 'r', 'a', 'n', 'c', 'h', 'e', 's'],
        Event::BranchMisses => seq![
            'b', 'r', 'a', 'n', 'c', 'h', '-', 'm', 'i', 's', 's', 'e', 's'
        ],
    }
}

/// The event whose short name is `s`, if any.
pub open spec fn event_named(s: Seq<char>) -> Option<Event> {
    if s == name_of(Event::Cycles) {
        Some(Event::Cycles)
    } else if s == name_of(Event::Instructions) {
        Some(Event::Instructions)
    } else if s == name_of(Event::Branches) {
        Some(Event::Branches)
    } else if s == name_of(Event::BranchMisses) {
        Some(Event::BranchMisses)
    } else {
        None
    }
}

/// The platform database's name of an event on a processor family, without
/// the terminating NUL.
pub open spec fn internal_name_of(e: Event, arch: Arch) -> Seq<char> {
    match arch {
        Arch::X86_64 => match e {
            Event::Cycles => "CPU_CLK_UNHALTED.THREAD"@,
            Event::Instructions => "INST_RETIRED.ANY"@,
            Event::Branches => "BR_INST_RETIRED.ALL_BRANCHES"@,
            Event::BranchMisses => "BR_MISP_RETIRED.ALL_BRANCHES"@,
        },
        Arch::Aarch64 => match e {
            Event::Cycles => "FIXED_CYCLES"@,
            Event::Instructions => "FIXED_INSTRUCTIONS"@,
            Event::Branches => "INST_BRANCH"@,
            Event::BranchMisses => "BRANCH_MISPRED_NONSPEC"@,
        },
    }
}

/// Whether two strings hold the same characters.
fn same_chars(a: &str, b: &str) -> (r: bool)
    ensures
        r == (a@ == b@),
{
    let n = a.unicode_len();
    if n != b.unicode_len() {
        return false;
    }
    let mut i: usize = 0;
    while i < n
        invariant
            n == a@.len(),
            n == b@.len(),
            i <= n,
            a@.subrange(0, i as int) == b@.subrange(0, i as int),
        decreases n - i,
    {
        if a.get_char(i) != b.get_char(i) {
            return false;
        }
        proof {
            assert(a@.subrange(0, i + 1) =~= a@.subrange(0, i as int).push(a@[i as int]));
            assert(b@.subrange(0, i + 1) =~= b@.subrange(0, i as int).push(b@[i as int]));
        }
        i = i + 1;
    }
    proof {
        assert(a@ =~= a@.subrange(0, n as int));
        assert(b@ =~= b@.subrange(0, n as int));
    }
    true
}

impl Event {
    /// Every supported event, in declaration order.
    pub fn all() -> (r: Vec<Event>)
        ensures
            r@ == seq![Event::Cycles, Event::Instructions, Event::Branches, Event::BranchMisses],
    {
        vec![Event::Cycles, Event::Instructions, Event::Branches, Event::BranchMisses]
    }

    /// The NUL-terminated name under which the platform database knows this
    /// event on the given processor family.
    pub fn get_internal_name(&self, arch: Arch) -> (r: &'static str)
        ensures
            r@ == internal_name_of(*self, arch).push('\0'),
    {
        proof {
            reveal_strlit("CPU_CLK_UNHALTED.THREAD\0");
            reveal_strlit("INST_RETIRED.ANY\0");
            reveal_strlit("BR_INST_RETIRED.ALL_BRANCHES\0");
            reveal_strlit("BR_MISP_RETIRED.ALL_BRANCHES\0");
            reveal_strlit("FIXED_CYCLES\0");
            reveal_strlit("FIXED_INSTRUCTIONS\0");
            reveal_strlit("INST_BRANCH\0");
            reveal_strlit("BRANCH_MISPRED_NONSPEC\0");
            reveal_strlit("CPU_CLK_UNHALTED.THREAD");
            reveal_strlit("INST_RETIRED.ANY");
            reveal_strlit("BR_INST_RETIRED.ALL_BRANCHES");
            reveal_strlit("BR_MISP_RETIRED.ALL_BRANCHES");
            reveal_strlit("FIXED_CYCLES");
            reveal_strlit("FIXED_INSTRUCTIONS");
            reveal_strlit("INST_BRANCH");
            reveal_strlit("BRANCH_MISPRED_NONSPEC");
        }
        let r = match arch {
            Arch::X86_64 => match self {
                Event::Cycles => "CPU_CLK_UNHALTED.THREAD\0",
                Event::Instructions => "INST_RETIRED.ANY\0",
                Event::Branches => "BR_INST_RETIRED.ALL_BRANCHES\0",
                Event::BranchMisses => "BR_MISP_RETIRED.ALL_BRANCHES\0",
            },
            Arch::Aarch64 => match self {
                Event::Cycles => "FIXED_CYCLES\0",
                Event::Instructions => "FIXED_INSTRUCTIONS\0",
                Event::Branches => "INST_BRANCH\0",
                Event::BranchMisses => "BRANCH_MISPRED_NONSPEC\0",
            },
        };
        assert(r@ =~= internal_name_of(*self, arch).push('\0'));
        r
    }

    /// The short textual name of this event.
    pub fn name(&self) -> (r: &'static str)
        ensures
            r@ == name_of(*self),
    {
        proof {
            reveal_strlit("cycles");
            reveal_strlit("instructions");
            reveal_strlit("branches");
            reveal_strlit("branch-misses");
        }
        let r = match self {
            Event::Cycles => "cycles",
            Event::Instructions => "instructions",
            Event::Branches => "branches",
            Event::BranchMisses => "branch-misses",
        };
        assert(r@ =~= name_of(*self));
        r
    }

    /// The event whose short textual name is `s`, or `None` for any other text.
    pub fn from_name(s: &str) -> (r: Option<Event>)
        ensures
            r == event_named(s@),
    {
        if same_chars(s, Event::Cycles.name()) {
            Some(Event::Cycles)
        } else if same_chars(s, Event::Instructions.name()) {
            Some(Event::Instructions)
        } else if same_chars(s, Event::Branches.name()) {
            Some(Event::Branches)
        } else if same_chars(s, Event::BranchMisses.name()) {
            Some(Event::BranchMisses)
        } else {
            None
        }
    }
}

/// Naming an event and reading the name back gives the same event.
pub proof fn lemma_name_round_trip(e: Event)
    ensures
        event_named(name_of(e)) == Some(e),
{
    let c = name_of(Event::Cycles);
    let i = name_of(Event::Instructions);
    let b = name_of(Event::Branches);
    let m = name_of(Event::BranchMisses);
    assert(c.len() != i.len() && c.len() != b.len() && c.len() != m.len());
    assert(i.len() != b.len() && i.len() != m.len() && b.len() != m.len());
}

impl core::str::FromStr for Event {
    type Err = ();

    fn from_str(s: &str) -> (r: Result<Event, ()>)
        ensures
            r == (match event_named(s@) {
                Some(e) => Ok::<Event, ()>(e),
                None => Err::<Event, ()>(()),
            }),
    {
        match Event::from_name(s) {
            Some(e) => Ok(e),
            None => Err(()),
        }
    }
}

impl From<Event> for &'static str {
    fn from(e: Event) -> (r: &'static str) {
        match e {
            Event::Cycles => "cycles",
            Event::Instructions => "instructions",
            Event::Branches => "branches",
            Event::BranchMisses => "branch-misses",
        }
    }
}

impl vstd::std_specs::convert::FromSpecImpl<Event> for &'static str {
    open spec fn obeys_from_spec() -> bool {
        true
    }

    open spec fn from_spec(e: Event) -> &'static str {
        match e {
            Event::Cycles => "cycles",
            Event::Instructions => "instructions",
            Event::Branches => "branches",
            Event::BranchMisses => "branch-misses",
        }
    }
}

} // verus!
