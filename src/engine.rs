//! The decisions of one test's run: build, then scan the domain in ascending
//! order until the first mismatch or its end. The caller performs the device
//! work that each state asks for and reports what came of it.

use vstd::prelude::*;

verus! {

/// How a test ended. Values are carried as their bit patterns.
#[derive(Clone, Debug)]
pub enum Outcome {
    Pass,
    /// The first input on which the device's output was rejected, with the
    /// host's expected value.
    Mismatch { input: u32, output: u32, expected: u32 },
    /// The generated program of the named test did not build.
    Miscompile { name: String },
}

/// Where a test's run stands.
#[derive(Clone, Debug)]
pub enum RunState {
    /// The program is being built.
    Building,
    /// Index `next` is the next to evaluate.
    Scanning { next: u64 },
    Done(Outcome),
}

/// One test's run.
pub struct Scan {
    pub name: String,
    /// Number of scan indices.
    pub domain: u64,
    pub state: RunState,
    /// Number of inputs evaluated so far.
    pub evaluated: u64,
}

impl Scan {
    /// Well-formed: while scanning, every index below `next` has been
    /// evaluated and `next` is in the domain.
    pub open spec fn wf(&self) -> bool {
        match self.state {
            RunState::Building => self.evaluated == 0,
            RunState::Scanning { next } => next < self.domain && self.evaluated == next,
            RunState::Done(_) => self.evaluated <= self.domain,
        }
    }

    /// A run of the named test over `domain` indices, before its build.
    pub fn new(name: String, domain: u64) -> (r: Scan)
        ensures
            r.wf(),
            r.name@ == name@,
            r.domain == domain,
            r.state is Building,
            r.evaluated == 0,
    {
        Scan { name, domain, state: RunState::Building, evaluated: 0 }
    }

    /// The build's result. A failed build ends the test as a miscompile of
    /// its name, with no input evaluated; a successful one starts the scan
    /// at index 0, or passes an empty domain.
    pub fn built(&mut self, ok: bool)
        requires
            old(self).wf(),
            old(self).state is Building,
        ensures
            final(self).wf(),
            final(self).name@ == old(self).name@,
            final(self).domain == old(self).domain,
            final(self).evaluated == 0,
            !ok ==> match final(self).state {
                RunState::Done(Outcome::Miscompile { name }) => name@ == old(self).name@,
                _ => false,
            },
            ok && old(self).domain > 0 ==> final(self).state == (RunState::Scanning { next: 0 }),
            ok && old(self).domain == 0 ==> final(self).state == RunState::Done(Outcome::Pass),
    {
        if !ok {
            let name = self.name.clone();
            self.state = RunState::Done(Outcome::Miscompile { name });
        } else if self.domain > 0 {
            self.state = RunState::Scanning { next: 0 };
        } else {
            self.state = RunState::Done(Outcome::Pass);
        }
    }

    /// The index whose input is to be evaluated next, while scanning.
    pub fn next_index(&self) -> (r: Option<u64>)
        ensures
            r == match self.state {
                RunState::Scanning { next } => Some(next),
                _ => None::<u64>,
            },
    {
        match self.state {
            RunState::Scanning { next } => Some(next),
            _ => None,
        }
    }

    /// The verifier's decision on the current index's input and the device's
    /// output. A rejection ends the test with that mismatch; an acceptance
    /// moves to the next index, or passes the test after the last one.
    pub fn checked(&mut self, input: u32, output: u32, verdict: Result<(), u32>)
        requires
            old(self).wf(),
            old(self).state is Scanning,
        ensures
            final(self).wf(),
            final(self).name@ == old(self).name@,
            final(self).domain == old(self).domain,
            final(self).evaluated == old(self).evaluated + 1,
            match verdict {
                Err(e) => final(self).state == RunState::Done(
                    Outcome::Mismatch { input, output, expected: e },
                ),
                Ok(()) => if old(self).evaluated + 1 == old(self).domain {
                    final(self).state == RunState::Done(Outcome::Pass)
                } else {
                    final(self).state == (RunState::Scanning { next: (old(self).evaluated + 1) as u64 })
                },
            },
    {
        let next = match self.state {
            RunState::Scanning { next } => next,
            _ => 0,
        };
        self.evaluated = next + 1;
        match verdict {
            Err(e) => {
                self.state = RunState::Done(Outcome::Mismatch { input, output, expected: e });
            },
            Ok(()) => {
                if next + 1 == self.domain {
                    self.state = RunState::Done(Outcome::Pass);
                } else {
                    self.state = RunState::Scanning { next: next + 1 };
                }
            },
        }
    }
}

pub open spec fn is_failure(o: Outcome) -> bool {
    !(o is Pass)
}

/// Number of failed tests among `s`.
pub open spec fn failures(s: Seq<Outcome>) -> nat
    decreases s.len(),
{
    if s.len() == 0 {
        0
    } else {
        failures(s.drop_last()) + if is_failure(s.last()) {
            1nat
        } else {
            0nat
        }
    }
}

/// The run's exit status: the number of tests that ended in a mismatch or a
/// miscompile.
pub fn failure_count(outcomes: &Vec<Outcome>) -> (r: usize)
    ensures
        r == failures(outcomes@),
{
    let mut count: usize = 0;
    let mut i: usize = 0;
    while i < outcomes.len()
        invariant
            i <= outcomes@.len(),
            count == failures(outcomes@.take(i as int)),
            count <= i,
        decreases outcomes@.len() - i,
    {
        proof {
            assert(outcomes@.take(i + 1).drop_last() =~= outcomes@.take(i as int));
        }
        match outcomes[i] {
            Outcome::Pass => {},
            _ => {
                count = count + 1;
            },
        }
        i = i + 1;
    }
    proof {
        assert(outcomes@.take(outcomes@.len() as int) =~= outcomes@);
    }
    count
}

} // verus!
