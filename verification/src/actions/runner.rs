//! The transactional action runner: actions execute in push order, and
//! every action that performed successfully is cleaned up afterwards in
//! strict reverse order of performance — also when a later action fails,
//! in which case no further action is performed and the original error is
//! returned.

use vstd::prelude::*;

use crate::actions::Action;
use crate::errors::Error;

verus! {

/// An ordered sequence of actions, consumed exactly once by `run`.
pub struct Runner<A> {
    actions: Vec<A>,
}

impl<A> View for Runner<A> {
    type V = Seq<A>;

    closed spec fn view(&self) -> Seq<A> {
        self.actions@
    }
}

impl<A> Runner<A> {
    /// An empty runner.
    pub fn new() -> (r: Result<Runner<A>, Error>)
        ensures
            r matches Ok(run) && run@ == Seq::<A>::empty(),
    {
        Ok(Runner { actions: Vec::new() })
    }

    /// Add an action, to be performed after everything already added.
    pub fn push(&mut self, action: A)
        ensures
            final(self)@ == old(self)@.push(action),
    {
        self.actions.push(action);
    }

    /// Consume `other`, appending its actions after this runner's, in
    /// their order.
    pub fn append(&mut self, other: Runner<A>)
        ensures
            final(self)@ == old(self)@ + other@,
    {
        let mut o = other;
        self.actions.append(&mut o.actions);
    }

    /// Hand the actions over in order, for a driver that executes them
    /// outside this engine.
    pub fn into_actions(self) -> (r: Vec<A>)
        ensures
            r@ == self@,
    {
        self.actions
    }
}

/// What one call of `run` did: the overall outcome, the lines a dry run
/// described, the cleanup pass's log, and (as specification state) the
/// actions' final states and how many of them performed.
pub struct RunReport<A> {
    /// The first perform error, or success.
    pub result: Result<(), Error>,
    /// In pretend mode, one description per action, in original order.
    pub described: Vec<String>,
    /// For every cleanup invoked, in invocation order: the action's
    /// description and whether its cleanup succeeded.
    pub cleanup_log: Vec<(String, bool)>,
    /// The actions as the run left them, in original order.
    pub end_states: Ghost<Seq<A>>,
    /// How many actions performed successfully.
    pub performed_count: Ghost<int>,
}

impl<A: Action> Runner<A> {
    /// Clean up the given stack of performed actions, most recently
    /// pushed first.  A cleanup failure is recorded in the log but does
    /// not stop the pass.
    pub fn run_cleanups(cleanups: Vec<A>) -> (r: (Vec<A>, Vec<(String, bool)>))
        requires
            forall|i: int|
                0 <= i < cleanups@.len() ==> (#[trigger] cleanups@[i]).performed()
                    && !cleanups@[i].cleaned(),
        ensures
            r.0@.len() == cleanups@.len(),
            r.1@.len() == cleanups@.len(),
            forall|j: int|
                0 <= j < cleanups@.len() ==> {
                    let done = #[trigger] r.0@[j];
                    &&& done.performed()
                    &&& done.cleaned()
                    &&& done.description()@ == cleanups@[cleanups@.len() - 1 - j].description()@
                },
            forall|j: int|
                0 <= j < cleanups@.len() ==> (#[trigger] r.1@[j]).0@ == cleanups@[cleanups@.len()
                    - 1 - j].description()@,
            forall|j: int|
                0 <= j < cleanups@.len() ==> (#[trigger] r.1@[j]).1 == r.0@[j].cleanup_ok(),
    {
        let ghost orig = cleanups@;
        let ghost n = cleanups@.len() as int;
        let mut stack = cleanups;
        let mut done: Vec<A> = Vec::new();
        let mut log: Vec<(String, bool)> = Vec::new();
        while stack.len() > 0
            invariant
                n == orig.len(),
                stack@ == orig.subrange(0, stack@.len() as int),
                done@.len() == log@.len(),
                done@.len() == n - stack@.len(),
                forall|i: int|
                    0 <= i < stack@.len() ==> (#[trigger] stack@[i]).performed()
                        && !stack@[i].cleaned(),
                forall|j: int|
                    0 <= j < done@.len() ==> {
                        let d = #[trigger] done@[j];
                        &&& d.performed()
                        &&& d.cleaned()
                        &&& d.description()@ == orig[n - 1 - j].description()@
                    },
                forall|j: int|
                    0 <= j < log@.len() ==> (#[trigger] log@[j]).0@ == orig[n - 1
                        - j].description()@,
                forall|j: int|
                    0 <= j < log@.len() ==> (#[trigger] log@[j]).1 == done@[j].cleanup_ok(),
            decreases stack@.len(),
        {
            let ghost s0 = stack@;
            let mut action = match stack.pop() {
                Some(a) => a,
                None => unreached(),
            };
            proof {
                assert(s0[s0.len() - 1] == action);
                assert(stack@ =~= orig.subrange(0, stack@.len() as int));
            }
            let text = action.describe();
            let ok = match action.cleanup() {
                Ok(()) => true,
                Err(_) => false,
            };
            log.push((text, ok));
            done.push(action);
        }
        proof {
            assert(stack@ =~= Seq::<A>::empty());
        }
        (done, log)
    }

    /// Execute the runner.
    ///
    /// With `pretend`, nothing is performed or cleaned up: the report
    /// carries one description per action, in original order, and the
    /// actions are returned untouched.
    ///
    /// Otherwise the actions are performed strictly in push order.  On
    /// the first failure no further action is performed and the report
    /// carries that perform error.  Every action that performed
    /// successfully — and only those — is then cleaned up, in strict
    /// reverse order of performance; the failed action and the untried
    /// rest are left untouched.  An empty runner succeeds with no effect.
    pub fn run(self, pretend: bool) -> (r: RunReport<A>)
        requires
            forall|i: int|
                0 <= i < self@.len() ==> !(#[trigger] self@[i]).performed()
                    && !self@[i].cleaned(),
        ensures
            r.end_states@.len() == self@.len(),
            pretend ==> {
                &&& r.result is Ok
                &&& r.performed_count@ == 0
                &&& r.described@.len() == self@.len()
                &&& (forall|i: int|
                    0 <= i < self@.len() ==> (#[trigger] r.described@[i])@
                        == self@[i].description()@)
                &&& r.cleanup_log@.len() == 0
                &&& r.end_states@ == self@
            },
            !pretend ==> {
                let pc = r.performed_count@;
                &&& r.described@.len() == 0
                &&& 0 <= pc <= self@.len()
                &&& (r.result is Ok <==> pc == self@.len())
                &&& (forall|i: int|
                    0 <= i < pc ==> {
                        let a = #[trigger] r.end_states@[i];
                        &&& a.performed()
                        &&& a.cleaned()
                        &&& a.description()@ == self@[i].description()@
                    })
                &&& (pc < self@.len() ==> !r.end_states@[pc].performed()
                    && !r.end_states@[pc].cleaned())
                &&& (forall|i: int|
                    pc < i < self@.len() ==> #[trigger] r.end_states@[i] == self@[i])
                &&& (r.result matches Err(e) ==> r.end_states@[pc].last_failure() == Some(e))
                &&& r.cleanup_log@.len() == pc
                &&& (forall|j: int|
                    0 <= j < pc ==> (#[trigger] r.cleanup_log@[j]).0@ == self@[pc - 1
                        - j].description()@)
                &&& (forall|j: int|
                    0 <= j < pc ==> (#[trigger] r.cleanup_log@[j]).1 == r.end_states@[pc - 1
                        - j].cleanup_ok())
            },
            (!pretend && self@.len() == 0) ==> r.result is Ok,
    {
        let ghost orig = self@;
        let ghost n = self@.len() as int;
        let mut actions = self.actions;
        if pretend {
            let total = actions.len();
            let mut described: Vec<String> = Vec::new();
            let mut i: usize = 0;
            while i < total
                invariant
                    total == actions@.len(),
                    actions@ == orig,
                    i <= total,
                    described@.len() == i,
                    forall|k: int|
                        0 <= k < i ==> (#[trigger] described@[k])@ == orig[k].description()@,
                decreases total - i,
            {
                let line = actions[i].describe();
                described.push(line);
                i = i + 1;
            }
            return RunReport {
                result: Ok(()),
                described,
                cleanup_log: Vec::new(),
                end_states: Ghost(actions@),
                performed_count: Ghost(0),
            };
        }
        // Perform phase: stop at the first failure.
        let mut performed: Vec<A> = Vec::new();
        let mut failure: Option<Error> = None;
        let ghost mut gfailed: Option<A> = None;
        while actions.len() > 0 && failure.is_none()
            invariant
                orig.len() == n,
                forall|i: int|
                    0 <= i < n ==> !(#[trigger] orig[i]).performed() && !orig[i].cleaned(),
                failure is None ==> {
                    &&& gfailed is None
                    &&& performed@.len() + actions@.len() == n
                    &&& actions@ == orig.subrange(performed@.len() as int, n)
                },
                failure matches Some(e) ==> {
                    &&& gfailed is Some
                    &&& performed@.len() + 1 + actions@.len() == n
                    &&& actions@ == orig.subrange(performed@.len() as int + 1, n)
                    &&& !gfailed->0.performed()
                    &&& !gfailed->0.cleaned()
                    &&& gfailed->0.last_failure() == Some(e)
                },
                forall|i: int|
                    0 <= i < performed@.len() ==> {
                        let a = #[trigger] performed@[i];
                        &&& a.performed()
                        &&& !a.cleaned()
                        &&& a.description()@ == orig[i].description()@
                    },
            decreases actions@.len(),
        {
            let ghost a0 = actions@;
            let mut action = actions.remove(0);
            proof {
                assert(action == orig[performed@.len() as int]);
                assert(actions@ =~= orig.subrange(performed@.len() as int + 1, n));
            }
            match action.perform() {
                Ok(()) => {
                    performed.push(action);
                    proof {
                        assert(actions@ =~= orig.subrange(performed@.len() as int, n));
                    }
                },
                Err(e) => {
                    failure = Some(e);
                    proof {
                        gfailed = Some(action);
                    }
                },
            }
        }
        let ghost pc = performed@.len() as int;
        // Cleanup phase: everything performed, newest first.
        let (cleaned, cleanup_log) = Self::run_cleanups(performed);
        let ghost end = Seq::new(
            n as nat,
            |i: int|
                if i < pc {
                    cleaned@[pc - 1 - i]
                } else if i == pc && gfailed is Some {
                    gfailed->0
                } else {
                    actions@[i - pc - (if gfailed is Some {
                        1int
                    } else {
                        0int
                    })]
                },
        );
        let result: Result<(), Error> = match failure {
            Some(e) => Err(e),
            None => Ok(()),
        };
        proof {
            assert forall|i: int| 0 <= i < pc implies {
                let a = #[trigger] end[i];
                &&& a.performed()
                &&& a.cleaned()
                &&& a.description()@ == orig[i].description()@
            } by {
                assert(end[i] == cleaned@[pc - 1 - i]);
                assert(cleaned@[pc - 1 - i].description()@ == orig[pc - 1 - (pc - 1
                    - i)].description()@);
            }
            if gfailed is Some {
                assert(end[pc] == gfailed->0);
                assert forall|i: int| pc < i < n implies #[trigger] end[i] == orig[i] by {
                    assert(end[i] == actions@[i - pc - 1]);
                    assert(actions@[i - pc - 1] == orig.subrange(pc + 1, n)[i - pc - 1]);
                }
            } else {
                assert(pc == n);
            }
        }
        RunReport {
            result,
            described: Vec::new(),
            cleanup_log,
            end_states: Ghost(end),
            performed_count: Ghost(pc),
        }
    }
}

} // verus!
