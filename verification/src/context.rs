//! The execution environment: one independent global scope in the engine.
//!
//! An environment owns three nested native resources — an inspection scope,
//! a compilation context inside it, and an active-context scope inside that
//! — all living inside the engine's single isolate. The engine requires the
//! three to be torn down in exactly the reverse of the order they were
//! acquired, and never twice. The host performs the native calls; this
//! module decides what must happen, in which order, and with which outcome,
//! over opaque resource handles.
use vstd::prelude::*;
use vstd::string::StringExecFns;

use crate::error::Error;
use crate::runtime::{spec_lookup, spec_remove_context, RegistryEntry, Runtime, TrampolineCapture};
use crate::value::Value;

verus! {

/// An execution environment: a process-unique id, the handles of its three
/// nested native resources in acquisition order, and whether it has been
/// disposed.
#[derive(Debug, PartialEq, Eq, Structural)]
pub struct Context {
    pub id: u64,
    pub inspection_scope: u64,
    pub compilation_context: u64,
    pub active_scope: u64,
    pub disposed: bool,
}

/// How far the host got when it attempted the environment's native
/// allocations, which it must try in construction order: the inspection
/// scope first, then the compilation context, then the active-context scope.
#[derive(Debug)]
pub enum AllocationReport {
    /// The inspection scope could not be allocated; nothing was acquired.
    ScopeFailed,
    /// The inspection scope was acquired but the compilation context could
    /// not be; the handle is the acquired scope.
    ContextFailed(u64),
    /// All three resources were acquired, in construction order.
    Complete(u64, u64, u64),
}

/// What the engine reported for one script run: a result value, a caught
/// exception with its extracted text, or neither.
#[derive(Debug)]
pub enum RunOutcome {
    Completed(Value),
    Caught(String),
    NoResult,
}

/// The order in which an environment's resources were acquired.
pub open spec fn spec_construction_order(c: Context) -> Seq<u64> {
    seq![c.inspection_scope, c.compilation_context, c.active_scope]
}

/// The order in which an environment's resources must be released.
pub open spec fn spec_disposal_order(c: Context) -> Seq<u64> {
    seq![c.active_scope, c.compilation_context, c.inspection_scope]
}

/// Disposal releases the environment's resources in exactly the reverse of
/// the order construction acquired them.
pub proof fn lemma_disposal_reverses_construction(c: Context)
    ensures
        spec_disposal_order(c) == spec_construction_order(c).reverse(),
{
    assert(spec_disposal_order(c) =~= spec_construction_order(c).reverse());
}

/// What a failed construction attempt must release before its error is
/// returned: the already-acquired resources, newest first, so that no
/// partial allocation outlives the attempt.
pub fn rollback_plan(report: &AllocationReport) -> (plan: Vec<u64>)
    ensures
        match *report {
            AllocationReport::ScopeFailed => plan@ == Seq::<u64>::empty(),
            AllocationReport::ContextFailed(scope) => plan@ == seq![scope],
            AllocationReport::Complete(..) => plan@ == Seq::<u64>::empty(),
        },
{
    match report {
        AllocationReport::ScopeFailed => Vec::new(),
        AllocationReport::ContextFailed(scope) => {
            let mut plan: Vec<u64> = Vec::new();
            plan.push(*scope);
            proof {
                assert(plan@ =~= seq![*scope]);
            }
            plan
        },
        AllocationReport::Complete(..) => Vec::new(),
    }
}

impl Context {
    /// Issues a new environment from the host's allocation attempt. Before
    /// the bootstrap every attempt is refused with `UninitializedRuntime`; a
    /// failed allocation turns into its own error and leaves the handle
    /// untouched (the host must still release the `rollback_plan`); a
    /// complete attempt takes the next environment id.
    pub fn new(rt: &mut Runtime, report: AllocationReport) -> (r: Result<Context, Error>)
        requires
            old(rt).wf(),
            old(rt).next_context_id < u64::MAX,
        ensures
            final(rt).wf(),
            final(rt).initialized == old(rt).initialized,
            final(rt).isolate == old(rt).isolate,
            final(rt).registry@ == old(rt).registry@,
            r is Ok <==> (old(rt).initialized && report is Complete),
            match r {
                Ok(ctx) => {
                    &&& ctx.id == old(rt).next_context_id
                    &&& final(rt).next_context_id == old(rt).next_context_id + 1
                    &&& !ctx.disposed
                    &&& report matches AllocationReport::Complete(scope, context, active)
                    &&& spec_construction_order(ctx) == seq![scope, context, active]
                },
                Err(e) => {
                    &&& final(rt).next_context_id == old(rt).next_context_id
                    &&& e == if !old(rt).initialized {
                        Error::UninitializedRuntime
                    } else if report is ScopeFailed {
                        Error::ScopePointerAllocationFailed
                    } else {
                        Error::ContextAllocationFailed
                    }
                },
            },
    {
        if !rt.initialized {
            return Err(Error::UninitializedRuntime);
        }
        match report {
            AllocationReport::ScopeFailed => Err(Error::ScopePointerAllocationFailed),
            AllocationReport::ContextFailed(_) => Err(Error::ContextAllocationFailed),
            AllocationReport::Complete(scope, context, active) => {
                let id: u64 = rt.next_context_id;
                rt.next_context_id = id + 1;
                let ctx = Context {
                    id,
                    inspection_scope: scope,
                    compilation_context: context,
                    active_scope: active,
                    disposed: false,
                };
                proof {
                    assert(spec_construction_order(ctx) =~= seq![scope, context, active]);
                }
                Ok(ctx)
            },
        }
    }

    /// The handle of the active-context scope, the one resource engine calls
    /// run inside; refused with `InvalidContext` once the environment has
    /// been disposed.
    pub fn context_scope(&self) -> (r: Result<u64, Error>)
        ensures
            self.disposed ==> r == Err::<u64, Error>(Error::InvalidContext),
            !self.disposed ==> r == Ok::<u64, Error>(self.active_scope),
    {
        if self.disposed {
            Err(Error::InvalidContext)
        } else {
            Ok(self.active_scope)
        }
    }

    /// Turns the engine's report of one script run into the host's result: a
    /// completed run hands its value through, a caught exception becomes
    /// `Exception` with the extracted text, and a run with neither result
    /// nor exception becomes `Empty`. A disposed environment refuses the
    /// report with `InvalidContext`.
    pub fn finish_run(&self, outcome: RunOutcome) -> (r: Result<Value, Error>)
        ensures
            self.disposed ==> r == Err::<Value, Error>(Error::InvalidContext),
            !self.disposed ==> match outcome {
                RunOutcome::Completed(v) => r == Ok::<Value, Error>(v),
                RunOutcome::Caught(text) => r == Err::<Value, Error>(Error::Exception(text)),
                RunOutcome::NoResult => r == Err::<Value, Error>(Error::Empty),
            },
    {
        if self.disposed {
            return Err(Error::InvalidContext);
        }
        match outcome {
            RunOutcome::Completed(v) => Ok(v),
            RunOutcome::Caught(text) => Err(Error::Exception(text)),
            RunOutcome::NoResult => Err(Error::Empty),
        }
    }

    /// Registers a host callable under `identifier` in this environment and
    /// hands back the capture its engine-side stub must carry. A later
    /// registration of the same name wins. Refused with
    /// `UninitializedRuntime` before the bootstrap and with `InvalidContext`
    /// after disposal.
    pub fn register_callable(&self, rt: &mut Runtime, identifier: &str, callable: u64) -> (r:
        Result<TrampolineCapture, Error>)
        requires
            old(rt).wf(),
        ensures
            final(rt).wf(),
            final(rt).initialized == old(rt).initialized,
            final(rt).isolate == old(rt).isolate,
            final(rt).next_context_id == old(rt).next_context_id,
            r is Ok <==> (old(rt).initialized && !self.disposed),
            match r {
                Ok(capture) => {
                    &&& capture.context_id == self.id
                    &&& capture.name@ == identifier@
                    &&& forall|c2: u64, n2: Seq<char>|
                        #[trigger] spec_lookup(final(rt).registry@, c2, n2) == if c2 == self.id
                            && n2 == identifier@ {
                            Some(callable)
                        } else {
                            spec_lookup(old(rt).registry@, c2, n2)
                        }
                },
                Err(e) => {
                    &&& final(rt).registry@ == old(rt).registry@
                    &&& e == if !old(rt).initialized {
                        Error::UninitializedRuntime
                    } else {
                        Error::InvalidContext
                    }
                },
            },
    {
        if !rt.initialized {
            return Err(Error::UninitializedRuntime);
        }
        if self.disposed {
            return Err(Error::InvalidContext);
        }
        let ghost before = rt.registry@;
        let name: String = identifier.to_owned();
        rt.registry.push(RegistryEntry { context_id: self.id, name, callable });
        proof {
            assert forall|c2: u64, n2: Seq<char>|
                #[trigger] spec_lookup(rt.registry@, c2, n2) == if c2 == self.id && n2
                    == identifier@ {
                    Some(callable)
                } else {
                    spec_lookup(before, c2, n2)
                } by {
                assert(rt.registry@.drop_last() =~= before);
            }
        }
        Ok(TrampolineCapture { context_id: self.id, name: identifier.to_owned() })
    }

    /// Disposes the environment: hands back the release plan — the three
    /// resource handles in exactly the reverse of construction order — marks
    /// the environment disposed, and drops its registry entries. A second
    /// disposal is refused with `InvalidContext` and releases nothing, so no
    /// resource can be released twice.
    pub fn dispose(&mut self, rt: &mut Runtime) -> (r: Result<Vec<u64>, Error>)
        requires
            old(rt).wf(),
        ensures
            final(rt).wf(),
            final(rt).initialized == old(rt).initialized,
            final(rt).isolate == old(rt).isolate,
            final(rt).next_context_id == old(rt).next_context_id,
            r is Ok <==> !old(self).disposed,
            match r {
                Ok(plan) => {
                    &&& plan@ == spec_disposal_order(*old(self))
                    &&& *final(self) == Context { disposed: true, ..*old(self) }
                    &&& forall|c2: u64, n2: Seq<char>|
                        #[trigger] spec_lookup(final(rt).registry@, c2, n2) == if c2 == old(
                            self,
                        ).id {
                            None::<u64>
                        } else {
                            spec_lookup(old(rt).registry@, c2, n2)
                        }
                },
                Err(e) => {
                    &&& e == Error::InvalidContext
                    &&& *final(self) == *old(self)
                    &&& final(rt).registry@ == old(rt).registry@
                },
            },
    {
        if self.disposed {
            return Err(Error::InvalidContext);
        }
        let mut plan: Vec<u64> = Vec::new();
        plan.push(self.active_scope);
        plan.push(self.compilation_context);
        plan.push(self.inspection_scope);
        proof {
            assert(plan@ =~= spec_disposal_order(*self));
        }
        let ghost before = rt.registry@;
        let mut kept: Vec<RegistryEntry> = Vec::new();
        let n: usize = rt.registry.len();
        let mut i: usize = 0;
        while i < n
            invariant
                i <= n,
                n == rt.registry.len(),
                rt.registry@ == before,
                kept@ == spec_remove_context(before.subrange(0, i as int), self.id),
                self.disposed == false,
                self.id == old(self).id,
            decreases n - i,
        {
            let ghost prefix = before.subrange(0, i + 1);
            proof {
                assert(prefix.drop_last() =~= before.subrange(0, i as int));
                assert(prefix.last() == before[i as int]);
            }
            let entry = &rt.registry[i];
            if entry.context_id != self.id {
                let copied = RegistryEntry {
                    context_id: entry.context_id,
                    name: entry.name.clone(),
                    callable: entry.callable,
                };
                proof {
                    assert(copied == before[i as int]);
                }
                kept.push(copied);
            }
            i = i + 1;
        }
        proof {
            assert(before.subrange(0, n as int) =~= before);
        }
        rt.registry = kept;
        self.disposed = true;
        proof {
            assert forall|c2: u64, n2: Seq<char>|
                #[trigger] spec_lookup(rt.registry@, c2, n2) == if c2 == old(self).id {
                    None::<u64>
                } else {
                    spec_lookup(before, c2, n2)
                } by {
                crate::runtime::lemma_remove_context_lookup(before, old(self).id, c2, n2);
            }
        }
        Ok(plan)
    }
}

} // verus!
