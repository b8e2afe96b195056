//! The engine handle: the process-wide owner of the one execution isolate
//! and of the callable registry.
//!
//! The engine itself lives outside this crate; the handle tracks what the
//! host has done with it — whether the one-time bootstrap has run, which
//! isolate it produced, which environment ids have been issued, and which
//! host callables each environment exposes. Native resources appear here as
//! opaque handles that the host maps to the engine's own objects. All access
//! to a `Runtime` is meant to happen under one exclusive lock held by the
//! host; nothing here touches the engine directly.
use vstd::prelude::*;

use crate::error::Error;

verus! {

/// One exposed-callable binding: environment `context_id` exposes the host
/// callable `callable` under `name` in script global scope.
#[derive(Debug)]
pub struct RegistryEntry {
    pub context_id: u64,
    pub name: String,
    pub callable: u64,
}

/// The callable registered for `(ctx, name)`: the latest binding wins, and a
/// name never bound is `None`.
pub open spec fn spec_lookup(entries: Seq<RegistryEntry>, ctx: u64, name: Seq<char>) -> Option<
    u64,
>
    decreases entries,
{
    if entries.len() == 0 {
        None
    } else if entries.last().context_id == ctx && entries.last().name@ == name {
        Some(entries.last().callable)
    } else {
        spec_lookup(entries.drop_last(), ctx, name)
    }
}

/// The registry without any binding of environment `ctx`.
pub open spec fn spec_remove_context(entries: Seq<RegistryEntry>, ctx: u64) -> Seq<RegistryEntry>
    decreases entries,
{
    if entries.len() == 0 {
        Seq::empty()
    } else if entries.last().context_id == ctx {
        spec_remove_context(entries.drop_last(), ctx)
    } else {
        spec_remove_context(entries.drop_last(), ctx).push(entries.last())
    }
}

/// Removing one environment's bindings empties its lookups and leaves every
/// other environment's lookups as they were.
pub proof fn lemma_remove_context_lookup(entries: Seq<RegistryEntry>, ctx: u64, c: u64, name: Seq<char>)
    ensures
        spec_lookup(spec_remove_context(entries, ctx), c, name) == if c == ctx {
            None::<u64>
        } else {
            spec_lookup(entries, c, name)
        },
    decreases entries,
{
    if entries.len() > 0 {
        lemma_remove_context_lookup(entries.drop_last(), ctx, c, name);
        if entries.last().context_id != ctx {
            assert(spec_remove_context(entries, ctx).drop_last() =~= spec_remove_context(
                entries.drop_last(),
                ctx,
            ));
        }
    }
}

/// A second registration of a name shadows the first: after two bindings of
/// one name in one environment, lookup finds the callable registered last.
pub proof fn lemma_second_registration_wins(
    entries: Seq<RegistryEntry>,
    ctx: u64,
    name: Seq<char>,
    first: RegistryEntry,
    second: RegistryEntry,
)
    requires
        first.context_id == ctx,
        first.name@ == name,
        second.context_id == ctx,
        second.name@ == name,
    ensures
        spec_lookup(entries.push(first).push(second), ctx, name) == Some(second.callable),
{
}

/// The process-wide engine handle.
pub struct Runtime {
    /// Whether the one-time engine bootstrap has run.
    pub initialized: bool,
    /// The handle of the single execution isolate, once bootstrapped.
    pub isolate: Option<u64>,
    /// The next environment id to issue; ids are issued in increasing order.
    pub next_context_id: u64,
    /// The exposed-callable registry, in registration order.
    pub registry: Vec<RegistryEntry>,
}

impl Runtime {
    /// A handle is well formed when it holds an isolate exactly from the
    /// bootstrap on.
    pub open spec fn wf(&self) -> bool {
        self.initialized <==> self.isolate is Some
    }

    /// A fresh, not yet bootstrapped handle with an empty registry.
    pub fn prepare() -> (r: Runtime)
        ensures
            !r.initialized,
            r.isolate is None,
            r.next_context_id == 1,
            r.registry@ == Seq::<RegistryEntry>::empty(),
            r.wf(),
    {
        Runtime { initialized: false, isolate: None, next_context_id: 1, registry: Vec::new() }
    }

    /// Records the one-time engine bootstrap. The first call stores the
    /// isolate the host just created and reports that it did the work; any
    /// later call changes nothing and reports so, whatever isolate handle it
    /// brought.
    pub fn bootstrap(&mut self, isolate_handle: u64) -> (performed: bool)
        requires
            old(self).wf(),
        ensures
            performed == !old(self).initialized,
            final(self).initialized,
            final(self).isolate == if old(self).initialized {
                old(self).isolate
            } else {
                Some(isolate_handle)
            },
            final(self).next_context_id == old(self).next_context_id,
            final(self).registry@ == old(self).registry@,
            final(self).wf(),
    {
        if self.initialized {
            false
        } else {
            self.initialized = true;
            self.isolate = Some(isolate_handle);
            true
        }
    }

    /// The single long-lived isolate, or `UninitializedRuntime` before the
    /// bootstrap has run.
    pub fn get_isolate(&self) -> (r: Result<u64, Error>)
        requires
            self.wf(),
        ensures
            self.initialized ==> r == Ok::<u64, Error>(self.isolate->Some_0),
            !self.initialized ==> r == Err::<u64, Error>(Error::UninitializedRuntime),
    {
        match self.isolate {
            Some(handle) => Ok(handle),
            None => Err(Error::UninitializedRuntime),
        }
    }
}

/// What a registered callable's engine-side stub carries: the environment id
/// and the exposed name, read back at every call to find the host callable
/// to dispatch to.
#[derive(Debug, PartialEq)]
pub struct TrampolineCapture {
    pub context_id: u64,
    pub name: String,
}

/// The host callable a trampoline invocation must dispatch to: the latest
/// callable registered under the capture's environment id and name. `None`
/// marks an internal-consistency violation — registration is the only way a
/// capture comes to exist, so the host must treat it as fatal rather than
/// continue against a wrong binding.
pub fn dispatch_target(rt: &Runtime, capture: &TrampolineCapture) -> (r: Option<u64>)
    ensures
        r == spec_lookup(rt.registry@, capture.context_id, capture.name@),
{
    let ghost m = rt.registry@;
    let n: usize = rt.registry.len();
    let mut i: usize = n;
    proof {
        assert(m.subrange(0, n as int) =~= m);
    }
    while i > 0
        invariant
            i <= n,
            n == rt.registry.len(),
            m == rt.registry@,
            spec_lookup(m, capture.context_id, capture.name@) == spec_lookup(
                m.subrange(0, i as int),
                capture.context_id,
                capture.name@,
            ),
        decreases i,
    {
        let j: usize = i - 1;
        let entry = &rt.registry[j];
        let ghost prefix = m.subrange(0, i as int);
        proof {
            assert(prefix.last() == m[j as int]);
            assert(prefix.drop_last() =~= m.subrange(0, j as int));
        }
        if entry.context_id == capture.context_id && entry.name == capture.name {
            return Some(entry.callable);
        }
        i = j;
    }
    None
}

} // verus!
