use gdv8::runtime::dispatch_target;
use gdv8::{AllocationReport, Context, Error, Num, Runtime, RunOutcome, Value};

fn bootstrapped() -> Runtime {
    let mut rt = Runtime::prepare();
    rt.bootstrap(100);
    rt
}

fn fresh_context(rt: &mut Runtime) -> Context {
    Context::new(rt, AllocationReport::Complete(11, 12, 13)).unwrap()
}

#[test]
fn bootstrap_runs_once() {
    let mut rt = Runtime::prepare();
    assert!(rt.bootstrap(100));
    assert!(!rt.bootstrap(200));
    assert_eq!(rt.get_isolate(), Ok(100));
}

#[test]
fn get_isolate_before_bootstrap_fails() {
    let rt = Runtime::prepare();
    assert_eq!(rt.get_isolate(), Err(Error::UninitializedRuntime));
}

#[test]
fn context_creation_before_bootstrap_fails() {
    let mut rt = Runtime::prepare();
    let r = Context::new(&mut rt, AllocationReport::Complete(1, 2, 3));
    assert_eq!(r, Err(Error::UninitializedRuntime));
}

#[test]
fn context_creation_reports_each_allocation_failure() {
    let mut rt = bootstrapped();
    let r = Context::new(&mut rt, AllocationReport::ScopeFailed);
    assert_eq!(r, Err(Error::ScopePointerAllocationFailed));
    let r = Context::new(&mut rt, AllocationReport::ContextFailed(7));
    assert_eq!(r, Err(Error::ContextAllocationFailed));
}

#[test]
fn rollback_releases_only_what_was_acquired() {
    assert_eq!(gdv8::context::rollback_plan(&AllocationReport::ScopeFailed), Vec::<u64>::new());
    assert_eq!(gdv8::context::rollback_plan(&AllocationReport::ContextFailed(7)), vec![7]);
    assert_eq!(
        gdv8::context::rollback_plan(&AllocationReport::Complete(1, 2, 3)),
        Vec::<u64>::new()
    );
}

#[test]
fn context_ids_are_issued_in_order() {
    let mut rt = bootstrapped();
    let first = fresh_context(&mut rt);
    let second = fresh_context(&mut rt);
    assert_eq!(first.id, 1);
    assert_eq!(second.id, 2);
}

#[test]
fn dispose_releases_in_reverse_construction_order() {
    let mut rt = bootstrapped();
    let mut ctx = fresh_context(&mut rt);
    let plan = ctx.dispose(&mut rt).unwrap();
    assert_eq!(plan, vec![13, 12, 11]);
}

#[test]
fn second_dispose_is_refused() {
    let mut rt = bootstrapped();
    let mut ctx = fresh_context(&mut rt);
    assert!(ctx.dispose(&mut rt).is_ok());
    assert_eq!(ctx.dispose(&mut rt), Err(Error::InvalidContext));
}

#[test]
fn disposed_context_refuses_every_operation() {
    let mut rt = bootstrapped();
    let mut ctx = fresh_context(&mut rt);
    ctx.dispose(&mut rt).unwrap();
    assert_eq!(ctx.context_scope(), Err(Error::InvalidContext));
    assert_eq!(
        ctx.finish_run(RunOutcome::Completed(Value::Undefined)),
        Err(Error::InvalidContext)
    );
    assert_eq!(ctx.register_callable(&mut rt, "f", 1), Err(Error::InvalidContext));
}

#[test]
fn context_scope_hands_out_the_active_scope() {
    let mut rt = bootstrapped();
    let ctx = fresh_context(&mut rt);
    assert_eq!(ctx.context_scope(), Ok(13));
}

#[test]
fn finish_run_hands_the_value_through() {
    let mut rt = bootstrapped();
    let ctx = fresh_context(&mut rt);
    let r = ctx.finish_run(RunOutcome::Completed(Value::Number(Num::Int(5))));
    assert_eq!(r, Ok(Value::Number(Num::Int(5))));
}

#[test]
fn finish_run_turns_a_caught_exception_into_an_error() {
    let mut rt = bootstrapped();
    let ctx = fresh_context(&mut rt);
    let r = ctx.finish_run(RunOutcome::Caught("ReferenceError".to_string()));
    match r {
        Err(Error::Exception(text)) => assert!(!text.is_empty()),
        other => panic!("expected an exception, got {:?}", other),
    }
}

#[test]
fn finish_run_without_result_or_exception_is_empty() {
    let mut rt = bootstrapped();
    let ctx = fresh_context(&mut rt);
    assert_eq!(ctx.finish_run(RunOutcome::NoResult), Err(Error::Empty));
}

#[test]
fn register_before_bootstrap_fails() {
    let mut rt = bootstrapped();
    let ctx = fresh_context(&mut rt);
    let mut cold = Runtime::prepare();
    assert_eq!(ctx.register_callable(&mut cold, "f", 1), Err(Error::UninitializedRuntime));
}

// A host callable that adds its two arguments and hands the sum back as a
// number, the way a registered `add2` would.
fn add2(args: &[Value]) -> Value {
    gdv8::value::number_value(&args[0].add(&args[1]))
}

#[test]
fn registered_callable_dispatches_and_computes() {
    let mut rt = bootstrapped();
    let ctx = fresh_context(&mut rt);
    let capture = ctx.register_callable(&mut rt, "add2", 42).unwrap();
    assert_eq!(capture.context_id, ctx.id);
    assert_eq!(capture.name, "add2");

    // Script-side call of add2(2, 3): the trampoline reads its capture, finds
    // the registered callable, and invokes it on the marshaled arguments.
    let target = dispatch_target(&rt, &capture);
    assert_eq!(target, Some(42));
    let args = vec![Value::Number(Num::Int(2)), Value::Number(Num::Int(3))];
    let result = add2(&args);
    assert_eq!(
        ctx.finish_run(RunOutcome::Completed(result)),
        Ok(Value::Number(Num::Int(5)))
    );
}

#[test]
fn second_registration_of_a_name_wins() {
    let mut rt = bootstrapped();
    let ctx = fresh_context(&mut rt);
    let first = ctx.register_callable(&mut rt, "add2", 1).unwrap();
    let second = ctx.register_callable(&mut rt, "add2", 2).unwrap();
    assert_eq!(dispatch_target(&rt, &first), Some(2));
    assert_eq!(dispatch_target(&rt, &second), Some(2));
}

#[test]
fn registrations_are_kept_per_environment() {
    let mut rt = bootstrapped();
    let one = fresh_context(&mut rt);
    let two = fresh_context(&mut rt);
    let in_one = one.register_callable(&mut rt, "f", 1).unwrap();
    let in_two = two.register_callable(&mut rt, "f", 2).unwrap();
    assert_eq!(dispatch_target(&rt, &in_one), Some(1));
    assert_eq!(dispatch_target(&rt, &in_two), Some(2));
}

#[test]
fn dispose_releases_the_environments_registrations() {
    let mut rt = bootstrapped();
    let mut one = fresh_context(&mut rt);
    let two = fresh_context(&mut rt);
    let in_one = one.register_callable(&mut rt, "f", 1).unwrap();
    let in_two = two.register_callable(&mut rt, "g", 2).unwrap();
    one.dispose(&mut rt).unwrap();
    assert_eq!(dispatch_target(&rt, &in_one), None);
    assert_eq!(dispatch_target(&rt, &in_two), Some(2));
}

#[test]
fn unregistered_name_has_no_dispatch_target() {
    let mut rt = bootstrapped();
    let ctx = fresh_context(&mut rt);
    let capture = gdv8::TrampolineCapture { context_id: ctx.id, name: "ghostly".to_string() };
    assert_eq!(dispatch_target(&rt, &capture), None);
}

#[test]
fn error_text_spellings() {
    assert_eq!(Error::Exception("boom".to_string()).text(), "boom");
    assert_eq!(Error::Empty.text(), "Empty");
    assert_eq!(Error::ScopePointerAllocationFailed.text(), "ScopePointerAllocationFailed");
    assert_eq!(Error::ContextAllocationFailed.text(), "ContextAllocationFailed");
    assert_eq!(Error::UninitializedRuntime.text(), "UninitializedRuntime");
    assert_eq!(Error::InvalidContext.text(), "InvalidContext");
}
