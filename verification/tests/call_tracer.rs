use multivm::tracers::call_tracer::{Call, CallTracer};
use once_cell::sync::OnceCell;
use std::sync::Arc;

fn call(to: u64) -> Call {
    Call { from: 1, to, gas_used: 21000 }
}

#[test]
fn extracts_recorded_calls_in_order() {
    let cell: Arc<OnceCell<Vec<Call>>> = Arc::new(OnceCell::new());
    let mut tracer = CallTracer::new(cell);
    tracer.push_call(call(10));
    tracer.push_call(call(20));
    let calls = tracer.extract_result();
    assert_eq!(calls, vec![call(10), call(20)]);
    // the stack was drained
    assert_eq!(tracer.extract_result(), Vec::new());
}

#[test]
fn store_result_publishes_once() {
    let cell: Arc<OnceCell<Vec<Call>>> = Arc::new(OnceCell::new());
    let mut tracer = CallTracer::new(cell.clone());
    tracer.push_call(call(10));
    assert!(tracer.store_result());
    assert_eq!(cell.get(), Some(&vec![call(10)]));
}

#[test]
fn second_write_is_refused_not_overwritten() {
    let cell: Arc<OnceCell<Vec<Call>>> = Arc::new(OnceCell::new());
    let mut first = CallTracer::new(cell.clone());
    first.push_call(call(10));
    assert!(first.store_result());

    let mut second = CallTracer::new(cell.clone());
    second.push_call(call(99));
    assert!(!second.store_result());
    // the first write stands
    assert_eq!(cell.get(), Some(&vec![call(10)]));
}

#[test]
fn tracer_without_cell_stores_nothing() {
    let mut tracer = CallTracer::default();
    tracer.push_call(call(10));
    assert!(!tracer.store_result());
    // nothing was drained either
    assert_eq!(tracer.extract_result(), vec![call(10)]);
}

#[test]
fn near_calls_count_under_the_latest_far_call() {
    let cell: Arc<OnceCell<Vec<Call>>> = Arc::new(OnceCell::new());
    let mut tracer = CallTracer::new(cell);
    tracer.push_call(call(10));
    tracer.count_near_call();
    tracer.count_near_call();
    tracer.push_call(call(20));
    let calls = tracer.extract_result();
    assert_eq!(calls.len(), 2);
}
