use media_pipeline::pipeline::{
    outcome_or_failure, run, run_failed_count, DispatcherStep, Outcome, Pipeline, PipelineError,
    ProducerStep,
};

fn ascending_ids(n: i32) -> Vec<i32> {
    let mut v = Vec::new();
    let mut i = 1;
    while i <= n {
        v.push(i);
        i += 1;
    }
    v
}

#[test]
fn thousand_records_all_succeed() {
    let records = ascending_ids(1000);
    let outcomes = vec![Outcome::Success; 1000];
    let report = run(&records, &outcomes, 10, None);
    assert_eq!(report.total, 1000);
    assert_eq!(report.outcome, Ok(1000));
    assert_eq!(report.handled.len(), 1000);
    assert_eq!(report.reports.len(), 1000);
    assert_eq!(*report.reports.last().unwrap(), 1000);
    for (i, r) in report.reports.iter().enumerate() {
        assert_eq!(*r, i + 1);
    }
    for (i, (id, o)) in report.handled.iter().enumerate() {
        assert_eq!(*id, (i + 1) as i32);
        assert_eq!(*o, Outcome::Success);
    }
}

#[test]
fn cancellation_mid_run_stops_new_dispatch() {
    let records = ascending_ids(500);
    let outcomes = vec![Outcome::Success; 500];
    let report = run(&records, &outcomes, 10, Some(100));
    assert_eq!(report.total, 500);
    assert_eq!(report.outcome, Ok(500));
    assert_eq!(report.handled.len(), 100);
    assert!(report.handled.len() >= 90 && report.handled.len() <= 110);
    assert!(report.handled.len() <= 500);
    assert_eq!(report.reports.len(), 100);
    assert_eq!(*report.reports.last().unwrap(), 100);
}

#[test]
fn cancellation_before_any_fetch_launches_nothing() {
    let records = ascending_ids(50);
    let outcomes = vec![Outcome::Success; 50];
    let report = run(&records, &outcomes, 4, Some(0));
    assert_eq!(report.total, 50);
    assert_eq!(report.outcome, Ok(50));
    assert_eq!(report.handled.len(), 0);
    assert_eq!(report.reports.len(), 0);
}

#[test]
fn failed_count_returns_fatal_error() {
    let report = run_failed_count(10);
    assert_eq!(report.outcome, Err(PipelineError::SourceFailed));
    assert_eq!(report.handled.len(), 0);
    assert_eq!(report.reports.len(), 0);
}

#[test]
fn analysis_failure_is_isolated() {
    let records = ascending_ids(5);
    let mut outcomes = vec![Outcome::Success; 5];
    // a worker whose analysis panicked produces no outcome; the wrapper turns
    // that into a failure handed to the result handler like any other
    outcomes[2] = outcome_or_failure(None);
    let report = run(&records, &outcomes, 2, None);
    assert_eq!(report.total, 5);
    assert_eq!(report.handled.len(), 5);
    assert_eq!(report.handled[2], (3, Outcome::Failure));
    assert_eq!(report.handled[0], (1, Outcome::Success));
    assert_eq!(report.handled[4], (5, Outcome::Success));
    assert_eq!(*report.reports.last().unwrap(), 5);
}

#[test]
fn outcome_or_failure_keeps_real_outcomes() {
    assert_eq!(outcome_or_failure(Some(Outcome::Success)), Outcome::Success);
    assert_eq!(outcome_or_failure(Some(Outcome::Failure)), Outcome::Failure);
    assert_eq!(outcome_or_failure(None), Outcome::Failure);
}

#[test]
fn permits_never_exceed_batch_size() {
    let mut st = Pipeline::new(2, 5);
    st.enqueue(10);
    st.enqueue(20);
    let a = st.dispatch();
    let b = st.dispatch();
    assert_eq!(a, 10);
    assert_eq!(b, 20);
    assert_eq!(st.permits_in_use, 2);
    // both permits are out: the dispatcher must wait, not launch a third
    st.enqueue(30);
    assert!(matches!(st.dispatcher_decide(), DispatcherStep::AwaitPermit));
}

#[test]
fn out_of_order_completion_reports_gap_free_counts() {
    let mut st = Pipeline::new(3, 3);
    st.enqueue(1);
    st.enqueue(2);
    st.enqueue(3);
    let a = st.dispatch();
    let b = st.dispatch();
    let c = st.dispatch();
    // workers finish in a different order than they were launched
    let first = st.complete(c, Outcome::Success);
    let second = st.complete(a, Outcome::Failure);
    let third = st.complete(b, Outcome::Success);
    assert_eq!(first, (1, 3));
    assert_eq!(second, (2, 3));
    assert_eq!(third, (3, 3));
    assert_eq!(st.completed, 3);
}

#[test]
fn cancelled_producer_stops_fetching() {
    let mut st = Pipeline::new(4, 10);
    st.cancel();
    assert!(matches!(st.producer_decide(), ProducerStep::Finish));
    st.finish_producer();
    assert!(matches!(st.dispatcher_decide(), DispatcherStep::Done));
    assert_eq!(st.result(), Ok(10));
    assert_eq!(st.completed, 0);
}

#[test]
fn cancellation_keeps_dispatched_work() {
    let mut st = Pipeline::new(4, 4);
    st.enqueue(1);
    st.enqueue(2);
    st.enqueue(3);
    let id = st.dispatch();
    assert_eq!(id, 1);
    st.cancel();
    // the dispatcher drains the queue without launching anything new
    assert!(matches!(st.dispatcher_decide(), DispatcherStep::Discard));
    assert_eq!(st.discard(), 2);
    assert_eq!(st.discard(), 3);
    // the record already dispatched still completes and is still counted
    assert!(matches!(st.dispatcher_decide(), DispatcherStep::AwaitWorkers));
    let p = st.complete(id, Outcome::Success);
    assert_eq!(p, (1, 4));
    st.finish_producer();
    assert!(matches!(st.dispatcher_decide(), DispatcherStep::Done));
    assert_eq!(st.result(), Ok(4));
}

#[test]
fn producer_pages_strictly_after_cursor() {
    let mut st = Pipeline::new(2, 6);
    match st.producer_decide() {
        ProducerStep::Fetch { after, limit } => {
            assert_eq!(after, None);
            assert_eq!(limit, 2);
        }
        ProducerStep::Finish => panic!("a fresh run must fetch"),
    }
    st.enqueue(5);
    st.enqueue(9);
    match st.producer_decide() {
        ProducerStep::Fetch { after, limit } => {
            assert_eq!(after, Some(9));
            assert_eq!(limit, 2);
        }
        ProducerStep::Finish => panic!("an uncancelled run must fetch"),
    }
}

#[test]
fn source_failure_still_unblocks_dispatcher() {
    let mut st = Pipeline::new(3, 8);
    st.enqueue(1);
    st.fail_source();
    // the sentinel is pushed even on error, so the dispatcher drains and ends
    assert!(matches!(st.dispatcher_decide(), DispatcherStep::Discard));
    st.discard();
    assert!(matches!(st.dispatcher_decide(), DispatcherStep::Done));
    assert_eq!(st.result(), Err(PipelineError::SourceFailed));
}

#[test]
fn empty_source_quiesces_immediately() {
    let records: Vec<i32> = Vec::new();
    let outcomes: Vec<Outcome> = Vec::new();
    let report = run(&records, &outcomes, 1, None);
    assert_eq!(report.total, 0);
    assert_eq!(report.outcome, Ok(0));
    assert_eq!(report.handled.len(), 0);
    assert_eq!(report.reports.len(), 0);
}
