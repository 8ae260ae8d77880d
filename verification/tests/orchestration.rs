use ghr::orchestrator::Orchestrator;

#[test]
fn results_keep_input_order_whatever_the_completion_order() {
    let mut orch: Orchestrator<String, String> = Orchestrator::new(3);
    orch.start(0);
    orch.start(1);
    orch.start(2);
    assert!(!orch.all_done());
    // Task 2 fails; tasks 1 and 3 succeed; completion order is 2, 3, 1.
    orch.finish(1, Err(String::from("boom")));
    orch.finish(2, Ok(String::from("third")));
    assert!(!orch.all_done());
    orch.finish(0, Ok(String::from("first")));
    assert!(orch.all_done());
    let results = orch.into_results();
    assert_eq!(results.len(), 3);
    assert_eq!(results[0], Ok(String::from("first")));
    assert_eq!(results[1], Err(String::from("boom")));
    assert_eq!(results[2], Ok(String::from("third")));
}

#[test]
fn one_failure_blocks_nothing_else() {
    let mut orch: Orchestrator<u64, String> = Orchestrator::new(2);
    orch.start(0);
    orch.finish(0, Err(String::from("no transport")));
    orch.start(1);
    orch.finish(1, Ok(7));
    let results = orch.into_results();
    assert_eq!(results[0], Err(String::from("no transport")));
    assert_eq!(results[1], Ok(7));
}

#[test]
fn empty_orchestration_is_done_at_once() {
    let orch: Orchestrator<u64, u64> = Orchestrator::new(0);
    assert!(orch.all_done());
    assert_eq!(orch.into_results().len(), 0);
}
