use candid::Principal;
use sagas::dispatcher::{Dispatcher, Next};
use sagas::handoff::{CallResult, Handoff, RejectionCode, Verdict, REDIRECT_METHOD_NAME};

fn shard_a() -> Principal {
    Principal::from_slice(&[0xa1, 0x01])
}

fn shard_b() -> Principal {
    Principal::from_slice(&[0xb2, 0x02])
}

fn transient() -> CallResult {
    Err((RejectionCode::SysTransient, String::from("try later")))
}

#[test]
fn saga_that_stays_takes_three_steps_and_calls_nobody() {
    let dispatcher = Dispatcher::new(shard_a());
    let reported = vec![Some(shard_a()), Some(shard_a()), None];
    let report = dispatcher.run_saga(&reported, Vec::new(), &Vec::new());
    assert_eq!(report.steps, 3);
    assert_eq!(report.next, Next::Complete);
    assert_eq!(report.handoff, None);
}

#[test]
fn saga_that_names_its_shard_three_times_ends_on_the_fourth_step() {
    let dispatcher = Dispatcher::new(shard_a());
    let reported = vec![Some(shard_a()), Some(shard_a()), Some(shard_a()), None];
    let report = dispatcher.run_saga(&reported, Vec::new(), &vec![Ok(Vec::new())]);
    assert_eq!(report.steps, 4);
    assert_eq!(report.next, Next::Complete);
    assert_eq!(report.handoff, None);
}

#[test]
fn saga_that_leaves_is_delivered_on_the_third_call() {
    let dispatcher = Dispatcher::new(shard_a());
    let reported = vec![Some(shard_b())];
    let replies = vec![transient(), transient(), Ok(Vec::new())];
    let report = dispatcher.run_saga(&reported, Vec::new(), &replies);
    assert_eq!(report.steps, 1);
    assert_eq!(report.next, Next::Redirect(shard_b()));
    let handoff = report.handoff.unwrap();
    assert_eq!(handoff.attempts, 3);
    assert_eq!(handoff.verdict, Verdict::Delivered);
    assert_eq!(handoff.message.target, shard_b());
    assert_eq!(handoff.message.payload, Vec::<u8>::new());
}

#[test]
fn saga_that_is_rejected_aborts_after_one_call() {
    let dispatcher = Dispatcher::new(shard_a());
    let reported = vec![Some(shard_b())];
    let replies = vec![
        Err((RejectionCode::CanisterError, String::from("invalid state"))),
        transient(),
        Ok(Vec::new()),
    ];
    let report = dispatcher.run_saga(&reported, Vec::new(), &replies);
    assert_eq!(report.steps, 1);
    let handoff = report.handoff.unwrap();
    assert_eq!(handoff.attempts, 1);
    assert_eq!(handoff.verdict, Verdict::Abort(String::from("invalid state")));
    assert_eq!(handoff.message.target, shard_b());
}

#[test]
fn no_step_is_taken_after_the_saga_left() {
    let dispatcher = Dispatcher::new(shard_a());
    let reported = vec![
        Some(shard_a()),
        Some(shard_a()),
        Some(shard_b()),
        Some(shard_a()),
        None,
    ];
    let replies = vec![transient(), Ok(Vec::new()), Ok(Vec::new())];
    let report = dispatcher.run_saga(&reported, vec![7, 8, 9], &replies);
    assert_eq!(report.steps, 3);
    assert_eq!(report.next, Next::Redirect(shard_b()));
    let handoff = report.handoff.unwrap();
    assert_eq!(handoff.attempts, 2);
    assert_eq!(handoff.verdict, Verdict::Delivered);
    assert_eq!(
        handoff.message,
        Handoff { target: shard_b(), payload: vec![7, 8, 9] }
    );
}

#[test]
fn saga_without_steps_so_far_is_due_for_its_first() {
    let dispatcher = Dispatcher::new(shard_a());
    let report = dispatcher.run_saga(&Vec::new(), Vec::new(), &vec![Ok(Vec::new())]);
    assert_eq!(report.steps, 0);
    assert_eq!(report.next, Next::Step);
    assert_eq!(report.handoff, None);
}

#[test]
fn saga_that_only_stays_is_still_under_way() {
    let dispatcher = Dispatcher::new(shard_a());
    let reported = vec![Some(shard_a()); 100];
    let report = dispatcher.process_saga(&reported);
    assert_eq!(report.steps, 100);
    assert_eq!(report.next, Next::Step);
}

#[test]
fn saga_that_ends_at_once_takes_one_step() {
    let dispatcher = Dispatcher::new(shard_a());
    let report = dispatcher.process_saga(&vec![None, Some(shard_b()), Some(shard_a())]);
    assert_eq!(report.steps, 1);
    assert_eq!(report.next, Next::Complete);
}

#[test]
fn handoff_without_answers_is_open() {
    let dispatcher = Dispatcher::new(shard_a());
    let report = dispatcher.run_saga(&vec![Some(shard_b())], vec![1], &Vec::new());
    assert_eq!(report.steps, 1);
    let handoff = report.handoff.unwrap();
    assert_eq!(handoff.attempts, 0);
    assert_eq!(handoff.verdict, Verdict::Retry);
    assert_eq!(handoff.message.payload, vec![1]);
}

#[test]
fn after_step_decides_on_one_result() {
    let dispatcher = Dispatcher::new(shard_a());
    assert_eq!(dispatcher.after_step(None), Next::Complete);
    assert_eq!(dispatcher.after_step(Some(shard_a())), Next::Step);
    assert_eq!(dispatcher.after_step(Some(shard_b())), Next::Redirect(shard_b()));
}

#[test]
fn dispatchers_of_one_shard_decide_alike() {
    let first = Dispatcher::new(shard_a());
    let second = first;
    let third = Dispatcher::new(Principal::from_slice(&[0xa1, 0x01]));
    assert_eq!(first.current_shard_id(), shard_a());
    for reported in [None, Some(shard_a()), Some(shard_b())] {
        assert_eq!(first.after_step(reported), second.after_step(reported));
        assert_eq!(first.after_step(reported), third.after_step(reported));
    }
}

#[test]
fn handoff_call_goes_to_the_redirect_endpoint_without_payment() {
    let message = Handoff::new(shard_b(), vec![4, 2]);
    assert_eq!(message.target, shard_b());
    assert_eq!(message.payload, vec![4, 2]);
    assert_eq!(message.method(), "union_db_execute_redirected");
    assert_eq!(message.method(), REDIRECT_METHOD_NAME);
    assert_eq!(message.payment(), 0);
}
