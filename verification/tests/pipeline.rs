use wcgate::pipeline::{download_step, run_retrieval, PipelineOutcome, PollState, PollStep};

fn ok(path: &str) -> Result<String, String> {
    Ok(String::from(path))
}

#[test]
fn resolves_on_third_poll_after_two_sleeps() {
    let replies = vec![ok(""), ok(""), ok("C:/tmp/pic.jpg")];
    let (outcome, polls, sleeps) = run_retrieval(Ok(true), 3, replies);
    assert_eq!(outcome, PipelineOutcome::Resolved(String::from("C:/tmp/pic.jpg")));
    assert_eq!(polls, 3);
    assert!(sleeps >= 2);
    assert_eq!(sleeps, 2);
}

#[test]
fn times_out_after_exactly_the_budget() {
    let replies = vec![ok(""), ok(""), ok("")];
    let (outcome, polls, sleeps) = run_retrieval(Ok(true), 3, replies);
    assert_eq!(outcome, PipelineOutcome::TimedOut);
    assert_eq!(polls, 3);
    assert_eq!(sleeps, 3);
}

#[test]
fn zero_budget_times_out_without_polling() {
    let (outcome, polls, sleeps) = run_retrieval(Ok(true), 0, vec![]);
    assert_eq!(outcome, PipelineOutcome::TimedOut);
    assert_eq!(polls, 0);
    assert_eq!(sleeps, 0);
}

#[test]
fn rejected_download_aborts_before_polling() {
    let replies = vec![ok("C:/never/asked")];
    let (outcome, polls, _) = run_retrieval(Ok(false), 1, replies);
    assert_eq!(outcome, PipelineOutcome::DownloadRejected);
    assert_eq!(polls, 0);
}

#[test]
fn download_error_aborts_with_its_message() {
    let replies = vec![ok("")];
    let (outcome, polls, _) = run_retrieval(Err(String::from("rpc down")), 1, replies);
    assert_eq!(outcome, PipelineOutcome::BackendFailure(String::from("rpc down")));
    assert_eq!(polls, 0);
}

#[test]
fn poll_error_aborts_at_once() {
    let replies = vec![ok(""), Err(String::from("db locked")), ok("C:/x")];
    let (outcome, polls, sleeps) = run_retrieval(Ok(true), 3, replies);
    assert_eq!(outcome, PipelineOutcome::BackendFailure(String::from("db locked")));
    assert_eq!(polls, 2);
    assert_eq!(sleeps, 1);
}

#[test]
fn step_interface_drives_the_same_machine() {
    assert!(download_step(&Ok(true)).is_none());
    assert_eq!(download_step(&Ok(false)), Some(PipelineOutcome::DownloadRejected));
    assert_eq!(
        download_step(&Err(String::from("boom"))),
        Some(PipelineOutcome::BackendFailure(String::from("boom")))
    );
    let mut st = PollState::start(2);
    assert!(st.can_poll());
    assert_eq!(st.on_poll(&ok("")), PollStep::Sleep);
    assert!(st.can_poll());
    assert_eq!(
        st.on_poll(&ok("C:/a.png")),
        PollStep::Finished(PipelineOutcome::Resolved(String::from("C:/a.png")))
    );
}

#[test]
fn budget_is_attempt_counted_not_wall_clock() {
    let mut st = PollState::start(1);
    assert!(st.can_poll());
    assert_eq!(st.on_poll(&ok("")), PollStep::Sleep);
    assert!(!st.can_poll());
}

#[test]
fn outcome_messages_are_distinct() {
    assert_eq!(
        PipelineOutcome::Resolved(String::from("p")).into_result(),
        Ok(String::from("p"))
    );
    assert_eq!(
        PipelineOutcome::DownloadRejected.into_result(),
        Err(String::from("download failed"))
    );
    assert_eq!(
        PipelineOutcome::TimedOut.into_result(),
        Err(String::from("download timed out"))
    );
    assert_eq!(
        PipelineOutcome::BackendFailure(String::from("rpc down")).into_result(),
        Err(String::from("rpc down"))
    );
}
