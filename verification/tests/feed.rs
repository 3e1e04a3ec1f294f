use escp::feed::{plan_feed, Action, Feed, FeedError, FeedPlan, Input, Phase};
use escp::transfer::{TransferError, WriteOutcome};

/// Runs a job to its end against a device that takes at most `limit` bytes
/// per call, and gives back what the device took and how the job ended.
fn run(plan: FeedPlan, source: Vec<Input>, limit: usize) -> (Vec<u8>, Action) {
    let mut source = source.into_iter();
    let mut taken = Vec::new();
    let mut feed = Feed::new(plan);
    loop {
        match feed.action() {
            Action::Read => {
                let input = source.next().unwrap_or(Input::End);
                feed = feed.on_read(input);
            }
            Action::Write => {
                let offered = feed.pending().to_vec();
                assert!(!offered.is_empty());
                let count = offered.len().min(limit);
                taken.extend_from_slice(&offered[..count]);
                feed = feed.on_write(WriteOutcome::Accepted(count));
            }
            end => return (taken, end),
        }
    }
}

#[test]
fn feed_plans() {
    assert_eq!(
        plan_feed(false, false),
        FeedPlan { reset_first: false, chunked: false, form_feed_last: false, form_feed_dropped: false }
    );
    assert_eq!(
        plan_feed(false, true),
        FeedPlan { reset_first: false, chunked: false, form_feed_last: true, form_feed_dropped: false }
    );
    assert_eq!(
        plan_feed(true, false),
        FeedPlan { reset_first: true, chunked: true, form_feed_last: false, form_feed_dropped: false }
    );
    assert_eq!(
        plan_feed(true, true),
        FeedPlan { reset_first: true, chunked: true, form_feed_last: false, form_feed_dropped: true }
    );
}

#[test]
fn lines_go_out_with_line_ends() {
    let source = vec![Input::Line("one".to_string()), Input::Line(String::new()), Input::Line("thrée".to_string())];
    let (taken, end) = run(plan_feed(false, false), source, 1024);
    assert_eq!(taken, "one\n\nthrée\n".as_bytes().to_vec());
    assert_eq!(end, Action::Stop);
}

#[test]
fn form_feed_follows_the_last_line() {
    let source = vec![Input::Line("page".to_string())];
    let (taken, end) = run(plan_feed(false, true), source, 2);
    assert_eq!(taken, b"page\n\x0c".to_vec());
    assert_eq!(end, Action::Stop);
    let (taken, end) = run(plan_feed(false, true), Vec::new(), 2);
    assert_eq!(taken, b"\x0c".to_vec());
    assert_eq!(end, Action::Stop);
}

#[test]
fn binary_input_is_reset_first_and_gets_no_form_feed() {
    let source = vec![Input::Chunk(vec![1, 2, 3]), Input::Chunk(Vec::new()), Input::Chunk(vec![4])];
    let (taken, end) = run(plan_feed(true, true), source, 2);
    assert_eq!(taken, vec![0x1B, 0x40, 1, 2, 3, 4]);
    assert_eq!(end, Action::Stop);
}

#[test]
fn short_writes_in_a_job_lose_nothing() {
    for limit in 1..8 {
        let source = vec![Input::Chunk((0..100).collect()), Input::Chunk((100..=255).collect())];
        let plan = FeedPlan { reset_first: false, chunked: true, form_feed_last: false, form_feed_dropped: false };
        let (taken, end) = run(plan, source, limit);
        assert_eq!(taken, (0..=255).collect::<Vec<u8>>());
        assert_eq!(end, Action::Stop);
    }
}

#[test]
fn reset_must_be_taken_in_one_call() {
    let (taken, end) = run(plan_feed(true, false), vec![Input::Chunk(vec![9])], 1);
    assert_eq!(taken, vec![0x1B]);
    assert_eq!(end, Action::Fail(FeedError::Transfer(TransferError::PartialReset)));
    let feed = Feed::new(plan_feed(true, false));
    assert_eq!(feed.phase(), Phase::Reset);
    assert_eq!(feed.pending(), &[0x1B, 0x40]);
    let feed = feed.on_write(WriteOutcome::TimedOut);
    assert_eq!(feed.action(), Action::Fail(FeedError::Transfer(TransferError::Timeout)));
    let feed = Feed::new(plan_feed(true, false)).on_write(WriteOutcome::Failed);
    assert_eq!(feed.action(), Action::Fail(FeedError::Transfer(TransferError::Device)));
    let feed = Feed::new(plan_feed(true, false)).on_write(WriteOutcome::Accepted(2));
    assert_eq!(feed.action(), Action::Read);
    assert!(feed.pending().is_empty());
}

#[test]
fn failed_read_fails_the_job() {
    let feed = Feed::new(plan_feed(false, true));
    assert_eq!(feed.action(), Action::Read);
    let feed = feed.on_read(Input::Failed);
    assert_eq!(feed.action(), Action::Fail(FeedError::SourceRead));
    assert_eq!(feed.phase(), Phase::Failed(FeedError::SourceRead));
}

#[test]
fn failed_write_fails_the_job_for_good() {
    let feed = Feed::new(plan_feed(false, false)).on_read(Input::Line("abc".to_string()));
    assert_eq!(feed.action(), Action::Write);
    assert_eq!(feed.pending(), b"abc\n");
    let feed = feed.on_write(WriteOutcome::Accepted(1));
    assert_eq!(feed.action(), Action::Write);
    assert_eq!(feed.pending(), b"bc\n");
    let feed = feed.on_write(WriteOutcome::Accepted(0));
    let stalled = Action::Fail(FeedError::Transfer(TransferError::Stalled));
    assert_eq!(feed.action(), stalled);
    let feed = feed.on_write(WriteOutcome::Accepted(3));
    assert_eq!(feed.action(), stalled);
    let feed = feed.on_read(Input::End);
    assert_eq!(feed.action(), stalled);
    let feed = Feed::new(plan_feed(false, false)).on_read(Input::Line("abc".to_string()));
    let feed = feed.on_write(WriteOutcome::Accepted(5));
    assert_eq!(feed.action(), Action::Fail(FeedError::Transfer(TransferError::Overrun)));
}

#[test]
fn reports_out_of_turn_fail_the_job() {
    let out_of_turn = Action::Fail(FeedError::OutOfTurn);
    let feed = Feed::new(plan_feed(false, false)).on_write(WriteOutcome::Accepted(0));
    assert_eq!(feed.action(), out_of_turn);
    let feed = Feed::new(plan_feed(true, false)).on_read(Input::End);
    assert_eq!(feed.action(), out_of_turn);
    let feed = Feed::new(plan_feed(false, false)).on_read(Input::Line("x".to_string()));
    assert_eq!(feed.on_read(Input::End).action(), out_of_turn);
    let done = Feed::new(plan_feed(false, false)).on_read(Input::End);
    assert_eq!(done.action(), Action::Stop);
    assert_eq!(done.phase(), Phase::Done);
    assert_eq!(done.plan(), plan_feed(false, false));
    assert_eq!(done.on_read(Input::End).action(), out_of_turn);
    let done = Feed::new(plan_feed(false, false)).on_read(Input::End);
    assert_eq!(done.on_write(WriteOutcome::Accepted(0)).action(), out_of_turn);
}

#[test]
fn form_feed_waits_for_the_device() {
    let feed = Feed::new(plan_feed(false, true)).on_read(Input::End);
    assert_eq!(feed.phase(), Phase::FormFeed);
    assert_eq!(feed.pending(), &[0x0C]);
    let feed = feed.on_write(WriteOutcome::Accepted(1));
    assert_eq!(feed.action(), Action::Stop);
    let feed = Feed::new(plan_feed(false, true)).on_read(Input::End).on_write(WriteOutcome::TimedOut);
    assert_eq!(feed.action(), Action::Fail(FeedError::Transfer(TransferError::Timeout)));
}
