//! A print job on its way to the printer, step by step.
//!
//! Feeding the printer alternates between reading the source and writing to
//! the device. Both are the caller's work. What to do next, what to offer to
//! the device, and when the job is over or has failed, is decided here: the
//! caller asks for the next action, performs it, and reports what came of it.

use crate::transfer::{
    check_reset, reset_sequence, Progress, TransferBuffer, TransferError, TransferView,
    WriteOutcome, FORM_FEED, LINE_END,
};
use vstd::prelude::*;
use vstd::utf8::encode_utf8;

verus! {

/// How input is read and what frames it on its way to the printer.
#[derive(Clone, Copy, Debug, PartialEq, Eq, Structural)]
pub struct FeedPlan {
    /// The reset sequence goes out before anything else.
    pub reset_first: bool,
    /// Input is read in chunks of [`CHUNK_SIZE`](crate::transfer::CHUNK_SIZE)
    /// bytes and sent as it is; otherwise it is read line by line and each
    /// line ends with [`LINE_END`].
    pub chunked: bool,
    /// A form feed goes out after the last line.
    pub form_feed_last: bool,
    /// A form feed was asked for and is left out.
    pub form_feed_dropped: bool,
}

/// Plans a feed. Binary input is reset first and sent in chunks, and gets no
/// form feed even where one was asked for; text goes line by line, with a form
/// feed at the end where one was asked for.
pub fn plan_feed(binary: bool, form_feed: bool) -> (plan: FeedPlan)
    ensures
        plan == (FeedPlan {
            reset_first: binary,
            chunked: binary,
            form_feed_last: !binary && form_feed,
            form_feed_dropped: binary && form_feed,
        }),
{
    FeedPlan {
        reset_first: binary,
        chunked: binary,
        form_feed_last: !binary && form_feed,
        form_feed_dropped: binary && form_feed,
    }
}

/// Why a feed failed. Every one of these is final: nothing is retried, and
/// what the printer has taken by then stays with it.
#[derive(Clone, Copy, Debug, PartialEq, Eq, Structural)]
pub enum FeedError {
    /// The source could not be read.
    SourceRead,
    /// The device did not take what it was offered.
    Transfer(TransferError),
    /// A report came that the feed had not asked for: of a read while it
    /// wanted to write, of a write while it wanted to read, or of anything
    /// after the end.
    OutOfTurn,
}

/// What one read of the source gave.
pub enum Input {
    /// A line of text, without its line end.
    Line(String),
    /// A chunk of bytes.
    Chunk(Vec<u8>),
    /// The source is at its end.
    End,
    /// The read failed.
    Failed,
}

/// What a read is to the contracts.
pub enum InputView {
    Line(Seq<char>),
    Chunk(Seq<u8>),
    End,
    Failed,
}

impl View for Input {
    type V = InputView;

    open spec fn view(&self) -> InputView {
        match self {
            Input::Line(text) => InputView::Line(text@),
            Input::Chunk(bytes) => InputView::Chunk(bytes@),
            Input::End => InputView::End,
            Input::Failed => InputView::Failed,
        }
    }
}

/// The bytes that go to the printer for what a read gave: a line with a line
/// end behind it, a chunk as it is, and nothing for the end or a failure.
pub open spec fn payload(input: InputView) -> Seq<u8> {
    match input {
        InputView::Line(text) => encode_utf8(text).push(LINE_END),
        InputView::Chunk(bytes) => bytes,
        InputView::End => Seq::empty(),
        InputView::Failed => Seq::empty(),
    }
}

/// Where a feed stands.
#[derive(Clone, Copy, Debug, PartialEq, Eq, Structural)]
pub enum Phase {
    /// The reset sequence is to be written.
    Reset,
    /// The source is to be read.
    Reading,
    /// What was read is to be written.
    Sending,
    /// The form feed is to be written.
    FormFeed,
    /// All is with the printer.
    Done,
    /// The feed has failed.
    Failed(FeedError),
}

/// What the caller is to do next.
#[derive(Clone, Copy, Debug, PartialEq, Eq, Structural)]
pub enum Action {
    /// Read the source and report with [`Feed::on_read`].
    Read,
    /// Offer [`Feed::pending`] to the device and report with [`Feed::on_write`].
    Write,
    /// Stop: the job is done.
    Stop,
    /// Stop: the job has failed.
    Fail(FeedError),
}

/// What happened: a read or a write, and what came of it.
pub enum FeedEvent {
    Read(InputView),
    Wrote(WriteOutcome),
}

/// What a feed is to the contracts.
pub struct FeedView {
    pub plan: FeedPlan,
    pub phase: Phase,
    pub buffer: TransferView,
}

/// The bytes of the reset sequence.
pub open spec fn reset_bytes() -> Seq<u8> {
    seq![0x1Bu8, 0x40u8]
}

impl FeedView {
    /// A feed at its start: about to reset the printer where the plan says
    /// so, and else about to read.
    pub open spec fn start(plan: FeedPlan) -> FeedView {
        if plan.reset_first {
            FeedView {
                plan,
                phase: Phase::Reset,
                buffer: TransferView { data: reset_bytes(), cursor: 0 },
            }
        } else {
            FeedView {
                plan,
                phase: Phase::Reading,
                buffer: TransferView { data: Seq::empty(), cursor: 0 },
            }
        }
    }

    /// The buffer fits the phase: something is pending exactly while the feed
    /// wants to write.
    pub open spec fn wf(self) -> bool {
        &&& self.buffer.wf()
        &&& match self.phase {
            Phase::Reset => self.buffer == (TransferView { data: reset_bytes(), cursor: 0 }),
            Phase::Sending => !self.buffer.complete(),
            Phase::FormFeed => self.buffer == (TransferView { data: seq![FORM_FEED], cursor: 0 }),
            Phase::Reading => self.buffer.complete(),
            Phase::Done => self.buffer.complete(),
            Phase::Failed(_) => true,
        }
    }

    /// What the caller is to do next.
    pub open spec fn action(self) -> Action {
        match self.phase {
            Phase::Reset => Action::Write,
            Phase::Sending => Action::Write,
            Phase::FormFeed => Action::Write,
            Phase::Reading => Action::Read,
            Phase::Done => Action::Stop,
            Phase::Failed(error) => Action::Fail(error),
        }
    }

    /// This feed, failed.
    pub open spec fn failed(self, error: FeedError) -> FeedView {
        FeedView { phase: Phase::Failed(error), ..self }
    }

    /// The feed after a read was reported. A line or a chunk is sent next,
    /// unless it is empty; at the end of the source the form feed is sent
    /// where the plan has one, and else the job is done; a failed read fails
    /// the feed. A read that was not asked for fails a feed that has not
    /// failed yet.
    pub open spec fn after_read(self, input: InputView) -> FeedView {
        match self.phase {
            Phase::Reading => match input {
                InputView::Failed => self.failed(FeedError::SourceRead),
                InputView::End => if self.plan.form_feed_last {
                    FeedView {
                        phase: Phase::FormFeed,
                        buffer: TransferView { data: seq![FORM_FEED], cursor: 0 },
                        ..self
                    }
                } else {
                    FeedView { phase: Phase::Done, ..self }
                },
                _ => FeedView {
                    phase: if payload(input).len() == 0 {
                        Phase::Reading
                    } else {
                        Phase::Sending
                    },
                    buffer: TransferView { data: payload(input), cursor: 0 },
                    ..self
                },
            },
            Phase::Failed(_) => self,
            _ => self.failed(FeedError::OutOfTurn),
        }
    }

    /// The feed after a write was reported. The reset sequence must be taken
    /// whole in its one call. Of a line, a chunk or the form feed the device
    /// may take part, and the rest stays pending; when it has all, the feed
    /// reads on, or is done after the form feed. A write that went wrong
    /// fails the feed, and so does a write that was not asked for, unless the
    /// feed has failed before.
    pub open spec fn after_write(self, outcome: WriteOutcome) -> FeedView {
        match self.phase {
            Phase::Reset => match outcome {
                WriteOutcome::Accepted(count) => if count == 2 {
                    FeedView {
                        phase: Phase::Reading,
                        buffer: TransferView { data: reset_bytes(), cursor: 2 },
                        ..self
                    }
                } else {
                    self.failed(FeedError::Transfer(TransferError::PartialReset))
                },
                WriteOutcome::TimedOut => self.failed(FeedError::Transfer(TransferError::Timeout)),
                WriteOutcome::Failed => self.failed(FeedError::Transfer(TransferError::Device)),
            },
            Phase::Sending => match self.buffer.verdict(outcome) {
                Ok(Progress::Pending) => FeedView { buffer: self.buffer.after(outcome), ..self },
                Ok(Progress::Complete) => FeedView {
                    phase: Phase::Reading,
                    buffer: self.buffer.after(outcome),
                    ..self
                },
                Err(error) => self.failed(FeedError::Transfer(error)),
            },
            Phase::FormFeed => match self.buffer.verdict(outcome) {
                Ok(Progress::Pending) => FeedView { buffer: self.buffer.after(outcome), ..self },
                Ok(Progress::Complete) => FeedView {
                    phase: Phase::Done,
                    buffer: self.buffer.after(outcome),
                    ..self
                },
                Err(error) => self.failed(FeedError::Transfer(error)),
            },
            Phase::Failed(_) => self,
            _ => self.failed(FeedError::OutOfTurn),
        }
    }

    /// The feed after an event.
    pub open spec fn after(self, event: FeedEvent) -> FeedView {
        match event {
            FeedEvent::Read(input) => self.after_read(input),
            FeedEvent::Wrote(outcome) => self.after_write(outcome),
        }
    }

    /// The feed after a run of events.
    pub open spec fn after_all(self, events: Seq<FeedEvent>) -> FeedView
        decreases events.len(),
    {
        if events.len() == 0 {
            self
        } else {
            self.after_all(events.drop_last()).after(events.last())
        }
    }

    /// The bytes that the device took at an event: at a write that moved the
    /// cursor on, the stretch of the buffer that the cursor passed, and
    /// nothing at any other event.
    pub open spec fn taken(self, event: FeedEvent) -> Seq<u8> {
        match event {
            FeedEvent::Wrote(outcome) => if self.action() == Action::Write && !(self.after(
                event,
            ).phase is Failed) {
                self.buffer.data.subrange(
                    self.buffer.cursor as int,
                    self.after(event).buffer.cursor as int,
                )
            } else {
                Seq::empty()
            },
            FeedEvent::Read(_) => Seq::empty(),
        }
    }

    /// The bytes that the device took over a run of events, in order.
    pub open spec fn taken_over(self, events: Seq<FeedEvent>) -> Seq<u8>
        decreases events.len(),
    {
        if events.len() == 0 {
            Seq::empty()
        } else {
            self.taken_over(events.drop_last()) + self.after_all(events.drop_last()).taken(
                events.last(),
            )
        }
    }
}

/// The bytes that a run of events has put on their way to the printer from
/// the source: the payload of every read that the feed had asked for.
pub open spec fn payloads(start: FeedView, events: Seq<FeedEvent>) -> Seq<u8>
    decreases events.len(),
{
    if events.len() == 0 {
        Seq::empty()
    } else {
        let before = start.after_all(events.drop_last());
        payloads(start, events.drop_last()) + match events.last() {
            FeedEvent::Read(input) => if before.phase == Phase::Reading {
                payload(input)
            } else {
                Seq::empty()
            },
            FeedEvent::Wrote(_) => Seq::empty(),
        }
    }
}

/// A print job: the plan, where the job stands, and the buffer that is on its
/// way to the device.
pub struct Feed {
    plan: FeedPlan,
    phase: Phase,
    buffer: TransferBuffer,
}

impl View for Feed {
    type V = FeedView;

    closed spec fn view(&self) -> FeedView {
        FeedView { plan: self.plan, phase: self.phase, buffer: self.buffer@ }
    }
}

impl Feed {
    #[verifier::type_invariant]
    spec fn buffer_fits_phase(self) -> bool {
        self@.wf()
    }

    /// A job at its start.
    pub fn new(plan: FeedPlan) -> (feed: Feed)
        ensures
            feed@ == FeedView::start(plan),
            feed@.wf(),
    {
        if plan.reset_first {
            Feed { plan, phase: Phase::Reset, buffer: TransferBuffer::new(reset_sequence()) }
        } else {
            Feed { plan, phase: Phase::Reading, buffer: TransferBuffer::new(Vec::new()) }
        }
    }

    /// The plan of the job.
    pub fn plan(&self) -> (plan: FeedPlan)
        ensures
            plan == self@.plan,
    {
        self.plan
    }

    /// Where the job stands.
    pub fn phase(&self) -> (phase: Phase)
        ensures
            phase == self@.phase,
            self@.wf(),
    {
        proof {
            use_type_invariant(self);
        }
        self.phase
    }

    /// What the caller is to do next.
    pub fn action(&self) -> (action: Action)
        ensures
            action == self@.action(),
            self@.wf(),
    {
        proof {
            use_type_invariant(self);
        }
        match self.phase {
            Phase::Reset => Action::Write,
            Phase::Sending => Action::Write,
            Phase::FormFeed => Action::Write,
            Phase::Reading => Action::Read,
            Phase::Done => Action::Stop,
            Phase::Failed(error) => Action::Fail(error),
        }
    }

    /// The bytes to offer to the device next. There are some exactly while
    /// the action is [`Action::Write`], unless the job has failed.
    pub fn pending(&self) -> (bytes: &[u8])
        ensures
            bytes@ == self@.buffer.pending(),
            self@.wf(),
            self@.action() == Action::Write ==> bytes@.len() > 0,
            self@.action() == Action::Read || self@.action() == Action::Stop ==> bytes@.len() == 0,
    {
        proof {
            use_type_invariant(self);
        }
        self.buffer.pending()
    }

    /// The job after a read of the source, of which `input` tells what it gave.
    pub fn on_read(self, input: Input) -> (next: Feed)
        ensures
            next@ == self@.after_read(input@),
            next@.wf(),
    {
        proof {
            use_type_invariant(&self);
        }
        let Feed { plan, phase, buffer } = self;
        match phase {
            Phase::Reading => {
                match input {
                    Input::Failed => Feed {
                        plan,
                        phase: Phase::Failed(FeedError::SourceRead),
                        buffer,
                    },
                    Input::End => {
                        if plan.form_feed_last {
                            Feed { plan, phase: Phase::FormFeed, buffer: TransferBuffer::form_feed() }
                        } else {
                            Feed { plan, phase: Phase::Done, buffer }
                        }
                    },
                    Input::Line(text) => Feed {
                        plan,
                        phase: Phase::Sending,
                        buffer: TransferBuffer::for_line(text.as_str()),
                    },
                    Input::Chunk(bytes) => {
                        let phase = if bytes.len() == 0 {
                            Phase::Reading
                        } else {
                            Phase::Sending
                        };
                        Feed { plan, phase, buffer: TransferBuffer::new(bytes) }
                    },
                }
            },
            Phase::Failed(_) => Feed { plan, phase, buffer },
            _ => Feed { plan, phase: Phase::Failed(FeedError::OutOfTurn), buffer },
        }
    }

    /// The job after [`pending`](Self::pending) was offered to the device, of
    /// which `outcome` tells what came of it.
    pub fn on_write(self, outcome: WriteOutcome) -> (next: Feed)
        ensures
            next@ == self@.after_write(outcome),
            next@.wf(),
    {
        proof {
            use_type_invariant(&self);
        }
        let Feed { plan, phase, mut buffer } = self;
        match phase {
            Phase::Reset => {
                match check_reset(outcome) {
                    Ok(_) => {
                        let _ = buffer.record(outcome);
                        Feed { plan, phase: Phase::Reading, buffer }
                    },
                    Err(error) => Feed {
                        plan,
                        phase: Phase::Failed(FeedError::Transfer(error)),
                        buffer,
                    },
                }
            },
            Phase::Sending => {
                match buffer.record(outcome) {
                    Ok(Progress::Pending) => Feed { plan, phase, buffer },
                    Ok(Progress::Complete) => Feed { plan, phase: Phase::Reading, buffer },
                    Err(error) => Feed {
                        plan,
                        phase: Phase::Failed(FeedError::Transfer(error)),
                        buffer,
                    },
                }
            },
            Phase::FormFeed => {
                match buffer.record(outcome) {
                    Ok(Progress::Pending) => Feed { plan, phase, buffer },
                    Ok(Progress::Complete) => Feed { plan, phase: Phase::Done, buffer },
                    Err(error) => Feed {
                        plan,
                        phase: Phase::Failed(FeedError::Transfer(error)),
                        buffer,
                    },
                }
            },
            Phase::Failed(_) => Feed { plan, phase, buffer },
            _ => Feed { plan, phase: Phase::Failed(FeedError::OutOfTurn), buffer },
        }
    }
}

/// The bytes that go out before anything is read: the reset sequence, where
/// the plan has one.
pub open spec fn framing_before(plan: FeedPlan) -> Seq<u8> {
    if plan.reset_first {
        reset_bytes()
    } else {
        Seq::empty()
    }
}

/// The bytes that go out after the source has ended: the form feed, where
/// the plan has one and the source has ended.
pub open spec fn framing_after(feed: FeedView) -> Seq<u8> {
    if feed.plan.form_feed_last && (feed.phase == Phase::FormFeed || feed.phase == Phase::Done) {
        seq![FORM_FEED]
    } else {
        Seq::empty()
    }
}

/// A failed feed stays failed, with the error that it failed with.
pub proof fn lemma_failure_is_final(feed: FeedView, event: FeedEvent)
    requires
        feed.phase is Failed,
    ensures
        feed.after(event) == feed,
{
}

/// A finished feed takes no more events: whatever is reported to it fails it.
pub proof fn lemma_nothing_follows_the_end(feed: FeedView, event: FeedEvent)
    requires
        feed.phase == Phase::Done,
    ensures
        feed.after(event).phase == Phase::Failed(FeedError::OutOfTurn),
{
}

/// Every byte is accounted for: what the device has taken, followed by what
/// is pending, is the framing of the plan around what was read.
pub open spec fn accounted(feed: FeedView, taken: Seq<u8>, read: Seq<u8>) -> bool {
    &&& feed.wf()
    &&& !(feed.phase is Failed) ==> taken + feed.buffer.pending() == framing_before(feed.plan)
        + read + framing_after(feed)
}

/// A read keeps the account: its payload is added to what was read, and is
/// what is pending afterwards.
proof fn lemma_read_keeps_account(feed: FeedView, input: InputView, taken: Seq<u8>, read: Seq<u8>)
    requires
        accounted(feed, taken, read),
    ensures
        accounted(
            feed.after_read(input),
            taken,
            read + if feed.phase == Phase::Reading {
                payload(input)
            } else {
                Seq::empty()
            },
        ),
        feed.after_read(input).plan == feed.plan,
{
    let next = feed.after_read(input);
    if feed.phase == Phase::Reading && !(next.phase is Failed) {
        assert(feed.buffer.pending() =~= Seq::<u8>::empty());
        assert(taken + feed.buffer.pending() =~= taken);
        assert(framing_after(feed) =~= Seq::<u8>::empty());
        assert(taken =~= framing_before(feed.plan) + read);
        match input {
            InputView::End => {
                assert(read + payload(input) =~= read);
                if feed.plan.form_feed_last {
                    assert(next.buffer.pending() =~= seq![FORM_FEED]);
                } else {
                    assert(next.buffer.pending() =~= Seq::<u8>::empty());
                }
                assert(taken + next.buffer.pending() =~= framing_before(next.plan) + (read
                    + payload(input)) + framing_after(next));
            },
            InputView::Failed => {},
            _ => {
                assert(next.buffer.pending() =~= payload(input));
                assert(framing_after(next) =~= Seq::<u8>::empty());
                assert(taken + next.buffer.pending() =~= framing_before(next.plan) + (read
                    + payload(input)) + framing_after(next));
            },
        }
    }
}

/// A write keeps the account: what the device took leaves what was pending.
proof fn lemma_write_keeps_account(
    feed: FeedView,
    outcome: WriteOutcome,
    taken: Seq<u8>,
    read: Seq<u8>,
)
    requires
        accounted(feed, taken, read),
    ensures
        accounted(feed.after_write(outcome), taken + feed.taken(FeedEvent::Wrote(outcome)), read),
        feed.after_write(outcome).plan == feed.plan,
{
    let next = feed.after_write(outcome);
    let event = FeedEvent::Wrote(outcome);
    if !(next.phase is Failed) {
        assert(feed.action() == Action::Write);
        assert(next == feed.after(event));
        let passed = feed.buffer.data.subrange(feed.buffer.cursor as int, next.buffer.cursor as int);
        assert(feed.taken(event) == passed);
        assert(next.buffer.data == feed.buffer.data);
        assert(feed.buffer.cursor <= next.buffer.cursor <= feed.buffer.data.len());
        assert(feed.buffer.pending() =~= passed + next.buffer.pending());
        assert(framing_after(next) == framing_after(feed));
        assert((taken + passed) + next.buffer.pending() =~= taken + feed.buffer.pending());
    }
}

/// Whatever is reported, in whatever order, a feed that has not failed
/// accounts for every byte: what the device has taken so far, followed by
/// what is pending, is the framing of the plan around the payloads of all
/// that was read, in the order in which it was read. So when the feed is
/// done, the device has taken the reset sequence where the plan has one, then
/// every line or chunk that was read, each byte once and in order, and then
/// the form feed where the plan has one.
pub proof fn lemma_printer_gets_the_job_in_order(plan: FeedPlan, events: Seq<FeedEvent>)
    ensures
        ({
            let start = FeedView::start(plan);
            let end = start.after_all(events);
            &&& end.plan == plan
            &&& accounted(end, start.taken_over(events), payloads(start, events))
            &&& end.phase == Phase::Done ==> start.taken_over(events) == framing_before(plan)
                + payloads(start, events) + if plan.form_feed_last {
                seq![FORM_FEED]
            } else {
                Seq::empty()
            }
        }),
    decreases events.len(),
{
    let start = FeedView::start(plan);
    let end = start.after_all(events);
    if events.len() == 0 {
        assert(start.taken_over(events) + start.buffer.pending() =~= framing_before(plan)
            + payloads(start, events) + framing_after(start));
    } else {
        let earlier = events.drop_last();
        let before = start.after_all(earlier);
        lemma_printer_gets_the_job_in_order(plan, earlier);
        match events.last() {
            FeedEvent::Read(input) => {
                lemma_read_keeps_account(
                    before,
                    input,
                    start.taken_over(earlier),
                    payloads(start, earlier),
                );
                assert(start.taken_over(events) =~= start.taken_over(earlier));
            },
            FeedEvent::Wrote(outcome) => {
                lemma_write_keeps_account(
                    before,
                    outcome,
                    start.taken_over(earlier),
                    payloads(start, earlier),
                );
                assert(payloads(start, events) =~= payloads(start, earlier));
            },
        }
    }
    if end.phase == Phase::Done {
        assert(end.buffer.pending() =~= Seq::<u8>::empty());
        assert(start.taken_over(events) + end.buffer.pending() =~= start.taken_over(events));
    }
}

} // verus!
