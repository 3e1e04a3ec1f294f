//! The books of a bulk transfer: a buffer, and a cursor over what the device
//! has accepted of it.
//!
//! A device may take fewer bytes than it is offered. The caller offers what
//! is pending, tells the buffer what came of the call, and goes on until the
//! buffer is complete or a call has failed. The buffer decides; the caller
//! only talks to the device.

use crate::encoder::push_text;
use vstd::prelude::*;

verus! {

/// The bulk endpoint of the printer that takes the data.
pub const ENDPOINT: u8 = 1;

/// The interface of the printer that is claimed for the transfer.
pub const INTERFACE: u8 = 0;

/// The vendor number of the printer.
pub const VENDOR_ID: u16 = 0x06bc;

/// The product number of the printer.
pub const PRODUCT_ID: u16 = 0x0031;

/// For how many seconds one write call may block.
pub const TIMEOUT_SECONDS: u64 = 10;

/// How many bytes of binary input are read, and then sent, at a time.
pub const CHUNK_SIZE: usize = 1024;

/// The byte that ends a page.
pub const FORM_FEED: u8 = 0x0C;

/// The byte that ends a line.
pub const LINE_END: u8 = 0x0A;

/// Why a transfer failed. Every one of these is final: nothing is retried.
#[derive(Clone, Copy, Debug, PartialEq, Eq, Structural)]
pub enum TransferError {
    /// The device reported a failure.
    Device,
    /// The call ran out of time.
    Timeout,
    /// The device took nothing of what was pending, so the transfer can never end.
    Stalled,
    /// The device claims to have taken more than it was offered.
    Overrun,
    /// The device did not take the whole of the reset sequence in one call.
    PartialReset,
}

/// What came of one write call.
#[derive(Clone, Copy, Debug, PartialEq, Eq, Structural)]
pub enum WriteOutcome {
    /// The device took this many bytes from the front of what was offered.
    Accepted(usize),
    /// The call ran out of time.
    TimedOut,
    /// The device reported a failure.
    Failed,
}

/// Where a transfer stands after a call that went well.
#[derive(Clone, Copy, Debug, PartialEq, Eq, Structural)]
pub enum Progress {
    /// Part of the buffer is still to be offered.
    Pending,
    /// The device has the whole buffer.
    Complete,
}

/// A buffer on its way to a device: the bytes, and how many of them the
/// device has accepted so far.
pub struct TransferBuffer {
    data: Vec<u8>,
    cursor: usize,
}

/// What a transfer buffer is to its contracts.
pub struct TransferView {
    pub data: Seq<u8>,
    pub cursor: nat,
}

impl TransferView {
    /// The cursor lies within the buffer.
    pub open spec fn wf(self) -> bool {
        self.cursor <= self.data.len()
    }

    /// The bytes that the device has not accepted yet.
    pub open spec fn pending(self) -> Seq<u8> {
        self.data.skip(self.cursor as int)
    }

    /// Nothing is pending.
    pub open spec fn complete(self) -> bool {
        self.cursor == self.data.len()
    }

    /// What one write call leads to: an error, or progress.
    pub open spec fn verdict(self, outcome: WriteOutcome) -> Result<Progress, TransferError> {
        match outcome {
            WriteOutcome::Failed => Err(TransferError::Device),
            WriteOutcome::TimedOut => Err(TransferError::Timeout),
            WriteOutcome::Accepted(count) => {
                if count > self.data.len() - self.cursor {
                    Err(TransferError::Overrun)
                } else if count == 0 && !self.complete() {
                    Err(TransferError::Stalled)
                } else if self.cursor + count == self.data.len() {
                    Ok(Progress::Complete)
                } else {
                    Ok(Progress::Pending)
                }
            },
        }
    }

    /// How many bytes the device took in a call: what it reports where the
    /// call went well, and nothing where it failed.
    pub open spec fn taken(self, outcome: WriteOutcome) -> nat {
        match (outcome, self.verdict(outcome)) {
            (WriteOutcome::Accepted(count), Ok(_)) => count as nat,
            _ => 0,
        }
    }

    /// The buffer after a call: the cursor has moved on by what was taken.
    pub open spec fn after(self, outcome: WriteOutcome) -> TransferView {
        TransferView { data: self.data, cursor: self.cursor + self.taken(outcome) }
    }

    /// The buffer after a run of calls.
    pub open spec fn after_all(self, outcomes: Seq<WriteOutcome>) -> TransferView
        decreases outcomes.len(),
    {
        if outcomes.len() == 0 {
            self
        } else {
            self.after_all(outcomes.drop_last()).after(outcomes.last())
        }
    }

    /// The bytes that the device took over a run of calls, call by call: each
    /// time the front of what was pending at that call.
    pub open spec fn taken_over(self, outcomes: Seq<WriteOutcome>) -> Seq<u8>
        decreases outcomes.len(),
    {
        if outcomes.len() == 0 {
            Seq::empty()
        } else {
            let before = self.after_all(outcomes.drop_last());
            self.taken_over(outcomes.drop_last()) + before.pending().take(
                before.taken(outcomes.last()) as int,
            )
        }
    }
}

impl View for TransferBuffer {
    type V = TransferView;

    closed spec fn view(&self) -> TransferView {
        TransferView { data: self.data@, cursor: self.cursor as nat }
    }
}

impl TransferBuffer {
    #[verifier::type_invariant]
    spec fn cursor_within_data(self) -> bool {
        self.cursor <= self.data@.len()
    }

    /// A transfer of `data` of which nothing has been accepted yet.
    pub fn new(data: Vec<u8>) -> (buffer: TransferBuffer)
        ensures
            buffer@ == (TransferView { data: data@, cursor: 0 }),
            buffer@.wf(),
    {
        TransferBuffer { data, cursor: 0 }
    }

    /// A transfer of one line of text: its bytes, and the byte that ends a line.
    pub fn for_line(line: &str) -> (buffer: TransferBuffer)
        ensures
            buffer@ == (TransferView {
                data: vstd::utf8::encode_utf8(line@).push(LINE_END),
                cursor: 0,
            }),
            buffer@.wf(),
    {
        let mut data: Vec<u8> = Vec::new();
        push_text(line, &mut data);
        data.push(LINE_END);
        assert(data@ =~= vstd::utf8::encode_utf8(line@).push(LINE_END));
        TransferBuffer { data, cursor: 0 }
    }

    /// A transfer of the byte that ends a page.
    pub fn form_feed() -> (buffer: TransferBuffer)
        ensures
            buffer@ == (TransferView { data: seq![FORM_FEED], cursor: 0 }),
            buffer@.wf(),
    {
        let mut data: Vec<u8> = Vec::new();
        data.push(FORM_FEED);
        assert(data@ =~= seq![FORM_FEED]);
        TransferBuffer { data, cursor: 0 }
    }

    /// How many bytes the buffer holds.
    pub fn len(&self) -> (length: usize)
        ensures
            length == self@.data.len(),
            self@.wf(),
    {
        proof {
            use_type_invariant(self);
        }
        self.data.len()
    }

    /// How many bytes the device has accepted.
    pub fn accepted(&self) -> (count: usize)
        ensures
            count == self@.cursor,
            self@.wf(),
    {
        proof {
            use_type_invariant(self);
        }
        self.cursor
    }

    /// Whether the device has the whole buffer.
    pub fn is_complete(&self) -> (complete: bool)
        ensures
            complete == self@.complete(),
            self@.wf(),
    {
        proof {
            use_type_invariant(self);
        }
        self.cursor == self.data.len()
    }

    /// The bytes to offer to the device next: all that it has not accepted yet.
    pub fn pending(&self) -> (bytes: &[u8])
        ensures
            bytes@ == self@.pending(),
            self@.wf(),
    {
        proof {
            use_type_invariant(self);
        }
        let bytes = vstd::slice::slice_subrange(self.data.as_slice(), self.cursor, self.data.len());
        assert(bytes@ =~= self@.pending());
        bytes
    }

    /// Takes note of what came of offering [`pending`](Self::pending) to the device.
    ///
    /// Where the device took some bytes, the cursor moves on by that many, and
    /// the result says whether anything is left. Where the call failed or ran
    /// out of time, where the device took nothing although something was
    /// pending, and where it claims more than it was offered, the result is the
    /// error and the buffer stays as it was.
    pub fn record(&mut self, outcome: WriteOutcome) -> (result: Result<Progress, TransferError>)
        ensures
            old(self)@.wf(),
            final(self)@.wf(),
            result == old(self)@.verdict(outcome),
            final(self)@ == old(self)@.after(outcome),
            final(self)@.data == old(self)@.data,
            final(self)@.cursor >= old(self)@.cursor,
            result is Err ==> final(self)@ == old(self)@,
            result == Ok::<Progress, TransferError>(Progress::Complete) <==> result is Ok
                && final(self)@.complete(),
            result is Ok && !old(self)@.complete() ==> final(self)@.cursor > old(self)@.cursor,
    {
        proof {
            use_type_invariant(&*self);
        }
        match outcome {
            WriteOutcome::Failed => Err(TransferError::Device),
            WriteOutcome::TimedOut => Err(TransferError::Timeout),
            WriteOutcome::Accepted(count) => {
                let left: usize = self.data.len() - self.cursor;
                if count > left {
                    Err(TransferError::Overrun)
                } else if count == 0 && left != 0 {
                    Err(TransferError::Stalled)
                } else {
                    self.cursor = self.cursor + count;
                    if self.cursor == self.data.len() {
                        Ok(Progress::Complete)
                    } else {
                        Ok(Progress::Pending)
                    }
                }
            },
        }
    }
}

/// Whatever the device answers, call after call, the buffer keeps its bytes,
/// the cursor never moves back and never leaves the buffer, and what the
/// device has taken over those calls is exactly the stretch of the buffer that
/// the cursor has passed: every byte of it once, in order.
pub proof fn lemma_taken_is_what_the_cursor_passed(
    start: TransferView,
    outcomes: Seq<WriteOutcome>,
)
    requires
        start.wf(),
    ensures
        start.after_all(outcomes).wf(),
        start.after_all(outcomes).data == start.data,
        start.after_all(outcomes).cursor >= start.cursor,
        start.taken_over(outcomes) == start.data.subrange(
            start.cursor as int,
            start.after_all(outcomes).cursor as int,
        ),
    decreases outcomes.len(),
{
    if outcomes.len() == 0 {
        assert(start.taken_over(outcomes) =~= start.data.subrange(
            start.cursor as int,
            start.cursor as int,
        ));
    } else {
        let earlier = outcomes.drop_last();
        lemma_taken_is_what_the_cursor_passed(start, earlier);
        let before = start.after_all(earlier);
        let count = before.taken(outcomes.last());
        assert(before.pending().take(count as int) =~= start.data.subrange(
            before.cursor as int,
            (before.cursor + count) as int,
        ));
        assert(start.taken_over(outcomes) =~= start.data.subrange(
            start.cursor as int,
            (before.cursor + count) as int,
        ));
    }
}

/// Once a transfer that began at the head of a buffer is complete, the device
/// has taken the whole buffer, no byte of it twice and none left out, however
/// many calls that took and however short each one fell.
pub proof fn lemma_complete_means_all_taken_once(data: Seq<u8>, outcomes: Seq<WriteOutcome>)
    requires
        (TransferView { data, cursor: 0 }).after_all(outcomes).complete(),
    ensures
        (TransferView { data, cursor: 0 }).taken_over(outcomes) == data,
{
    let start = TransferView { data, cursor: 0 };
    lemma_taken_is_what_the_cursor_passed(start, outcomes);
    assert(data.subrange(0, data.len() as int) =~= data);
}

/// What a device that takes at most `limit` bytes per call answers over
/// `calls` calls in which it is always offered all that is pending.
pub open spec fn capped_outcomes(start: TransferView, limit: usize, calls: nat) -> Seq<
    WriteOutcome,
>
    decreases calls,
{
    if calls == 0 {
        Seq::empty()
    } else {
        let earlier = capped_outcomes(start, limit, (calls - 1) as nat);
        let pending = start.after_all(earlier).pending().len();
        earlier.push(
            WriteOutcome::Accepted(
                if pending < limit {
                    pending as usize
                } else {
                    limit
                },
            ),
        )
    }
}

/// A device that takes at most `limit` bytes per call, offered the pending
/// part of a buffer of `length` bytes again and again, has after `calls`
/// calls taken `calls * limit` bytes, or the whole buffer if that is less.
/// So the transfer is complete exactly from the call on at which
/// `calls * limit` reaches `length`: a limit below the length needs more than
/// one call, and once complete the device has taken each byte exactly once.
pub proof fn lemma_short_writes_complete(data: Seq<u8>, limit: usize, calls: nat)
    requires
        limit > 0,
        data.len() <= usize::MAX,
    ensures
        ({
            let start = TransferView { data, cursor: 0 };
            let end = start.after_all(capped_outcomes(start, limit, calls));
            &&& end.data == data
            &&& end.cursor == if calls * limit < data.len() {
                calls * limit
            } else {
                data.len() as int
            }
            &&& end.complete() <==> calls * limit >= data.len()
            &&& end.complete() ==> start.taken_over(capped_outcomes(start, limit, calls)) == data
        }),
    decreases calls,
{
    let start = TransferView { data, cursor: 0 };
    let outcomes = capped_outcomes(start, limit, calls);
    if calls == 0 {
        assert(calls * limit == 0) by (nonlinear_arith)
            requires
                calls == 0,
        ;
    } else {
        let fewer = (calls - 1) as nat;
        lemma_short_writes_complete(data, limit, fewer);
        let earlier = capped_outcomes(start, limit, fewer);
        let before = start.after_all(earlier);
        assert(outcomes.drop_last() =~= earlier);
        assert(calls * limit == fewer * limit + limit) by (nonlinear_arith)
            requires
                fewer == calls - 1,
        ;
        assert(before.pending().len() == data.len() - before.cursor);
    }
    if start.after_all(outcomes).complete() {
        lemma_complete_means_all_taken_once(data, outcomes);
    }
}

/// Whether a device with these numbers is the printer.
pub fn is_printer(vendor_id: u16, product_id: u16) -> (found: bool)
    ensures
        found == (vendor_id == VENDOR_ID && product_id == PRODUCT_ID),
{
    vendor_id == VENDOR_ID && product_id == PRODUCT_ID
}

/// The sequence that resets the printer: ESC and `@`.
pub fn reset_sequence() -> (bytes: Vec<u8>)
    ensures
        bytes@ == seq![0x1Bu8, 0x40u8],
{
    let mut bytes: Vec<u8> = Vec::new();
    bytes.push(0x1B);
    bytes.push(0x40);
    assert(bytes@ =~= seq![0x1Bu8, 0x40u8]);
    bytes
}

/// Judges the one call that sends the reset sequence: the device must take
/// both of its bytes in that call.
pub fn check_reset(outcome: WriteOutcome) -> (result: Result<(), TransferError>)
    ensures
        result == match outcome {
            WriteOutcome::Accepted(count) => if count == 2 {
                Ok::<(), TransferError>(())
            } else {
                Err(TransferError::PartialReset)
            },
            WriteOutcome::TimedOut => Err(TransferError::Timeout),
            WriteOutcome::Failed => Err(TransferError::Device),
        },
{
    match outcome {
        WriteOutcome::Accepted(count) => {
            if count == 2 {
                Ok(())
            } else {
                Err(TransferError::PartialReset)
            }
        },
        WriteOutcome::TimedOut => Err(TransferError::Timeout),
        WriteOutcome::Failed => Err(TransferError::Device),
    }
}

} // verus!
