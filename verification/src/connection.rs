//! The state machine that a connection's read loop follows.
//!
//! The caller owns the socket and the input controller. It reads into a
//! buffer of its own, hands what the read gave to [`Connection::step`], and
//! carries out the action that comes back: make a controller call, report a
//! dropped packet, or leave the loop. One step takes the connection through
//! decoding and dispatching and back to reading.

use vstd::prelude::*;
use crate::dispatch::call_for;
use crate::dispatch::dispatch;
use crate::dispatch::InputCall;
use crate::packet::decode;
use crate::packet::decoded;
use crate::packet::DecodeError;

verus! {

/// The TCP port that the server listens on, on every interface.
pub const PORT: u16 = 5366;

/// Why a connection left its read loop.
#[derive(Clone, Copy, Debug, PartialEq, Eq, Structural)]
pub enum CloseReason {
    /// A read gave no bytes: the peer has closed the stream.
    EndOfStream,
    /// A read failed.
    ReadError,
}

/// Where a connection stands. `Closed` is terminal.
#[derive(Clone, Copy, Debug, PartialEq, Eq, Structural)]
pub enum Phase {
    Reading,
    Closed { reason: CloseReason },
}

/// What one read on the socket gave.
#[derive(Clone, Copy, Debug)]
pub enum ReadOutcome<'a> {
    /// The bytes that the read put into the buffer; none at the end of the
    /// stream.
    Received(&'a [u8]),
    /// The read failed.
    Failed,
}

/// A read as the contracts see it.
pub enum Read {
    Bytes(Seq<u8>),
    Failed,
}

impl<'a> View for ReadOutcome<'a> {
    type V = Read;

    open spec fn view(&self) -> Read {
        match *self {
            ReadOutcome::Received(bytes) => Read::Bytes(bytes@),
            ReadOutcome::Failed => Read::Failed,
        }
    }
}

/// What the caller is to do after a step.
#[derive(Clone, Copy, Debug, PartialEq, Eq, Structural)]
pub enum Action {
    /// Make this call on the input controller, then read again.
    Dispatch { call: InputCall },
    /// The window was no packet: report it, drop it, then read again.
    Report { error: DecodeError },
    /// Leave the read loop and close the socket.
    Close { reason: CloseReason },
}

/// One transition: the phase after a read, and the action it asks for.
pub open spec fn step(phase: Phase, read: Read) -> (Phase, Action) {
    match phase {
        Phase::Closed { reason } => (phase, Action::Close { reason }),
        Phase::Reading => match read {
            Read::Failed => (
                Phase::Closed { reason: CloseReason::ReadError },
                Action::Close { reason: CloseReason::ReadError },
            ),
            Read::Bytes(window) => if window.len() == 0 {
                (
                    Phase::Closed { reason: CloseReason::EndOfStream },
                    Action::Close { reason: CloseReason::EndOfStream },
                )
            } else {
                match decoded(window) {
                    Ok(event) => (Phase::Reading, Action::Dispatch { call: call_for(event) }),
                    Err(error) => (Phase::Reading, Action::Report { error }),
                }
            },
        },
    }
}

/// One accepted connection. It shares nothing with any other.
#[derive(Debug)]
pub struct Connection {
    phase: Phase,
}

impl View for Connection {
    type V = Phase;

    closed spec fn view(&self) -> Phase {
        self.phase
    }
}

impl Connection {
    /// A connection as it is right after the accept: about to read.
    pub fn new() -> (connection: Connection)
        ensures
            connection@ == Phase::Reading,
    {
        Connection { phase: Phase::Reading }
    }

    /// The phase the connection is in.
    pub fn phase(&self) -> (phase: Phase)
        ensures
            phase == self@,
    {
        self.phase
    }

    /// True until the connection has closed.
    pub fn is_open(&self) -> (open: bool)
        ensures
            open == (self@ == Phase::Reading),
    {
        match self.phase {
            Phase::Reading => true,
            Phase::Closed { .. } => false,
        }
    }

    /// Takes what a read gave and says what to do with it.
    pub fn step(&mut self, outcome: ReadOutcome) -> (action: Action)
        ensures
            (final(self)@, action) == step(old(self)@, outcome@),
    {
        match self.phase {
            Phase::Closed { reason } => Action::Close { reason },
            Phase::Reading => match outcome {
                ReadOutcome::Failed => {
                    self.phase = Phase::Closed { reason: CloseReason::ReadError };
                    Action::Close { reason: CloseReason::ReadError }
                },
                ReadOutcome::Received(window) => {
                    if window.len() == 0 {
                        self.phase = Phase::Closed { reason: CloseReason::EndOfStream };
                        Action::Close { reason: CloseReason::EndOfStream }
                    } else {
                        match decode(window) {
                            Ok(event) => Action::Dispatch { call: dispatch(event) },
                            Err(error) => Action::Report { error },
                        }
                    }
                },
            },
        }
    }
}

/// A whole session: the phase after a sequence of reads and the actions they
/// ask for, in the order of arrival. Once the connection has closed, nothing
/// more is read.
pub open spec fn run(phase: Phase, reads: Seq<Read>) -> (Phase, Seq<Action>)
    decreases reads.len(),
{
    if reads.len() == 0 || phase != Phase::Reading {
        (phase, Seq::empty())
    } else {
        let (next, action) = step(phase, reads[0]);
        let (last, actions) = run(next, reads.drop_first());
        (last, seq![action] + actions)
    }
}

/// The reads of a recorded session as the contracts see them.
pub open spec fn views(outcomes: Seq<ReadOutcome>) -> Seq<Read> {
    Seq::new(outcomes.len(), |i: int| outcomes[i]@)
}

impl Connection {
    /// Steps through recorded reads until they are spent or the connection
    /// closes, and returns the actions they ask for.
    pub fn replay(&mut self, outcomes: &[ReadOutcome]) -> (actions: Vec<Action>)
        ensures
            (final(self)@, actions@) == run(old(self)@, views(outcomes@)),
    {
        let ghost reads = views(outcomes@);
        let mut actions: Vec<Action> = Vec::new();
        let mut i: usize = 0;
        proof {
            assert(reads.skip(0) =~= reads);
        }
        while i < outcomes.len() && self.is_open()
            invariant
                i <= outcomes.len(),
                reads == views(outcomes@),
                run(old(self)@, reads) == (
                    run(self@, reads.skip(i as int)).0,
                    actions@ + run(self@, reads.skip(i as int)).1,
                ),
            decreases outcomes.len() - i,
        {
            let ghost before = self@;
            let ghost rest = reads.skip(i as int);
            let action = self.step(outcomes[i]);
            proof {
                assert(rest[0] == outcomes@[i as int]@);
                assert(rest.drop_first() =~= reads.skip(i + 1));
                assert(actions@ + (seq![action] + run(self@, rest.drop_first()).1)
                    =~= actions@.push(action) + run(self@, rest.drop_first()).1);
            }
            actions.push(action);
            i = i + 1;
        }
        proof {
            assert(actions@ + Seq::<Action>::empty() =~= actions@);
        }
        actions
    }
}

/// A closed connection stays closed whatever is handed to it, and asks for no
/// controller call.
pub proof fn lemma_closed_is_terminal(reason: CloseReason, read: Read)
    ensures
        step(Phase::Closed { reason }, read) == (
            Phase::Closed { reason },
            Action::Close { reason },
        ),
{
}

/// A read of no bytes ends the session at once: the connection closes and
/// nothing is decoded.
pub proof fn lemma_end_of_stream_closes()
    ensures
        step(Phase::Reading, Read::Bytes(Seq::empty())) == (
            Phase::Closed { reason: CloseReason::EndOfStream },
            Action::Close { reason: CloseReason::EndOfStream },
        ),
{
}

/// A failed read closes the connection.
pub proof fn lemma_read_error_closes()
    ensures
        step(Phase::Reading, Read::Failed) == (
            Phase::Closed { reason: CloseReason::ReadError },
            Action::Close { reason: CloseReason::ReadError },
        ),
{
}

/// Bytes never close a connection: whether the window decodes or not, the
/// connection goes on reading.
pub proof fn lemma_bytes_keep_reading(window: Seq<u8>)
    requires
        window.len() > 0,
    ensures
        step(Phase::Reading, Read::Bytes(window)).0 == Phase::Reading,
        decoded(window) matches Ok(event) ==> step(Phase::Reading, Read::Bytes(window)).1
            == (Action::Dispatch { call: call_for(event) }),
        decoded(window) matches Err(error) ==> step(Phase::Reading, Read::Bytes(window)).1
            == (Action::Report { error }),
{
}

/// A keystroke window of malformed UTF-8 is dropped: it is reported, no call
/// is made, and the session goes on with the reads that follow as if the
/// window had never come.
pub proof fn lemma_malformed_keystroke_is_dropped(window: Seq<u8>, later: Seq<Read>)
    requires
        window.len() > 0,
        window[0] & 0x80 == 0,
        !vstd::utf8::valid_utf8(window),
    ensures
        step(Phase::Reading, Read::Bytes(window)) == (
            Phase::Reading,
            Action::Report { error: DecodeError::InvalidUtf8 },
        ),
        run(Phase::Reading, seq![Read::Bytes(window)] + later) == (
            run(Phase::Reading, later).0,
            seq![Action::Report { error: DecodeError::InvalidUtf8 }] + run(
                Phase::Reading,
                later,
            ).1,
        ),
{
    let reads = seq![Read::Bytes(window)] + later;
    assert(reads.drop_first() =~= later);
}

/// A session asks for one action per read at most. Only its last action can
/// be a close, and it is one exactly when the session has closed the
/// connection: then it names the reason that the connection keeps.
pub proof fn lemma_run_shape(reads: Seq<Read>)
    ensures
        run(Phase::Reading, reads).1.len() <= reads.len(),
        forall|i: int|
            0 <= i < run(Phase::Reading, reads).1.len() - 1 ==> !(#[trigger] run(
                Phase::Reading,
                reads,
            ).1[i] is Close),
        run(Phase::Reading, reads).0 == Phase::Reading ==> forall|i: int|
            0 <= i < run(Phase::Reading, reads).1.len() ==> !(#[trigger] run(
                Phase::Reading,
                reads,
            ).1[i] is Close),
        run(Phase::Reading, reads).0 matches Phase::Closed { reason } ==> run(
            Phase::Reading,
            reads,
        ).1.len() > 0 && run(Phase::Reading, reads).1.last() == (Action::Close { reason }),
    decreases reads.len(),
{
    if reads.len() > 0 {
        let (next, action) = step(Phase::Reading, reads[0]);
        let tail = run(next, reads.drop_first()).1;
        let all = run(Phase::Reading, reads).1;
        assert(all == seq![action] + tail);
        if next == Phase::Reading {
            lemma_run_shape(reads.drop_first());
            assert forall|i: int| 0 <= i < all.len() implies (#[trigger] all[i] is Close) == (i
                > 0 && tail[i - 1] is Close) by {
                if i > 0 {
                    assert(all[i] == tail[i - 1]);
                }
            }
            if tail.len() > 0 {
                assert(all.last() == tail.last());
            }
        } else {
            assert(tail.len() == 0);
        }
    }
}

} // verus!
