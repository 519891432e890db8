//! Reading a byte stream to its end in bounded reads.
//!
//! A stream is read one bounded read at a time. The reader says what read to
//! make next; the caller makes it and hands back what it gave. Two shapes of
//! loop exist. A drain goes on until the stream ends: it is for a peer that
//! closes when it is done. A reply read waits for readiness before every
//! read and gives up after a fixed number of reads or bytes: it is for a peer
//! that may never close.

use crate::text::{lemma_lossy_of_encoded, lossy_text, lossy_utf8};
use vstd::prelude::*;

verus! {

/// The most bytes that one read of a drain asks for.
pub const DRAIN_CHUNK: u64 = 32768;

/// The most bytes that one read of a reply asks for.
pub const REPLY_CHUNK: u64 = 4096;

/// The most reads that a reply is given.
pub const REPLY_CYCLES: u64 = 20;

/// The number of bytes at which a reply is taken to be complete.
pub const REPLY_LIMIT: usize = 4096;

/// What one bounded read gave: bytes (none at the end of the stream), the
/// news that the stream is closed, or a failure of this one read.
#[derive(Debug, PartialEq, Eq)]
pub enum ReadOutcome {
    Data(Vec<u8>),
    Closed,
    Failed,
}

/// How a stream is read.
#[derive(Clone, Copy, Debug, PartialEq, Eq, Structural)]
pub enum ReadPolicy {
    /// Read until the stream ends, without waiting for readiness.
    Drain,
    /// Read until the stream ends, waiting for readiness before each read.
    DrainAwaited,
    /// Wait for readiness before each read, and stop at the ceilings.
    Reply,
}

/// One read to make: whether to wait for readiness first, and the most
/// bytes to ask for.
#[derive(Clone, Copy, Debug, PartialEq, Eq, Structural)]
pub struct ReadRequest {
    pub wait_first: bool,
    pub limit: u64,
}

/// The state of a read loop.
pub struct Reader {
    policy: ReadPolicy,
    buffer: Vec<u8>,
    cycles: u64,
    finished: bool,
}

/// A read loop as a value: its policy, the bytes gathered, the reads that
/// were counted against the ceiling, and whether it is over.
pub struct ReaderView {
    pub policy: ReadPolicy,
    pub buffer: Seq<u8>,
    pub cycles: nat,
    pub finished: bool,
}

/// The bytes that a run of reads gave, in order.
pub open spec fn gathered(outcomes: Seq<ReadOutcome>) -> Seq<u8>
    decreases outcomes.len(),
{
    if outcomes.len() == 0 {
        Seq::empty()
    } else {
        let before = gathered(outcomes.drop_last());
        match outcomes.last() {
            ReadOutcome::Data(chunk) => before + chunk@,
            _ => before,
        }
    }
}

/// Whether a read ends a drain: it gave no bytes, or the stream is closed,
/// or the read failed.
pub open spec fn ends_drain(outcome: ReadOutcome) -> bool {
    match outcome {
        ReadOutcome::Data(chunk) => chunk@.len() == 0,
        _ => true,
    }
}

impl ReaderView {
    /// A loop that has read nothing yet.
    pub open spec fn start(policy: ReadPolicy) -> ReaderView {
        ReaderView { policy, buffer: Seq::empty(), cycles: 0, finished: false }
    }

    /// The read to make next, if the loop is not over.
    pub open spec fn request(self) -> Option<ReadRequest> {
        if self.finished {
            None
        } else {
            Some(
                ReadRequest {
                    wait_first: self.policy != ReadPolicy::Drain,
                    limit: if self.policy == ReadPolicy::Reply {
                        REPLY_CHUNK
                    } else {
                        DRAIN_CHUNK
                    },
                },
            )
        }
    }

    /// The loop after a read. A loop that is over takes nothing more.
    ///
    /// A drain ends at the first read that gave nothing, found the stream
    /// closed or failed. A reply counts every read; it ends at a read that
    /// gave nothing or found the stream closed, when the bytes gathered
    /// reach the limit, and with the last read that its ceiling allows. A
    /// failed read of a reply only counts.
    pub open spec fn accept(self, outcome: ReadOutcome) -> ReaderView {
        if self.finished {
            self
        } else if self.policy == ReadPolicy::Reply {
            let cycles = self.cycles + 1;
            let spent = cycles >= REPLY_CYCLES;
            match outcome {
                ReadOutcome::Data(chunk) => if chunk@.len() == 0 {
                    ReaderView { cycles, finished: true, ..self }
                } else {
                    let buffer = self.buffer + chunk@;
                    ReaderView {
                        buffer,
                        cycles,
                        finished: spent || buffer.len() >= REPLY_LIMIT,
                        ..self
                    }
                },
                ReadOutcome::Closed => ReaderView { cycles, finished: true, ..self },
                ReadOutcome::Failed => ReaderView { cycles, finished: spent, ..self },
            }
        } else {
            match outcome {
                ReadOutcome::Data(chunk) => if chunk@.len() == 0 {
                    ReaderView { finished: true, ..self }
                } else {
                    ReaderView { buffer: self.buffer + chunk@, ..self }
                },
                _ => ReaderView { finished: true, ..self },
            }
        }
    }

    /// The loop after a run of reads.
    pub open spec fn run(self, outcomes: Seq<ReadOutcome>) -> ReaderView
        decreases outcomes.len(),
    {
        if outcomes.len() == 0 {
            self
        } else {
            self.run(outcomes.drop_last()).accept(outcomes.last())
        }
    }

    /// What holds of every loop that was started and fed: a reply has
    /// counted at most its ceiling of reads and is over once it has; a
    /// drain counts nothing.
    pub open spec fn well_formed(self) -> bool {
        if self.policy == ReadPolicy::Reply {
            self.cycles <= REPLY_CYCLES && (self.cycles == REPLY_CYCLES ==> self.finished)
        } else {
            self.cycles == 0
        }
    }

    /// The text of the bytes gathered.
    pub open spec fn text(self) -> Seq<char> {
        lossy_utf8(self.buffer)
    }
}

impl View for Reader {
    type V = ReaderView;

    closed spec fn view(&self) -> ReaderView {
        ReaderView {
            policy: self.policy,
            buffer: self.buffer@,
            cycles: self.cycles as nat,
            finished: self.finished,
        }
    }
}

impl Reader {
    #[verifier::type_invariant]
    spec fn inv(self) -> bool {
        self@.well_formed()
    }

    /// Starts a read loop.
    pub fn new(policy: ReadPolicy) -> (r: Reader)
        ensures
            r@ == ReaderView::start(policy),
    {
        Reader { policy, buffer: Vec::new(), cycles: 0, finished: false }
    }

    /// A loop that is over before its first read: it has gathered nothing.
    pub fn closed(policy: ReadPolicy) -> (r: Reader)
        ensures
            r@ == (ReaderView { finished: true, ..ReaderView::start(policy) }),
    {
        Reader { policy, buffer: Vec::new(), cycles: 0, finished: true }
    }

    /// The read to make next, or `None` when the loop is over.
    pub fn request(&self) -> (r: Option<ReadRequest>)
        ensures
            r == self@.request(),
    {
        if self.finished {
            None
        } else {
            let wait_first = match self.policy {
                ReadPolicy::Drain => false,
                _ => true,
            };
            let limit = match self.policy {
                ReadPolicy::Reply => REPLY_CHUNK,
                _ => DRAIN_CHUNK,
            };
            Some(ReadRequest { wait_first, limit })
        }
    }

    /// Takes what the read that was asked for gave.
    pub fn accept(self, outcome: ReadOutcome) -> (r: Reader)
        ensures
            r@ == self@.accept(outcome),
            r@.well_formed(),
    {
        proof {
            use_type_invariant(&self);
        }
        let Reader { policy, mut buffer, mut cycles, mut finished } = self;
        if finished {
            return Reader { policy, buffer, cycles, finished };
        }
        match policy {
            ReadPolicy::Reply => {
                cycles = cycles + 1;
                let spent = cycles >= REPLY_CYCLES;
                match outcome {
                    ReadOutcome::Data(mut chunk) => {
                        if chunk.len() == 0 {
                            finished = true;
                        } else {
                            buffer.append(&mut chunk);
                            finished = spent || buffer.len() >= REPLY_LIMIT;
                        }
                    },
                    ReadOutcome::Closed => {
                        finished = true;
                    },
                    ReadOutcome::Failed => {
                        finished = spent;
                    },
                }
            },
            _ => {
                match outcome {
                    ReadOutcome::Data(mut chunk) => {
                        if chunk.len() == 0 {
                            finished = true;
                        } else {
                            buffer.append(&mut chunk);
                        }
                    },
                    _ => {
                        finished = true;
                    },
                }
            },
        }
        Reader { policy, buffer, cycles, finished }
    }

    /// Whether the loop is over.
    pub fn is_finished(&self) -> (r: bool)
        ensures
            r == self@.finished,
    {
        self.finished
    }

    /// The number of reads counted against the ceiling.
    pub fn cycles(&self) -> (r: u64)
        ensures
            r == self@.cycles,
            self@.well_formed(),
    {
        proof {
            use_type_invariant(self);
        }
        self.cycles
    }

    /// The bytes gathered so far.
    pub fn bytes(&self) -> (r: &Vec<u8>)
        ensures
            r@ == self@.buffer,
    {
        &self.buffer
    }

    /// The bytes gathered, read as UTF-8, lossily.
    pub fn text(&self) -> (r: String)
        ensures
            r@ == self@.text(),
    {
        lossy_text(self.buffer.as_slice())
    }
}

/// The loop that reads an inbound body: a drain of its stream, or a loop
/// that is over at once where the body gave no stream.
pub open spec fn body_reader(stream_open: bool) -> ReaderView {
    if stream_open {
        ReaderView::start(ReadPolicy::Drain)
    } else {
        ReaderView { finished: true, ..ReaderView::start(ReadPolicy::Drain) }
    }
}

/// Starts to read the body of the inbound request. `stream_open` says
/// whether the body could be taken and gave a stream; if not, the body is
/// the empty text. The body is the text of the reader when it is over.
pub fn read_request_body(stream_open: bool) -> (r: Reader)
    ensures
        r@ == body_reader(stream_open),
        !stream_open ==> r@.request() is None && r@.text() == Seq::<char>::empty(),
{
    proof {
        lemma_lossy_of_encoded(Seq::<char>::empty());
        assert(vstd::utf8::encode_utf8(Seq::<char>::empty()) == Seq::<u8>::empty());
    }
    if stream_open {
        Reader::new(ReadPolicy::Drain)
    } else {
        Reader::closed(ReadPolicy::Drain)
    }
}

/// A loop that is over stays as it is, whatever it is fed.
pub proof fn lemma_finished_stays(view: ReaderView, outcomes: Seq<ReadOutcome>)
    requires
        view.finished,
    ensures
        view.run(outcomes) == view,
    decreases outcomes.len(),
{
    if outcomes.len() > 0 {
        lemma_finished_stays(view, outcomes.drop_last());
    }
}

/// Feeding one run of reads and then another is feeding both in a row.
pub proof fn lemma_run_in_parts(view: ReaderView, first: Seq<ReadOutcome>, then: Seq<ReadOutcome>)
    ensures
        view.run(first + then) == view.run(first).run(then),
    decreases then.len(),
{
    if then.len() == 0 {
        assert(first + then == first);
    } else {
        lemma_run_in_parts(view, first, then.drop_last());
        assert((first + then).drop_last() == first + then.drop_last());
        assert((first + then).last() == then.last());
    }
}

/// While no read ends it, a drain goes on and keeps every byte it was given.
pub proof fn lemma_drain_goes_on(policy: ReadPolicy, outcomes: Seq<ReadOutcome>)
    requires
        policy != ReadPolicy::Reply,
        forall|j: int| 0 <= j < outcomes.len() ==> !ends_drain(#[trigger] outcomes[j]),
    ensures
        ReaderView::start(policy).run(outcomes) == (ReaderView {
            buffer: gathered(outcomes),
            ..ReaderView::start(policy)
        }),
    decreases outcomes.len(),
{
    if outcomes.len() > 0 {
        let before = outcomes.drop_last();
        assert forall|j: int| 0 <= j < before.len() implies !ends_drain(#[trigger] before[j]) by {
            assert(before[j] == outcomes[j]);
        }
        lemma_drain_goes_on(policy, before);
        assert(!ends_drain(outcomes[outcomes.len() - 1]));
    }
}

/// A drain is over at the first read that gave nothing, found the stream
/// closed or failed. It then holds every byte read before that read, and no
/// later read changes it.
pub proof fn lemma_drain_stops_at_first_end(
    policy: ReadPolicy,
    outcomes: Seq<ReadOutcome>,
    k: int,
)
    requires
        policy != ReadPolicy::Reply,
        0 <= k < outcomes.len(),
        ends_drain(outcomes[k]),
        forall|j: int| 0 <= j < k ==> !ends_drain(#[trigger] outcomes[j]),
    ensures
        ReaderView::start(policy).run(outcomes) == (ReaderView {
            buffer: gathered(outcomes.take(k)),
            finished: true,
            ..ReaderView::start(policy)
        }),
        ReaderView::start(policy).run(outcomes).request() is None,
{
    let start = ReaderView::start(policy);
    let head = outcomes.take(k);
    let upto = outcomes.take(k + 1);
    let tail = outcomes.skip(k + 1);
    assert forall|j: int| 0 <= j < head.len() implies !ends_drain(#[trigger] head[j]) by {
        assert(head[j] == outcomes[j]);
    }
    lemma_drain_goes_on(policy, head);
    assert(upto.drop_last() == head);
    assert(upto.last() == outcomes[k]);
    assert(start.run(upto) == start.run(head).accept(outcomes[k]));
    assert(outcomes == upto + tail);
    lemma_run_in_parts(start, upto, tail);
    lemma_finished_stays(start.run(upto), tail);
}

/// A reply read is over within its ceiling of reads, whether or not the
/// peer ever sends anything. It has counted one read for each outcome it
/// took, never more than the ceiling; it holds the bytes that those reads
/// gave; and once the ceiling is reached it asks for nothing more.
pub proof fn lemma_reply_is_bounded(outcomes: Seq<ReadOutcome>)
    ensures
        ReaderView::start(ReadPolicy::Reply).run(outcomes).well_formed(),
        ReaderView::start(ReadPolicy::Reply).run(outcomes).cycles <= REPLY_CYCLES,
        ReaderView::start(ReadPolicy::Reply).run(outcomes).cycles <= outcomes.len(),
        !ReaderView::start(ReadPolicy::Reply).run(outcomes).finished ==> ReaderView::start(
            ReadPolicy::Reply,
        ).run(outcomes).cycles == outcomes.len(),
        outcomes.len() >= REPLY_CYCLES ==> ReaderView::start(ReadPolicy::Reply).run(
            outcomes,
        ).request() is None,
        ReaderView::start(ReadPolicy::Reply).run(outcomes).buffer == gathered(
            outcomes.take(ReaderView::start(ReadPolicy::Reply).run(outcomes).cycles as int),
        ),
    decreases outcomes.len(),
{
    let start = ReaderView::start(ReadPolicy::Reply);
    if outcomes.len() == 0 {
        assert(outcomes.take(0) == outcomes);
    } else {
        let before = outcomes.drop_last();
        lemma_reply_is_bounded(before);
        let prev = start.run(before);
        let now = start.run(outcomes);
        if prev.finished {
            assert(outcomes.take(prev.cycles as int) == before.take(prev.cycles as int));
        } else {
            assert(before.take(prev.cycles as int) == before);
            assert(outcomes.take(now.cycles as int) == outcomes);
        }
    }
}

} // verus!
