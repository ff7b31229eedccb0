//! The decisions of the drive loop.
//!
//! A [`Driver`] is a state machine. It hands out one [`Action`] at a time;
//! the caller performs it on the engine or on the transport and reports the
//! outcome through the method that belongs to the action, which hands out the
//! next one. The first action of a new driver is [`Action::Step`].
use vstd::prelude::*;
use crate::error::{DriverError, TransportError};
use crate::incoming::IncomingBuffer;
use crate::outgoing::OutgoingBuffer;

verus! {

/// Why the engine ended the connection.
#[derive(Clone, Copy, Debug, PartialEq, Eq, Structural)]
pub enum TerminalReason {
    /// The handshake is complete and the connection is ready for data.
    Ready,
    /// The connection was closed in good order.
    Closed,
    /// The connection broke off with the given error.
    Failed(DriverError),
}

/// What the engine asks for after one processing step.
#[derive(Clone, Copy, Debug, PartialEq, Eq, Structural)]
pub enum Directive {
    /// A record is ready to be encoded into the outgoing buffer.
    MustEncode,
    /// The encoded records have to be sent.
    MustTransmit,
    /// The engine needs more received bytes; `hint` is how many it expects.
    NeedsMoreData { hint: usize },
    /// The connection has ended.
    Terminal(TerminalReason),
    /// A directive of a kind that this driver does not handle.
    Unknown,
}

/// Why the engine did not encode.
#[derive(Clone, Copy, Debug, PartialEq, Eq, Structural)]
pub enum EncodeError {
    /// The room was too small; `required` bytes are needed.
    InsufficientSize { required: usize },
    /// The record had been encoded before.
    AlreadyEncoded,
}

/// What the driver waits for.
#[derive(Clone, Copy, Debug, PartialEq, Eq, Structural)]
pub enum Phase {
    /// The engine has to process the incoming buffer.
    Idle,
    /// The engine has to encode; `retried` once the room was grown for it.
    Encoding { discard: usize, retried: bool },
    /// The transport has to take pending bytes, of which `sent` are gone.
    Writing { discard: usize, sent: usize },
    /// The transport has to flush.
    Flushing { discard: usize },
    /// The engine has to be told that the transmission is done.
    Acknowledging { discard: usize },
    /// The transport has to deliver bytes.
    Reading { discard: usize },
    /// The caller has to let other tasks run.
    Yielding,
    /// The connection has ended.
    Finished,
}

/// What the caller has to do next.
#[derive(Clone, Copy, Debug, PartialEq, Eq, Structural)]
pub enum Action {
    /// Let the engine process the content of the incoming buffer, and report
    /// with [`Driver::on_step`].
    Step,
    /// Let the engine encode into room of `space` bytes, and report with
    /// [`Driver::on_encoded`].
    Encode { space: usize },
    /// Write the pending bytes from offset `from` on to the transport, once,
    /// and report with [`Driver::on_wrote`].
    Write { from: usize },
    /// Flush the transport, and report with [`Driver::on_flushed`].
    Flush,
    /// Tell the engine that the transmission is done, and report with
    /// [`Driver::on_acknowledged`].
    Acknowledge,
    /// Read at most `max` bytes from the transport, once, and report with
    /// [`Driver::on_read`].
    Read { max: usize },
    /// Nothing was available: let other tasks run, and report with
    /// [`Driver::on_resumed`].
    Yield,
    /// The connection ended in good order.
    Done,
    /// The connection ended with an error.
    Fail(DriverError),
}

/// The state of one connection's drive loop.
pub struct Driver {
    incoming: IncomingBuffer,
    outgoing: OutgoingBuffer,
    phase: Phase,
    stalled: bool,
    wire: Ghost<Seq<u8>>,
    base: Ghost<nat>,
}

impl Driver {
    /// The buffer of received bytes.
    pub closed spec fn spec_incoming(&self) -> IncomingBuffer {
        self.incoming
    }

    /// The buffer of bytes to send.
    pub closed spec fn spec_outgoing(&self) -> OutgoingBuffer {
        self.outgoing
    }

    /// What the driver waits for.
    pub closed spec fn spec_phase(&self) -> Phase {
        self.phase
    }

    /// Whether the last directive was `MustEncode` and ended with no byte
    /// encoded.
    pub closed spec fn spec_stalled(&self) -> bool {
        self.stalled
    }

    /// Every byte that the transport accepted, in the order of the writes.
    pub closed spec fn wire(&self) -> Seq<u8> {
        self.wire@
    }

    /// How many bytes the transport had accepted when the last transmission
    /// began.
    pub closed spec fn transmission_start(&self) -> nat {
        self.base@
    }

    /// The bytes that the transport accepted since the last transmission
    /// began.
    pub open spec fn transmitted(&self) -> Seq<u8> {
        self.wire().skip(self.transmission_start() as int)
    }

    /// The invariant: both buffers are well formed, and what went to the
    /// transport in the current transmission is the pending bytes so far.
    pub closed spec fn wf(&self) -> bool {
        &&& self.incoming.wf()
        &&& self.outgoing.wf()
        &&& self.base@ <= self.wire@.len()
        &&& match self.phase {
            Phase::Writing { discard, sent } => {
                &&& sent < self.outgoing.spec_used()
                &&& self.wire@.skip(self.base@ as int) == self.outgoing@.take(sent as int)
            },
            Phase::Flushing { discard } => self.wire@.skip(self.base@ as int) == self.outgoing@,
            _ => true,
        }
    }

    /// The driver has stopped with the error `e`, and said so by `a`.
    pub open spec fn failed_with(&self, a: Action, e: DriverError) -> bool {
        &&& a == Action::Fail(e)
        &&& self.spec_phase() == Phase::Finished
    }

    /// Buffers, sent bytes and encoding progress are those of `pre`.
    pub open spec fn unchanged_from(&self, pre: &Driver) -> bool {
        &&& self.spec_incoming() == pre.spec_incoming()
        &&& self.spec_outgoing() == pre.spec_outgoing()
        &&& self.spec_stalled() == pre.spec_stalled()
        &&& self.wire() == pre.wire()
        &&& self.transmission_start() == pre.transmission_start()
    }

    /// The end of a directive's handling, `pre` being the incoming buffer
    /// when the handling was over: where `discard` bytes were there to
    /// remove, they are gone and the driver goes on with `next` in `phase`;
    /// where not, nothing was removed and the driver has stopped.
    pub open spec fn discard_applied(
        &self,
        a: Action,
        pre: IncomingBuffer,
        discard: usize,
        next: Action,
        phase: Phase,
    ) -> bool {
        let now = self.spec_incoming();
        &&& now.spec_capacity() == pre.spec_capacity()
        &&& now.received() == pre.received()
        &&& if discard <= pre.spec_used() {
            &&& now@ == pre@.skip(discard as int)
            &&& now.spec_used() == pre.spec_used() - discard
            &&& now.discarded() == pre.discarded() + discard
            &&& pre.is_unconsumed_stream() ==> now.is_unconsumed_stream()
            &&& a == next
            &&& self.spec_phase() == phase
        } else {
            &&& now == pre
            &&& self.failed_with(a, DriverError::InvariantViolation)
        }
    }

    /// Both buffers of a well-formed driver are well formed: the incoming
    /// buffer never holds more than its capacity.
    pub proof fn lemma_buffers_wf(&self)
        requires
            self.wf(),
        ensures
            self.spec_incoming().wf(),
            self.spec_outgoing().wf(),
            self.spec_incoming()@.len() == self.spec_incoming().spec_used(),
            self.spec_incoming().spec_used() <= self.spec_incoming().spec_capacity(),
            self.spec_outgoing()@.len() == self.spec_outgoing().spec_used(),
            self.spec_outgoing().spec_used() <= self.spec_outgoing().spec_len(),
    {
        self.incoming.lemma_used_within_capacity();
        self.outgoing.lemma_used_within_len();
    }

    /// While a transmission is under way, the transport has taken since its
    /// beginning exactly the first `sent` pending bytes, each once and in
    /// order; when the flush is due, it has taken all of them and no other.
    pub proof fn lemma_transmit_progress(&self)
        requires
            self.wf(),
        ensures
            self.transmission_start() <= self.wire().len(),
            match self.spec_phase() {
                Phase::Writing { discard, sent } => {
                    &&& sent < self.spec_outgoing().spec_used()
                    &&& self.transmitted() == self.spec_outgoing()@.take(sent as int)
                },
                Phase::Flushing { discard } => self.transmitted() == self.spec_outgoing()@,
                _ => true,
            },
    {
    }

    /// A driver for a new connection, with an incoming buffer of the given
    /// capacity. It waits for the engine's first step.
    pub fn new(capacity: usize) -> (d: Self)
        ensures
            d.wf(),
            d.spec_phase() == Phase::Idle,
            !d.spec_stalled(),
            d.wire() == Seq::<u8>::empty(),
            d.spec_incoming().spec_capacity() == capacity,
            d.spec_incoming().spec_used() == 0,
            d.spec_incoming().is_unconsumed_stream(),
            d.spec_incoming()@ == Seq::<u8>::empty(),
            d.spec_incoming().received() == Seq::<u8>::empty(),
            d.spec_incoming().discarded() == 0,
            d.spec_outgoing()@ == Seq::<u8>::empty(),
            d.spec_outgoing().spec_used() == 0,
            d.spec_outgoing().spec_len() == 0,
    {
        Driver {
            incoming: IncomingBuffer::new(capacity),
            outgoing: OutgoingBuffer::new(),
            phase: Phase::Idle,
            stalled: false,
            wire: Ghost(Seq::empty()),
            base: Ghost(0),
        }
    }

    /// The buffer of received bytes.
    pub fn incoming(&self) -> (b: &IncomingBuffer)
        ensures
            *b == self.spec_incoming(),
    {
        &self.incoming
    }

    /// The content of the incoming buffer, for an engine that works on it in
    /// place. What the engine leaves there is the content afterwards;
    /// nothing else changes.
    pub fn incoming_mut(&mut self) -> (bytes: &mut [u8])
        requires
            old(self).wf(),
        ensures
            bytes@ == old(self).spec_incoming()@,
            final(self).spec_outgoing() == old(self).spec_outgoing(),
            final(self).spec_phase() == old(self).spec_phase(),
            final(self).spec_stalled() == old(self).spec_stalled(),
            final(self).wire() == old(self).wire(),
            final(self).transmission_start() == old(self).transmission_start(),
            final(self).spec_incoming().spec_used() == old(self).spec_incoming().spec_used(),
            final(self).spec_incoming().received() == old(self).spec_incoming().received(),
            final(self).spec_incoming().discarded() == old(self).spec_incoming().discarded(),
            final(bytes)@.len() == bytes@.len() ==> {
                &&& final(self).wf()
                &&& final(self).spec_incoming()@ == final(bytes)@
                &&& final(self).spec_incoming().spec_capacity() == old(
                    self,
                ).spec_incoming().spec_capacity()
            },
    {
        self.incoming.filled_mut()
    }

    /// The buffer of bytes to send.
    pub fn outgoing(&self) -> (b: &OutgoingBuffer)
        ensures
            *b == self.spec_outgoing(),
    {
        &self.outgoing
    }

    /// What the driver waits for.
    #[verifier::when_used_as_spec(spec_phase)]
    pub fn phase(&self) -> (p: Phase)
        ensures
            p == self.spec_phase(),
    {
        self.phase
    }

    /// Ends the connection with an error that arose outside the driver's
    /// own decisions, such as a connection that could not be established.
    pub fn abort(&mut self, e: DriverError) -> (a: Action)
        requires
            old(self).wf(),
        ensures
            final(self).wf(),
            final(self).failed_with(a, e),
            final(self).unchanged_from(old(self)),
    {
        self.fail(e)
    }

    fn fail(&mut self, e: DriverError) -> (a: Action)
        requires
            old(self).incoming.wf(),
            old(self).outgoing.wf(),
            old(self).base@ <= old(self).wire@.len(),
        ensures
            final(self).wf(),
            final(self).failed_with(a, e),
            final(self).unchanged_from(old(self)),
    {
        self.phase = Phase::Finished;
        Action::Fail(e)
    }

    fn resume(&mut self, discard: usize, next: Action, phase: Phase) -> (a: Action)
        requires
            old(self).incoming.wf(),
            old(self).outgoing.wf(),
            old(self).base@ <= old(self).wire@.len(),
            phase == Phase::Idle || phase == Phase::Yielding,
        ensures
            final(self).wf(),
            final(self).spec_outgoing() == old(self).spec_outgoing(),
            final(self).spec_stalled() == old(self).spec_stalled(),
            final(self).wire() == old(self).wire(),
            final(self).transmission_start() == old(self).transmission_start(),
            final(self).discard_applied(a, old(self).spec_incoming(), discard, next, phase),
    {
        match self.incoming.discard(discard) {
            Ok(()) => {
                self.phase = phase;
                next
            },
            Err(e) => self.fail(e),
        }
    }

    /// Takes the engine's answer to [`Action::Step`]: the directive, and the
    /// number of leading incoming bytes that the engine is done with. Those
    /// are removed once the directive has been handled.
    ///
    /// Neither buffer changes here. A terminal directive ends the connection
    /// at once; more data cannot be asked for when the incoming buffer is
    /// full.
    pub fn on_step(&mut self, discard: usize, directive: Directive) -> (a: Action)
        requires
            old(self).wf(),
        ensures
            final(self).wf(),
            final(self).spec_incoming() == old(self).spec_incoming(),
            final(self).spec_outgoing() == old(self).spec_outgoing(),
            final(self).wire() == old(self).wire(),
            old(self).spec_phase() != Phase::Idle || directive != Directive::MustTransmit
                ==> final(self).transmission_start() == old(self).transmission_start(),
            old(self).spec_phase() != Phase::Idle ==> {
                &&& final(self).failed_with(a, DriverError::InvariantViolation)
                &&& final(self).spec_stalled() == old(self).spec_stalled()
            },
            old(self).spec_phase() == Phase::Idle ==> {
                &&& final(self).spec_stalled() == (old(self).spec_stalled() && directive
                    == Directive::MustEncode)
                &&& match directive {
                    Directive::MustEncode => {
                        &&& a == (Action::Encode {
                            space: old(self).spec_outgoing().spec_space() as usize,
                        })
                        &&& final(self).spec_phase() == (Phase::Encoding {
                            discard,
                            retried: false,
                        })
                    },
                    Directive::MustTransmit => {
                        &&& final(self).transmission_start() == old(self).wire().len()
                        &&& if old(self).spec_outgoing().spec_used() == 0 {
                            &&& a == Action::Flush
                            &&& final(self).spec_phase() == (Phase::Flushing { discard })
                        } else {
                            &&& a == (Action::Write { from: 0 })
                            &&& final(self).spec_phase() == (Phase::Writing { discard, sent: 0 })
                        }
                    },
                    Directive::NeedsMoreData { hint } => if old(self).spec_incoming().spec_used()
                        == old(self).spec_incoming().spec_capacity() {
                        final(self).failed_with(a, DriverError::BufferExhausted)
                    } else {
                        &&& a == (Action::Read {
                            max: (old(self).spec_incoming().spec_capacity() - old(
                                self,
                            ).spec_incoming().spec_used()) as usize,
                        })
                        &&& final(self).spec_phase() == (Phase::Reading { discard })
                    },
                    Directive::Terminal(TerminalReason::Failed(e)) => final(self).failed_with(
                        a,
                        e,
                    ),
                    Directive::Terminal(_) => {
                        &&& a == Action::Done
                        &&& final(self).spec_phase() == Phase::Finished
                    },
                    Directive::Unknown => final(self).failed_with(
                        a,
                        DriverError::InvariantViolation,
                    ),
                }
            },
    {
        proof {
            self.incoming.lemma_used_within_capacity();
            self.outgoing.lemma_used_within_len();
        }
        match self.phase {
            Phase::Idle => {},
            _ => {
                return self.fail(DriverError::InvariantViolation);
            },
        }
        match directive {
            Directive::MustEncode => {
                self.phase = Phase::Encoding { discard, retried: false };
                Action::Encode { space: self.outgoing.space() }
            },
            Directive::MustTransmit => {
                self.stalled = false;
                proof {
                    self.base@ = self.wire@.len();
                    assert(self.wire@.skip(self.base@ as int) =~= self.outgoing@.take(0));
                }
                if self.outgoing.used() == 0 {
                    assert(self.outgoing@.take(0) =~= self.outgoing@);
                    self.phase = Phase::Flushing { discard };
                    Action::Flush
                } else {
                    self.phase = Phase::Writing { discard, sent: 0 };
                    Action::Write { from: 0 }
                }
            },
            Directive::NeedsMoreData { hint: _ } => {
                self.stalled = false;
                if self.incoming.is_full() {
                    self.fail(DriverError::BufferExhausted)
                } else {
                    self.phase = Phase::Reading { discard };
                    Action::Read { max: self.incoming.free() }
                }
            },
            Directive::Terminal(reason) => {
                self.stalled = false;
                match reason {
                    TerminalReason::Failed(e) => self.fail(e),
                    _ => {
                        self.phase = Phase::Finished;
                        Action::Done
                    },
                }
            },
            Directive::Unknown => {
                self.stalled = false;
                self.fail(DriverError::InvariantViolation)
            },
        }
    }

    /// What the answer `outcome` to [`Action::Encode`] makes of the driver
    /// `pre`: the driver `post` and the action `a`.
    pub open spec fn encoded(
        pre: &Driver,
        outcome: Result<Seq<u8>, EncodeError>,
        post: &Driver,
        a: Action,
    ) -> bool {
        &&& post.wire() == pre.wire()
        &&& post.transmission_start() == pre.transmission_start()
        &&& match pre.spec_phase() {
            Phase::Encoding { discard, retried } => match outcome {
                Err(EncodeError::AlreadyEncoded) => {
                    &&& post.failed_with(a, DriverError::DoubleEncode)
                    &&& post.unchanged_from(pre)
                },
                Err(EncodeError::InsufficientSize { required }) => if retried
                    || pre.spec_outgoing().spec_used() + required > usize::MAX {
                    &&& post.failed_with(a, DriverError::EncodingFailed)
                    &&& post.unchanged_from(pre)
                } else {
                    &&& a == (Action::Encode { space: required })
                    &&& post.spec_phase() == (Phase::Encoding { discard, retried: true })
                    &&& post.spec_outgoing().spec_len() == pre.spec_outgoing().spec_used()
                        + required
                    &&& post.spec_outgoing().spec_used() == pre.spec_outgoing().spec_used()
                    &&& post.spec_outgoing()@ == pre.spec_outgoing()@
                    &&& post.spec_incoming() == pre.spec_incoming()
                    &&& post.spec_stalled() == pre.spec_stalled()
                },
                Ok(bytes) => if bytes.len() > pre.spec_outgoing().spec_space() {
                    &&& post.failed_with(a, DriverError::InvariantViolation)
                    &&& post.unchanged_from(pre)
                } else if bytes.len() == 0 && pre.spec_stalled() {
                    &&& post.failed_with(a, DriverError::EncodingFailed)
                    &&& post.unchanged_from(pre)
                } else {
                    &&& post.spec_outgoing()@ == pre.spec_outgoing()@ + bytes
                    &&& post.spec_outgoing().spec_used() == pre.spec_outgoing().spec_used()
                        + bytes.len()
                    &&& post.spec_outgoing().spec_len() == pre.spec_outgoing().spec_len()
                    &&& post.spec_stalled() == (bytes.len() == 0)
                    &&& post.discard_applied(
                        a,
                        pre.spec_incoming(),
                        discard,
                        Action::Step,
                        Phase::Idle,
                    )
                },
            },
            _ => {
                &&& post.failed_with(a, DriverError::InvariantViolation)
                &&& post.unchanged_from(pre)
            },
        }
    }

    /// The answer to [`Action::Encode`] with the bytes taken as a sequence.
    pub open spec fn outcome_view(outcome: Result<&[u8], EncodeError>) -> Result<
        Seq<u8>,
        EncodeError,
    > {
        match outcome {
            Ok(bytes) => Ok(bytes@),
            Err(e) => Err(e),
        }
    }

    /// An encode that first finds the room too small and then succeeds: the
    /// room is grown to exactly the `required` bytes behind the pending
    /// ones, the engine is asked once more, and the pending bytes then grow
    /// by the bytes written, not by `required`.
    pub proof fn lemma_encode_retry(
        d0: &Driver,
        d1: &Driver,
        d2: &Driver,
        a1: Action,
        a2: Action,
        discard: usize,
        required: usize,
        bytes: Seq<u8>,
    )
        requires
            d0.spec_phase() == (Phase::Encoding { discard, retried: false }),
            d0.spec_outgoing().spec_used() + required <= usize::MAX,
            bytes.len() <= required,
            bytes.len() > 0 || !d0.spec_stalled(),
            Driver::encoded(d0, Err(EncodeError::InsufficientSize { required }), d1, a1),
            Driver::encoded(d1, Ok(bytes), d2, a2),
        ensures
            a1 == (Action::Encode { space: required }),
            d1.spec_outgoing().spec_len() == d0.spec_outgoing().spec_used() + required,
            d1.spec_outgoing()@ == d0.spec_outgoing()@,
            d2.spec_outgoing()@ == d0.spec_outgoing()@ + bytes,
            d2.spec_outgoing().spec_used() == d0.spec_outgoing().spec_used() + bytes.len(),
            d2.spec_outgoing().spec_len() == d1.spec_outgoing().spec_len(),
            d2.wire() == d0.wire(),
            discard <= d0.spec_incoming().spec_used() ==> a2 == Action::Step,
    {
    }

    /// Takes the engine's answer to [`Action::Encode`]: the bytes that it
    /// encoded, or why it encoded none.
    ///
    /// Encoded bytes join the pending ones, the discard is applied and the
    /// engine steps again; nothing is sent yet. When the room was too small,
    /// it is made exactly as large as the engine requires and the engine
    /// encodes once more; a second such answer is fatal. So is a record that
    /// was encoded before, and a second directive in a row that ends with no
    /// byte encoded.
    pub fn on_encoded(&mut self, outcome: Result<&[u8], EncodeError>) -> (a: Action)
        requires
            old(self).wf(),
        ensures
            final(self).wf(),
            final(self).wire() == old(self).wire(),
            final(self).transmission_start() == old(self).transmission_start(),
            Driver::encoded(old(self), Driver::outcome_view(outcome), final(self), a),
    {
        proof {
            self.outgoing.lemma_used_within_len();
        }
        match self.phase {
            Phase::Encoding { discard, retried } => match outcome {
                Err(EncodeError::AlreadyEncoded) => self.fail(DriverError::DoubleEncode),
                Err(EncodeError::InsufficientSize { required }) => {
                    if retried {
                        return self.fail(DriverError::EncodingFailed);
                    }
                    match self.outgoing.grow(required) {
                        Ok(()) => {
                            self.phase = Phase::Encoding { discard, retried: true };
                            Action::Encode { space: required }
                        },
                        Err(e) => self.fail(e),
                    }
                },
                Ok(bytes) => {
                    let idle: bool = bytes.len() == 0;
                    if idle && self.stalled {
                        return self.fail(DriverError::EncodingFailed);
                    }
                    match self.outgoing.commit(bytes) {
                        Ok(()) => {
                            self.stalled = idle;
                            self.resume(discard, Action::Step, Phase::Idle)
                        },
                        Err(e) => self.fail(e),
                    }
                },
            },
            _ => self.fail(DriverError::InvariantViolation),
        }
    }

    /// What the answer `result` to [`Action::Write`] makes of the driver
    /// `pre`: the driver `post` and the action `a`.
    pub open spec fn wrote(
        pre: &Driver,
        result: Result<usize, TransportError>,
        post: &Driver,
        a: Action,
    ) -> bool {
        &&& post.spec_incoming() == pre.spec_incoming()
        &&& post.spec_outgoing() == pre.spec_outgoing()
        &&& post.spec_stalled() == pre.spec_stalled()
        &&& post.transmission_start() == pre.transmission_start()
        &&& match pre.spec_phase() {
            Phase::Writing { discard, sent } => match result {
                Err(e) => {
                    &&& post.failed_with(a, DriverError::Transport(e))
                    &&& post.wire() == pre.wire()
                },
                Ok(n) => if n > pre.spec_outgoing().spec_used() - sent {
                    &&& post.failed_with(a, DriverError::InvariantViolation)
                    &&& post.wire() == pre.wire()
                } else {
                    &&& post.wire() == pre.wire() + pre.spec_outgoing()@.subrange(
                        sent as int,
                        sent + n,
                    )
                    &&& if sent + n == pre.spec_outgoing().spec_used() {
                        &&& a == Action::Flush
                        &&& post.spec_phase() == (Phase::Flushing { discard })
                        &&& post.transmitted() == post.spec_outgoing()@
                    } else {
                        &&& a == (Action::Write { from: (sent + n) as usize })
                        &&& post.spec_phase() == (Phase::Writing {
                            discard,
                            sent: (sent + n) as usize,
                        })
                    }
                },
            },
            _ => {
                &&& post.failed_with(a, DriverError::InvariantViolation)
                &&& post.wire() == pre.wire()
            },
        }
    }

    /// A run of writes: each driver of `ds` but the first is what the
    /// answer `Ok(ns[i])` made of the one before it, with the action
    /// `acts[i]`.
    pub open spec fn write_run(ds: Seq<Driver>, ns: Seq<usize>, acts: Seq<Action>) -> bool {
        &&& ds.len() == ns.len() + 1
        &&& acts.len() == ns.len()
        &&& forall|i: int|
            0 <= i < ns.len() ==> Driver::wrote(&ds[i], Ok(ns[i]), &ds[i + 1], #[trigger] acts[i])
    }

    /// However the transport cuts a transmission into writes, it gets the
    /// pending bytes and nothing else: after `k` writes of a run that began
    /// with nothing sent, and of which all but the last asked for a further
    /// write, the pending bytes are as they were, and when the last write
    /// asks for the flush, the transport has accepted since the beginning
    /// exactly the pending bytes, each once and in order.
    pub proof fn lemma_transmit_complete(
        ds: Seq<Driver>,
        ns: Seq<usize>,
        acts: Seq<Action>,
        discard: usize,
        k: int,
    )
        requires
            Driver::write_run(ds, ns, acts),
            ds[0].wf(),
            ds[0].spec_phase() == (Phase::Writing { discard, sent: 0 }),
            0 <= k <= ns.len(),
            forall|j: int| 0 <= j < k - 1 ==> #[trigger] acts[j] is Write,
        ensures
            ds[k].spec_outgoing() == ds[0].spec_outgoing(),
            ds[k].spec_incoming() == ds[0].spec_incoming(),
            k > 0 && acts[k - 1] is Write ==> {
                &&& ds[k].spec_phase() == (Phase::Writing {
                    discard,
                    sent: acts[k - 1]->Write_from,
                })
                &&& ds[k].wire() == ds[0].wire() + ds[0].spec_outgoing()@.take(
                    acts[k - 1]->Write_from as int,
                )
            },
            k > 0 && acts[k - 1] == Action::Flush ==> {
                &&& ds[k].spec_phase() == (Phase::Flushing { discard })
                &&& ds[k].wire() == ds[0].wire() + ds[0].spec_outgoing()@
            },
        decreases k,
    {
        let pending = ds[0].spec_outgoing()@;
        ds[0].lemma_buffers_wf();
        if k > 0 {
            Driver::lemma_transmit_complete(ds, ns, acts, discard, k - 1);
            assert(Driver::wrote(&ds[k - 1], Ok(ns[k - 1]), &ds[k], acts[k - 1]));
            let sent: int = if k == 1 {
                0
            } else {
                assert(acts[k - 2] is Write);
                acts[k - 2]->Write_from as int
            };
            assert(ds[k - 1].spec_phase() == (Phase::Writing { discard, sent: sent as usize }));
            assert(ds[k - 1].wire() == ds[0].wire() + pending.take(sent)) by {
                assert(pending.take(0) =~= Seq::<u8>::empty());
                assert(ds[0].wire() + Seq::<u8>::empty() =~= ds[0].wire());
            }
            let n = ns[k - 1] as int;
            if n <= pending.len() - sent {
                assert(ds[0].wire() + pending.take(sent) + pending.subrange(sent, sent + n)
                    =~= ds[0].wire() + pending.take(sent + n));
                assert(pending.take(pending.len() as int) =~= pending);
            }
        }
    }

    /// Takes the transport's answer to [`Action::Write`]: how many of the
    /// bytes offered it accepted.
    ///
    /// The bytes accepted are the next pending ones. While some are left,
    /// they are offered again from where the transport stopped; when none is
    /// left, the flush is due. A failed write is fatal.
    pub fn on_wrote(&mut self, result: Result<usize, TransportError>) -> (a: Action)
        requires
            old(self).wf(),
        ensures
            final(self).wf(),
            Driver::wrote(old(self), result, final(self), a),
    {
        proof {
            self.outgoing.lemma_used_within_len();
        }
        match self.phase {
            Phase::Writing { discard, sent } => match result {
                Err(e) => self.fail(DriverError::Transport(e)),
                Ok(n) => {
                    let used: usize = self.outgoing.used();
                    if n > used - sent {
                        return self.fail(DriverError::InvariantViolation);
                    }
                    let now: usize = sent + n;
                    proof {
                        let pending = self.outgoing@;
                        let before = self.wire@;
                        let after = before + pending.subrange(sent as int, now as int);
                        assert(after.skip(self.base@ as int) =~= before.skip(self.base@ as int)
                            + pending.subrange(sent as int, now as int));
                        assert(pending.take(sent as int) + pending.subrange(
                            sent as int,
                            now as int,
                        ) =~= pending.take(now as int));
                        assert(pending.take(used as int) =~= pending);
                        self.wire@ = after;
                    }
                    if now == used {
                        self.phase = Phase::Flushing { discard };
                        Action::Flush
                    } else {
                        self.phase = Phase::Writing { discard, sent: now };
                        Action::Write { from: now }
                    }
                },
            },
            _ => self.fail(DriverError::InvariantViolation),
        }
    }

    /// Takes the transport's answer to [`Action::Flush`].
    ///
    /// After a flush that succeeded nothing is pending any more, and the
    /// engine is to be told. A failed flush is fatal.
    pub fn on_flushed(&mut self, result: Result<(), TransportError>) -> (a: Action)
        requires
            old(self).wf(),
        ensures
            final(self).wf(),
            final(self).spec_incoming() == old(self).spec_incoming(),
            final(self).spec_stalled() == old(self).spec_stalled(),
            final(self).wire() == old(self).wire(),
            final(self).transmission_start() == old(self).transmission_start(),
            match (old(self).spec_phase(), result) {
                (Phase::Flushing { discard }, Ok(_)) => {
                    &&& a == Action::Acknowledge
                    &&& final(self).spec_phase() == (Phase::Acknowledging { discard })
                    &&& final(self).spec_outgoing().spec_used() == 0
                    &&& final(self).spec_outgoing()@ == Seq::<u8>::empty()
                    &&& final(self).spec_outgoing().spec_len() == old(
                        self,
                    ).spec_outgoing().spec_len()
                },
                (Phase::Flushing { discard }, Err(e)) => {
                    &&& final(self).failed_with(a, DriverError::Transport(e))
                    &&& final(self).spec_outgoing() == old(self).spec_outgoing()
                },
                _ => {
                    &&& final(self).failed_with(a, DriverError::InvariantViolation)
                    &&& final(self).spec_outgoing() == old(self).spec_outgoing()
                },
            },
    {
        match self.phase {
            Phase::Flushing { discard } => match result {
                Ok(()) => {
                    self.outgoing.reset();
                    self.phase = Phase::Acknowledging { discard };
                    Action::Acknowledge
                },
                Err(e) => self.fail(DriverError::Transport(e)),
            },
            _ => self.fail(DriverError::InvariantViolation),
        }
    }

    /// Takes note that the engine was told of the transmission. The discard
    /// is applied and the engine steps again.
    pub fn on_acknowledged(&mut self) -> (a: Action)
        requires
            old(self).wf(),
        ensures
            final(self).wf(),
            final(self).spec_outgoing() == old(self).spec_outgoing(),
            final(self).spec_stalled() == old(self).spec_stalled(),
            final(self).wire() == old(self).wire(),
            final(self).transmission_start() == old(self).transmission_start(),
            match old(self).spec_phase() {
                Phase::Acknowledging { discard } => final(self).discard_applied(
                    a,
                    old(self).spec_incoming(),
                    discard,
                    Action::Step,
                    Phase::Idle,
                ),
                _ => {
                    &&& final(self).failed_with(a, DriverError::InvariantViolation)
                    &&& final(self).spec_incoming() == old(self).spec_incoming()
                },
            },
    {
        match self.phase {
            Phase::Acknowledging { discard } => self.resume(discard, Action::Step, Phase::Idle),
            _ => self.fail(DriverError::InvariantViolation),
        }
    }

    /// Takes the transport's answer to [`Action::Read`]: the bytes that it
    /// delivered.
    ///
    /// The bytes are appended to the incoming buffer, then the discard is
    /// applied. With bytes the engine steps again; with none the caller
    /// yields first. A failed read is fatal, and so are more bytes than were
    /// asked for.
    pub fn on_read(&mut self, result: Result<&[u8], TransportError>) -> (a: Action)
        requires
            old(self).wf(),
        ensures
            final(self).wf(),
            final(self).spec_outgoing() == old(self).spec_outgoing(),
            final(self).spec_stalled() == old(self).spec_stalled(),
            final(self).wire() == old(self).wire(),
            final(self).transmission_start() == old(self).transmission_start(),
            final(self).spec_incoming().spec_capacity() == old(self).spec_incoming()
                .spec_capacity(),
            old(self).spec_incoming().is_unconsumed_stream() ==> final(self).spec_incoming()
                .is_unconsumed_stream(),
            match old(self).spec_phase() {
                Phase::Reading { discard } => match result {
                    Err(e) => {
                        &&& final(self).failed_with(a, DriverError::Transport(e))
                        &&& final(self).spec_incoming() == old(self).spec_incoming()
                    },
                    Ok(bytes) => if old(self).spec_incoming().spec_used() + bytes@.len() > old(
                        self,
                    ).spec_incoming().spec_capacity() {
                        &&& final(self).failed_with(a, DriverError::InvariantViolation)
                        &&& final(self).spec_incoming() == old(self).spec_incoming()
                    } else {
                        let content = old(self).spec_incoming()@ + bytes@;
                        &&& final(self).spec_incoming().received() == old(
                            self,
                        ).spec_incoming().received() + bytes@
                        &&& if discard <= content.len() {
                            &&& final(self).spec_incoming()@ == content.skip(discard as int)
                            &&& final(self).spec_incoming().spec_used() == content.len() - discard
                            &&& final(self).spec_incoming().discarded() == old(
                                self,
                            ).spec_incoming().discarded() + discard
                            &&& if bytes@.len() == 0 {
                                &&& a == Action::Yield
                                &&& final(self).spec_phase() == Phase::Yielding
                            } else {
                                &&& a == Action::Step
                                &&& final(self).spec_phase() == Phase::Idle
                            }
                        } else {
                            &&& final(self).spec_incoming()@ == content
                            &&& final(self).spec_incoming().spec_used() == content.len()
                            &&& final(self).spec_incoming().discarded() == old(
                                self,
                            ).spec_incoming().discarded()
                            &&& final(self).failed_with(a, DriverError::InvariantViolation)
                        }
                    },
                },
                _ => {
                    &&& final(self).failed_with(a, DriverError::InvariantViolation)
                    &&& final(self).spec_incoming() == old(self).spec_incoming()
                },
            },
    {
        proof {
            self.incoming.lemma_used_within_capacity();
        }
        match self.phase {
            Phase::Reading { discard } => match result {
                Err(e) => self.fail(DriverError::Transport(e)),
                Ok(bytes) => match self.incoming.append(bytes) {
                    Ok(()) => {
                        proof {
                            self.incoming.lemma_used_within_capacity();
                        }
                        if bytes.len() == 0 {
                            self.resume(discard, Action::Yield, Phase::Yielding)
                        } else {
                            self.resume(discard, Action::Step, Phase::Idle)
                        }
                    },
                    Err(e) => self.fail(e),
                },
            },
            _ => self.fail(DriverError::InvariantViolation),
        }
    }

    /// Takes note that the caller has yielded after an empty read. The
    /// engine steps again.
    pub fn on_resumed(&mut self) -> (a: Action)
        requires
            old(self).wf(),
        ensures
            final(self).wf(),
            final(self).unchanged_from(old(self)),
            if old(self).spec_phase() == Phase::Yielding {
                &&& a == Action::Step
                &&& final(self).spec_phase() == Phase::Idle
            } else {
                final(self).failed_with(a, DriverError::InvariantViolation)
            },
    {
        match self.phase {
            Phase::Yielding => {
                self.phase = Phase::Idle;
                Action::Step
            },
            _ => self.fail(DriverError::InvariantViolation),
        }
    }
}

} // verus!
