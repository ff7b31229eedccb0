//! The driver's dealings with a rustls connection of the unbuffered kind.
//!
//! rustls hands out a state value for each directive. The functions here
//! take the state values that ask for an action of the engine itself, make
//! the call, and report its outcome to the driver.
use vstd::prelude::*;
use vstd::slice::slice_subrange;
use rustls::client::ClientConnectionData;
use rustls::unbuffered::{
    ConnectionState, EncodeTlsData, TransmitTlsData, UnbufferedConnectionCommon,
};
use crate::driver::{Action, Directive, Driver, EncodeError, Phase, TerminalReason};
use crate::error::DriverError;

verus! {

/// `rustls::unbuffered::EncodeTlsData`: the engine's state when a record
/// is ready to be encoded. It is carried through as it is.
#[verifier::external_type_specification]
#[verifier::external_body]
#[verifier::reject_recursive_types(Data)]
pub struct ExEncodeTlsData<'c, Data>(EncodeTlsData<'c, Data>);

/// `rustls::unbuffered::TransmitTlsData`: the engine's state when encoded
/// records have to be sent. It is carried through as it is.
#[verifier::external_type_specification]
#[verifier::external_body]
#[verifier::reject_recursive_types(Data)]
pub struct ExTransmitTlsData<'c, Data>(TransmitTlsData<'c, Data>);

/// `rustls::client::ClientConnectionData`: the mark of a client connection
/// in the types of rustls.
#[verifier::external_type_specification]
#[verifier::external_body]
pub struct ExClientConnectionData(ClientConnectionData);

/// `rustls::unbuffered::UnbufferedConnectionCommon`: a connection of the
/// unbuffered kind, the engine. Nothing inside it is visible here.
#[verifier::external_type_specification]
#[verifier::external_body]
#[verifier::reject_recursive_types(Data)]
pub struct ExUnbufferedConnectionCommon<Data>(UnbufferedConnectionCommon<Data>);

/// What a client connection asks for after one processing step, with the
/// engine's state value where the engine is to be called through it.
pub enum EngineState<'c> {
    /// A record is ready to be encoded.
    Encode(EncodeTlsData<'c, ClientConnectionData>),
    /// The encoded records have to be sent.
    Transmit(TransmitTlsData<'c, ClientConnectionData>),
    /// The handshake cannot go on without more received bytes.
    Blocked,
    /// The handshake is complete.
    Ready,
    /// The connection was closed.
    Closed,
    /// The engine reported an error.
    Failed,
    /// A state that the driver does not handle.
    Unsupported,
}

/// `UnbufferedConnectionCommon::process_tls_records` on a client connection,
/// with the number of bytes to discard and the state that it reports. Both
/// depend on the connection, and nothing is claimed of them. The engine may
/// rewrite the incoming bytes in place; their number stays.
#[verifier::external_body]
fn engine_process<'c>(
    conn: &'c mut UnbufferedConnectionCommon<ClientConnectionData>,
    incoming: &mut [u8],
) -> (r: (usize, EngineState<'c>))
    ensures
        final(incoming)@.len() == old(incoming)@.len(),
{
    let status = conn.process_tls_records(incoming);
    let state = match status.state {
        Ok(ConnectionState::EncodeTlsData(s)) => EngineState::Encode(s),
        Ok(ConnectionState::TransmitTlsData(s)) => EngineState::Transmit(s),
        Ok(ConnectionState::BlockedHandshake) => EngineState::Blocked,
        Ok(ConnectionState::WriteTraffic(_)) => EngineState::Ready,
        Ok(ConnectionState::Closed) => EngineState::Closed,
        Ok(ConnectionState::PeerClosed) => EngineState::Closed,
        Ok(_) => EngineState::Unsupported,
        Err(_) => EngineState::Failed,
    };
    (status.discard, state)
}

/// `EncodeTlsData::encode`, with the whole of `room` as the place to encode
/// into. The length of `room` does not change. A success gives the number of
/// bytes written, which `room` had place for. When `room` is too small the
/// call says how many bytes are required, which is more than `room` has, and
/// leaves `room` as it was; so it does when the record was encoded before.
#[verifier::external_body]
fn engine_encode<Data>(state: &mut EncodeTlsData<'_, Data>, room: &mut Vec<u8>) -> (r: Result<
    usize,
    EncodeError,
>)
    ensures
        final(room)@.len() == old(room)@.len(),
        match r {
            Ok(n) => n <= old(room)@.len(),
            Err(EncodeError::InsufficientSize { required }) => {
                &&& required > old(room)@.len()
                &&& final(room)@ == old(room)@
            },
            Err(EncodeError::AlreadyEncoded) => final(room)@ == old(room)@,
        },
{
    match state.encode(room.as_mut_slice()) {
        Ok(n) => Ok(n),
        Err(rustls::unbuffered::EncodeError::InsufficientSize(e)) => Err(
            EncodeError::InsufficientSize { required: e.required_size },
        ),
        Err(rustls::unbuffered::EncodeError::AlreadyEncoded) => Err(EncodeError::AlreadyEncoded),
    }
}

/// `TransmitTlsData::done`: tells the engine that what it encoded was sent.
#[verifier::external_body]
fn engine_done<Data>(state: TransmitTlsData<'_, Data>) {
    state.done()
}

/// What one call of the engine's encode operation can lead to, `pre` being
/// the driver before it, in the phase of encoding with `discard` and
/// `retried`.
pub open spec fn encode_attempted(
    pre: Driver,
    post: Driver,
    a: Action,
    discard: usize,
    retried: bool,
) -> bool {
    &&& post.wire() == pre.wire()
    &&& pre.spec_outgoing()@.is_prefix_of(post.spec_outgoing()@)
    &&& match a {
        Action::Encode { space } => {
            &&& !retried
            &&& post.spec_phase() == (Phase::Encoding { discard, retried: true })
            &&& space == post.spec_outgoing().spec_space()
            &&& space > pre.spec_outgoing().spec_space()
            &&& post.spec_outgoing()@ == pre.spec_outgoing()@
            &&& post.spec_incoming() == pre.spec_incoming()
            &&& post.spec_stalled() == pre.spec_stalled()
        },
        Action::Fail(DriverError::EncodingFailed) | Action::Fail(DriverError::DoubleEncode) => {
            &&& post.spec_phase() == Phase::Finished
            &&& post.unchanged_from(&pre)
        },
        _ => post.discard_applied(a, pre.spec_incoming(), discard, Action::Step, Phase::Idle),
    }
}

/// Lets the engine encode once into room as large as the outgoing buffer
/// has, and reports to the driver what came of it.
fn attempt<Data>(driver: &mut Driver, state: &mut EncodeTlsData<'_, Data>) -> (a: Action)
    requires
        old(driver).wf(),
        old(driver).spec_phase() is Encoding,
    ensures
        final(driver).wf(),
        encode_attempted(
            *old(driver),
            *final(driver),
            a,
            old(driver).spec_phase()->Encoding_discard,
            old(driver).spec_phase()->Encoding_retried,
        ),
{
    proof {
        driver.lemma_buffers_wf();
    }
    let space: usize = driver.outgoing().space();
    let mut room: Vec<u8> = vec![0u8; space];
    match engine_encode(state, &mut room) {
        Ok(n) => {
            let bytes = slice_subrange(room.as_slice(), 0, n);
            driver.on_encoded(Ok(bytes))
        },
        Err(e) => driver.on_encoded(Err(e)),
    }
}

/// Handles the directive to encode with the engine's own state value: the
/// engine encodes behind the pending bytes, once more after the room was
/// grown to what it requires, and the driver then says how to go on.
///
/// Whatever the engine answers, the pending bytes stay and only grow at
/// their end, nothing is sent, and the result is either the next step of
/// the engine, with the discard applied, or the end of the connection.
pub fn encode_record<Data>(driver: &mut Driver, state: &mut EncodeTlsData<'_, Data>) -> (a:
    Action)
    requires
        old(driver).wf(),
    ensures
        final(driver).wf(),
        final(driver).wire() == old(driver).wire(),
        !(a is Encode),
        match old(driver).spec_phase() {
            Phase::Encoding { discard, retried } => {
                &&& old(driver).spec_outgoing()@.is_prefix_of(final(driver).spec_outgoing()@)
                &&& match a {
                    Action::Fail(DriverError::EncodingFailed) | Action::Fail(
                        DriverError::DoubleEncode,
                    ) => {
                        &&& final(driver).spec_phase() == Phase::Finished
                        &&& final(driver).spec_incoming() == old(driver).spec_incoming()
                        &&& final(driver).spec_outgoing()@ == old(driver).spec_outgoing()@
                    },
                    _ => final(driver).discard_applied(
                        a,
                        old(driver).spec_incoming(),
                        discard,
                        Action::Step,
                        Phase::Idle,
                    ),
                }
            },
            _ => {
                &&& final(driver).failed_with(a, DriverError::InvariantViolation)
                &&& final(driver).unchanged_from(old(driver))
            },
        },
{
    match driver.phase() {
        Phase::Encoding { discard: _, retried: _ } => {
            let first = attempt(driver, state);
            match first {
                Action::Encode { space: _ } => attempt(driver, state),
                _ => first,
            }
        },
        _ => driver.abort(DriverError::InvariantViolation),
    }
}

/// Tells the engine that the transmission is done, which its state value
/// asks for, and lets the driver go on: the discard is applied and the
/// engine steps again.
pub fn acknowledge<Data>(driver: &mut Driver, state: TransmitTlsData<'_, Data>) -> (a: Action)
    requires
        old(driver).wf(),
    ensures
        final(driver).wf(),
        final(driver).spec_outgoing() == old(driver).spec_outgoing(),
        final(driver).wire() == old(driver).wire(),
        match old(driver).spec_phase() {
            Phase::Acknowledging { discard } => final(driver).discard_applied(
                a,
                old(driver).spec_incoming(),
                discard,
                Action::Step,
                Phase::Idle,
            ),
            _ => {
                &&& final(driver).failed_with(a, DriverError::InvariantViolation)
                &&& final(driver).spec_incoming() == old(driver).spec_incoming()
            },
        },
{
    match driver.phase() {
        Phase::Acknowledging { discard: _ } => {
            engine_done(state);
            driver.on_acknowledged()
        },
        _ => driver.abort(DriverError::InvariantViolation),
    }
}

/// The directive that a state of the engine stands for.
pub open spec fn spec_directive_of(state: &EngineState<'_>) -> Directive {
    match state {
        EngineState::Encode(_) => Directive::MustEncode,
        EngineState::Transmit(_) => Directive::MustTransmit,
        EngineState::Blocked => Directive::NeedsMoreData { hint: 0 },
        EngineState::Ready => Directive::Terminal(TerminalReason::Ready),
        EngineState::Closed => Directive::Terminal(TerminalReason::Closed),
        EngineState::Failed => Directive::Terminal(TerminalReason::Failed(DriverError::Engine)),
        EngineState::Unsupported => Directive::Unknown,
    }
}

/// The directive that a state of the engine stands for. rustls gives no
/// hint of how many bytes it waits for, so the hint is 0.
#[verifier::when_used_as_spec(spec_directive_of)]
pub fn directive_of(state: &EngineState<'_>) -> (d: Directive)
    ensures
        d == spec_directive_of(state),
{
    match state {
        EngineState::Encode(_) => Directive::MustEncode,
        EngineState::Transmit(_) => Directive::MustTransmit,
        EngineState::Blocked => Directive::NeedsMoreData { hint: 0 },
        EngineState::Ready => Directive::Terminal(TerminalReason::Ready),
        EngineState::Closed => Directive::Terminal(TerminalReason::Closed),
        EngineState::Failed => Directive::Terminal(TerminalReason::Failed(DriverError::Engine)),
        EngineState::Unsupported => Directive::Unknown,
    }
}

/// Lets the engine process the incoming content, in place, and handles its
/// directive as far as the engine alone can serve it: a record is encoded
/// at once. The result is the next action, and with an action of the
/// transmission the state value that [`acknowledge`] takes when it is over.
///
/// Whatever the engine answers: nothing is sent, the pending bytes stay and
/// only grow at their end, and no received byte is added. Out of turn the
/// engine is not called and the connection ends.
pub fn step<'c>(
    driver: &mut Driver,
    conn: &'c mut UnbufferedConnectionCommon<ClientConnectionData>,
) -> (r: (Action, Option<TransmitTlsData<'c, ClientConnectionData>>))
    requires
        old(driver).wf(),
    ensures
        final(driver).wf(),
        final(driver).wire() == old(driver).wire(),
        old(driver).spec_outgoing()@.is_prefix_of(final(driver).spec_outgoing()@),
        final(driver).spec_incoming().received() == old(driver).spec_incoming().received(),
        final(driver).spec_incoming().spec_capacity() == old(driver).spec_incoming()
            .spec_capacity(),
        !(r.0 is Encode) && !(r.0 is Acknowledge) && !(r.0 is Yield),
        r.1 is Some <==> r.0 is Write || r.0 is Flush,
        old(driver).spec_phase() != Phase::Idle ==> {
            &&& final(driver).failed_with(r.0, DriverError::InvariantViolation)
            &&& final(driver).unchanged_from(old(driver))
            &&& r.1 is None
        },
{
    match driver.phase() {
        Phase::Idle => {},
        _ => {
            return (driver.abort(DriverError::InvariantViolation), None);
        },
    }
    let (discard, state) = engine_process(conn, driver.incoming_mut());
    let directive = directive_of(&state);
    let first = driver.on_step(discard, directive);
    match state {
        EngineState::Encode(mut s) => (encode_record(driver, &mut s), None),
        EngineState::Transmit(s) => (first, Some(s)),
        _ => (first, None),
    }
}

} // verus!
