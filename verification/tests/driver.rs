use record_driver::driver::{Action, Directive, Driver, EncodeError, Phase, TerminalReason};
use record_driver::error::{DriverError, TransportError};

/// What a scripted engine answers to one step.
struct Script {
    discard: usize,
    directive: Directive,
    /// The answers to the encode calls that follow a `MustEncode`.
    encodes: Vec<Result<Vec<u8>, EncodeError>>,
}

fn say(discard: usize, directive: Directive) -> Script {
    Script { discard, directive, encodes: vec![] }
}

fn encode(discard: usize, encodes: Vec<Result<Vec<u8>, EncodeError>>) -> Script {
    Script { discard, directive: Directive::MustEncode, encodes }
}

#[derive(Debug, PartialEq, Eq)]
enum Io {
    Write(Vec<u8>),
    Flush,
    Read(usize),
    Yield,
    Acknowledge,
    Encode(usize),
    Step(Vec<u8>),
}

/// Drives a scripted engine against a transport that takes at most `chunk`
/// bytes with a write and delivers `reads` one by one.
fn run(
    capacity: usize,
    script: Vec<Script>,
    chunk: usize,
    reads: Vec<Result<Vec<u8>, TransportError>>,
) -> (Result<(), DriverError>, Vec<Io>, Driver) {
    let mut driver = Driver::new(capacity);
    let mut log = vec![];
    let mut script = script.into_iter();
    let mut reads = reads.into_iter();
    let mut encodes = vec![].into_iter();
    let mut action = Action::Step;
    for _ in 0..10_000 {
        action = match action {
            Action::Step => {
                log.push(Io::Step(driver.incoming().filled().to_vec()));
                let s = script.next().expect("the engine was stepped once too often");
                encodes = s.encodes.into_iter();
                driver.on_step(s.discard, s.directive)
            }
            Action::Encode { space } => {
                log.push(Io::Encode(space));
                match encodes.next().expect("the engine was asked to encode once too often") {
                    Ok(bytes) => driver.on_encoded(Ok(&bytes)),
                    Err(e) => driver.on_encoded(Err(e)),
                }
            }
            Action::Write { from } => {
                let rest = driver.outgoing().unsent(from);
                let n = rest.len().min(chunk);
                log.push(Io::Write(rest[..n].to_vec()));
                driver.on_wrote(Ok(n))
            }
            Action::Flush => {
                log.push(Io::Flush);
                driver.on_flushed(Ok(()))
            }
            Action::Acknowledge => {
                log.push(Io::Acknowledge);
                driver.on_acknowledged()
            }
            Action::Read { max } => {
                log.push(Io::Read(max));
                match reads.next().expect("the transport was read once too often") {
                    Ok(bytes) => driver.on_read(Ok(&bytes)),
                    Err(e) => driver.on_read(Err(e)),
                }
            }
            Action::Yield => {
                log.push(Io::Yield);
                driver.on_resumed()
            }
            Action::Done => return (Ok(()), log, driver),
            Action::Fail(e) => return (Err(e), log, driver),
        };
    }
    panic!("the driver did not come to an end");
}

fn transport_only(log: &[Io]) -> Vec<&Io> {
    log.iter()
        .filter(|io| matches!(io, Io::Write(_) | Io::Flush | Io::Read(_) | Io::Yield))
        .collect()
}

#[test]
fn happy_path_handshake() {
    let hello = vec![0x16, 0x03, 0x01, 0x00, 0x02, 0xaa, 0xbb];
    let finished = vec![0x14, 0x03, 0x03, 0x00, 0x01, 0x01];
    let script = vec![
        encode(0, vec![Err(EncodeError::InsufficientSize { required: 7 }), Ok(hello.clone())]),
        say(0, Directive::MustTransmit),
        say(0, Directive::NeedsMoreData { hint: 5 }),
        say(0, Directive::NeedsMoreData { hint: 2 }),
        encode(6, vec![Ok(finished.clone())]),
        say(0, Directive::MustTransmit),
        say(0, Directive::NeedsMoreData { hint: 0 }),
        say(3, Directive::Terminal(TerminalReason::Ready)),
    ];
    let reads = vec![Ok(vec![1, 2, 3, 4]), Ok(vec![5, 6, 7]), Ok(vec![8, 9])];
    let (result, log, driver) = run(32, script, 1024, reads);
    assert_eq!(result, Ok(()));
    assert_eq!(
        log,
        vec![
            Io::Step(vec![]),
            Io::Encode(0),
            Io::Encode(7),
            Io::Step(vec![]),
            Io::Write(hello),
            Io::Flush,
            Io::Acknowledge,
            Io::Step(vec![]),
            Io::Read(32),
            Io::Step(vec![1, 2, 3, 4]),
            Io::Read(28),
            Io::Step(vec![1, 2, 3, 4, 5, 6, 7]),
            Io::Encode(7),
            Io::Step(vec![7]),
            Io::Write(finished),
            Io::Flush,
            Io::Acknowledge,
            Io::Step(vec![7]),
            Io::Read(31),
            Io::Step(vec![7, 8, 9]),
        ]
    );
    assert_eq!(driver.phase(), Phase::Finished);
    assert_eq!(driver.outgoing().used(), 0);
    assert_eq!(driver.incoming().filled(), &[7, 8, 9]);
}

#[test]
fn double_encode_bug() {
    let script = vec![
        encode(0, vec![Err(EncodeError::InsufficientSize { required: 4 }), Ok(vec![1, 2, 3, 4])]),
        encode(0, vec![Err(EncodeError::AlreadyEncoded)]),
    ];
    let (result, log, driver) = run(16, script, 8, vec![]);
    assert_eq!(result, Err(DriverError::DoubleEncode));
    assert!(transport_only(&log).is_empty());
    assert_eq!(driver.outgoing().unsent(0), &[1, 2, 3, 4]);
    assert_eq!(driver.phase(), Phase::Finished);
}

#[test]
fn double_encode_on_the_retry() {
    let script = vec![encode(
        0,
        vec![Err(EncodeError::InsufficientSize { required: 4 }), Err(EncodeError::AlreadyEncoded)],
    )];
    let (result, log, _) = run(16, script, 8, vec![]);
    assert_eq!(result, Err(DriverError::DoubleEncode));
    assert!(transport_only(&log).is_empty());
}

#[test]
fn encode_retry_grows_by_the_hint_and_counts_what_was_written() {
    let mut d = Driver::new(16);
    assert_eq!(d.on_step(0, Directive::MustEncode), Action::Encode { space: 0 });
    assert_eq!(
        d.on_encoded(Err(EncodeError::InsufficientSize { required: 10 })),
        Action::Encode { space: 10 }
    );
    assert_eq!(d.outgoing().len(), 10);
    assert_eq!(d.outgoing().used(), 0);
    assert_eq!(d.phase(), Phase::Encoding { discard: 0, retried: true });
    assert_eq!(d.on_encoded(Ok(&[9, 8, 7])), Action::Step);
    assert_eq!(d.outgoing().used(), 3);
    assert_eq!(d.outgoing().len(), 10);
    assert_eq!(d.outgoing().unsent(0), &[9, 8, 7]);

    assert_eq!(d.on_step(0, Directive::MustEncode), Action::Encode { space: 7 });
    assert_eq!(
        d.on_encoded(Err(EncodeError::InsufficientSize { required: 20 })),
        Action::Encode { space: 20 }
    );
    assert_eq!(d.outgoing().len(), 23);
    assert_eq!(d.outgoing().used(), 3);
    assert_eq!(d.on_encoded(Ok(&[1, 2])), Action::Step);
    assert_eq!(d.outgoing().used(), 5);
    assert_eq!(d.outgoing().unsent(0), &[9, 8, 7, 1, 2]);
}

#[test]
fn second_insufficient_size_is_fatal() {
    let script = vec![encode(
        0,
        vec![
            Err(EncodeError::InsufficientSize { required: 4 }),
            Err(EncodeError::InsufficientSize { required: 8 }),
        ],
    )];
    let (result, log, driver) = run(16, script, 8, vec![]);
    assert_eq!(result, Err(DriverError::EncodingFailed));
    assert_eq!(log, vec![Io::Step(vec![]), Io::Encode(0), Io::Encode(4)]);
    assert_eq!(driver.outgoing().len(), 4);
}

#[test]
fn a_hint_that_no_buffer_can_hold_is_fatal() {
    let mut d = Driver::new(16);
    d.on_step(0, Directive::MustEncode);
    d.on_encoded(Err(EncodeError::InsufficientSize { required: 2 }));
    assert_eq!(d.on_encoded(Ok(&[1, 2])), Action::Step);
    d.on_step(0, Directive::MustEncode);
    assert_eq!(
        d.on_encoded(Err(EncodeError::InsufficientSize { required: usize::MAX })),
        Action::Fail(DriverError::EncodingFailed)
    );
    assert_eq!(d.outgoing().unsent(0), &[1, 2]);
}

#[test]
fn encoding_nothing_twice_in_a_row_is_fatal() {
    let script = vec![encode(0, vec![Ok(vec![])]), encode(0, vec![Ok(vec![])])];
    let (result, log, _) = run(16, script, 8, vec![]);
    assert_eq!(result, Err(DriverError::EncodingFailed));
    assert_eq!(
        log,
        vec![Io::Step(vec![]), Io::Encode(0), Io::Step(vec![]), Io::Encode(0)]
    );
}

#[test]
fn encoding_nothing_once_is_forgiven_after_progress() {
    let script = vec![
        encode(0, vec![Ok(vec![])]),
        encode(0, vec![Err(EncodeError::InsufficientSize { required: 1 }), Ok(vec![5])]),
        encode(0, vec![Ok(vec![])]),
        say(0, Directive::NeedsMoreData { hint: 0 }),
        encode(0, vec![Ok(vec![])]),
        say(0, Directive::Terminal(TerminalReason::Closed)),
    ];
    let (result, _, driver) = run(16, script, 8, vec![Ok(vec![1])]);
    assert_eq!(result, Ok(()));
    assert_eq!(driver.outgoing().unsent(0), &[5]);
}

#[test]
fn more_bytes_encoded_than_there_was_room_for() {
    let mut d = Driver::new(16);
    d.on_step(0, Directive::MustEncode);
    d.on_encoded(Err(EncodeError::InsufficientSize { required: 2 }));
    assert_eq!(d.on_encoded(Ok(&[1, 2, 3])), Action::Fail(DriverError::InvariantViolation));
    assert_eq!(d.outgoing().used(), 0);
}

#[test]
fn transmit_in_small_chunks_sends_every_byte_once_and_in_order() {
    let record: Vec<u8> = (0..23u8).collect();
    for chunk in 1..=25usize {
        let script = vec![
            encode(0, vec![Err(EncodeError::InsufficientSize { required: 23 }), Ok(record.clone())]),
            say(0, Directive::MustTransmit),
            say(0, Directive::Terminal(TerminalReason::Ready)),
        ];
        let (result, log, driver) = run(8, script, chunk, vec![]);
        assert_eq!(result, Ok(()));
        let io = transport_only(&log);
        let mut sent = vec![];
        for (i, step) in io.iter().enumerate() {
            match step {
                Io::Write(bytes) => {
                    assert!(!bytes.is_empty() && bytes.len() <= chunk);
                    sent.extend_from_slice(bytes);
                }
                Io::Flush => assert_eq!(i, io.len() - 1),
                other => panic!("unexpected {:?}", other),
            }
        }
        assert_eq!(sent, record);
        assert_eq!(io.last(), Some(&&Io::Flush));
        assert_eq!(driver.outgoing().used(), 0);
        assert_eq!(log[log.len() - 2], Io::Acknowledge);
    }
}

#[test]
fn a_write_that_takes_nothing_is_offered_again() {
    let mut d = Driver::new(8);
    d.on_step(0, Directive::MustEncode);
    d.on_encoded(Err(EncodeError::InsufficientSize { required: 3 }));
    d.on_encoded(Ok(&[1, 2, 3]));
    assert_eq!(d.on_step(0, Directive::MustTransmit), Action::Write { from: 0 });
    assert_eq!(d.on_wrote(Ok(0)), Action::Write { from: 0 });
    assert_eq!(d.on_wrote(Ok(2)), Action::Write { from: 2 });
    assert_eq!(d.outgoing().unsent(2), &[3]);
    assert_eq!(d.on_wrote(Ok(2)), Action::Fail(DriverError::InvariantViolation));
}

#[test]
fn transmit_with_nothing_pending_only_flushes() {
    let script =
        vec![say(0, Directive::MustTransmit), say(0, Directive::Terminal(TerminalReason::Closed))];
    let (result, log, _) = run(8, script, 4, vec![]);
    assert_eq!(result, Ok(()));
    assert_eq!(
        log,
        vec![Io::Step(vec![]), Io::Flush, Io::Acknowledge, Io::Step(vec![])]
    );
}

#[test]
fn transport_failures_are_fatal() {
    let mut d = Driver::new(8);
    d.on_step(0, Directive::MustEncode);
    d.on_encoded(Err(EncodeError::InsufficientSize { required: 1 }));
    d.on_encoded(Ok(&[1]));
    d.on_step(0, Directive::MustTransmit);
    assert_eq!(
        d.on_wrote(Err(TransportError::Write)),
        Action::Fail(DriverError::Transport(TransportError::Write))
    );
    assert_eq!(d.phase(), Phase::Finished);
    assert_eq!(d.outgoing().used(), 1);

    let mut d = Driver::new(8);
    d.on_step(0, Directive::MustTransmit);
    assert_eq!(
        d.on_flushed(Err(TransportError::Flush)),
        Action::Fail(DriverError::Transport(TransportError::Flush))
    );

    let mut d = Driver::new(8);
    d.on_step(0, Directive::NeedsMoreData { hint: 1 });
    assert_eq!(
        d.on_read(Err(TransportError::Closed)),
        Action::Fail(DriverError::Transport(TransportError::Closed))
    );
    assert_eq!(d.incoming().used(), 0);
}

#[test]
fn full_incoming_buffer_ends_with_buffer_exhausted() {
    let script = vec![
        say(0, Directive::NeedsMoreData { hint: 4 }),
        say(0, Directive::NeedsMoreData { hint: 4 }),
    ];
    let (result, log, driver) = run(4, script, 8, vec![Ok(vec![1, 2, 3, 4])]);
    assert_eq!(result, Err(DriverError::BufferExhausted));
    assert_eq!(
        log,
        vec![Io::Step(vec![]), Io::Read(4), Io::Step(vec![1, 2, 3, 4])]
    );
    assert_eq!(driver.incoming().used(), 4);
    assert_eq!(driver.incoming().capacity(), 4);
}

#[test]
fn no_capacity_at_all_is_exhausted_at_once() {
    let mut d = Driver::new(0);
    assert_eq!(
        d.on_step(0, Directive::NeedsMoreData { hint: 1 }),
        Action::Fail(DriverError::BufferExhausted)
    );
}

#[test]
fn an_empty_read_yields_and_steps_again() {
    let script = vec![
        say(0, Directive::NeedsMoreData { hint: 1 }),
        say(0, Directive::NeedsMoreData { hint: 1 }),
        say(2, Directive::Terminal(TerminalReason::Ready)),
    ];
    let (result, log, driver) = run(4, script, 8, vec![Ok(vec![]), Ok(vec![7, 8])]);
    assert_eq!(result, Ok(()));
    assert_eq!(
        log,
        vec![
            Io::Step(vec![]),
            Io::Read(4),
            Io::Yield,
            Io::Step(vec![]),
            Io::Read(4),
            Io::Step(vec![7, 8]),
        ]
    );
    assert_eq!(driver.incoming().filled(), &[7, 8]);
}

#[test]
fn a_read_of_more_than_was_asked_for_is_fatal() {
    let mut d = Driver::new(2);
    assert_eq!(d.on_step(0, Directive::NeedsMoreData { hint: 1 }), Action::Read { max: 2 });
    assert_eq!(d.on_read(Ok(&[1, 2, 3])), Action::Fail(DriverError::InvariantViolation));
    assert_eq!(d.incoming().used(), 0);
}

#[test]
fn discard_counts_against_the_content_after_the_read() {
    let mut d = Driver::new(8);
    d.on_step(3, Directive::NeedsMoreData { hint: 1 });
    assert_eq!(d.on_read(Ok(&[1, 2, 3, 4])), Action::Step);
    assert_eq!(d.incoming().filled(), &[4]);
}

#[test]
fn discard_beyond_the_content_is_an_invariant_violation() {
    let mut d = Driver::new(8);
    d.on_step(5, Directive::NeedsMoreData { hint: 1 });
    assert_eq!(d.on_read(Ok(&[1, 2, 3, 4])), Action::Fail(DriverError::InvariantViolation));
    assert_eq!(d.incoming().filled(), &[1, 2, 3, 4]);

    let mut d = Driver::new(8);
    d.on_step(1, Directive::MustTransmit);
    d.on_flushed(Ok(()));
    assert_eq!(d.on_acknowledged(), Action::Fail(DriverError::InvariantViolation));

    let mut d = Driver::new(8);
    d.on_step(1, Directive::MustEncode);
    assert_eq!(d.on_encoded(Ok(&[])), Action::Fail(DriverError::InvariantViolation));
}

#[test]
fn discard_is_applied_after_the_directive_was_handled() {
    let mut d = Driver::new(8);
    d.on_step(0, Directive::NeedsMoreData { hint: 1 });
    d.on_read(Ok(&[1, 2, 3, 4, 5]));
    assert_eq!(d.on_step(2, Directive::MustTransmit), Action::Flush);
    assert_eq!(d.incoming().filled(), &[1, 2, 3, 4, 5]);
    assert_eq!(d.on_flushed(Ok(())), Action::Acknowledge);
    assert_eq!(d.incoming().filled(), &[1, 2, 3, 4, 5]);
    assert_eq!(d.on_acknowledged(), Action::Step);
    assert_eq!(d.incoming().filled(), &[3, 4, 5]);
}

#[test]
fn terminal_directives_end_the_connection() {
    let mut d = Driver::new(8);
    assert_eq!(d.on_step(0, Directive::Terminal(TerminalReason::Ready)), Action::Done);
    assert_eq!(d.phase(), Phase::Finished);

    let mut d = Driver::new(8);
    assert_eq!(d.on_step(0, Directive::Terminal(TerminalReason::Closed)), Action::Done);

    let mut d = Driver::new(8);
    assert_eq!(
        d.on_step(0, Directive::Terminal(TerminalReason::Failed(DriverError::Engine))),
        Action::Fail(DriverError::Engine)
    );
    assert_eq!(d.phase(), Phase::Finished);

    let mut d = Driver::new(8);
    assert_eq!(
        d.on_step(9, Directive::Terminal(TerminalReason::Ready)),
        Action::Done
    );
}

#[test]
fn a_directive_of_an_unknown_kind_is_fatal() {
    let mut d = Driver::new(8);
    assert_eq!(d.on_step(0, Directive::Unknown), Action::Fail(DriverError::InvariantViolation));
}

#[test]
fn reports_out_of_turn_end_the_connection() {
    let mut d = Driver::new(8);
    assert_eq!(d.on_encoded(Ok(&[])), Action::Fail(DriverError::InvariantViolation));
    let mut d = Driver::new(8);
    assert_eq!(d.on_wrote(Ok(0)), Action::Fail(DriverError::InvariantViolation));
    let mut d = Driver::new(8);
    assert_eq!(d.on_flushed(Ok(())), Action::Fail(DriverError::InvariantViolation));
    let mut d = Driver::new(8);
    assert_eq!(d.on_acknowledged(), Action::Fail(DriverError::InvariantViolation));
    let mut d = Driver::new(8);
    assert_eq!(d.on_read(Ok(&[])), Action::Fail(DriverError::InvariantViolation));
    let mut d = Driver::new(8);
    assert_eq!(d.on_resumed(), Action::Fail(DriverError::InvariantViolation));
    let mut d = Driver::new(8);
    d.on_step(0, Directive::MustEncode);
    assert_eq!(
        d.on_step(0, Directive::MustEncode),
        Action::Fail(DriverError::InvariantViolation)
    );
    assert_eq!(d.on_step(0, Directive::MustEncode), Action::Fail(DriverError::InvariantViolation));
}

#[test]
fn abort_ends_the_connection_with_the_given_error() {
    let mut d = Driver::new(8);
    assert_eq!(
        d.abort(DriverError::Transport(TransportError::Connect)),
        Action::Fail(DriverError::Transport(TransportError::Connect))
    );
    assert_eq!(d.phase(), Phase::Finished);
    assert_eq!(d.on_step(0, Directive::MustEncode), Action::Fail(DriverError::InvariantViolation));
}

#[test]
fn the_engine_may_rewrite_the_incoming_content_in_place() {
    let mut d = Driver::new(8);
    d.on_step(0, Directive::NeedsMoreData { hint: 1 });
    d.on_read(Ok(&[1, 2, 3]));
    d.incoming_mut()[2] = 30;
    assert_eq!(d.incoming().filled(), &[1, 2, 30]);
    assert_eq!(d.phase(), Phase::Idle);
}
