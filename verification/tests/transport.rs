use hidpp::transport::{connect_step, transfer_step};
use hidpp::{Action, ConnectStep, Connecting, Error, Event, Phase, TransferStep};

fn done() -> Event {
    Event::Completed { data: Vec::new() }
}

fn failed(reason: &str) -> Event {
    Event::Failed { reason: reason.to_string() }
}

const FRAME: [u8; 7] = [0x10, 0x01, 0x06, 0x11, 0, 0, 0];

#[test]
fn connect_ends_with_the_open_that_succeeds() {
    for attempt in [1u64, 2, 6, 9] {
        assert_eq!(
            connect_step(1, 2, Connecting::Trying { attempt }, done()),
            ConnectStep::Connected(attempt)
        );
    }
}

#[test]
fn connect_pauses_after_a_failed_open() {
    for attempt in 1..=5u64 {
        assert_eq!(
            connect_step(1, 2, Connecting::Trying { attempt }, failed("no")),
            ConnectStep::Continue(
                Connecting::Pausing { next: attempt + 1 },
                Action::Wait { millis: 10 }
            )
        );
    }
}

#[test]
fn connect_gives_up_after_the_sixth_open() {
    assert_eq!(
        connect_step(1, 2, Connecting::Trying { attempt: 6 }, failed("no")),
        ConnectStep::Failed(Error::TransportOpenFailure { attempts: 6, reason: "no".to_string() })
    );
    assert_eq!(
        connect_step(1, 2, Connecting::Trying { attempt: u64::MAX }, failed("no")),
        ConnectStep::Failed(Error::TransportOpenFailure {
            attempts: u64::MAX,
            reason: "no".to_string()
        })
    );
}

#[test]
fn connect_opens_again_after_the_pause() {
    for event in [done(), failed("whatever")] {
        assert_eq!(
            connect_step(0x046d, 0xc547, Connecting::Pausing { next: 3 }, event),
            ConnectStep::Continue(
                Connecting::Trying { attempt: 3 },
                Action::Open { vendor_id: 0x046d, product_id: 0xc547 }
            )
        );
    }
}

#[test]
fn transfer_reads_after_the_write() {
    assert_eq!(
        transfer_step(1, 2, &FRAME, Phase::Writing { attempt: 1 }, done()),
        TransferStep::Continue(Phase::Reading, Action::Read { length: 7, timeout_millis: 100 })
    );
}

#[test]
fn transfer_reconnects_after_a_failed_write() {
    for attempt in 1..=5u64 {
        assert_eq!(
            transfer_step(1, 2, &FRAME, Phase::Writing { attempt }, failed("no")),
            TransferStep::Continue(
                Phase::Reconnecting {
                    resume: attempt + 1,
                    connecting: Connecting::Trying { attempt: 1 }
                },
                Action::Open { vendor_id: 1, product_id: 2 }
            )
        );
    }
}

#[test]
fn transfer_gives_up_after_the_sixth_write() {
    assert_eq!(
        transfer_step(1, 2, &FRAME, Phase::Writing { attempt: 6 }, failed("no")),
        TransferStep::Failed(Error::TransportWriteFailure {
            attempts: 6,
            reason: "no".to_string()
        })
    );
}

#[test]
fn transfer_pauses_once_reconnected() {
    let phase = Phase::Reconnecting { resume: 3, connecting: Connecting::Trying { attempt: 2 } };
    assert_eq!(
        transfer_step(1, 2, &FRAME, phase, done()),
        TransferStep::Continue(Phase::Pausing { next: 3 }, Action::Wait { millis: 1 })
    );
}

#[test]
fn transfer_follows_the_connect_while_reconnecting() {
    let phase = Phase::Reconnecting { resume: 3, connecting: Connecting::Trying { attempt: 2 } };
    assert_eq!(
        transfer_step(1, 2, &FRAME, phase, failed("no")),
        TransferStep::Continue(
            Phase::Reconnecting { resume: 3, connecting: Connecting::Pausing { next: 3 } },
            Action::Wait { millis: 10 }
        )
    );
    let phase = Phase::Reconnecting { resume: 3, connecting: Connecting::Pausing { next: 3 } };
    assert_eq!(
        transfer_step(1, 2, &FRAME, phase, done()),
        TransferStep::Continue(
            Phase::Reconnecting { resume: 3, connecting: Connecting::Trying { attempt: 3 } },
            Action::Open { vendor_id: 1, product_id: 2 }
        )
    );
    let phase = Phase::Reconnecting { resume: 3, connecting: Connecting::Trying { attempt: 6 } };
    assert_eq!(
        transfer_step(1, 2, &FRAME, phase, failed("gone")),
        TransferStep::Failed(Error::TransportOpenFailure {
            attempts: 6,
            reason: "gone".to_string()
        })
    );
}

#[test]
fn transfer_writes_the_same_frame_after_the_pause() {
    assert_eq!(
        transfer_step(1, 2, &FRAME, Phase::Pausing { next: 4 }, done()),
        TransferStep::Continue(
            Phase::Writing { attempt: 4 },
            Action::Write { frame: FRAME.to_vec() }
        )
    );
}

#[test]
fn transfer_ends_with_a_frame_of_seven_bytes() {
    let reply = vec![0x10, 0x01, 0x06, 0x10, 55, 4, 1];
    assert_eq!(
        transfer_step(1, 2, &FRAME, Phase::Reading, Event::Completed { data: reply.clone() }),
        TransferStep::Received(reply)
    );
}

#[test]
fn transfer_fails_on_a_read_of_another_length() {
    assert_eq!(
        transfer_step(1, 2, &FRAME, Phase::Reading, Event::Completed { data: vec![1, 2] }),
        TransferStep::Failed(Error::TransportReadTimeout { received: 2 })
    );
    assert_eq!(
        transfer_step(1, 2, &FRAME, Phase::Reading, failed("late")),
        TransferStep::Failed(Error::TransportReadTimeout { received: 0 })
    );
}
