//! The retrying transport, as a machine without input or output of its own.
//!
//! The caller owns the HID handle. The machine says which [`Action`] is due;
//! the caller carries it out and reports the [`Event`]; the machine says what
//! is due next. A connect opens the handle, pausing and trying again where
//! that fails. A transfer writes a frame, reconnecting and trying again where
//! that fails, and then reads one short report.
use vstd::prelude::*;
use vstd::slice::slice_to_vec;

use crate::error::{Error, ErrorView};
use crate::retry::{RetryPolicy, Verdict};

verus! {

/// The length of the frame that a transfer reads: that of a short report.
pub const READ_LEN: usize = 7;

/// How long a read may take, in milliseconds.
pub const READ_TIMEOUT_MILLIS: u64 = 100;

/// What the caller is asked to do with the transport.
#[derive(Clone, Debug, PartialEq, Eq)]
pub enum Action {
    /// Acquire the HID handle of the product, in place of any handle held.
    Open { vendor_id: u16, product_id: u16 },
    /// Let the time pass.
    Wait { millis: u64 },
    /// Write the frame to the handle.
    Write { frame: Vec<u8> },
    /// Read up to `length` bytes from the handle, giving up after the timeout.
    Read { length: usize, timeout_millis: u64 },
}

/// What came of the action last asked for.
#[derive(Clone, Debug, PartialEq, Eq)]
pub enum Event {
    /// The action was carried out. `data` holds the bytes that a read
    /// returned and is empty after any other action.
    Completed { data: Vec<u8> },
    /// The transport failed the action.
    Failed { reason: String },
}

/// Where a connect stands: which action is outstanding.
#[derive(Clone, Copy, Debug, PartialEq, Eq, Structural)]
pub enum Connecting {
    /// Open number `attempt` is outstanding.
    Trying { attempt: u64 },
    /// The pause before open number `next` is outstanding.
    Pausing { next: u64 },
}

/// Where a transfer stands: which action is outstanding.
#[derive(Clone, Copy, Debug, PartialEq, Eq, Structural)]
pub enum Phase {
    /// Write number `attempt` is outstanding.
    Writing { attempt: u64 },
    /// A write failed and the reconnect that follows it is under way. Write
    /// number `resume` comes after it.
    Reconnecting { resume: u64, connecting: Connecting },
    /// The reconnect is done; the pause before write number `next` is
    /// outstanding.
    Pausing { next: u64 },
    /// The frame is written; the read of the reply is outstanding.
    Reading,
}

/// What one event makes of a connect.
#[derive(Clone, Debug, PartialEq, Eq)]
pub enum ConnectStep {
    /// The connect goes on in the state given, with the action given.
    Continue(Connecting, Action),
    /// The handle is acquired, at the attempt given.
    Connected(u64),
    /// The connect has failed for good.
    Failed(Error),
}

/// What one event makes of a transfer.
#[derive(Clone, Debug, PartialEq, Eq)]
pub enum TransferStep {
    /// The transfer goes on in the phase given, with the action given.
    Continue(Phase, Action),
    /// The reply has arrived.
    Received(Vec<u8>),
    /// The transfer has failed for good.
    Failed(Error),
}

/// An [`Action`] as contracts speak of it.
pub enum ActionView {
    Open { vendor_id: u16, product_id: u16 },
    Wait { millis: u64 },
    Write { frame: Seq<u8> },
    Read { length: usize, timeout_millis: u64 },
}

/// An [`Event`] as contracts speak of it.
pub enum EventView {
    Completed { data: Seq<u8> },
    Failed { reason: Seq<char> },
}

/// A [`ConnectStep`] as contracts speak of it.
pub enum ConnectStepView {
    Continue(Connecting, ActionView),
    Connected(u64),
    Failed(ErrorView),
}

/// A [`TransferStep`] as contracts speak of it.
pub enum TransferStepView {
    Continue(Phase, ActionView),
    Received(Seq<u8>),
    Failed(ErrorView),
}

impl View for Action {
    type V = ActionView;

    open spec fn view(&self) -> ActionView {
        match *self {
            Action::Open { vendor_id, product_id } => ActionView::Open { vendor_id, product_id },
            Action::Wait { millis } => ActionView::Wait { millis },
            Action::Write { frame } => ActionView::Write { frame: frame@ },
            Action::Read { length, timeout_millis } => ActionView::Read { length, timeout_millis },
        }
    }
}

impl View for Event {
    type V = EventView;

    open spec fn view(&self) -> EventView {
        match *self {
            Event::Completed { data } => EventView::Completed { data: data@ },
            Event::Failed { reason } => EventView::Failed { reason: reason@ },
        }
    }
}

impl View for ConnectStep {
    type V = ConnectStepView;

    open spec fn view(&self) -> ConnectStepView {
        match *self {
            ConnectStep::Continue(connecting, action) => ConnectStepView::Continue(
                connecting,
                action@,
            ),
            ConnectStep::Connected(attempt) => ConnectStepView::Connected(attempt),
            ConnectStep::Failed(error) => ConnectStepView::Failed(error@),
        }
    }
}

impl View for TransferStep {
    type V = TransferStepView;

    open spec fn view(&self) -> TransferStepView {
        match *self {
            TransferStep::Continue(phase, action) => TransferStepView::Continue(phase, action@),
            TransferStep::Received(frame) => TransferStepView::Received(frame@),
            TransferStep::Failed(error) => TransferStepView::Failed(error@),
        }
    }
}

/// The action that acquires the handle of the product.
pub open spec fn open_action(vendor_id: u16, product_id: u16) -> ActionView {
    ActionView::Open { vendor_id, product_id }
}

/// The action that reads the reply.
pub open spec fn read_action() -> ActionView {
    ActionView::Read { length: READ_LEN, timeout_millis: READ_TIMEOUT_MILLIS }
}

/// The state in which a connect starts: the first open is outstanding.
pub open spec fn first_open() -> Connecting {
    Connecting::Trying { attempt: 1 }
}

/// The phase in which a transfer starts: the first write is outstanding.
pub open spec fn first_write() -> Phase {
    Phase::Writing { attempt: 1 }
}

/// What `event` makes of a connect that is in state `connecting`.
///
/// An open that succeeds ends the connect. One that fails is followed by a
/// pause and another open, until the policy for opening gives up: then the
/// connect fails with [`ErrorView::TransportOpenFailure`], which carries the
/// number of the last attempt and its reason. A pause ends with whatever
/// event follows it.
pub open spec fn connect(
    vendor_id: u16,
    product_id: u16,
    connecting: Connecting,
    event: EventView,
) -> ConnectStepView {
    match connecting {
        Connecting::Trying { attempt } => match event {
            EventView::Completed { .. } => ConnectStepView::Connected(attempt),
            EventView::Failed { reason } => match RetryPolicy::opening().verdict(attempt, false) {
                Verdict::Retry { delay_millis } => ConnectStepView::Continue(
                    Connecting::Pausing { next: (attempt + 1) as u64 },
                    ActionView::Wait { millis: delay_millis },
                ),
                _ => ConnectStepView::Failed(
                    ErrorView::TransportOpenFailure { attempts: attempt, reason },
                ),
            },
        },
        Connecting::Pausing { next } => ConnectStepView::Continue(
            Connecting::Trying { attempt: next },
            open_action(vendor_id, product_id),
        ),
    }
}

/// What `event` makes of a transfer of `frame` that is in `phase`.
///
/// A write that succeeds is followed by one read. A write that fails is
/// followed by one reconnect, a pause and another write, until the policy for
/// writing gives up: then the transfer fails with
/// [`ErrorView::TransportWriteFailure`], without a reconnect. The reconnect
/// is a connect from its first open on; where it fails, the transfer fails
/// with its error. A read that fails, or returns another number of bytes than
/// [`READ_LEN`], fails the transfer with [`ErrorView::TransportReadTimeout`]
/// and is not tried again.
pub open spec fn transfer(
    vendor_id: u16,
    product_id: u16,
    frame: Seq<u8>,
    phase: Phase,
    event: EventView,
) -> TransferStepView {
    match phase {
        Phase::Writing { attempt } => match event {
            EventView::Completed { .. } => TransferStepView::Continue(
                Phase::Reading,
                read_action(),
            ),
            EventView::Failed { reason } => match RetryPolicy::writing().verdict(attempt, false) {
                Verdict::Retry { .. } => TransferStepView::Continue(
                    Phase::Reconnecting { resume: (attempt + 1) as u64, connecting: first_open() },
                    open_action(vendor_id, product_id),
                ),
                _ => TransferStepView::Failed(
                    ErrorView::TransportWriteFailure { attempts: attempt, reason },
                ),
            },
        },
        Phase::Reconnecting { resume, connecting: state } => match connect(
            vendor_id,
            product_id,
            state,
            event,
        ) {
            ConnectStepView::Continue(next, action) => TransferStepView::Continue(
                Phase::Reconnecting { resume, connecting: next },
                action,
            ),
            ConnectStepView::Connected(_) => TransferStepView::Continue(
                Phase::Pausing { next: resume },
                ActionView::Wait { millis: RetryPolicy::writing().delay_millis },
            ),
            ConnectStepView::Failed(error) => TransferStepView::Failed(error),
        },
        Phase::Pausing { next } => TransferStepView::Continue(
            Phase::Writing { attempt: next },
            ActionView::Write { frame },
        ),
        Phase::Reading => match event {
            EventView::Completed { data } => if data.len() == READ_LEN {
                TransferStepView::Received(data)
            } else {
                TransferStepView::Failed(ErrorView::TransportReadTimeout { received: data.len() })
            },
            EventView::Failed { .. } => TransferStepView::Failed(
                ErrorView::TransportReadTimeout { received: 0 },
            ),
        },
    }
}

/// Takes a connect one event further: says in which state it goes on and
/// with which action, or how it ended.
pub fn connect_step(vendor_id: u16, product_id: u16, state: Connecting, event: Event) -> (step:
    ConnectStep)
    ensures
        step@ == connect(vendor_id, product_id, state, event@),
{
    match state {
        Connecting::Trying { attempt } => match event {
            Event::Completed { .. } => ConnectStep::Connected(attempt),
            Event::Failed { reason } => match RetryPolicy::for_open().decide(attempt, false) {
                Verdict::Retry { delay_millis } => ConnectStep::Continue(
                    Connecting::Pausing { next: attempt + 1 },
                    Action::Wait { millis: delay_millis },
                ),
                _ => ConnectStep::Failed(Error::TransportOpenFailure { attempts: attempt, reason }),
            },
        },
        Connecting::Pausing { next } => ConnectStep::Continue(
            Connecting::Trying { attempt: next },
            Action::Open { vendor_id, product_id },
        ),
    }
}

/// Takes a transfer of `frame` one event further: says in which phase it
/// goes on and with which action, or how it ended.
pub fn transfer_step(
    vendor_id: u16,
    product_id: u16,
    frame: &[u8],
    phase: Phase,
    event: Event,
) -> (step: TransferStep)
    ensures
        step@ == transfer(vendor_id, product_id, frame@, phase, event@),
{
    match phase {
        Phase::Writing { attempt } => match event {
            Event::Completed { .. } => TransferStep::Continue(
                Phase::Reading,
                Action::Read { length: READ_LEN, timeout_millis: READ_TIMEOUT_MILLIS },
            ),
            Event::Failed { reason } => match RetryPolicy::for_write().decide(attempt, false) {
                Verdict::Retry { .. } => TransferStep::Continue(
                    Phase::Reconnecting {
                        resume: attempt + 1,
                        connecting: Connecting::Trying { attempt: 1 },
                    },
                    Action::Open { vendor_id, product_id },
                ),
                _ => TransferStep::Failed(
                    Error::TransportWriteFailure { attempts: attempt, reason },
                ),
            },
        },
        Phase::Reconnecting { resume, connecting } => match connect_step(
            vendor_id,
            product_id,
            connecting,
            event,
        ) {
            ConnectStep::Continue(next, action) => TransferStep::Continue(
                Phase::Reconnecting { resume, connecting: next },
                action,
            ),
            ConnectStep::Connected(_) => TransferStep::Continue(
                Phase::Pausing { next: resume },
                Action::Wait { millis: RetryPolicy::for_write().delay_millis },
            ),
            ConnectStep::Failed(error) => TransferStep::Failed(error),
        },
        Phase::Pausing { next } => TransferStep::Continue(
            Phase::Writing { attempt: next },
            Action::Write { frame: slice_to_vec(frame) },
        ),
        Phase::Reading => match event {
            Event::Completed { data } => if data.len() == READ_LEN {
                TransferStep::Received(data)
            } else {
                TransferStep::Failed(Error::TransportReadTimeout { received: data.len() })
            },
            Event::Failed { .. } => TransferStep::Failed(
                Error::TransportReadTimeout { received: 0 },
            ),
        },
    }
}

/// The steps that a connect in state `state` takes as `events` come in, one
/// step per event, up to the step that ends the connect.
pub open spec fn connect_run(
    vendor_id: u16,
    product_id: u16,
    state: Connecting,
    events: Seq<EventView>,
) -> Seq<ConnectStepView>
    decreases events.len(),
{
    if events.len() == 0 {
        Seq::empty()
    } else {
        let step = connect(vendor_id, product_id, state, events[0]);
        match step {
            ConnectStepView::Continue(next, _) => seq![step] + connect_run(
                vendor_id,
                product_id,
                next,
                events.drop_first(),
            ),
            _ => seq![step],
        }
    }
}

/// The steps that a transfer of `frame` in `phase` takes as `events` come in,
/// one step per event, up to the step that ends the transfer.
pub open spec fn transfer_run(
    vendor_id: u16,
    product_id: u16,
    frame: Seq<u8>,
    phase: Phase,
    events: Seq<EventView>,
) -> Seq<TransferStepView>
    decreases events.len(),
{
    if events.len() == 0 {
        Seq::empty()
    } else {
        let step = transfer(vendor_id, product_id, frame, phase, events[0]);
        match step {
            TransferStepView::Continue(next, _) => seq![step] + transfer_run(
                vendor_id,
                product_id,
                frame,
                next,
                events.drop_first(),
            ),
            _ => seq![step],
        }
    }
}

/// The number of opens that the steps of a connect ask for.
pub open spec fn opens_asked(steps: Seq<ConnectStepView>) -> nat
    decreases steps.len(),
{
    if steps.len() == 0 {
        0
    } else {
        let rest = opens_asked(steps.drop_first());
        match steps[0] {
            ConnectStepView::Continue(_, ActionView::Open { .. }) => rest + 1,
            _ => rest,
        }
    }
}

/// The number of opens that the steps of a transfer ask for.
pub open spec fn reopens_asked(steps: Seq<TransferStepView>) -> nat
    decreases steps.len(),
{
    if steps.len() == 0 {
        0
    } else {
        let rest = reopens_asked(steps.drop_first());
        match steps[0] {
            TransferStepView::Continue(_, ActionView::Open { .. }) => rest + 1,
            _ => rest,
        }
    }
}

/// The number of writes that the steps of a transfer ask for.
pub open spec fn writes_asked(steps: Seq<TransferStepView>) -> nat
    decreases steps.len(),
{
    if steps.len() == 0 {
        0
    } else {
        let rest = writes_asked(steps.drop_first());
        match steps[0] {
            TransferStepView::Continue(_, ActionView::Write { .. }) => rest + 1,
            _ => rest,
        }
    }
}

/// `events` are those of a transport on which `failures` opens fail, each
/// followed by a pause, before an open succeeds.
pub open spec fn opens_after(events: Seq<EventView>, failures: nat) -> bool {
    &&& events.len() == 2 * failures + 1
    &&& forall|i: int| 0 <= i < failures ==> (#[trigger] events[2 * i]) is Failed
    &&& events[2 * (failures as int)] is Completed
}

/// `events` are those of a transport on which `failures` opens fail, with a
/// pause after each but the last, and none succeeds.
pub open spec fn never_opens(events: Seq<EventView>, failures: nat) -> bool {
    &&& failures > 0
    &&& events.len() == 2 * failures - 1
    &&& forall|i: int| 0 <= i < failures ==> (#[trigger] events[2 * i]) is Failed
}

/// A connect whose open number `attempt` is outstanding, on a transport
/// whose next `failures` opens fail before one succeeds, succeeds at open
/// number `attempt + failures`, as long as that is no later than the sixth.
/// Over these events it asks for exactly `failures` further opens: a connect
/// from its first open on makes `failures + 1` opens in all.
pub proof fn lemma_connect_succeeds(
    vendor_id: u16,
    product_id: u16,
    attempt: u64,
    events: Seq<EventView>,
    failures: nat,
)
    requires
        attempt + failures <= 6,
        opens_after(events, failures),
    ensures
        ({
            let steps = connect_run(
                vendor_id,
                product_id,
                Connecting::Trying { attempt },
                events,
            );
            &&& steps.len() == events.len()
            &&& steps.last() == ConnectStepView::Connected((attempt + failures) as u64)
            &&& opens_asked(steps) == failures
        }),
    decreases failures,
{
    let state = Connecting::Trying { attempt };
    let steps = connect_run(vendor_id, product_id, state, events);
    if failures == 0 {
        assert(events[2 * 0int] is Completed);
        assert(steps =~= seq![ConnectStepView::Connected(attempt)]);
        assert(steps.drop_first() =~= Seq::empty());
        assert(opens_asked(steps.drop_first()) == 0);
        assert(opens_asked(steps) == 0);
    } else {
        assert(events[2 * 0int] is Failed);
        let pause = Connecting::Pausing { next: (attempt + 1) as u64 };
        let first = connect(vendor_id, product_id, state, events[0]);
        assert(first == ConnectStepView::Continue(
            pause,
            ActionView::Wait { millis: 10 },
        ));
        let again = Connecting::Trying { attempt: (attempt + 1) as u64 };
        let second = connect(vendor_id, product_id, pause, events[1]);
        assert(second == ConnectStepView::Continue(again, open_action(vendor_id, product_id)));
        let rest = events.drop_first().drop_first();
        assert(opens_after(rest, (failures - 1) as nat)) by {
            assert forall|i: int| 0 <= i < failures - 1 implies (#[trigger] rest[2 * i])
                is Failed by {
                assert(rest[2 * i] == events[2 * (i + 1)]);
            }
            assert(rest[2 * (failures - 1)] == events[2 * (failures as int)]);
        }
        lemma_connect_succeeds(
            vendor_id,
            product_id,
            (attempt + 1) as u64,
            rest,
            (failures - 1) as nat,
        );
        let tail = connect_run(vendor_id, product_id, again, rest);
        let middle = connect_run(vendor_id, product_id, pause, events.drop_first());
        assert(middle =~= seq![second] + tail);
        assert(steps =~= seq![first] + middle);
        assert(middle.drop_first() =~= tail);
        assert(steps.drop_first() =~= middle);
        assert(opens_asked(middle) == opens_asked(tail) + 1);
        assert(opens_asked(steps) == opens_asked(middle));
        assert(steps.last() == tail.last());
    }
}

/// A connect whose open number `attempt` is outstanding, on a transport
/// whose opens all fail, gives up at the sixth open with
/// [`ErrorView::TransportOpenFailure`], which carries the reason of that
/// open. Over these events it asks for exactly `6 - attempt` further opens: a
/// connect from its first open on makes six opens in all.
pub proof fn lemma_connect_gives_up(
    vendor_id: u16,
    product_id: u16,
    attempt: u64,
    events: Seq<EventView>,
)
    requires
        1 <= attempt <= 6,
        never_opens(events, (7 - attempt) as nat),
    ensures
        ({
            let steps = connect_run(
                vendor_id,
                product_id,
                Connecting::Trying { attempt },
                events,
            );
            &&& steps.len() == events.len()
            &&& steps.last() == ConnectStepView::Failed(
                ErrorView::TransportOpenFailure {
                    attempts: 6,
                    reason: events.last()->Failed_reason,
                },
            )
            &&& opens_asked(steps) == 6 - attempt
        }),
    decreases 6 - attempt,
{
    let state = Connecting::Trying { attempt };
    let steps = connect_run(vendor_id, product_id, state, events);
    assert(events[2 * 0int] is Failed);
    if attempt == 6 {
        assert(steps =~= seq![
            ConnectStepView::Failed(
                ErrorView::TransportOpenFailure {
                    attempts: 6,
                    reason: events[0]->Failed_reason,
                },
            ),
        ]);
        assert(steps.drop_first() =~= Seq::empty());
        assert(opens_asked(steps.drop_first()) == 0);
        assert(opens_asked(steps) == 0);
    } else {
        let pause = Connecting::Pausing { next: (attempt + 1) as u64 };
        let first = connect(vendor_id, product_id, state, events[0]);
        assert(first == ConnectStepView::Continue(
            pause,
            ActionView::Wait { millis: 10 },
        ));
        let again = Connecting::Trying { attempt: (attempt + 1) as u64 };
        let second = connect(vendor_id, product_id, pause, events[1]);
        assert(second == ConnectStepView::Continue(again, open_action(vendor_id, product_id)));
        let rest = events.drop_first().drop_first();
        assert(never_opens(rest, (6 - attempt) as nat)) by {
            assert forall|i: int| 0 <= i < 6 - attempt implies (#[trigger] rest[2 * i])
                is Failed by {
                assert(rest[2 * i] == events[2 * (i + 1)]);
            }
        }
        lemma_connect_gives_up(vendor_id, product_id, (attempt + 1) as u64, rest);
        assert(rest.last() == events.last());
        let tail = connect_run(vendor_id, product_id, again, rest);
        let middle = connect_run(vendor_id, product_id, pause, events.drop_first());
        assert(middle =~= seq![second] + tail);
        assert(steps =~= seq![first] + middle);
        assert(middle.drop_first() =~= tail);
        assert(steps.drop_first() =~= middle);
        assert(opens_asked(middle) == opens_asked(tail) + 1);
        assert(opens_asked(steps) == opens_asked(middle));
        assert(steps.last() == tail.last());
    }
}

/// `events` are those of a transport on which `failures` opens fail, each
/// followed by a pause, before an open succeeds and one more pause ends.
pub open spec fn reopens_after(events: Seq<EventView>, failures: nat) -> bool {
    &&& events.len() == 2 * failures + 2
    &&& forall|i: int| 0 <= i < failures ==> (#[trigger] events[2 * i]) is Failed
    &&& events[2 * (failures as int)] is Completed
}

/// `events` are those of a transport on which a write fails and then
/// `failures` opens fail, each followed by a pause, before an open succeeds
/// and one more pause ends.
pub open spec fn write_fails_once(events: Seq<EventView>, failures: nat) -> bool {
    &&& events.len() > 0
    &&& events[0] is Failed
    &&& reopens_after(events.drop_first(), failures)
}

/// A reconnect whose open number `attempt` is outstanding, on a transport
/// whose next `failures` opens fail before one succeeds, leads to write
/// number `resume`: after the open that succeeds comes the pause of the
/// policy for writing, and after the pause the write of the same frame. Over
/// these events the transfer asks for `failures` further opens and for that
/// one write.
pub proof fn lemma_reconnect_leads_to_write(
    vendor_id: u16,
    product_id: u16,
    frame: Seq<u8>,
    resume: u64,
    attempt: u64,
    events: Seq<EventView>,
    failures: nat,
)
    requires
        attempt + failures <= 6,
        reopens_after(events, failures),
    ensures
        ({
            let steps = transfer_run(
                vendor_id,
                product_id,
                frame,
                Phase::Reconnecting { resume, connecting: Connecting::Trying { attempt } },
                events,
            );
            &&& steps.len() == events.len()
            &&& steps[steps.len() - 2] == TransferStepView::Continue(
                Phase::Pausing { next: resume },
                ActionView::Wait { millis: 1 },
            )
            &&& steps.last() == TransferStepView::Continue(
                Phase::Writing { attempt: resume },
                ActionView::Write { frame },
            )
            &&& reopens_asked(steps) == failures
            &&& writes_asked(steps) == 1
        }),
    decreases failures,
{
    let phase = Phase::Reconnecting { resume, connecting: Connecting::Trying { attempt } };
    let steps = transfer_run(vendor_id, product_id, frame, phase, events);
    let first = transfer(vendor_id, product_id, frame, phase, events[0]);
    let after = events.drop_first();
    let rest = after.drop_first();
    if failures == 0 {
        assert(events[2 * 0int] is Completed);
        let pausing = Phase::Pausing { next: resume };
        assert(first == TransferStepView::Continue(pausing, ActionView::Wait { millis: 1 }));
        let writing = Phase::Writing { attempt: resume };
        let second = transfer(vendor_id, product_id, frame, pausing, events[1]);
        assert(second == TransferStepView::Continue(writing, ActionView::Write { frame }));
        assert(rest.len() == 0);
        let tail = transfer_run(vendor_id, product_id, frame, writing, rest);
        assert(tail =~= Seq::empty());
        let middle = transfer_run(vendor_id, product_id, frame, pausing, after);
        assert(middle =~= seq![second]);
        assert(steps =~= seq![first, second]);
        assert(middle.drop_first() =~= tail);
        assert(steps.drop_first() =~= middle);
        assert(reopens_asked(tail) == 0 && writes_asked(tail) == 0);
        assert(reopens_asked(middle) == 0 && writes_asked(middle) == 1);
        assert(reopens_asked(steps) == 0 && writes_asked(steps) == 1);
    } else {
        assert(events[2 * 0int] is Failed);
        let pause = Phase::Reconnecting {
            resume,
            connecting: Connecting::Pausing { next: (attempt + 1) as u64 },
        };
        assert(first == TransferStepView::Continue(pause, ActionView::Wait { millis: 10 }));
        let again = Phase::Reconnecting {
            resume,
            connecting: Connecting::Trying { attempt: (attempt + 1) as u64 },
        };
        let second = transfer(vendor_id, product_id, frame, pause, events[1]);
        assert(second == TransferStepView::Continue(again, open_action(vendor_id, product_id)));
        assert(reopens_after(rest, (failures - 1) as nat)) by {
            assert forall|i: int| 0 <= i < failures - 1 implies (#[trigger] rest[2 * i])
                is Failed by {
                assert(rest[2 * i] == events[2 * (i + 1)]);
            }
            assert(rest[2 * (failures - 1)] == events[2 * (failures as int)]);
        }
        lemma_reconnect_leads_to_write(
            vendor_id,
            product_id,
            frame,
            resume,
            (attempt + 1) as u64,
            rest,
            (failures - 1) as nat,
        );
        let tail = transfer_run(vendor_id, product_id, frame, again, rest);
        let middle = transfer_run(vendor_id, product_id, frame, pause, after);
        assert(middle =~= seq![second] + tail);
        assert(steps =~= seq![first] + middle);
        assert(middle.drop_first() =~= tail);
        assert(steps.drop_first() =~= middle);
        assert(reopens_asked(middle) == reopens_asked(tail) + 1);
        assert(writes_asked(middle) == writes_asked(tail));
        assert(reopens_asked(steps) == reopens_asked(middle));
        assert(writes_asked(steps) == writes_asked(middle));
        assert(steps.last() == tail.last());
        assert(steps[steps.len() - 2] == tail[tail.len() - 2]);
    }
}

/// A write that fails is followed by exactly one reconnect before the next
/// write. Where write number `attempt`, no later than the fifth, fails, the
/// transfer asks for a connect from its first open on; where that connect
/// succeeds after `failures` failed opens, the transfer pauses and asks for
/// write number `attempt + 1` of the same frame. Over these events it asks
/// for `failures + 1` opens, those of the one reconnect, and for no write but
/// that one.
pub proof fn lemma_failed_write_reconnects_once(
    vendor_id: u16,
    product_id: u16,
    frame: Seq<u8>,
    attempt: u64,
    events: Seq<EventView>,
    failures: nat,
)
    requires
        attempt <= 5,
        failures <= 5,
        write_fails_once(events, failures),
    ensures
        ({
            let steps = transfer_run(
                vendor_id,
                product_id,
                frame,
                Phase::Writing { attempt },
                events,
            );
            &&& steps.len() == events.len()
            &&& steps[0] == TransferStepView::Continue(
                Phase::Reconnecting { resume: (attempt + 1) as u64, connecting: first_open() },
                open_action(vendor_id, product_id),
            )
            &&& steps.last() == TransferStepView::Continue(
                Phase::Writing { attempt: (attempt + 1) as u64 },
                ActionView::Write { frame },
            )
            &&& reopens_asked(steps) == failures + 1
            &&& writes_asked(steps) == 1
        }),
{
    let phase = Phase::Writing { attempt };
    let steps = transfer_run(vendor_id, product_id, frame, phase, events);
    let resume = (attempt + 1) as u64;
    let reconnecting = Phase::Reconnecting { resume, connecting: first_open() };
    let first = transfer(vendor_id, product_id, frame, phase, events[0]);
    assert(first == TransferStepView::Continue(
        reconnecting,
        open_action(vendor_id, product_id),
    ));
    let after = events.drop_first();
    lemma_reconnect_leads_to_write(vendor_id, product_id, frame, resume, 1, after, failures);
    let tail = transfer_run(vendor_id, product_id, frame, reconnecting, after);
    assert(steps =~= seq![first] + tail);
    assert(steps.drop_first() =~= tail);
    assert(reopens_asked(steps) == reopens_asked(tail) + 1);
    assert(writes_asked(steps) == writes_asked(tail));
    assert(steps.last() == tail.last());
}

/// `events` are those of a transport on which `failures` writes fail and
/// none succeeds, while the open and the pause after each failed write but
/// the last go well.
pub open spec fn never_writes(events: Seq<EventView>, failures: nat) -> bool {
    &&& failures > 0
    &&& events.len() == 3 * failures - 2
    &&& forall|i: int| 0 <= i < failures ==> (#[trigger] events[3 * i]) is Failed
    &&& forall|i: int| 0 <= i < failures - 1 ==> (#[trigger] events[3 * i + 1]) is Completed
}

/// A transfer whose write number `attempt` is outstanding, on a transport
/// whose writes all fail, gives up at the sixth write with
/// [`ErrorView::TransportWriteFailure`], which carries the reason of that
/// write. Over these events it asks for exactly `6 - attempt` further writes
/// and as many opens, one reconnect after each failed write but the last: a
/// transfer from its first write on makes six writes and five reconnects in
/// all, and no read.
pub proof fn lemma_write_gives_up(
    vendor_id: u16,
    product_id: u16,
    frame: Seq<u8>,
    attempt: u64,
    events: Seq<EventView>,
)
    requires
        1 <= attempt <= 6,
        never_writes(events, (7 - attempt) as nat),
    ensures
        ({
            let steps = transfer_run(
                vendor_id,
                product_id,
                frame,
                Phase::Writing { attempt },
                events,
            );
            &&& steps.len() == events.len()
            &&& steps.last() == TransferStepView::Failed(
                ErrorView::TransportWriteFailure {
                    attempts: 6,
                    reason: events.last()->Failed_reason,
                },
            )
            &&& writes_asked(steps) == 6 - attempt
            &&& reopens_asked(steps) == 6 - attempt
            &&& forall|i: int|
                0 <= i < steps.len() ==> !((#[trigger] steps[i]) matches TransferStepView::Continue(
                    _,
                    ActionView::Read { .. },
                ))
        }),
    decreases 6 - attempt,
{
    let phase = Phase::Writing { attempt };
    let steps = transfer_run(vendor_id, product_id, frame, phase, events);
    assert(events[3 * 0int] is Failed);
    let first = transfer(vendor_id, product_id, frame, phase, events[0]);
    if attempt == 6 {
        assert(steps =~= seq![first]);
        assert(steps.drop_first() =~= Seq::empty());
        assert(reopens_asked(steps.drop_first()) == 0 && writes_asked(steps.drop_first()) == 0);
    } else {
        let resume = (attempt + 1) as u64;
        let reconnecting = Phase::Reconnecting { resume, connecting: first_open() };
        assert(first == TransferStepView::Continue(
            reconnecting,
            open_action(vendor_id, product_id),
        ));
        assert(events[3 * 0int + 1] is Completed);
        let pausing = Phase::Pausing { next: resume };
        let second = transfer(vendor_id, product_id, frame, reconnecting, events[1]);
        assert(second == TransferStepView::Continue(pausing, ActionView::Wait { millis: 1 }));
        let writing = Phase::Writing { attempt: resume };
        let third = transfer(vendor_id, product_id, frame, pausing, events[2]);
        assert(third == TransferStepView::Continue(writing, ActionView::Write { frame }));
        let after_first = events.drop_first();
        let after_second = after_first.drop_first();
        let rest = after_second.drop_first();
        assert(never_writes(rest, (6 - attempt) as nat)) by {
            assert forall|i: int| 0 <= i < 6 - attempt implies (#[trigger] rest[3 * i])
                is Failed by {
                assert(rest[3 * i] == events[3 * (i + 1)]);
            }
            assert forall|i: int| 0 <= i < 5 - attempt implies (#[trigger] rest[3 * i + 1])
                is Completed by {
                assert(rest[3 * i + 1] == events[3 * (i + 1) + 1]);
            }
        }
        lemma_write_gives_up(vendor_id, product_id, frame, resume, rest);
        assert(rest.last() == events.last());
        let tail = transfer_run(vendor_id, product_id, frame, writing, rest);
        let from_pause = transfer_run(vendor_id, product_id, frame, pausing, after_second);
        let from_reconnect = transfer_run(vendor_id, product_id, frame, reconnecting, after_first);
        assert(from_pause =~= seq![third] + tail);
        assert(from_reconnect =~= seq![second] + from_pause);
        assert(steps =~= seq![first] + from_reconnect);
        assert(from_pause.drop_first() =~= tail);
        assert(from_reconnect.drop_first() =~= from_pause);
        assert(steps.drop_first() =~= from_reconnect);
        assert(writes_asked(from_pause) == writes_asked(tail) + 1);
        assert(reopens_asked(from_pause) == reopens_asked(tail));
        assert(writes_asked(from_reconnect) == writes_asked(from_pause));
        assert(reopens_asked(from_reconnect) == reopens_asked(from_pause));
        assert(writes_asked(steps) == writes_asked(from_reconnect));
        assert(reopens_asked(steps) == reopens_asked(from_reconnect) + 1);
        assert(steps.last() == tail.last());
        assert forall|i: int| 0 <= i < steps.len() implies !((#[trigger] steps[i])
            matches TransferStepView::Continue(_, ActionView::Read { .. })) by {
            if i >= 3 {
                assert(steps[i] == tail[i - 3]);
            }
        }
    }
}

} // verus!
