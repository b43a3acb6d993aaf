//! The protocol engine: one device, the table of its features, and the
//! operation it is in the middle of.
//!
//! Each operation is begun by a method that returns the first [`Step`]. While
//! the step asks for an [`Action`], the caller carries it out and hands the
//! [`Event`] to [`Device::resume`], which returns the next step, until a step
//! carries the operation's [`Output`] or its [`Error`].
use vstd::prelude::*;
use vstd::slice::slice_to_vec;

use crate::battery::{decode_battery, reading, BatteryLevel, BatteryStatus};
use crate::error::{outcome, Error, ErrorView};
use crate::feature::{Feature, FeatureIndexTable, Function};
use crate::message::{
    be_bytes, built, decoding, encoding, lemma_encode_then_decode, pack, padded, Message,
    MessageBuilder, MessageView, ReportId, DEFAULT_SOFTWARE_ID, HEADER_LEN,
};
use crate::transport::{
    connect, connect_run, connect_step, first_open, first_write, lemma_connect_gives_up,
    lemma_connect_succeeds, never_opens, open_action, opens_after, opens_asked, read_action,
    transfer, transfer_step, Action, ActionView, ConnectStep, ConnectStepView, Connecting, Event,
    EventView, Phase, TransferStep, TransferStepView, READ_LEN,
};

verus! {

/// The device index that requests of a session carry.
pub const SESSION_DEVICE: u8 = 0x01;

/// What a request is after, once its reply is in.
#[derive(Clone, Debug)]
enum Goal {
    Reply,
    FeatureIndex,
    Battery,
    Init { feature: Feature, table: FeatureIndexTable },
}

/// The operation in flight.
#[derive(Clone, Debug)]
enum Task {
    Connect { connecting: Connecting },
    Write { frame: Vec<u8>, phase: Phase },
    Exchange { goal: Goal, frame: Vec<u8>, phase: Phase },
}

/// One peripheral: the identifiers it is opened by, the runtime indices of
/// its features, and the operation in flight, if any.
#[derive(Clone, Debug)]
pub struct Device {
    vendor_id: u16,
    product_id: u16,
    features_index: FeatureIndexTable,
    task: Option<Task>,
}

/// The result of an operation.
#[derive(Clone, Debug, PartialEq, Eq)]
pub enum Output {
    /// The HID handle is acquired, at the attempt given.
    Connected { attempts: u64 },
    /// The table of features is resolved and in place.
    Initialized,
    /// The frame read in reply to a frame written.
    Frame(Vec<u8>),
    /// The reply to a request.
    Reply(Message),
    /// The runtime index that the device reports for a feature: zero where
    /// it does not support the feature.
    FeatureIndex(u8),
    /// The state of the battery.
    Battery { percentage: u8, level: BatteryLevel, status: BatteryStatus },
}

/// What an operation has come to.
#[derive(Clone, Debug, PartialEq, Eq)]
pub enum Step {
    /// The operation goes on: the caller carries out the action and hands
    /// the event to [`Device::resume`].
    Perform(Action),
    /// The operation is over and this is its result.
    Done(Output),
    /// The operation is over and has failed.
    Failed(Error),
}

/// What a request is after, as contracts speak of it.
pub enum GoalView {
    /// The reply, decoded.
    Reply,
    /// The first payload byte of the reply.
    FeatureIndex,
    /// The battery reading in the payload of the reply.
    Battery,
    /// The table of features: the request in flight resolves `feature`, and
    /// `table` holds what the features before it resolved to.
    Init { feature: Feature, table: Map<Feature, u8> },
}

/// The operation in flight, as contracts speak of it.
pub enum TaskView {
    /// A connect in the state given.
    Connect { connecting: Connecting },
    /// A transfer of `frame` in the phase given, for the frame read in reply.
    Write { frame: Seq<u8>, phase: Phase },
    /// A transfer of the request `frame` in the phase given, for the goal
    /// given.
    Exchange { goal: GoalView, frame: Seq<u8>, phase: Phase },
}

/// A [`Device`] as contracts speak of it.
pub struct DeviceView {
    pub vendor_id: u16,
    pub product_id: u16,
    pub table: Map<Feature, u8>,
    pub task: Option<TaskView>,
}

/// An [`Output`] as contracts speak of it.
pub enum OutputView {
    Connected { attempts: u64 },
    Initialized,
    Frame(Seq<u8>),
    Reply(MessageView),
    FeatureIndex(u8),
    Battery { percentage: u8, level: BatteryLevel, status: BatteryStatus },
}

/// A [`Step`] as contracts speak of it.
pub enum StepView {
    Perform(ActionView),
    Done(OutputView),
    Failed(ErrorView),
}

impl View for Goal {
    type V = GoalView;

    closed spec fn view(&self) -> GoalView {
        match *self {
            Goal::Reply => GoalView::Reply,
            Goal::FeatureIndex => GoalView::FeatureIndex,
            Goal::Battery => GoalView::Battery,
            Goal::Init { feature, table } => GoalView::Init { feature, table: table@ },
        }
    }
}

impl View for Task {
    type V = TaskView;

    closed spec fn view(&self) -> TaskView {
        match *self {
            Task::Connect { connecting } => TaskView::Connect { connecting },
            Task::Write { frame, phase } => TaskView::Write { frame: frame@, phase },
            Task::Exchange { goal, frame, phase } => TaskView::Exchange {
                goal: goal@,
                frame: frame@,
                phase,
            },
        }
    }
}

impl View for Device {
    type V = DeviceView;

    closed spec fn view(&self) -> DeviceView {
        DeviceView {
            vendor_id: self.vendor_id,
            product_id: self.product_id,
            table: self.features_index@,
            task: match self.task {
                Some(task) => Some(task@),
                None => None,
            },
        }
    }
}

impl View for Output {
    type V = OutputView;

    open spec fn view(&self) -> OutputView {
        match *self {
            Output::Connected { attempts } => OutputView::Connected { attempts },
            Output::Initialized => OutputView::Initialized,
            Output::Frame(frame) => OutputView::Frame(frame@),
            Output::Reply(reply) => OutputView::Reply(reply@),
            Output::FeatureIndex(index) => OutputView::FeatureIndex(index),
            Output::Battery { percentage, level, status } => OutputView::Battery {
                percentage,
                level,
                status,
            },
        }
    }
}

impl View for Step {
    type V = StepView;

    open spec fn view(&self) -> StepView {
        match *self {
            Step::Perform(action) => StepView::Perform(action@),
            Step::Done(output) => StepView::Done(output@),
            Step::Failed(error) => StepView::Failed(error@),
        }
    }
}

/// The request of a session for `function` of the feature at
/// `feature_index`: a short report to the session's device under the default
/// software identifier, its payload cut or zero-padded to three bytes.
pub open spec fn request(feature_index: u8, function: Function, payload: Seq<u8>) -> MessageView {
    built(
        MessageView {
            report_id: ReportId::Short,
            device_index: SESSION_DEVICE,
            feature_index,
            function_index: function.opcode(),
            software_id: DEFAULT_SOFTWARE_ID,
            data: payload,
        },
    )
}

/// The request that asks the root feature, at index zero, for the runtime
/// index of `feature`: its payload is the feature's identifier, the more
/// significant byte first.
pub open spec fn resolve_request(feature: Feature) -> MessageView {
    request(0, Function::RootGetFeature, be_bytes(feature.identifier()))
}

/// The table after a device has answered `index` for `feature`: the index is
/// recorded, but for zero, which says that the device lacks the feature and
/// leaves it without an entry.
pub open spec fn recorded(table: Map<Feature, u8>, feature: Feature, index: u8) -> Map<
    Feature,
    u8,
> {
    if index == 0 {
        table
    } else {
        table.insert(feature, index)
    }
}

/// The table that resolution starts from: the root feature at index zero,
/// which is fixed and never asked for.
pub open spec fn seed() -> Map<Feature, u8> {
    Map::<Feature, u8>::empty().insert(Feature::Root, 0)
}

/// The device without an operation in flight.
pub open spec fn idle(device: DeviceView) -> DeviceView {
    DeviceView { task: None, ..device }
}

/// A connect is begun: the first open is asked for, and any operation that
/// was in flight is dropped.
pub open spec fn connect_begun(device: DeviceView) -> (DeviceView, StepView) {
    (
        DeviceView { task: Some(TaskView::Connect { connecting: first_open() }), ..device },
        StepView::Perform(open_action(device.vendor_id, device.product_id)),
    )
}

/// A transfer of `frame` for the frame read in reply is begun: the first
/// write is asked for, and any operation that was in flight is dropped.
pub open spec fn write_begun(device: DeviceView, frame: Seq<u8>) -> (DeviceView, StepView) {
    (
        DeviceView { task: Some(TaskView::Write { frame, phase: first_write() }), ..device },
        StepView::Perform(ActionView::Write { frame }),
    )
}

/// A transfer of the request `frame` for `goal` is begun: the first write is
/// asked for, and any operation that was in flight is dropped.
pub open spec fn begun(device: DeviceView, goal: GoalView, frame: Seq<u8>) -> (
    DeviceView,
    StepView,
) {
    (
        DeviceView {
            task: Some(TaskView::Exchange { goal, frame, phase: first_write() }),
            ..device
        },
        StepView::Perform(ActionView::Write { frame }),
    )
}

/// What the frame `bytes`, read in reply, makes of a request with `goal`.
///
/// The frame is decoded, and an error of the decoding fails the request. A
/// battery reading fails with
/// the error of the reading, if it has one. Resolution records the index
/// that the reply carries and goes on with the request for the next feature
/// of the catalogue; after the last, the table built takes the place of
/// the device's table. Until then the device's table stays as it was, also
/// where resolution fails.
pub open spec fn concluded(device: DeviceView, goal: GoalView, bytes: Seq<u8>) -> (
    DeviceView,
    StepView,
) {
    match decoding(bytes) {
        Err(error) => (idle(device), StepView::Failed(error)),
        Ok(reply) => match goal {
            GoalView::Reply => (idle(device), StepView::Done(OutputView::Reply(reply))),
            GoalView::FeatureIndex => (
                idle(device),
                StepView::Done(OutputView::FeatureIndex(reply.data[0])),
            ),
            GoalView::Battery => match reading(reply.data) {
                Ok((percentage, level, status)) => (
                    idle(device),
                    StepView::Done(OutputView::Battery { percentage, level, status }),
                ),
                Err(error) => (idle(device), StepView::Failed(error)),
            },
            GoalView::Init { feature, table } => {
                let table = recorded(table, feature, reply.data[0]);
                match feature.following() {
                    Some(next) => begun(
                        device,
                        GoalView::Init { feature: next, table },
                        encoding(resolve_request(next)),
                    ),
                    None => (
                        DeviceView { table, task: None, ..device },
                        StepView::Done(OutputView::Initialized),
                    ),
                }
            },
        },
    }
}

/// What `event` makes of a device and the operation `task` it has in flight.
///
/// A connect goes by [`connect`], a transfer by [`transfer`]. While either
/// goes on, the device keeps the operation in its new state and the step
/// asks for the next action. A connect that succeeds ends with
/// [`OutputView::Connected`]. A transfer that has its reply ends with the
/// frame read, where that is what it is for, and else as [`concluded`] says
/// of its goal. Where either fails, the operation is over and the step
/// carries the error.
pub open spec fn advanced(device: DeviceView, task: TaskView, event: EventView) -> (
    DeviceView,
    StepView,
) {
    match task {
        TaskView::Connect { connecting } => match connect(
            device.vendor_id,
            device.product_id,
            connecting,
            event,
        ) {
            ConnectStepView::Continue(next, action) => (
                DeviceView { task: Some(TaskView::Connect { connecting: next }), ..device },
                StepView::Perform(action),
            ),
            ConnectStepView::Connected(attempts) => (
                idle(device),
                StepView::Done(OutputView::Connected { attempts }),
            ),
            ConnectStepView::Failed(error) => (idle(device), StepView::Failed(error)),
        },
        TaskView::Write { frame, phase } => match transfer(
            device.vendor_id,
            device.product_id,
            frame,
            phase,
            event,
        ) {
            TransferStepView::Continue(next, action) => (
                DeviceView { task: Some(TaskView::Write { frame, phase: next }), ..device },
                StepView::Perform(action),
            ),
            TransferStepView::Received(bytes) => (
                idle(device),
                StepView::Done(OutputView::Frame(bytes)),
            ),
            TransferStepView::Failed(error) => (idle(device), StepView::Failed(error)),
        },
        TaskView::Exchange { goal, frame, phase } => match transfer(
            device.vendor_id,
            device.product_id,
            frame,
            phase,
            event,
        ) {
            TransferStepView::Continue(next, action) => (
                DeviceView {
                    task: Some(TaskView::Exchange { goal, frame, phase: next }),
                    ..device
                },
                StepView::Perform(action),
            ),
            TransferStepView::Received(bytes) => concluded(device, goal, bytes),
            TransferStepView::Failed(error) => (idle(device), StepView::Failed(error)),
        },
    }
}

/// What looking `feature` up in `table` returns: its index, or
/// [`ErrorView::FeatureNotFound`] where it has none.
pub open spec fn resolved(table: Map<Feature, u8>, feature: Feature) -> Result<u8, ErrorView> {
    match FeatureIndexTable::lookup(table, feature) {
        Some(index) => Ok(index),
        None => Err(ErrorView::FeatureNotFound { feature }),
    }
}

/// A request for `function` of `feature` with `payload` is begun for `goal`:
/// where the table has an index for the feature, the transfer of the request
/// to that index; where it has none, nothing but the error.
pub open spec fn feature_begun(
    device: DeviceView,
    goal: GoalView,
    feature: Feature,
    function: Function,
    payload: Seq<u8>,
) -> (DeviceView, StepView) {
    match resolved(device.table, feature) {
        Ok(index) => begun(device, goal, encoding(request(index, function, payload))),
        Err(error) => (idle(device), StepView::Failed(error)),
    }
}

impl Device {
    /// A device for the product given, with an empty table, and the first
    /// step of the connect that acquires its handle.
    pub fn new(vendor_id: u16, product_id: u16) -> (opened: (Device, Step))
        ensures
            (opened.0@, opened.1@) == connect_begun(
                DeviceView {
                    vendor_id,
                    product_id,
                    table: Map::<Feature, u8>::empty(),
                    task: None,
                },
            ),
    {
        let (task, step) = Device::open(vendor_id, product_id);
        (
            Device {
                vendor_id,
                product_id,
                features_index: FeatureIndexTable::new(),
                task: Some(task),
            },
            step,
        )
    }

    /// A connect at its start, and the step that asks for its first open.
    fn open(vendor_id: u16, product_id: u16) -> (begun: (Task, Step))
        ensures
            begun.0@ == (TaskView::Connect { connecting: first_open() }),
            begun.1@ == StepView::Perform(open_action(vendor_id, product_id)),
    {
        (
            Task::Connect { connecting: Connecting::Trying { attempt: 1 } },
            Step::Perform(Action::Open { vendor_id, product_id }),
        )
    }

    /// Begins a connect that replaces the handle: the step asks for its
    /// first open.
    pub fn reconnect(&mut self) -> (step: Step)
        ensures
            (final(self)@, step@) == connect_begun(old(self)@),
    {
        let (task, step) = Device::open(self.vendor_id, self.product_id);
        self.task = Some(task);
        step
    }

    /// Begins the transfer of the request `frame` for `goal`.
    fn exchange(&mut self, goal: Goal, frame: Vec<u8>) -> (step: Step)
        ensures
            (final(self)@, step@) == begun(old(self)@, goal@, frame@),
    {
        let action = Action::Write { frame: slice_to_vec(frame.as_slice()) };
        self.task = Some(Task::Exchange { goal, frame, phase: Phase::Writing { attempt: 1 } });
        Step::Perform(action)
    }

    /// The frame of the request for `function` of the feature at
    /// `feature_index`, with `payload`.
    fn request_frame(feature_index: u8, function: Function, payload: Vec<u8>) -> (frame: Vec<u8>)
        ensures
            frame@ == encoding(request(feature_index, function, payload@)),
    {
        MessageBuilder::new_short(feature_index, function).device_index(SESSION_DEVICE).data(
            payload,
        ).build().encode()
    }

    /// The frame of the request that resolves `feature`.
    fn resolve_frame(feature: Feature) -> (frame: Vec<u8>)
        ensures
            frame@ == encoding(resolve_request(feature)),
    {
        MessageBuilder::new_short(0x00, Function::RootGetFeature).device_index(
            SESSION_DEVICE,
        ).add_u16(feature.value()).build().encode()
    }

    /// Begins the resolution of the whole catalogue: the step asks for the
    /// write of the request for the first feature after the root. When the
    /// last feature is resolved, the table built replaces the device's table.
    pub fn init(&mut self) -> (step: Step)
        ensures
            (final(self)@, step@) == begun(
                old(self)@,
                GoalView::Init { feature: Feature::FeatureSet, table: seed() },
                encoding(resolve_request(Feature::FeatureSet)),
            ),
    {
        let mut table = FeatureIndexTable::new();
        table.insert(Feature::Root, 0x00);
        let feature = Feature::FeatureSet;
        self.exchange(Goal::Init { feature, table }, Device::resolve_frame(feature))
    }

    /// Begins the transfer of the frame `buf`, which ends with the frame
    /// read in reply: the step asks for the first write.
    pub fn write(&mut self, buf: &[u8]) -> (step: Step)
        ensures
            (final(self)@, step@) == write_begun(old(self)@, buf@),
    {
        let frame = slice_to_vec(buf);
        let action = Action::Write { frame: slice_to_vec(buf) };
        self.task = Some(Task::Write { frame, phase: Phase::Writing { attempt: 1 } });
        Step::Perform(action)
    }

    /// Begins the request that asks the device for the runtime index of
    /// `feature`, which ends with the index as the device reports it: zero
    /// where the device lacks the feature.
    pub fn get_feature_index(&mut self, feature: Feature) -> (step: Step)
        ensures
            (final(self)@, step@) == begun(
                old(self)@,
                GoalView::FeatureIndex,
                encoding(resolve_request(feature)),
            ),
    {
        self.exchange(Goal::FeatureIndex, Device::resolve_frame(feature))
    }

    /// The runtime index of `feature` in the table. It is read from the
    /// table alone: the device is asked nothing and stays as it is.
    pub fn index_for(&self, feature: Feature) -> (index: Result<u8, Error>)
        ensures
            outcome(index) == resolved(self@.table, feature),
    {
        match self.features_index.get(feature) {
            Some(index) => Ok(index),
            None => Err(Error::FeatureNotFound { feature }),
        }
    }

    /// Begins a request for `function` of `feature` for `goal`.
    fn feature_exchange(
        &mut self,
        goal: Goal,
        feature: Feature,
        function: Function,
        payload: &[u8],
    ) -> (step: Step)
        ensures
            (final(self)@, step@) == feature_begun(
                old(self)@,
                goal@,
                feature,
                function,
                payload@,
            ),
    {
        match self.index_for(feature) {
            Ok(index) => {
                let frame = Device::request_frame(index, function, slice_to_vec(payload));
                self.exchange(goal, frame)
            },
            Err(error) => {
                self.task = None;
                Step::Failed(error)
            },
        }
    }

    /// Begins a request for `function` of `feature` with `payload`, which
    /// ends with the reply decoded. Where the table has no index for the
    /// feature, the step is the failure and nothing is asked of the device.
    pub fn send_feature(&mut self, feature: Feature, function: Function, payload: &[u8]) -> (step:
        Step)
        ensures
            (final(self)@, step@) == feature_begun(
                old(self)@,
                GoalView::Reply,
                feature,
                function,
                payload@,
            ),
    {
        self.feature_exchange(Goal::Reply, feature, function, payload)
    }

    /// Begins the query of the battery's status, which ends with the
    /// percentage, the level and the status that the reply carries.
    pub fn get_battery(&mut self) -> (step: Step)
        ensures
            (final(self)@, step@) == feature_begun(
                old(self)@,
                GoalView::Battery,
                Feature::UnifiedBattery,
                Function::UnifiedBatteryGetStatus,
                Seq::<u8>::empty(),
            ),
    {
        let payload: Vec<u8> = Vec::new();
        self.feature_exchange(
            Goal::Battery,
            Feature::UnifiedBattery,
            Function::UnifiedBatteryGetStatus,
            payload.as_slice(),
        )
    }

    /// Whether an operation is in flight.
    pub fn is_busy(&self) -> (busy: bool)
        ensures
            busy == self@.task.is_some(),
    {
        self.task.is_some()
    }

    /// The vendor identifier that the device is opened by.
    pub fn vendor_id(&self) -> (vendor_id: u16)
        ensures
            vendor_id == self@.vendor_id,
    {
        self.vendor_id
    }

    /// The product identifier that the device is opened by.
    pub fn product_id(&self) -> (product_id: u16)
        ensures
            product_id == self@.product_id,
    {
        self.product_id
    }

    /// Ends a request with `goal` on the frame `bytes` read in reply.
    fn conclude(&mut self, goal: Goal, bytes: Vec<u8>) -> (step: Step)
        requires
            old(self)@.task.is_none(),
        ensures
            (final(self)@, step@) == concluded(old(self)@, goal@, bytes@),
    {
        let reply = match Message::try_from(bytes) {
            Ok(reply) => reply,
            Err(error) => {
                return Step::Failed(error);
            },
        };
        match goal {
            Goal::Reply => Step::Done(Output::Reply(reply)),
            Goal::FeatureIndex => Step::Done(Output::FeatureIndex(reply.data()[0])),
            Goal::Battery => match decode_battery(reply.data()) {
                Ok((percentage, level, status)) => Step::Done(
                    Output::Battery { percentage, level, status },
                ),
                Err(error) => Step::Failed(error),
            },
            Goal::Init { feature, table } => {
                let mut table = table;
                let index = reply.data()[0];
                if index != 0 {
                    table.insert(feature, index);
                }
                match feature.next() {
                    Some(next) => self.exchange(
                        Goal::Init { feature: next, table },
                        Device::resolve_frame(next),
                    ),
                    None => {
                        self.features_index = table;
                        Step::Done(Output::Initialized)
                    },
                }
            },
        }
    }

    /// Takes the operation in flight one event further. `event` is what came
    /// of the action that the last step asked for. The step returned asks for
    /// the next action, or ends the operation with its result or its error;
    /// then no operation is in flight any more.
    pub fn resume(&mut self, event: Event) -> (step: Step)
        requires
            old(self)@.task.is_some(),
        ensures
            (final(self)@, step@) == advanced(old(self)@, old(self)@.task.unwrap(), event@),
    {
        let task = match self.task.take() {
            Some(task) => task,
            None => {
                return vstd::pervasive::unreached();
            },
        };
        match task {
            Task::Connect { connecting } => match connect_step(
                self.vendor_id,
                self.product_id,
                connecting,
                event,
            ) {
                ConnectStep::Continue(next, action) => {
                    self.task = Some(Task::Connect { connecting: next });
                    Step::Perform(action)
                },
                ConnectStep::Connected(attempts) => Step::Done(Output::Connected { attempts }),
                ConnectStep::Failed(error) => Step::Failed(error),
            },
            Task::Write { frame, phase } => match transfer_step(
                self.vendor_id,
                self.product_id,
                frame.as_slice(),
                phase,
                event,
            ) {
                TransferStep::Continue(next, action) => {
                    self.task = Some(Task::Write { frame, phase: next });
                    Step::Perform(action)
                },
                TransferStep::Received(bytes) => Step::Done(Output::Frame(bytes)),
                TransferStep::Failed(error) => Step::Failed(error),
            },
            Task::Exchange { goal, frame, phase } => match transfer_step(
                self.vendor_id,
                self.product_id,
                frame.as_slice(),
                phase,
                event,
            ) {
                TransferStep::Continue(next, action) => {
                    self.task = Some(Task::Exchange { goal, frame, phase: next });
                    Step::Perform(action)
                },
                TransferStep::Received(bytes) => self.conclude(goal, bytes),
                TransferStep::Failed(error) => Step::Failed(error),
            },
        }
    }
}

impl Message {
    /// Begins the transfer of this report to `device`, which ends with the
    /// reply decoded: the step asks for the write of the report's frame.
    pub fn send(&self, device: &mut Device) -> (step: Step)
        ensures
            (final(device)@, step@) == begun(old(device)@, GoalView::Reply, encoding(self@)),
    {
        device.exchange(Goal::Reply, self.encode())
    }
}

/// Every request of a session is a short report that names the session's
/// device and carries a software identifier, neither of them zero: a frame of
/// seven bytes whose second byte and the lower half of whose fourth byte are
/// set.
pub proof fn lemma_requests_are_tagged(feature_index: u8, function: Function, payload: Seq<u8>)
    ensures
        ({
            let message = request(feature_index, function, payload);
            let frame = encoding(message);
            &&& message.report_id == ReportId::Short
            &&& message.device_index != 0
            &&& message.software_id != 0
            &&& message.data.len() == 3
            &&& frame.len() == 7
            &&& frame[1] != 0
            &&& frame[3] & 0x0F != 0
            &&& decoding(frame) == Ok::<MessageView, ErrorView>(message)
        }),
{
    let message = request(feature_index, function, payload);
    assert(function.opcode() <= 15);
    lemma_encode_then_decode(message);
    assert(padded(message.data, 3) =~= message.data);
    let opcode = function.opcode();
    assert(pack(opcode, 1u8) & 0x0F != 0) by (bit_vector);
}

/// Within a session a feature resolves to the same index every time, and
/// resolving it asks nothing of the device. The index is read from the table
/// alone, and the table stays as it is when an operation is begun and at
/// every step of every operation but the one that ends the resolution of the
/// whole catalogue.
pub proof fn lemma_resolution_is_stable(
    device: DeviceView,
    feature: Feature,
    goal: GoalView,
    frame: Seq<u8>,
    asked: Feature,
    function: Function,
    payload: Seq<u8>,
    task: TaskView,
    event: EventView,
)
    ensures
        resolved(connect_begun(device).0.table, feature) == resolved(device.table, feature),
        resolved(write_begun(device, frame).0.table, feature) == resolved(device.table, feature),
        resolved(begun(device, goal, frame).0.table, feature) == resolved(device.table, feature),
        resolved(feature_begun(device, goal, asked, function, payload).0.table, feature)
            == resolved(device.table, feature),
        advanced(device, task, event).1 != StepView::Done(OutputView::Initialized) ==> resolved(
            advanced(device, task, event).0.table,
            feature,
        ) == resolved(device.table, feature),
{
}

/// The steps that a device takes as `events` come in, one step per event up
/// to the step that ends the operation in flight, and the device after them.
pub open spec fn run(device: DeviceView, events: Seq<EventView>) -> (DeviceView, Seq<StepView>)
    decreases events.len(),
{
    if events.len() == 0 || device.task is None {
        (device, Seq::empty())
    } else {
        let (next, step) = advanced(device, device.task->Some_0, events[0]);
        let (last, steps) = run(next, events.drop_first());
        (last, seq![step] + steps)
    }
}

/// The index that a reply carries: the first byte of its payload.
pub open spec fn index_in(reply: Seq<u8>) -> u8 {
    reply[HEADER_LEN as int]
}

/// The table that the resolution of the catalogue builds where the device
/// replies with `replies`, one for each feature after the root in the order
/// of the catalogue, as far as the features before number `limit` go: the
/// root at index zero, and each of those features at the index its reply
/// carries, but for those whose reply carries zero.
pub open spec fn resolution(replies: Seq<Seq<u8>>, limit: int) -> Map<Feature, u8> {
    Map::new(
        |f: Feature|
            f == Feature::Root || (f.ordinal() < limit && index_in(replies[f.ordinal() - 1])
                != 0),
        |f: Feature|
            if f == Feature::Root {
                0u8
            } else {
                index_in(replies[f.ordinal() - 1])
            },
    )
}

/// `events` are those of a transport on which every write succeeds at once
/// and the reads return `replies` from number `from` on, in order.
pub open spec fn answered(events: Seq<EventView>, replies: Seq<Seq<u8>>, from: int) -> bool {
    &&& 0 <= from <= replies.len()
    &&& events.len() == 2 * (replies.len() - from)
    &&& forall|i: int|
        0 <= i < replies.len() - from ==> (#[trigger] events[2 * i]) is Completed
    &&& forall|i: int|
        0 <= i < replies.len() - from ==> (#[trigger] events[2 * i + 1])
            == (EventView::Completed { data: replies[from + i] })
}

/// The device in the middle of resolution: the request for feature number
/// `position` of the catalogue is about to be written, and the table under
/// construction holds what `replies` say of the features before it.
pub open spec fn resolving(device: DeviceView, replies: Seq<Seq<u8>>, position: int) -> DeviceView {
    begun(
        device,
        GoalView::Init {
            feature: Feature::catalog()[position],
            table: resolution(replies, position),
        },
        encoding(resolve_request(Feature::catalog()[position])),
    ).0
}

/// Resolution from feature number `position` on, on a transport that
/// answers every request at once.
proof fn lemma_init_from(
    device: DeviceView,
    replies: Seq<Seq<u8>>,
    position: int,
    events: Seq<EventView>,
)
    requires
        1 <= position <= 7,
        replies.len() == 7,
        forall|i: int| 0 <= i < 7 ==> (#[trigger] replies[i]).len() == READ_LEN && decoding(
            replies[i],
        ) is Ok,
        answered(events, replies, position - 1),
    ensures
        ({
            let (after, steps) = run(resolving(device, replies, position), events);
            &&& after == DeviceView { table: resolution(replies, 8), task: None, ..device }
            &&& steps.len() == events.len()
            &&& steps.last() == StepView::Done(OutputView::Initialized)
            &&& forall|i: int|
                0 <= i < 8 - position ==> (#[trigger] steps[2 * i]) == StepView::Perform(
                    read_action(),
                )
            &&& forall|i: int|
                0 <= i < 7 - position ==> (#[trigger] steps[2 * i + 1]) == StepView::Perform(
                    ActionView::Write {
                        frame: encoding(resolve_request(Feature::catalog()[position + 1 + i])),
                    },
                )
        }),
    decreases 8 - position,
{
    let feature = Feature::catalog()[position];
    let table = resolution(replies, position);
    let frame = encoding(resolve_request(feature));
    let goal = GoalView::Init { feature, table };
    let start = resolving(device, replies, position);
    let reply = replies[position - 1];
    assert(events[2 * 0int] is Completed);
    assert(events[2 * 0int + 1] == (EventView::Completed { data: reply }));
    let (reading, first) = advanced(start, start.task->Some_0, events[0]);
    assert(first == StepView::Perform(read_action()));
    assert(reading.task == Some(TaskView::Exchange { goal, frame, phase: Phase::Reading }));
    let after_first = events.drop_first();
    let (next, second) = advanced(reading, reading.task->Some_0, after_first[0]);
    assert((next, second) == concluded(reading, goal, reply));
    let message = decoding(reply)->Ok_0;
    assert(message.data[0] == index_in(reply));
    let grown = recorded(table, feature, index_in(reply));
    assert(feature.ordinal() == position);
    assert(grown =~= resolution(replies, position + 1)) by {
        assert forall|f: Feature| grown.contains_key(f) <==> resolution(
            replies,
            position + 1,
        ).contains_key(f) by {
            Feature::lemma_catalog_total(f);
        }
    }
    let rest = after_first.drop_first();
    let (after, steps) = run(start, events);
    let (after_reading, steps_reading) = run(reading, after_first);
    let (after_next, steps_next) = run(next, rest);
    assert(steps =~= seq![first] + steps_reading);
    assert(steps_reading =~= seq![second] + steps_next);
    assert(after == after_next);
    if position == 7 {
        assert(feature.following() is None);
        assert(next == DeviceView { table: resolution(replies, 8), task: None, ..device });
        assert(second == StepView::Done(OutputView::Initialized));
        assert(steps_next =~= Seq::empty());
        assert(steps =~= seq![first, second]);
        assert(steps[2 * 0int] == first);
    } else {
        assert(feature.following() == Some(Feature::catalog()[position + 1]));
        assert(next == resolving(device, replies, position + 1));
        assert(second == StepView::Perform(
            ActionView::Write {
                frame: encoding(resolve_request(Feature::catalog()[position + 1])),
            },
        ));
        assert(answered(rest, replies, position)) by {
            assert forall|i: int| 0 <= i < 7 - position implies (#[trigger] rest[2 * i])
                is Completed by {
                assert(rest[2 * i] == events[2 * (i + 1)]);
            }
            assert forall|i: int| 0 <= i < 7 - position implies (#[trigger] rest[2 * i + 1]) == (
            EventView::Completed { data: replies[position + i] }) by {
                assert(rest[2 * i + 1] == events[2 * (i + 1) + 1]);
            }
        }
        lemma_init_from(device, replies, position + 1, rest);
        assert(steps.last() == steps_next.last());
        assert forall|i: int| 0 <= i < 8 - position implies (#[trigger] steps[2 * i])
            == StepView::Perform(read_action()) by {
            if i > 0 {
                assert(steps[2 * i] == steps_next[2 * (i - 1)]);
            }
        }
        assert forall|i: int| 0 <= i < 7 - position implies (#[trigger] steps[2 * i + 1])
            == StepView::Perform(
            ActionView::Write {
                frame: encoding(resolve_request(Feature::catalog()[position + 1 + i])),
            },
        ) by {
            if i > 0 {
                assert(steps[2 * i + 1] == steps_next[2 * (i - 1) + 1]);
            }
        }
    }
}

/// On a transport that answers every request at once, the resolution of the
/// catalogue asks once for each feature after the root, in the order of the
/// catalogue, and for nothing else: seven writes, each followed by one read.
/// It ends with a device that has no operation in flight and whose table is
/// what the replies say, whatever the table held before: the root at index
/// zero, each other feature at the index its reply carries, and no entry for
/// a feature whose reply carries zero.
pub proof fn lemma_init_resolves_catalog(
    device: DeviceView,
    replies: Seq<Seq<u8>>,
    events: Seq<EventView>,
)
    requires
        replies.len() == 7,
        forall|i: int| 0 <= i < 7 ==> (#[trigger] replies[i]).len() == READ_LEN && decoding(
            replies[i],
        ) is Ok,
        answered(events, replies, 0),
    ensures
        ({
            let begin = begun(
                device,
                GoalView::Init { feature: Feature::FeatureSet, table: seed() },
                encoding(resolve_request(Feature::FeatureSet)),
            );
            let (after, steps) = run(begin.0, events);
            &&& after == DeviceView { table: resolution(replies, 8), task: None, ..device }
            &&& steps.len() == 14
            &&& steps.last() == StepView::Done(OutputView::Initialized)
            &&& forall|i: int|
                0 <= i < 7 ==> (#[trigger] steps[2 * i]) == StepView::Perform(read_action())
            &&& forall|i: int|
                0 <= i < 6 ==> (#[trigger] steps[2 * i + 1]) == StepView::Perform(
                    ActionView::Write {
                        frame: encoding(resolve_request(Feature::catalog()[2 + i])),
                    },
                )
            &&& forall|f: Feature|
                resolved(after.table, f) == if f == Feature::Root {
                    Ok::<u8, ErrorView>(0)
                } else if index_in(replies[f.ordinal() - 1]) != 0 {
                    Ok::<u8, ErrorView>(index_in(replies[f.ordinal() - 1]))
                } else {
                    Err::<u8, ErrorView>(ErrorView::FeatureNotFound { feature: f })
                }
        }),
{
    assert(seed() =~= resolution(replies, 1));
    assert(Feature::catalog()[1] == Feature::FeatureSet);
    lemma_init_from(device, replies, 1, events);
    assert forall|f: Feature| f.ordinal() < 8 by {
        Feature::lemma_catalog_total(f);
    }
}

/// The step of a device whose connect takes the step given.
pub open spec fn connect_lifted(step: ConnectStepView) -> StepView {
    match step {
        ConnectStepView::Continue(_, action) => StepView::Perform(action),
        ConnectStepView::Connected(attempts) => StepView::Done(OutputView::Connected { attempts }),
        ConnectStepView::Failed(error) => StepView::Failed(error),
    }
}

/// The number of opens that the steps of a device ask for.
pub open spec fn opens_performed(steps: Seq<StepView>) -> nat
    decreases steps.len(),
{
    if steps.len() == 0 {
        0
    } else {
        let rest = opens_performed(steps.drop_first());
        match steps[0] {
            StepView::Perform(ActionView::Open { .. }) => rest + 1,
            _ => rest,
        }
    }
}

/// A device with a connect in flight takes the steps of that connect, one
/// for one, and is without an operation when the connect has ended.
proof fn lemma_connect_lifts(device: DeviceView, state: Connecting, events: Seq<EventView>)
    ensures
        ({
            let start = DeviceView {
                task: Some(TaskView::Connect { connecting: state }),
                ..device
            };
            let (after, steps) = run(start, events);
            let below = connect_run(device.vendor_id, device.product_id, state, events);
            &&& steps.len() == below.len()
            &&& forall|i: int| 0 <= i < steps.len() ==> steps[i] == connect_lifted(below[i])
            &&& opens_performed(steps) == opens_asked(below)
            &&& below.len() > 0 && !(below.last() is Continue) ==> after == idle(device)
        }),
    decreases events.len(),
{
    let start = DeviceView { task: Some(TaskView::Connect { connecting: state }), ..device };
    let (after, steps) = run(start, events);
    let below = connect_run(device.vendor_id, device.product_id, state, events);
    if events.len() > 0 {
        let step = connect(device.vendor_id, device.product_id, state, events[0]);
        let (next, lifted) = advanced(start, start.task->Some_0, events[0]);
        assert(lifted == connect_lifted(step));
        let (last, rest) = run(next, events.drop_first());
        assert(steps =~= seq![lifted] + rest);
        assert(steps.drop_first() =~= rest);
        match step {
            ConnectStepView::Continue(following, _) => {
                lemma_connect_lifts(device, following, events.drop_first());
                let tail = connect_run(
                    device.vendor_id,
                    device.product_id,
                    following,
                    events.drop_first(),
                );
                assert(below =~= seq![step] + tail);
                assert(below.drop_first() =~= tail);
                assert(next == DeviceView {
                    task: Some(TaskView::Connect { connecting: following }),
                    ..device
                });
                if tail.len() > 0 {
                    assert(below.last() == tail.last());
                }
            },
            _ => {
                assert(next == idle(device));
                assert(rest =~= Seq::empty());
                assert(below =~= seq![step]);
                assert(below.drop_first() =~= Seq::empty());
                assert(opens_asked(below.drop_first()) == 0);
                assert(opens_performed(steps.drop_first()) == 0);
            },
        }
    }
}

/// A device that begins a connect on a transport whose first `failures`
/// opens fail, no more than five of them, has its handle at open number
/// `failures + 1`. The first step asks for the first open and the steps that
/// follow for exactly `failures` more. Afterwards no operation is in flight
/// and the device is otherwise as it was.
pub proof fn lemma_open_succeeds(device: DeviceView, events: Seq<EventView>, failures: nat)
    requires
        failures <= 5,
        opens_after(events, failures),
    ensures
        ({
            let (begin, first) = connect_begun(device);
            let (after, steps) = run(begin, events);
            &&& first == StepView::Perform(open_action(device.vendor_id, device.product_id))
            &&& steps.len() == events.len()
            &&& steps.last() == StepView::Done(
                OutputView::Connected { attempts: (failures + 1) as u64 },
            )
            &&& opens_performed(steps) == failures
            &&& after == idle(device)
        }),
{
    lemma_connect_succeeds(device.vendor_id, device.product_id, 1, events, failures);
    lemma_connect_lifts(device, first_open(), events);
}

/// A device that begins a connect on a transport whose opens all fail gives
/// up with [`ErrorView::TransportOpenFailure`] at the sixth open, with the
/// reason of that open. The first step asks for the first open and the steps
/// that follow for exactly five more. Afterwards no operation is in flight
/// and the device is otherwise as it was.
pub proof fn lemma_open_gives_up(device: DeviceView, events: Seq<EventView>)
    requires
        never_opens(events, 6),
    ensures
        ({
            let (begin, first) = connect_begun(device);
            let (after, steps) = run(begin, events);
            &&& first == StepView::Perform(open_action(device.vendor_id, device.product_id))
            &&& steps.len() == events.len()
            &&& steps.last() == StepView::Failed(
                ErrorView::TransportOpenFailure {
                    attempts: 6,
                    reason: events.last()->Failed_reason,
                },
            )
            &&& opens_performed(steps) == 5
            &&& after == idle(device)
        }),
{
    lemma_connect_gives_up(device.vendor_id, device.product_id, 1, events);
    lemma_connect_lifts(device, first_open(), events);
}

} // verus!
