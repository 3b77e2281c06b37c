//! The loop that watches one serial port, and the events it publishes.
//!
//! The caller owns the port, the clock and the tasks. It performs the
//! operation that the monitor asks for, hands the result to
//! [`SerialMonitor::handle`] with the current time, and carries out the
//! actions it gets back, in order. Completed datasets leave the monitor as
//! [`MonitorAction::Dispatch`]; the monitor never waits for their delivery.

use crate::detection_client::DetectionResponse;
use crate::framer::{
    complete_lines, process_completed_dataset, process_serial_data_chunk, texts, CompletedDataset,
    CompletedDatasetView, CompletionReason, SerialDataState, SerialDataView, IDLE_GAP_MS,
};
use crate::text::opt_text;
use vstd::prelude::*;
use vstd::string::*;

verus! {

/// Connection status published to the user interface.
#[derive(Debug, Clone, PartialEq, Eq)]
pub struct SerialStatus {
    pub connected: bool,
    pub port: Option<String>,
}

/// Notice that a dataset is being dispatched.
#[derive(Debug, Clone, PartialEq, Eq)]
pub struct DetectionLoading {
    pub loading: bool,
    pub dataset_id: Option<String>,
}

/// Notice that the dispatch of a dataset failed.
#[derive(Debug, Clone, PartialEq, Eq)]
pub struct DetectionError {
    pub error: String,
    pub dataset_id: Option<String>,
}

/// An event published to the user interface.
#[derive(Debug, Clone, PartialEq, Eq)]
pub enum UiEvent {
    /// `serial:status`
    Status(SerialStatus),
    /// `serial:data`, one display line
    Data(String),
    /// `serial:detection_loading`
    Loading(DetectionLoading),
    /// `serial:detection_result`
    Result(DetectionResponse),
    /// `serial:detection_error`
    Error(DetectionError),
}

pub enum UiEventView {
    Status { connected: bool, port: Option<Seq<char>> },
    Data(Seq<char>),
    Loading { loading: bool, dataset_id: Option<Seq<char>> },
    Result(DetectionResponse),
    Error { error: Seq<char>, dataset_id: Option<Seq<char>> },
}

impl View for UiEvent {
    type V = UiEventView;

    open spec fn view(&self) -> UiEventView {
        match self {
            UiEvent::Status(s) => UiEventView::Status {
                connected: s.connected,
                port: opt_text(s.port),
            },
            UiEvent::Data(line) => UiEventView::Data(line@),
            UiEvent::Loading(l) => UiEventView::Loading {
                loading: l.loading,
                dataset_id: opt_text(l.dataset_id),
            },
            UiEvent::Result(r) => UiEventView::Result(*r),
            UiEvent::Error(e) => UiEventView::Error {
                error: e.error@,
                dataset_id: opt_text(e.dataset_id),
            },
        }
    }
}

impl UiEvent {
    pub open spec fn channel(self) -> Seq<char> {
        match self {
            UiEvent::Status(_) => "serial:status"@,
            UiEvent::Data(_) => "serial:data"@,
            UiEvent::Loading(_) => "serial:detection_loading"@,
            UiEvent::Result(_) => "serial:detection_result"@,
            UiEvent::Error(_) => "serial:detection_error"@,
        }
    }

    /// The name under which the event is published.
    pub fn name(&self) -> (s: &'static str)
        ensures
            s@ == self.channel(),
    {
        match self {
            UiEvent::Status(_) => "serial:status",
            UiEvent::Data(_) => "serial:data",
            UiEvent::Loading(_) => "serial:detection_loading",
            UiEvent::Result(_) => "serial:detection_result",
            UiEvent::Error(_) => "serial:detection_error",
        }
    }
}

/// Pause, in milliseconds, after a failed attempt to open the port and
/// after the port has gone away.
pub const RECONNECT_DELAY_MS: u64 = 500;

/// Time, in milliseconds, that one read waits for data.
pub const READ_TIMEOUT_MS: u64 = 50;

/// The most bytes that one read takes.
pub const READ_MAX_BYTES: usize = 1024;

/// Whether the port is held open.
#[derive(Debug, Clone, Copy, PartialEq, Eq, Structural)]
pub enum ConnectionState {
    Closed,
    Open,
}

/// What the monitor waits for.
#[derive(Debug, Clone, Copy, PartialEq, Eq, Structural)]
pub enum MonitorPhase {
    /// The port is closed; the result of an attempt to open it is awaited.
    Connecting,
    /// The port is open; the result of a read is awaited.
    Reading,
    /// The port is open and a read gave nothing; word on whether the port
    /// is still there is awaited.
    Probing,
}

/// The operation on the port that the monitor asks for next.
#[derive(Debug, Clone, Copy, PartialEq, Eq, Structural)]
pub enum MonitorCommand {
    /// Try to open the port.
    OpenPort,
    /// Read from the port, for at most `READ_TIMEOUT_MS` and `READ_MAX_BYTES`.
    ReadPort,
    /// Look whether the port is among those present.
    CheckPresence,
}

/// The result of an operation on the port.
#[derive(Debug, Clone, PartialEq, Eq)]
pub enum MonitorEvent {
    OpenSucceeded,
    OpenFailed,
    /// A read returned; the chunk may be empty.
    ChunkRead(String),
    /// A read timed out or failed.
    ReadFailed,
    PresenceChecked { present: bool },
}

pub enum MonitorEventView {
    OpenSucceeded,
    OpenFailed,
    ChunkRead(Seq<char>),
    ReadFailed,
    PresenceChecked { present: bool },
}

impl View for MonitorEvent {
    type V = MonitorEventView;

    open spec fn view(&self) -> MonitorEventView {
        match self {
            MonitorEvent::OpenSucceeded => MonitorEventView::OpenSucceeded,
            MonitorEvent::OpenFailed => MonitorEventView::OpenFailed,
            MonitorEvent::ChunkRead(chunk) => MonitorEventView::ChunkRead(chunk@),
            MonitorEvent::ReadFailed => MonitorEventView::ReadFailed,
            MonitorEvent::PresenceChecked { present } => MonitorEventView::PresenceChecked {
                present: *present,
            },
        }
    }
}

/// What the caller is to do after an event, in the order given.
#[derive(Debug, Clone, PartialEq, Eq)]
pub enum MonitorAction {
    /// Publish the event to the user interface.
    Emit(UiEvent),
    /// Start the dispatch of the dataset, without waiting for it.
    Dispatch(CompletedDataset),
    /// Pause for so many milliseconds.
    Sleep { millis: u64 },
    /// Let other tasks run.
    Yield,
}

pub enum MonitorActionView {
    Emit(UiEventView),
    Dispatch(CompletedDatasetView),
    Sleep { millis: u64 },
    Yield,
}

impl View for MonitorAction {
    type V = MonitorActionView;

    open spec fn view(&self) -> MonitorActionView {
        match self {
            MonitorAction::Emit(event) => MonitorActionView::Emit(event@),
            MonitorAction::Dispatch(dataset) => MonitorActionView::Dispatch(dataset@),
            MonitorAction::Sleep { millis } => MonitorActionView::Sleep { millis: *millis },
            MonitorAction::Yield => MonitorActionView::Yield,
        }
    }
}

/// The contents of a list of actions.
pub open spec fn actions_view(actions: Seq<MonitorAction>) -> Seq<MonitorActionView> {
    actions.map_values(|a: MonitorAction| a@)
}

/// The actions that publish the given display lines, in order.
pub open spec fn line_events(lines: Seq<Seq<char>>) -> Seq<MonitorActionView> {
    lines.map_values(|l: Seq<char>| MonitorActionView::Emit(UiEventView::Data(l)))
}

/// The monitor of one serial port: its connection and the data gathered from it.
#[derive(Debug)]
pub struct SerialMonitor {
    port: String,
    baud_rate: u32,
    phase: MonitorPhase,
    data_state: SerialDataState,
}

/// The mathematical content of a [`SerialMonitor`].
pub struct SerialMonitorView {
    pub port: Seq<char>,
    pub baud_rate: u32,
    pub phase: MonitorPhase,
    pub data: SerialDataView,
}

impl View for SerialMonitor {
    type V = SerialMonitorView;

    closed spec fn view(&self) -> SerialMonitorView {
        SerialMonitorView {
            port: self.port@,
            baud_rate: self.baud_rate,
            phase: self.phase,
            data: self.data_state@,
        }
    }
}

impl SerialMonitorView {
    /// Whether the port is held open.
    pub open spec fn connection(self) -> ConnectionState {
        if self.phase == MonitorPhase::Connecting {
            ConnectionState::Closed
        } else {
            ConnectionState::Open
        }
    }

    /// The operation whose result the monitor waits for.
    pub open spec fn awaited(self) -> MonitorCommand {
        match self.phase {
            MonitorPhase::Connecting => MonitorCommand::OpenPort,
            MonitorPhase::Reading => MonitorCommand::ReadPort,
            MonitorPhase::Probing => MonitorCommand::CheckPresence,
        }
    }

    /// Whether `event` is the result of the operation that the monitor waits for.
    pub open spec fn waits_for(self, event: MonitorEventView) -> bool {
        match self.phase {
            MonitorPhase::Connecting => event is OpenSucceeded || event is OpenFailed,
            MonitorPhase::Reading => event is ChunkRead || event is ReadFailed,
            MonitorPhase::Probing => event is PresenceChecked,
        }
    }

    /// The timing marks are set exactly while a dataset is being gathered,
    /// and nothing is being gathered while the port is closed.
    pub open spec fn is_consistent(self) -> bool {
        &&& self.data.timing_matches_buffer()
        &&& self.phase == MonitorPhase::Connecting ==> self.data.csv_buffer.len() == 0
    }

    /// The action that publishes the connection status.
    pub open spec fn status_action(self, connected: bool) -> MonitorActionView {
        MonitorActionView::Emit(UiEventView::Status { connected, port: Some(self.port) })
    }

    /// The action that dispatches the dataset gathered, if there is one.
    pub open spec fn dispatch_actions(self, reason: CompletionReason, now_ms: u64) -> Seq<
        MonitorActionView,
    > {
        match self.data.completed(self.port, self.baud_rate, reason, now_ms) {
            Some(dataset) => seq![MonitorActionView::Dispatch(dataset)],
            None => Seq::<MonitorActionView>::empty(),
        }
    }

    /// The port was opened: the connection is open, the timing starts
    /// afresh, and the status is published.
    pub open spec fn opened(self) -> (SerialMonitorView, Seq<MonitorActionView>) {
        (
            SerialMonitorView {
                phase: MonitorPhase::Reading,
                data: SerialDataView { last_data_at: None, data_start_at: None, ..self.data },
                ..self
            },
            seq![self.status_action(true)],
        )
    }

    /// The port could not be opened: pause, then try again.
    pub open spec fn open_failed(self) -> (SerialMonitorView, Seq<MonitorActionView>) {
        (
            self,
            seq![MonitorActionView::Sleep { millis: RECONNECT_DELAY_MS }, MonitorActionView::Yield],
        )
    }

    /// Data arrived: it joins the dataset, and the display lines it completes are published.
    pub open spec fn received(self, chunk: Seq<char>, now_ms: u64) -> (
        SerialMonitorView,
        Seq<MonitorActionView>,
    ) {
        (
            SerialMonitorView { data: self.data.received(chunk, now_ms), ..self },
            line_events(complete_lines(self.data.line_buffer + chunk)).push(
                MonitorActionView::Yield,
            ),
        )
    }

    /// A read gave nothing: a dataset that has been silent for the idle gap
    /// is dispatched, and the presence of the port is asked for.
    pub open spec fn read_gave_nothing(self, now_ms: u64) -> (
        SerialMonitorView,
        Seq<MonitorActionView>,
    ) {
        if self.data.is_idle(now_ms) {
            (
                SerialMonitorView {
                    phase: MonitorPhase::Probing,
                    data: self.data.flushed(),
                    ..self
                },
                self.dispatch_actions(CompletionReason::IdleTimeout, now_ms),
            )
        } else {
            (
                SerialMonitorView { phase: MonitorPhase::Probing, ..self },
                Seq::<MonitorActionView>::empty(),
            )
        }
    }

    /// The port is still there: go on reading.
    pub open spec fn still_present(self) -> (SerialMonitorView, Seq<MonitorActionView>) {
        (
            SerialMonitorView { phase: MonitorPhase::Reading, ..self },
            seq![MonitorActionView::Yield],
        )
    }

    /// The port has gone: what was gathered is dispatched, the connection is
    /// closed and its status published; after a pause the port is tried again.
    pub open spec fn disconnected(self, now_ms: u64) -> (
        SerialMonitorView,
        Seq<MonitorActionView>,
    ) {
        (
            SerialMonitorView {
                phase: MonitorPhase::Connecting,
                data: self.data.after_completion(),
                ..self
            },
            self.dispatch_actions(CompletionReason::Disconnect, now_ms) + seq![
                self.status_action(false),
                MonitorActionView::Sleep { millis: RECONNECT_DELAY_MS },
                MonitorActionView::Yield,
            ],
        )
    }

    /// The state after `event` at `now_ms`, and the actions to take. An
    /// event that the monitor does not wait for changes nothing and asks
    /// for nothing.
    pub open spec fn step(self, event: MonitorEventView, now_ms: u64) -> (
        SerialMonitorView,
        Seq<MonitorActionView>,
    ) {
        match (self.phase, event) {
            (MonitorPhase::Connecting, MonitorEventView::OpenSucceeded) => self.opened(),
            (MonitorPhase::Connecting, MonitorEventView::OpenFailed) => self.open_failed(),
            (MonitorPhase::Reading, MonitorEventView::ChunkRead(chunk)) => if chunk.len() > 0 {
                self.received(chunk, now_ms)
            } else {
                self.read_gave_nothing(now_ms)
            },
            (MonitorPhase::Reading, MonitorEventView::ReadFailed) => self.read_gave_nothing(now_ms),
            (MonitorPhase::Probing, MonitorEventView::PresenceChecked { present }) => if present {
                self.still_present()
            } else {
                self.disconnected(now_ms)
            },
            _ => (self, Seq::<MonitorActionView>::empty()),
        }
    }
}

impl SerialMonitor {
    /// A monitor for the given port, with the port closed and nothing gathered.
    pub fn new(port: String, baud_rate: u32) -> (monitor: SerialMonitor)
        ensures
            monitor@ == (SerialMonitorView {
                port: port@,
                baud_rate,
                phase: MonitorPhase::Connecting,
                data: SerialDataView {
                    line_buffer: Seq::<char>::empty(),
                    csv_buffer: Seq::<char>::empty(),
                    last_data_at: None,
                    data_start_at: None,
                    idle_gap_ms: IDLE_GAP_MS,
                },
            }),
            monitor@.is_consistent(),
    {
        SerialMonitor {
            port,
            baud_rate,
            phase: MonitorPhase::Connecting,
            data_state: SerialDataState::new(),
        }
    }

    /// The name of the port.
    pub fn port(&self) -> (s: &str)
        ensures
            s@ == self@.port,
    {
        self.port.as_str()
    }

    /// The baud rate at which the port is opened.
    pub fn baud_rate(&self) -> (rate: u32)
        ensures
            rate == self@.baud_rate,
    {
        self.baud_rate
    }

    /// Whether the port is held open.
    pub fn connection(&self) -> (state: ConnectionState)
        ensures
            state == self@.connection(),
    {
        match self.phase {
            MonitorPhase::Connecting => ConnectionState::Closed,
            _ => ConnectionState::Open,
        }
    }

    /// What has been gathered from the port.
    pub fn data_state(&self) -> (data: &SerialDataState)
        ensures
            data@ == self@.data,
    {
        &self.data_state
    }

    /// The operation on the port to perform next.
    pub fn next_command(&self) -> (command: MonitorCommand)
        ensures
            command == self@.awaited(),
    {
        match self.phase {
            MonitorPhase::Connecting => MonitorCommand::OpenPort,
            MonitorPhase::Reading => MonitorCommand::ReadPort,
            MonitorPhase::Probing => MonitorCommand::CheckPresence,
        }
    }

    fn status_event(&self, connected: bool) -> (action: MonitorAction)
        ensures
            action@ == self@.status_action(connected),
    {
        MonitorAction::Emit(
            UiEvent::Status(SerialStatus { connected, port: Some(self.port.clone()) }),
        )
    }

    fn complete(&mut self, reason: CompletionReason, now_ms: u64) -> (actions: Vec<MonitorAction>)
        ensures
            actions_view(actions@) == old(self)@.dispatch_actions(reason, now_ms),
            final(self)@ == (SerialMonitorView {
                data: old(self)@.data.after_completion(),
                ..old(self)@
            }),
    {
        let mut actions: Vec<MonitorAction> = Vec::new();
        match process_completed_dataset(
            &mut self.data_state,
            self.port.as_str(),
            self.baud_rate,
            reason,
            now_ms,
        ) {
            Some(dataset) => {
                actions.push(MonitorAction::Dispatch(dataset));
                assert(actions_view(actions@) == seq![MonitorActionView::Dispatch(dataset@)]);
            },
            None => {
                assert(actions_view(actions@) == Seq::<MonitorActionView>::empty());
            },
        }
        actions
    }

    /// Takes in the result of the operation that was asked for, at `now_ms`,
    /// and says what to do before the next operation.
    pub fn handle(&mut self, event: MonitorEvent, now_ms: u64) -> (actions: Vec<MonitorAction>)
        ensures
            final(self)@ == old(self)@.step(event@, now_ms).0,
            actions_view(actions@) == old(self)@.step(event@, now_ms).1,
    {
        match (self.phase, event) {
            (MonitorPhase::Connecting, MonitorEvent::OpenSucceeded) => {
                let mut actions: Vec<MonitorAction> = Vec::new();
                actions.push(self.status_event(true));
                self.data_state.reset_timing();
                self.phase = MonitorPhase::Reading;
                assert(actions_view(actions@) == seq![old(self)@.status_action(true)]);
                actions
            },
            (MonitorPhase::Connecting, MonitorEvent::OpenFailed) => {
                let mut actions: Vec<MonitorAction> = Vec::new();
                actions.push(MonitorAction::Sleep { millis: RECONNECT_DELAY_MS });
                actions.push(MonitorAction::Yield);
                assert(actions_view(actions@) == old(self)@.open_failed().1);
                actions
            },
            (MonitorPhase::Reading, MonitorEvent::ChunkRead(chunk)) => {
                if chunk.as_str().is_empty() {
                    self.read_gave_nothing(now_ms)
                } else {
                    let lines = process_serial_data_chunk(
                        &mut self.data_state,
                        chunk.as_str(),
                        now_ms,
                    );
                    let mut actions: Vec<MonitorAction> = Vec::new();
                    let mut i: usize = 0;
                    let ghost expected = line_events(texts(lines@));
                    assert(actions_view(actions@) == expected.take(0));
                    while i < lines.len()
                        invariant
                            i <= lines.len(),
                            expected == line_events(texts(lines@)),
                            actions_view(actions@) == expected.take(i as int),
                        decreases lines.len() - i,
                    {
                        let line = lines[i].clone();
                        let action = MonitorAction::Emit(UiEvent::Data(line));
                        proof {
                            assert(action@ == expected[i as int]);
                            assert(actions_view(actions@.push(action)) == actions_view(
                                actions@,
                            ).push(action@));
                            assert(expected.take(i + 1) == expected.take(i as int).push(
                                expected[i as int],
                            ));
                        }
                        actions.push(action);
                        i += 1;
                    }
                    proof {
                        assert(expected.take(lines.len() as int) == expected);
                        assert(actions_view(actions@.push(MonitorAction::Yield)) == actions_view(
                            actions@,
                        ).push(MonitorActionView::Yield));
                    }
                    actions.push(MonitorAction::Yield);
                    actions
                }
            },
            (MonitorPhase::Reading, MonitorEvent::ReadFailed) => self.read_gave_nothing(now_ms),
            (MonitorPhase::Probing, MonitorEvent::PresenceChecked { present }) => {
                if present {
                    let mut actions: Vec<MonitorAction> = Vec::new();
                    actions.push(MonitorAction::Yield);
                    self.phase = MonitorPhase::Reading;
                    assert(actions_view(actions@) == seq![MonitorActionView::Yield]);
                    actions
                } else {
                    let mut actions = self.complete(CompletionReason::Disconnect, now_ms);
                    let ghost dispatched = actions_view(actions@);
                    let status = self.status_event(false);
                    proof {
                        assert(actions_view(actions@.push(status)) == dispatched.push(status@));
                    }
                    actions.push(status);
                    let pause = MonitorAction::Sleep { millis: RECONNECT_DELAY_MS };
                    proof {
                        assert(actions_view(actions@.push(pause)) == actions_view(actions@).push(
                            pause@,
                        ));
                    }
                    actions.push(pause);
                    proof {
                        assert(actions_view(actions@.push(MonitorAction::Yield)) == actions_view(
                            actions@,
                        ).push(MonitorActionView::Yield));
                    }
                    actions.push(MonitorAction::Yield);
                    self.phase = MonitorPhase::Connecting;
                    assert(actions_view(actions@) == old(self)@.disconnected(now_ms).1);
                    actions
                }
            },
            _ => {
                let actions: Vec<MonitorAction> = Vec::new();
                assert(actions_view(actions@) == Seq::<MonitorActionView>::empty());
                actions
            },
        }
    }

    fn read_gave_nothing(&mut self, now_ms: u64) -> (actions: Vec<MonitorAction>)
        requires
            old(self)@.phase == MonitorPhase::Reading,
        ensures
            final(self)@ == old(self)@.read_gave_nothing(now_ms).0,
            actions_view(actions@) == old(self)@.read_gave_nothing(now_ms).1,
    {
        let actions = if self.data_state.is_idle(now_ms) {
            self.complete(CompletionReason::IdleTimeout, now_ms)
        } else {
            let actions: Vec<MonitorAction> = Vec::new();
            assert(actions_view(actions@) == Seq::<MonitorActionView>::empty());
            actions
        };
        self.phase = MonitorPhase::Probing;
        actions
    }
}

} // verus!
