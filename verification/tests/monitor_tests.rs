use ebers_core::detection_client::DetectionResponse;
use ebers_core::framer::{CompletedDataset, CompletionReason};
use ebers_core::serial_handler::{
    ConnectionState, DetectionError, DetectionLoading, MonitorAction, MonitorCommand,
    MonitorEvent, SerialMonitor, SerialStatus, UiEvent, READ_MAX_BYTES, READ_TIMEOUT_MS,
    RECONNECT_DELAY_MS,
};

fn status(connected: bool, port: &str) -> MonitorAction {
    MonitorAction::Emit(UiEvent::Status(SerialStatus {
        connected,
        port: Some(port.to_string()),
    }))
}

fn line(text: &str) -> MonitorAction {
    MonitorAction::Emit(UiEvent::Data(text.to_string()))
}

fn open_monitor() -> SerialMonitor {
    let mut monitor = SerialMonitor::new("COM3".to_string(), 9600);
    monitor.handle(MonitorEvent::OpenSucceeded, 0);
    monitor
}

#[test]
fn starts_closed_and_asks_to_open() {
    let monitor = SerialMonitor::new("COM3".to_string(), 9600);
    assert_eq!(monitor.port(), "COM3");
    assert_eq!(monitor.baud_rate(), 9600);
    assert_eq!(monitor.connection(), ConnectionState::Closed);
    assert_eq!(monitor.next_command(), MonitorCommand::OpenPort);
    assert_eq!(RECONNECT_DELAY_MS, 500);
    assert_eq!(READ_TIMEOUT_MS, 50);
    assert_eq!(READ_MAX_BYTES, 1024);
}

#[test]
fn failed_open_backs_off_and_stays_closed() {
    let mut monitor = SerialMonitor::new("COM3".to_string(), 9600);
    let actions = monitor.handle(MonitorEvent::OpenFailed, 10);
    assert_eq!(
        actions,
        vec![MonitorAction::Sleep { millis: 500 }, MonitorAction::Yield]
    );
    assert_eq!(monitor.connection(), ConnectionState::Closed);
    assert_eq!(monitor.next_command(), MonitorCommand::OpenPort);
}

#[test]
fn successful_open_publishes_status_and_reads() {
    let mut monitor = SerialMonitor::new("COM3".to_string(), 9600);
    let actions = monitor.handle(MonitorEvent::OpenSucceeded, 10);
    assert_eq!(actions, vec![status(true, "COM3")]);
    assert_eq!(monitor.connection(), ConnectionState::Open);
    assert_eq!(monitor.next_command(), MonitorCommand::ReadPort);
}

#[test]
fn chunks_become_lines_and_dataset() {
    let mut monitor = open_monitor();
    let actions = monitor.handle(MonitorEvent::ChunkRead("0,0.0,1.2\r\n1,0.".to_string()), 100);
    assert_eq!(actions, vec![line("0,0.0,1.2"), MonitorAction::Yield]);
    assert_eq!(monitor.next_command(), MonitorCommand::ReadPort);
    let actions = monitor.handle(MonitorEvent::ChunkRead("1,1.3\n".to_string()), 150);
    assert_eq!(actions, vec![line("1,0.1,1.3"), MonitorAction::Yield]);
    assert_eq!(monitor.data_state().csv_buffer(), "0,0.0,1.2\r\n1,0.1,1.3\n");
    assert_eq!(monitor.data_state().data_start_at(), Some(100));
    assert_eq!(monitor.data_state().last_data_at(), Some(150));
}

#[test]
fn idle_gap_dispatches_the_dataset() {
    let mut monitor = open_monitor();
    monitor.handle(MonitorEvent::ChunkRead("0,0.0,1.2\n".to_string()), 1000);
    monitor.handle(MonitorEvent::ChunkRead("1,0.1,1.3\n".to_string()), 1500);

    let actions = monitor.handle(MonitorEvent::ReadFailed, 3499);
    assert_eq!(actions, vec![]);
    assert_eq!(monitor.next_command(), MonitorCommand::CheckPresence);
    let actions = monitor.handle(MonitorEvent::PresenceChecked { present: true }, 3499);
    assert_eq!(actions, vec![MonitorAction::Yield]);
    assert_eq!(monitor.next_command(), MonitorCommand::ReadPort);

    let actions = monitor.handle(MonitorEvent::ReadFailed, 3500);
    assert_eq!(
        actions,
        vec![MonitorAction::Dispatch(CompletedDataset {
            csv_data: "0,0.0,1.2\n1,0.1,1.3\n".to_string(),
            port: "COM3".to_string(),
            baud_rate: 9600,
            collection_duration_ms: 2500,
            reason: CompletionReason::IdleTimeout,
        })]
    );
    assert_eq!(monitor.data_state().csv_buffer(), "");
    assert_eq!(monitor.data_state().last_data_at(), None);
    assert_eq!(monitor.next_command(), MonitorCommand::CheckPresence);
    let actions = monitor.handle(MonitorEvent::PresenceChecked { present: true }, 3500);
    assert_eq!(actions, vec![MonitorAction::Yield]);

    let actions = monitor.handle(MonitorEvent::ReadFailed, 9000);
    assert_eq!(actions, vec![]);
}

#[test]
fn empty_chunk_counts_as_no_data() {
    let mut monitor = open_monitor();
    monitor.handle(MonitorEvent::ChunkRead("5,5,5\n".to_string()), 1000);
    let actions = monitor.handle(MonitorEvent::ChunkRead(String::new()), 3000);
    assert_eq!(actions.len(), 1);
    assert!(matches!(&actions[0], MonitorAction::Dispatch(d) if d.reason == CompletionReason::IdleTimeout));
    assert_eq!(monitor.next_command(), MonitorCommand::CheckPresence);
}

#[test]
fn disconnect_while_gathering_dispatches_once() {
    let mut monitor = open_monitor();
    monitor.handle(MonitorEvent::ChunkRead("0,0.0,1.2\n".to_string()), 1000);
    assert!(!monitor.data_state().is_idle(1200));
    let actions = monitor.handle(MonitorEvent::ReadFailed, 1200);
    assert_eq!(actions, vec![]);
    let actions = monitor.handle(MonitorEvent::PresenceChecked { present: false }, 1200);
    assert_eq!(
        actions,
        vec![
            MonitorAction::Dispatch(CompletedDataset {
                csv_data: "0,0.0,1.2\n".to_string(),
                port: "COM3".to_string(),
                baud_rate: 9600,
                collection_duration_ms: 200,
                reason: CompletionReason::Disconnect,
            }),
            status(false, "COM3"),
            MonitorAction::Sleep { millis: 500 },
            MonitorAction::Yield,
        ]
    );
    let dispatches = actions
        .iter()
        .filter(|a| matches!(a, MonitorAction::Dispatch(_)))
        .count();
    assert_eq!(dispatches, 1);
    assert_eq!(monitor.data_state().csv_buffer(), "");
    assert_eq!(monitor.connection(), ConnectionState::Closed);
    assert_eq!(monitor.next_command(), MonitorCommand::OpenPort);

    let actions = monitor.handle(MonitorEvent::OpenSucceeded, 2000);
    assert_eq!(actions, vec![status(true, "COM3")]);
    let actions = monitor.handle(MonitorEvent::ReadFailed, 9000);
    assert_eq!(actions, vec![]);
}

#[test]
fn disconnect_with_nothing_gathered_dispatches_nothing() {
    let mut monitor = open_monitor();
    monitor.handle(MonitorEvent::ReadFailed, 100);
    let actions = monitor.handle(MonitorEvent::PresenceChecked { present: false }, 100);
    assert_eq!(
        actions,
        vec![
            status(false, "COM3"),
            MonitorAction::Sleep { millis: 500 },
            MonitorAction::Yield,
        ]
    );
    assert_eq!(monitor.connection(), ConnectionState::Closed);
}

#[test]
fn idle_dataset_is_not_dispatched_again_on_disconnect() {
    let mut monitor = open_monitor();
    monitor.handle(MonitorEvent::ChunkRead("0,0.0,1.2\n".to_string()), 1000);
    let first = monitor.handle(MonitorEvent::ReadFailed, 4000);
    assert_eq!(first.len(), 1);
    let second = monitor.handle(MonitorEvent::PresenceChecked { present: false }, 4000);
    assert_eq!(
        second,
        vec![
            status(false, "COM3"),
            MonitorAction::Sleep { millis: 500 },
            MonitorAction::Yield,
        ]
    );
}

#[test]
fn events_that_are_not_awaited_change_nothing() {
    let mut monitor = SerialMonitor::new("COM3".to_string(), 9600);
    assert_eq!(
        monitor.handle(MonitorEvent::ChunkRead("1,2,3\n".to_string()), 5),
        vec![]
    );
    assert_eq!(monitor.handle(MonitorEvent::ReadFailed, 5), vec![]);
    assert_eq!(
        monitor.handle(MonitorEvent::PresenceChecked { present: false }, 5),
        vec![]
    );
    assert_eq!(monitor.data_state().csv_buffer(), "");
    assert_eq!(monitor.next_command(), MonitorCommand::OpenPort);

    let mut monitor = open_monitor();
    assert_eq!(monitor.handle(MonitorEvent::OpenSucceeded, 5), vec![]);
    assert_eq!(monitor.handle(MonitorEvent::OpenFailed, 5), vec![]);
    assert_eq!(
        monitor.handle(MonitorEvent::PresenceChecked { present: true }, 5),
        vec![]
    );
    assert_eq!(monitor.next_command(), MonitorCommand::ReadPort);
}

#[test]
fn event_names() {
    let response = DetectionResponse {
        success: true,
        dataset_id: "d".to_string(),
        probability: 0.5f64.to_bits(),
        confidence: None,
        processed_at: "t".to_string(),
        metadata: None,
    };
    assert_eq!(
        UiEvent::Status(SerialStatus {
            connected: true,
            port: None
        })
        .name(),
        "serial:status"
    );
    assert_eq!(UiEvent::Data("x".to_string()).name(), "serial:data");
    assert_eq!(
        UiEvent::Loading(DetectionLoading {
            loading: true,
            dataset_id: None
        })
        .name(),
        "serial:detection_loading"
    );
    assert_eq!(UiEvent::Result(response).name(), "serial:detection_result");
    assert_eq!(
        UiEvent::Error(DetectionError {
            error: "e".to_string(),
            dataset_id: None
        })
        .name(),
        "serial:detection_error"
    );
}
