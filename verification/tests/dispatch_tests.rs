use ebers_core::detection_client::{create_detection_request, DetectionResponse};
use ebers_core::dispatch::{
    begin_dispatch, conclude_dispatch, open_dispatch, DispatchAction, OutcomeRecord,
};
use ebers_core::framer::{CompletedDataset, CompletionReason};
use ebers_core::serial_handler::{DetectionError, DetectionLoading, UiEvent};

fn dataset(csv: &str) -> CompletedDataset {
    CompletedDataset {
        csv_data: csv.to_string(),
        port: "COM3".to_string(),
        baud_rate: 9600,
        collection_duration_ms: 500,
        reason: CompletionReason::IdleTimeout,
    }
}

fn loading(dataset_id: Option<&str>) -> DispatchAction {
    DispatchAction::Emit(UiEvent::Loading(DetectionLoading {
        loading: true,
        dataset_id: dataset_id.map(|s| s.to_string()),
    }))
}

fn response(dataset_id: &str) -> DetectionResponse {
    DetectionResponse {
        success: true,
        dataset_id: dataset_id.to_string(),
        probability: 0.9f64.to_bits(),
        confidence: Some(0.8f64.to_bits()),
        processed_at: "t".to_string(),
        metadata: None,
    }
}

#[test]
fn dispatch_opens_with_loading_then_identifier_then_pending_record() {
    let start = begin_dispatch(&dataset("0,0.0,1.2\n1,0.1,1.3\n"));
    let request = start.request.unwrap();
    assert_eq!(request.row_count, 2);
    assert_eq!(request.metadata.port, "COM3");
    assert_eq!(request.metadata.baud_rate, 9600);
    assert_eq!(request.metadata.collection_duration_ms, 500);
    assert_eq!(
        start.actions,
        vec![
            loading(None),
            loading(Some(&request.dataset_id)),
            DispatchAction::Persist(OutcomeRecord::Pending {
                dataset_id: request.dataset_id.clone(),
                port: "COM3".to_string(),
                baud_rate: 9600,
                collection_duration_ms: 500,
            }),
        ]
    );
}

#[test]
fn dispatch_of_a_malformed_dataset_ends_with_the_parse_error() {
    let start = begin_dispatch(&dataset("0,0.0,1.2\nbad row\n"));
    assert_eq!(start.request, None);
    assert_eq!(
        start.actions,
        vec![
            loading(None),
            DispatchAction::Emit(UiEvent::Error(DetectionError {
                error:
                    "Failed to parse CSV data: Invalid CSV format at line 2: expected 3 columns, got 1"
                        .to_string(),
                dataset_id: None
            })),
        ]
    );
}

#[test]
fn open_dispatch_passes_the_request_on() {
    let request = create_detection_request("1,2,3", "COM3".to_string(), 9600, 1).unwrap();
    let start = open_dispatch(Ok(request.clone()));
    assert_eq!(start.request, Some(request));
    assert_eq!(start.actions.len(), 3);
    let start = open_dispatch(Err("nothing".to_string()));
    assert_eq!(start.request, None);
    assert_eq!(
        start.actions,
        vec![
            loading(None),
            DispatchAction::Emit(UiEvent::Error(DetectionError {
                error: "Failed to parse CSV data: nothing".to_string(),
                dataset_id: None
            })),
        ]
    );
}

#[test]
fn success_is_recorded_then_published() {
    assert_eq!(
        conclude_dispatch("d1".to_string(), Ok(response("d1"))),
        vec![
            DispatchAction::Persist(OutcomeRecord::Success {
                dataset_id: "d1".to_string(),
                response: response("d1"),
            }),
            DispatchAction::Emit(UiEvent::Result(response("d1"))),
        ]
    );
}

#[test]
fn failure_is_recorded_then_published_with_the_identifier() {
    let error = "Failed after 3 attempts. Last error: x".to_string();
    assert_eq!(
        conclude_dispatch("d1".to_string(), Err(error.clone())),
        vec![
            DispatchAction::Persist(OutcomeRecord::Error {
                dataset_id: "d1".to_string(),
                error: error.clone(),
            }),
            DispatchAction::Emit(UiEvent::Error(DetectionError {
                error,
                dataset_id: Some("d1".to_string())
            })),
        ]
    );
}

#[test]
fn outcome_records_name_their_state_and_dataset() {
    let pending = OutcomeRecord::Pending {
        dataset_id: "a".to_string(),
        port: "COM3".to_string(),
        baud_rate: 9600,
        collection_duration_ms: 1,
    };
    let success = OutcomeRecord::Success {
        dataset_id: "b".to_string(),
        response: response("b"),
    };
    let error = OutcomeRecord::Error {
        dataset_id: "c".to_string(),
        error: "e".to_string(),
    };
    assert_eq!(pending.status(), "pending");
    assert_eq!(success.status(), "success");
    assert_eq!(error.status(), "error");
    assert_eq!(pending.dataset_id(), "a");
    assert_eq!(success.dataset_id(), "b");
    assert_eq!(error.dataset_id(), "c");
}

#[test]
fn copies_of_a_response_are_equal() {
    let mut detection = response("x");
    detection.metadata = Some(ebers_core::detection_client::ResponseMetadata {
        model_version: Some("v2".to_string()),
        processing_time_ms: Some(12),
    });
    let copy = detection.clone();
    assert_eq!(copy, detection);
}
