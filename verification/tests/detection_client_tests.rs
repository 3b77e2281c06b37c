use ebers_core::detection_client::{
    assemble_detection_request, backoff_ms, create_detection_request,
    network_failure, reply_schema, ApiErrorDetails, AttemptOutcome, DetectStep, DetectionApiClient,
    DetectionResponse, NetworkFailure, ReplySchema, MAX_RETRIES, REQUEST_TIMEOUT_SECS,
};

fn sample_response() -> DetectionResponse {
    DetectionResponse {
        success: true,
        dataset_id: "abc".to_string(),
        probability: 0.75f64.to_bits(),
        confidence: Some(0.5f64.to_bits()),
        processed_at: "2024-01-01T00:00:00Z".to_string(),
        metadata: None,
    }
}

fn connect_failure() -> AttemptOutcome {
    AttemptOutcome::Network(NetworkFailure::ConnectFailure)
}

#[test]
fn backoff_doubles_from_one_second() {
    assert_eq!(backoff_ms(1), 1000);
    assert_eq!(backoff_ms(2), 2000);
    assert_eq!(backoff_ms(3), 4000);
    assert_eq!(backoff_ms(11), 1_024_000);
    assert_eq!(backoff_ms(54), 1000 * (1u64 << 53));
    assert_eq!(backoff_ms(55), 1000 * (1u64 << 54));
    assert_eq!(backoff_ms(55), 18_014_398_509_481_984_000);
}

#[test]
fn client_defaults() {
    let client = DetectionApiClient::new("http://localhost:8000/api/detect".to_string());
    assert_eq!(client.endpoint(), "http://localhost:8000/api/detect");
    assert_eq!(client.max_retries(), 3);
    assert_eq!(MAX_RETRIES, 3);
    assert_eq!(REQUEST_TIMEOUT_SECS, 30);
    let copy = client.clone();
    assert_eq!(copy.endpoint(), client.endpoint());
    assert_eq!(copy.max_retries(), client.max_retries());
    let session = client.start();
    assert_eq!(session.attempt(), 1);
    assert_eq!(session.last_error(), "");
}

#[test]
fn connect_failures_retry_three_times_then_give_up() {
    let client = DetectionApiClient::new("http://localhost:1".to_string());
    let mut session = client.start();
    let mut delays = Vec::new();
    let mut attempts = 0;
    let result = loop {
        attempts += 1;
        match client.detect(session, connect_failure()) {
            DetectStep::Finished(result) => break result,
            DetectStep::Retry {
                delay_ms,
                session: next,
            } => {
                delays.push(delay_ms);
                assert_eq!(next.attempt(), attempts + 1);
                assert_eq!(
                    next.last_error(),
                    "Cannot connect to API - check if the service is running"
                );
                session = next;
            }
        }
    };
    assert_eq!(attempts, 3);
    assert_eq!(delays, vec![1000, 2000]);
    let error = result.unwrap_err();
    assert_eq!(
        error,
        "Failed after 3 attempts. Last error: Cannot connect to API - check if the service is running"
    );
    assert!(error.contains("3"));
}

#[test]
fn structured_rejection_returns_at_once() {
    let client = DetectionApiClient::new("http://localhost:1".to_string());
    let outcome = AttemptOutcome::Rejected {
        status: 422,
        error: Some(ApiErrorDetails {
            code: "BAD_DATA".to_string(),
            message: "too few rows".to_string(),
            details: Some("need 10".to_string()),
        }),
    };
    let step = client.detect(client.start(), outcome);
    assert_eq!(
        step,
        DetectStep::Finished(Err("API error [BAD_DATA]: too few rows".to_string()))
    );
}

#[test]
fn unstructured_rejection_names_the_status() {
    let client = DetectionApiClient::new("http://localhost:1".to_string());
    let outcome = AttemptOutcome::Rejected {
        status: 503,
        error: None,
    };
    let step = client.detect(client.start(), outcome);
    assert_eq!(
        step,
        DetectStep::Finished(Err("API returned error status: 503".to_string()))
    );
}

#[test]
fn success_ends_the_request_on_any_attempt() {
    let client = DetectionApiClient::new("http://localhost:1".to_string());
    let step = client.detect(client.start(), AttemptOutcome::Success(sample_response()));
    assert_eq!(step, DetectStep::Finished(Ok(sample_response())));

    let first = client.detect(
        client.start(),
        AttemptOutcome::Network(NetworkFailure::Timeout),
    );
    let session = match first {
        DetectStep::Retry { delay_ms, session } => {
            assert_eq!(delay_ms, 1000);
            assert_eq!(
                session.last_error(),
                "Request timeout - API took too long to respond"
            );
            session
        }
        other => panic!("unexpected step {:?}", other),
    };
    let second = client.detect(session, AttemptOutcome::Success(sample_response()));
    assert_eq!(second, DetectStep::Finished(Ok(sample_response())));
}

#[test]
fn malformed_success_body_is_retried() {
    let client = DetectionApiClient::new("http://localhost:1".to_string());
    let outcome = AttemptOutcome::MalformedBody("missing field `probability`".to_string());
    assert_eq!(
        outcome.failure_message(),
        "Failed to parse API response: missing field `probability`"
    );
    match client.detect(client.start(), outcome) {
        DetectStep::Retry { delay_ms, session } => {
            assert_eq!(delay_ms, 1000);
            assert_eq!(session.attempt(), 2);
        }
        other => panic!("unexpected step {:?}", other),
    }
}

#[test]
fn last_failure_is_the_one_reported() {
    let client = DetectionApiClient::new("http://localhost:1".to_string());
    let s1 = match client.detect(client.start(), connect_failure()) {
        DetectStep::Retry { session, .. } => session,
        other => panic!("unexpected step {:?}", other),
    };
    let s2 = match client.detect(s1, AttemptOutcome::Network(NetworkFailure::Timeout)) {
        DetectStep::Retry { delay_ms, session } => {
            assert_eq!(delay_ms, 2000);
            session
        }
        other => panic!("unexpected step {:?}", other),
    };
    let last = AttemptOutcome::Network(NetworkFailure::Other("connection reset".to_string()));
    assert_eq!(
        client.detect(s2, last),
        DetectStep::Finished(Err(
            "Failed after 3 attempts. Last error: Network error: connection reset".to_string()
        ))
    );
}

#[test]
fn failure_messages() {
    assert_eq!(AttemptOutcome::Success(sample_response()).failure_message(), "");
    assert_eq!(
        AttemptOutcome::Network(NetworkFailure::Timeout).failure_message(),
        "Request timeout - API took too long to respond"
    );
    assert_eq!(
        connect_failure().failure_message(),
        "Cannot connect to API - check if the service is running"
    );
    assert_eq!(
        AttemptOutcome::Network(NetworkFailure::Other("dns".to_string())).failure_message(),
        "Network error: dns"
    );
    assert_eq!(
        AttemptOutcome::Rejected {
            status: 65535,
            error: None
        }
        .failure_message(),
        "API returned error status: 65535"
    );
}

#[test]
fn success_statuses_are_200_to_299() {
    assert_eq!(reply_schema(199), ReplySchema::ApiError);
    assert_eq!(reply_schema(200), ReplySchema::Detection);
    assert_eq!(reply_schema(204), ReplySchema::Detection);
    assert_eq!(reply_schema(299), ReplySchema::Detection);
    assert_eq!(reply_schema(300), ReplySchema::ApiError);
    assert_eq!(reply_schema(404), ReplySchema::ApiError);
    assert_eq!(reply_schema(500), ReplySchema::ApiError);
}

#[test]
fn network_failure_prefers_timeout_then_connect() {
    assert_eq!(
        network_failure(true, true, "x".to_string()),
        NetworkFailure::Timeout
    );
    assert_eq!(
        network_failure(true, false, "x".to_string()),
        NetworkFailure::Timeout
    );
    assert_eq!(
        network_failure(false, true, "x".to_string()),
        NetworkFailure::ConnectFailure
    );
    assert_eq!(
        network_failure(false, false, "x".to_string()),
        NetworkFailure::Other("x".to_string())
    );
}

#[test]
fn builder_error_is_neither_timeout_nor_connect() {
    let error = reqwest::Client::new()
        .get("not a url")
        .build()
        .unwrap_err();
    let description = error.to_string();
    assert!(!description.is_empty());
    assert_eq!(
        network_failure(error.is_timeout(), error.is_connect(), description.clone()),
        NetworkFailure::Other(description)
    );
}

#[test]
fn request_from_two_rows() {
    let request =
        create_detection_request("0,0.0,1.2\n1,0.1,1.3\n", "COM3".to_string(), 9600, 500).unwrap();
    assert_eq!(request.row_count, 2);
    assert_eq!(request.data.len(), 2);
    assert_eq!(request.data[0].index, 0);
    assert_eq!(request.data[0].timestamp.parse::<f64>().unwrap(), 0.0);
    assert_eq!(request.data[0].value.parse::<f64>().unwrap(), 1.2);
    assert_eq!(request.data[1].index, 1);
    assert_eq!(request.data[1].timestamp.parse::<f64>().unwrap(), 0.1);
    assert_eq!(request.data[1].value.parse::<f64>().unwrap(), 1.3);
    assert_eq!(request.metadata.port, "COM3");
    assert_eq!(request.metadata.baud_rate, 9600);
    assert_eq!(request.metadata.collection_duration_ms, 500);
}

#[test]
fn request_is_refused_with_the_parse_error() {
    assert_eq!(
        create_detection_request("0,0.0\n", "COM3".to_string(), 9600, 500).unwrap_err(),
        "Invalid CSV format at line 1: expected 3 columns, got 2"
    );
    assert_eq!(
        create_detection_request("", "COM3".to_string(), 9600, 500).unwrap_err(),
        "No valid data points found in CSV"
    );
}

#[test]
fn dataset_ids_are_fresh_version_4_uuids() {
    let a = create_detection_request("0,0,0", "p".to_string(), 1, 0).unwrap();
    let b = create_detection_request("0,0,0", "p".to_string(), 1, 0).unwrap();
    assert_ne!(a.dataset_id, b.dataset_id);
    for id in [&a.dataset_id, &b.dataset_id] {
        let chars: Vec<char> = id.chars().collect();
        assert_eq!(chars.len(), 36);
        for (i, c) in chars.iter().enumerate() {
            if i == 8 || i == 13 || i == 18 || i == 23 {
                assert_eq!(*c, '-');
            } else {
                assert!(matches!(*c, '0'..='9' | 'a'..='f'), "character {:?}", c);
            }
        }
        assert_eq!(chars[14], '4');
        assert!(matches!(chars[19], '8' | '9' | 'a' | 'b'));
        assert_eq!(uuid::Uuid::parse_str(id).unwrap().get_version_num(), 4);
    }
}

#[test]
fn request_timestamp_is_rfc_3339_and_current() {
    let before = chrono::Utc::now();
    let request = create_detection_request("0,0,0", "p".to_string(), 1, 0).unwrap();
    let after = chrono::Utc::now();
    let stamp = chrono::DateTime::parse_from_rfc3339(&request.timestamp).unwrap();
    assert!(before <= stamp && stamp <= after);
    assert!(request.timestamp.ends_with("+00:00"));
}

#[test]
fn request_timestamp_has_the_utc_shape() {
    let request = create_detection_request("0,0,0", "p".to_string(), 1, 0).unwrap();
    let chars: Vec<char> = request.timestamp.chars().collect();
    let fraction = chars.len() - 25;
    assert!(matches!(fraction, 0 | 4 | 7 | 10), "text {:?}", request.timestamp);
    for (i, c) in chars.iter().enumerate().take(19) {
        match i {
            4 | 7 => assert_eq!(*c, '-'),
            10 => assert_eq!(*c, 'T'),
            13 | 16 => assert_eq!(*c, ':'),
            _ => assert!(c.is_ascii_digit(), "character {:?} at {}", c, i),
        }
    }
    if fraction > 0 {
        assert_eq!(chars[19], '.');
        assert!(chars[20..19 + fraction].iter().all(|c| c.is_ascii_digit()));
    }
    let offset: String = chars[19 + fraction..].iter().collect();
    assert_eq!(offset, "+00:00");
}

#[test]
fn assembled_request_counts_its_rows() {
    let rows = ebers_core::csv::parse_csv_data("5,1,2\n6,3,4\n7,5,6").unwrap();
    let request = assemble_detection_request(
        rows.clone(),
        "id".to_string(),
        "now".to_string(),
        "COM9".to_string(),
        57600,
        1234,
    );
    assert_eq!(request.dataset_id, "id");
    assert_eq!(request.timestamp, "now");
    assert_eq!(request.row_count, 3);
    assert_eq!(request.data, rows);
    assert_eq!(request.metadata.port, "COM9");
    assert_eq!(request.metadata.baud_rate, 57600);
    assert_eq!(request.metadata.collection_duration_ms, 1234);
}
