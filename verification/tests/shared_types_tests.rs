use ebers_core::shared_types::{DetectionResult, TestStatus, TestType};

#[test]
fn test_type_names_round_trip() {
    for t in [
        TestType::InfectiousDisease,
        TestType::Covid19,
        TestType::Flu,
        TestType::Strep,
    ] {
        assert_eq!(TestType::from_str(t.as_str()), Ok(t));
    }
    assert_eq!(TestType::InfectiousDisease.as_str(), "infectious_disease");
    assert_eq!(TestType::Covid19.as_str(), "covid19");
    assert_eq!(TestType::Flu.as_str(), "flu");
    assert_eq!(TestType::Strep.as_str(), "strep");
    assert_eq!(
        TestType::from_str("Flu"),
        Err("Unknown test type: Flu".to_string())
    );
    assert_eq!(
        TestType::from_str(""),
        Err("Unknown test type: ".to_string())
    );
}

#[test]
fn test_status_names_round_trip() {
    for t in [
        TestStatus::Pending,
        TestStatus::InProgress,
        TestStatus::Completed,
        TestStatus::Error,
        TestStatus::Cancelled,
    ] {
        assert_eq!(TestStatus::from_str(t.as_str()), Ok(t));
    }
    assert_eq!(TestStatus::Pending.as_str(), "pending");
    assert_eq!(TestStatus::InProgress.as_str(), "in_progress");
    assert_eq!(TestStatus::Completed.as_str(), "completed");
    assert_eq!(TestStatus::Error.as_str(), "error");
    assert_eq!(TestStatus::Cancelled.as_str(), "cancelled");
    assert_eq!(
        TestStatus::from_str("done"),
        Err("Unknown test status: done".to_string())
    );
}

#[test]
fn detection_result_names_round_trip() {
    for t in [
        DetectionResult::Positive,
        DetectionResult::Negative,
        DetectionResult::Inconclusive,
    ] {
        assert_eq!(DetectionResult::from_str(t.as_str()), Ok(t));
    }
    assert_eq!(DetectionResult::Positive.as_str(), "positive");
    assert_eq!(DetectionResult::Negative.as_str(), "negative");
    assert_eq!(DetectionResult::Inconclusive.as_str(), "inconclusive");
    assert_eq!(
        DetectionResult::from_str("maybe"),
        Err("Unknown detection result: maybe".to_string())
    );
}
