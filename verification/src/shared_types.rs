//! Names of test kinds, test states and detection results, as they are
//! written in records and exchanged with the user interface.

use crate::text::str_equals;
use vstd::prelude::*;
use vstd::string::*;

verus! {

/// Test types supported by the system.
#[derive(Debug, Clone, Copy, PartialEq, Eq, Structural)]
pub enum TestType {
    InfectiousDisease,
    Covid19,
    Flu,
    Strep,
}

/// Test status.
#[derive(Debug, Clone, Copy, PartialEq, Eq, Structural)]
pub enum TestStatus {
    Pending,
    InProgress,
    Completed,
    Error,
    Cancelled,
}

/// Detection result.
#[derive(Debug, Clone, Copy, PartialEq, Eq, Structural)]
pub enum DetectionResult {
    Positive,
    Negative,
    Inconclusive,
}

impl TestType {
    /// The name under which the test type is recorded.
    pub open spec fn name(self) -> Seq<char> {
        match self {
            TestType::InfectiousDisease => "infectious_disease"@,
            TestType::Covid19 => "covid19"@,
            TestType::Flu => "flu"@,
            TestType::Strep => "strep"@,
        }
    }

    /// The test type recorded under `s`, if there is one.
    pub open spec fn named(s: Seq<char>) -> Option<TestType> {
        if s == "infectious_disease"@ {
            Some(TestType::InfectiousDisease)
        } else if s == "covid19"@ {
            Some(TestType::Covid19)
        } else if s == "flu"@ {
            Some(TestType::Flu)
        } else if s == "strep"@ {
            Some(TestType::Strep)
        } else {
            None
        }
    }

    pub fn as_str(&self) -> (s: &'static str)
        ensures
            s@ == self.name(),
    {
        match self {
            TestType::InfectiousDisease => "infectious_disease",
            TestType::Covid19 => "covid19",
            TestType::Flu => "flu",
            TestType::Strep => "strep",
        }
    }

    pub fn from_str(s: &str) -> (r: Result<TestType, String>)
        ensures
            match TestType::named(s@) {
                Some(t) => r == Ok::<TestType, String>(t),
                None => r is Err && r->Err_0@ == "Unknown test type: "@ + s@,
            },
    {
        if str_equals(s, "infectious_disease") {
            Ok(TestType::InfectiousDisease)
        } else if str_equals(s, "covid19") {
            Ok(TestType::Covid19)
        } else if str_equals(s, "flu") {
            Ok(TestType::Flu)
        } else if str_equals(s, "strep") {
            Ok(TestType::Strep)
        } else {
            Err(String::from_str("Unknown test type: ").concat(s))
        }
    }

    /// Every test type is found again under its own name, and under no other.
    pub proof fn lemma_name_round_trip(t: TestType, s: Seq<char>)
        ensures
            TestType::named(t.name()) == Some(t),
            TestType::named(s) == Some(t) ==> s == t.name(),
    {
        reveal_strlit("infectious_disease");
        reveal_strlit("covid19");
        reveal_strlit("flu");
        reveal_strlit("strep");
        assert("infectious_disease"@.len() == 18);
        assert("covid19"@.len() == 7);
        assert("flu"@.len() == 3);
        assert("strep"@.len() == 5);
    }
}

impl TestStatus {
    /// The name under which the status is recorded.
    pub open spec fn name(self) -> Seq<char> {
        match self {
            TestStatus::Pending => "pending"@,
            TestStatus::InProgress => "in_progress"@,
            TestStatus::Completed => "completed"@,
            TestStatus::Error => "error"@,
            TestStatus::Cancelled => "cancelled"@,
        }
    }

    /// The status recorded under `s`, if there is one.
    pub open spec fn named(s: Seq<char>) -> Option<TestStatus> {
        if s == "pending"@ {
            Some(TestStatus::Pending)
        } else if s == "in_progress"@ {
            Some(TestStatus::InProgress)
        } else if s == "completed"@ {
            Some(TestStatus::Completed)
        } else if s == "error"@ {
            Some(TestStatus::Error)
        } else if s == "cancelled"@ {
            Some(TestStatus::Cancelled)
        } else {
            None
        }
    }

    pub fn as_str(&self) -> (s: &'static str)
        ensures
            s@ == self.name(),
    {
        match self {
            TestStatus::Pending => "pending",
            TestStatus::InProgress => "in_progress",
            TestStatus::Completed => "completed",
            TestStatus::Error => "error",
            TestStatus::Cancelled => "cancelled",
        }
    }

    pub fn from_str(s: &str) -> (r: Result<TestStatus, String>)
        ensures
            match TestStatus::named(s@) {
                Some(t) => r == Ok::<TestStatus, String>(t),
                None => r is Err && r->Err_0@ == "Unknown test status: "@ + s@,
            },
    {
        if str_equals(s, "pending") {
            Ok(TestStatus::Pending)
        } else if str_equals(s, "in_progress") {
            Ok(TestStatus::InProgress)
        } else if str_equals(s, "completed") {
            Ok(TestStatus::Completed)
        } else if str_equals(s, "error") {
            Ok(TestStatus::Error)
        } else if str_equals(s, "cancelled") {
            Ok(TestStatus::Cancelled)
        } else {
            Err(String::from_str("Unknown test status: ").concat(s))
        }
    }

    /// Every status is found again under its own name, and under no other.
    pub proof fn lemma_name_round_trip(t: TestStatus, s: Seq<char>)
        ensures
            TestStatus::named(t.name()) == Some(t),
            TestStatus::named(s) == Some(t) ==> s == t.name(),
    {
        reveal_strlit("pending");
        reveal_strlit("in_progress");
        reveal_strlit("completed");
        reveal_strlit("error");
        reveal_strlit("cancelled");
        assert("pending"@.len() == 7);
        assert("in_progress"@.len() == 11);
        assert("completed"@.len() == 9);
        assert("error"@.len() == 5);
        assert("cancelled"@.len() == 9);
        assert("completed"@[1] == 'o');
        assert("cancelled"@[1] == 'a');
    }
}

impl DetectionResult {
    /// The name under which the result is recorded.
    pub open spec fn name(self) -> Seq<char> {
        match self {
            DetectionResult::Positive => "positive"@,
            DetectionResult::Negative => "negative"@,
            DetectionResult::Inconclusive => "inconclusive"@,
        }
    }

    /// The result recorded under `s`, if there is one.
    pub open spec fn named(s: Seq<char>) -> Option<DetectionResult> {
        if s == "positive"@ {
            Some(DetectionResult::Positive)
        } else if s == "negative"@ {
            Some(DetectionResult::Negative)
        } else if s == "inconclusive"@ {
            Some(DetectionResult::Inconclusive)
        } else {
            None
        }
    }

    pub fn as_str(&self) -> (s: &'static str)
        ensures
            s@ == self.name(),
    {
        match self {
            DetectionResult::Positive => "positive",
            DetectionResult::Negative => "negative",
            DetectionResult::Inconclusive => "inconclusive",
        }
    }

    pub fn from_str(s: &str) -> (r: Result<DetectionResult, String>)
        ensures
            match DetectionResult::named(s@) {
                Some(t) => r == Ok::<DetectionResult, String>(t),
                None => r is Err && r->Err_0@ == "Unknown detection result: "@ + s@,
            },
    {
        if str_equals(s, "positive") {
            Ok(DetectionResult::Positive)
        } else if str_equals(s, "negative") {
            Ok(DetectionResult::Negative)
        } else if str_equals(s, "inconclusive") {
            Ok(DetectionResult::Inconclusive)
        } else {
            Err(String::from_str("Unknown detection result: ").concat(s))
        }
    }

    /// Every result is found again under its own name, and under no other.
    pub proof fn lemma_name_round_trip(t: DetectionResult, s: Seq<char>)
        ensures
            DetectionResult::named(t.name()) == Some(t),
            DetectionResult::named(s) == Some(t) ==> s == t.name(),
    {
        reveal_strlit("positive");
        reveal_strlit("negative");
        reveal_strlit("inconclusive");
        assert("positive"@.len() == 8);
        assert("negative"@.len() == 8);
        assert("inconclusive"@.len() == 12);
        assert("positive"@[0] == 'p');
        assert("negative"@[0] == 'n');
    }
}

} // verus!
