//! The detection service: the request built from a completed dataset, the
//! replies of the service, and the policy by which a request is retried.
//!
//! The caller performs the HTTP exchange. It tells the library how each
//! attempt ended, as an [`AttemptOutcome`], and the library answers with the
//! next [`DetectStep`]: the final result, or the delay before the next attempt.
//! Failures of the connection are retried with a delay that doubles from
//! one second; a reply by which the service rejects the request is final.

use crate::csv::{parse_csv, parse_csv_data, points_view, DataPoint, DataPointView};
use crate::numeric::all_digits;
use crate::text::{decimal, is_digit, push_decimal};
use vstd::arithmetic::power2::{
    lemma2_to64, lemma2_to64_rest, lemma_pow2_strictly_increases, lemma_pow2_unfold, pow2,
};
use vstd::prelude::*;
use vstd::string::*;

verus! {

/// Attempts made for one request before it is given up.
pub const MAX_RETRIES: u32 = 3;

/// Seconds after which one HTTP exchange is abandoned.
pub const REQUEST_TIMEOUT_SECS: u64 = 30;

/// Delay before the second attempt, in milliseconds.
pub const BASE_BACKOFF_MS: u64 = 1000;

/// The largest attempt number whose delay fits in 64 bits.
pub const MAX_BACKOFF_ATTEMPT: u32 = 55;

/// Metadata about the data collection.
#[derive(Debug, Clone, PartialEq, Eq)]
pub struct DatasetMetadata {
    pub port: String,
    pub baud_rate: u32,
    pub collection_duration_ms: u64,
}

pub struct DatasetMetadataView {
    pub port: Seq<char>,
    pub baud_rate: u32,
    pub collection_duration_ms: u64,
}

impl View for DatasetMetadata {
    type V = DatasetMetadataView;

    open spec fn view(&self) -> DatasetMetadataView {
        DatasetMetadataView {
            port: self.port@,
            baud_rate: self.baud_rate,
            collection_duration_ms: self.collection_duration_ms,
        }
    }
}

/// Request payload sent to the detection service.
#[derive(Debug, Clone, PartialEq, Eq)]
pub struct DetectionRequest {
    pub dataset_id: String,
    pub timestamp: String,
    pub row_count: usize,
    pub data: Vec<DataPoint>,
    pub metadata: DatasetMetadata,
}

pub struct DetectionRequestView {
    pub dataset_id: Seq<char>,
    pub timestamp: Seq<char>,
    pub row_count: usize,
    pub data: Seq<DataPointView>,
    pub metadata: DatasetMetadataView,
}

impl View for DetectionRequest {
    type V = DetectionRequestView;

    open spec fn view(&self) -> DetectionRequestView {
        DetectionRequestView {
            dataset_id: self.dataset_id@,
            timestamp: self.timestamp@,
            row_count: self.row_count,
            data: points_view(self.data@),
            metadata: self.metadata@,
        }
    }
}

/// Metadata returned with a detection.
#[derive(Debug, PartialEq, Eq)]
pub struct ResponseMetadata {
    pub model_version: Option<String>,
    pub processing_time_ms: Option<u64>,
}

impl Clone for ResponseMetadata {
    fn clone(&self) -> (copy: ResponseMetadata)
        ensures
            copy == *self,
    {
        ResponseMetadata {
            model_version: match &self.model_version {
                Some(version) => Some(version.clone()),
                None => None,
            },
            processing_time_ms: self.processing_time_ms,
        }
    }
}

/// Successful reply of the detection service. The two measures are carried
/// as the bit patterns of their IEEE 754 double-precision values.
#[derive(Debug, PartialEq, Eq)]
pub struct DetectionResponse {
    pub success: bool,
    pub dataset_id: String,
    pub probability: u64,
    pub confidence: Option<u64>,
    pub processed_at: String,
    pub metadata: Option<ResponseMetadata>,
}

impl Clone for DetectionResponse {
    fn clone(&self) -> (copy: DetectionResponse)
        ensures
            copy == *self,
    {
        DetectionResponse {
            success: self.success,
            dataset_id: self.dataset_id.clone(),
            probability: self.probability,
            confidence: self.confidence,
            processed_at: self.processed_at.clone(),
            metadata: match &self.metadata {
                Some(metadata) => Some(metadata.clone()),
                None => None,
            },
        }
    }
}

/// Error details from the service.
#[derive(Debug, Clone, PartialEq, Eq)]
pub struct ApiErrorDetails {
    pub code: String,
    pub message: String,
    pub details: Option<String>,
}

/// Reply by which the service rejects a request.
#[derive(Debug, Clone, PartialEq, Eq)]
pub struct DetectionErrorResponse {
    pub success: bool,
    pub error: ApiErrorDetails,
}

/// How an HTTP exchange failed before any reply arrived.
#[derive(Debug, Clone, PartialEq, Eq)]
pub enum NetworkFailure {
    /// The service took longer than the request timeout.
    Timeout,
    /// No connection could be made.
    ConnectFailure,
    /// Any other failure, with its description.
    Other(String),
}

/// How one attempt to deliver a request ended.
#[derive(Debug, Clone, PartialEq, Eq)]
pub enum AttemptOutcome {
    /// A reply with a success status and a well-formed body.
    Success(DetectionResponse),
    /// A reply with a success status whose body is no detection; the text
    /// says what is wrong with it.
    MalformedBody(String),
    /// A reply with any other status, and its error details if the body held them.
    Rejected { status: u16, error: Option<ApiErrorDetails> },
    /// No reply.
    Network(NetworkFailure),
}

/// Which body a reply with the given status is expected to carry.
#[derive(Debug, Clone, Copy, PartialEq, Eq, Structural)]
pub enum ReplySchema {
    Detection,
    ApiError,
}

/// Success statuses are 200 to 299.
pub open spec fn is_success_status(status: u16) -> bool {
    200 <= status <= 299
}

/// The body to decode from a reply with the given status.
pub fn reply_schema(status: u16) -> (schema: ReplySchema)
    ensures
        schema == if is_success_status(status) {
            ReplySchema::Detection
        } else {
            ReplySchema::ApiError
        },
{
    if 200 <= status && status <= 299 {
        ReplySchema::Detection
    } else {
        ReplySchema::ApiError
    }
}

/// Delay before the attempt that follows attempt number `attempt`: one
/// second after the first, doubling with each further attempt.
pub open spec fn backoff_delay_ms(attempt: nat) -> nat {
    1000 * pow2((attempt - 1) as nat)
}

/// The delay to wait after attempt number `attempt` has failed.
pub fn backoff_ms(attempt: u32) -> (delay: u64)
    requires
        1 <= attempt <= MAX_BACKOFF_ATTEMPT,
    ensures
        delay == backoff_delay_ms(attempt as nat),
{
    let mut delay: u64 = BASE_BACKOFF_MS;
    let mut k: u32 = 1;
    proof {
        lemma2_to64();
    }
    while k < attempt
        invariant
            1 <= k <= attempt <= MAX_BACKOFF_ATTEMPT,
            delay == backoff_delay_ms(k as nat),
        decreases attempt - k,
    {
        proof {
            lemma_pow2_unfold(k as nat);
            lemma2_to64_rest();
            if k < 54 {
                lemma_pow2_strictly_increases((k - 1) as nat, 53);
            }
        }
        delay = delay * 2;
        k += 1;
    }
    delay
}

impl AttemptOutcome {
    /// Whether the attempt may be repeated: failures of the exchange are,
    /// a delivered detection and a rejection are not.
    pub open spec fn is_retryable(self) -> bool {
        self is MalformedBody || self is Network
    }

    /// The failure in words; empty for a success.
    pub open spec fn failure_text(self) -> Seq<char> {
        match self {
            AttemptOutcome::Success(_) => Seq::<char>::empty(),
            AttemptOutcome::MalformedBody(detail) => "Failed to parse API response: "@ + detail@,
            AttemptOutcome::Rejected { status, error } => match error {
                Some(e) => "API error ["@ + e.code@ + "]: "@ + e.message@,
                None => "API returned error status: "@ + decimal(status as nat),
            },
            AttemptOutcome::Network(failure) => match failure {
                NetworkFailure::Timeout => "Request timeout - API took too long to respond"@,
                NetworkFailure::ConnectFailure =>
                    "Cannot connect to API - check if the service is running"@,
                NetworkFailure::Other(detail) => "Network error: "@ + detail@,
            },
        }
    }

    /// The failure in words; empty for a success.
    pub fn failure_message(&self) -> (s: String)
        ensures
            s@ == self.failure_text(),
    {
        match self {
            AttemptOutcome::Success(_) => String::new(),
            AttemptOutcome::MalformedBody(detail) => String::from_str(
                "Failed to parse API response: ",
            ).concat(detail.as_str()),
            AttemptOutcome::Rejected { status, error } => match error {
                Some(e) => {
                    let mut s = String::from_str("API error [");
                    s.append(e.code.as_str());
                    s.append("]: ");
                    s.append(e.message.as_str());
                    s
                },
                None => {
                    let mut s = String::from_str("API returned error status: ");
                    push_decimal(&mut s, *status as u64);
                    s
                },
            },
            AttemptOutcome::Network(failure) => match failure {
                NetworkFailure::Timeout => String::from_str(
                    "Request timeout - API took too long to respond",
                ),
                NetworkFailure::ConnectFailure => String::from_str(
                    "Cannot connect to API - check if the service is running",
                ),
                NetworkFailure::Other(detail) => String::from_str("Network error: ").concat(
                    detail.as_str(),
                ),
            },
        }
    }
}

/// The failure that the signs of a transport error stand for: a timeout
/// before anything else, then a failed connection, then the description.
/// The caller reads the three signs off the error with which its HTTP
/// client gave up the exchange.
pub fn network_failure(timed_out: bool, connect_failed: bool, description: String) -> (failure:
    NetworkFailure)
    ensures
        timed_out ==> failure is Timeout,
        !timed_out && connect_failed ==> failure is ConnectFailure,
        !timed_out && !connect_failed ==> failure == NetworkFailure::Other(description),
{
    if timed_out {
        NetworkFailure::Timeout
    } else if connect_failed {
        NetworkFailure::ConnectFailure
    } else {
        NetworkFailure::Other(description)
    }
}

/// The retry state of one request: the number of the attempt under way,
/// counted from 1, and the failure of the attempt before it.
#[derive(Debug, PartialEq, Eq)]
pub struct RetrySession {
    attempt: u32,
    last_error: String,
}

pub struct RetrySessionView {
    pub attempt: u32,
    pub last_error: Seq<char>,
}

impl View for RetrySession {
    type V = RetrySessionView;

    closed spec fn view(&self) -> RetrySessionView {
        RetrySessionView { attempt: self.attempt, last_error: self.last_error@ }
    }
}

impl RetrySession {
    #[verifier::type_invariant]
    spec fn attempt_is_counted_from_one(self) -> bool {
        self.attempt >= 1
    }

    /// The number of the attempt under way, counted from 1.
    pub fn attempt(&self) -> (n: u32)
        ensures
            n == self@.attempt,
            n >= 1,
    {
        proof {
            use_type_invariant(self);
        }
        self.attempt
    }

    /// The failure of the attempt before this one; empty during the first.
    pub fn last_error(&self) -> (s: &str)
        ensures
            s@ == self@.last_error,
    {
        self.last_error.as_str()
    }
}

/// What follows an attempt.
#[derive(Debug, PartialEq, Eq)]
pub enum DetectStep {
    /// The request is done, with a detection or with the error to report.
    Finished(Result<DetectionResponse, String>),
    /// Wait for `delay_ms` milliseconds, then make the next attempt.
    Retry { delay_ms: u64, session: RetrySession },
}

pub enum DetectStepView {
    Succeeded(DetectionResponse),
    Failed(Seq<char>),
    Retry { delay_ms: u64, attempt: u32, last_error: Seq<char> },
}

impl View for DetectStep {
    type V = DetectStepView;

    open spec fn view(&self) -> DetectStepView {
        match self {
            DetectStep::Finished(Ok(response)) => DetectStepView::Succeeded(*response),
            DetectStep::Finished(Err(message)) => DetectStepView::Failed(message@),
            DetectStep::Retry { delay_ms, session } => DetectStepView::Retry {
                delay_ms: *delay_ms,
                attempt: session@.attempt,
                last_error: session@.last_error,
            },
        }
    }
}

/// The error reported when the last attempt has failed too.
pub open spec fn exhausted_text(attempts: u32, last_error: Seq<char>) -> Seq<char> {
    "Failed after "@ + decimal(attempts as nat) + " attempts. Last error: "@ + last_error
}

/// What follows attempt number `attempt` of at most `max_retries`, given how it ended.
///
/// A detection ends the request at once, and so does a rejection, whose
/// error is reported as it is. Any other failure is retried after the
/// backoff delay while attempts remain; after the last attempt the error
/// names the number of attempts and the last failure.
pub open spec fn next_step(max_retries: u32, attempt: u32, outcome: AttemptOutcome)
    -> DetectStepView {
    match outcome {
        AttemptOutcome::Success(response) => DetectStepView::Succeeded(response),
        _ => if !outcome.is_retryable() {
            DetectStepView::Failed(outcome.failure_text())
        } else if attempt < max_retries {
            DetectStepView::Retry {
                delay_ms: backoff_delay_ms(attempt as nat) as u64,
                attempt: (attempt + 1) as u32,
                last_error: outcome.failure_text(),
            }
        } else {
            DetectStepView::Failed(exhausted_text(max_retries, outcome.failure_text()))
        },
    }
}

/// Client of the detection service: where requests go and how often one is tried.
#[derive(Debug)]
pub struct DetectionApiClient {
    endpoint: String,
    max_retries: u32,
}

pub struct DetectionApiClientView {
    pub endpoint: Seq<char>,
    pub max_retries: u32,
}

impl View for DetectionApiClient {
    type V = DetectionApiClientView;

    closed spec fn view(&self) -> DetectionApiClientView {
        DetectionApiClientView { endpoint: self.endpoint@, max_retries: self.max_retries }
    }
}

impl Clone for DetectionApiClient {
    fn clone(&self) -> (client: DetectionApiClient)
        ensures
            client@ == self@,
    {
        proof {
            use_type_invariant(self);
        }
        DetectionApiClient { endpoint: self.endpoint.clone(), max_retries: self.max_retries }
    }
}

impl DetectionApiClient {
    #[verifier::type_invariant]
    spec fn retries_are_bounded(self) -> bool {
        1 <= self.max_retries <= MAX_BACKOFF_ATTEMPT
    }

    /// A client for the service at `endpoint`, with three attempts for each request.
    pub fn new(endpoint: String) -> (client: DetectionApiClient)
        ensures
            client@.endpoint == endpoint@,
            client@.max_retries == MAX_RETRIES,
    {
        DetectionApiClient { endpoint, max_retries: MAX_RETRIES }
    }

    /// The address that requests are posted to.
    pub fn endpoint(&self) -> (s: &str)
        ensures
            s@ == self@.endpoint,
    {
        self.endpoint.as_str()
    }

    /// The number of attempts made for one request.
    pub fn max_retries(&self) -> (n: u32)
        ensures
            n == self@.max_retries,
            1 <= n <= MAX_BACKOFF_ATTEMPT,
    {
        proof {
            use_type_invariant(self);
        }
        self.max_retries
    }

    /// The retry state at the first attempt.
    pub fn start(&self) -> (session: RetrySession)
        ensures
            session@.attempt == 1,
            session@.last_error == Seq::<char>::empty(),
    {
        RetrySession { attempt: 1, last_error: String::new() }
    }

    /// Decides what follows the attempt of `session`, given how it ended.
    pub fn detect(&self, session: RetrySession, outcome: AttemptOutcome) -> (step: DetectStep)
        ensures
            step@ == next_step(self@.max_retries, session@.attempt, outcome),
            step@ matches DetectStepView::Retry { attempt, .. } ==> attempt <= self@.max_retries,
    {
        proof {
            use_type_invariant(self);
            use_type_invariant(&session);
        }
        let message = outcome.failure_message();
        match outcome {
            AttemptOutcome::Success(response) => DetectStep::Finished(Ok(response)),
            AttemptOutcome::Rejected { .. } => DetectStep::Finished(Err(message)),
            _ => {
                if session.attempt < self.max_retries {
                    let delay_ms = backoff_ms(session.attempt);
                    DetectStep::Retry {
                        delay_ms,
                        session: RetrySession {
                            attempt: session.attempt + 1,
                            last_error: message,
                        },
                    }
                } else {
                    let mut text = String::from_str("Failed after ");
                    push_decimal(&mut text, self.max_retries as u64);
                    text.append(" attempts. Last error: ");
                    text.append(message.as_str());
                    DetectStep::Finished(Err(text))
                }
            },
        }
    }
}

/// Lower-case hexadecimal digits.
pub open spec fn is_lower_hex(c: char) -> bool {
    ('0' <= c && c <= '9') || ('a' <= c && c <= 'f')
}

/// The hyphenated form of a random (version 4) UUID: 36 characters, hyphens
/// after the 8th, 12th, 16th and 20th digit, lower-case hexadecimal digits
/// elsewhere, `4` as the 13th digit and one of `8`, `9`, `a`, `b` as the 17th.
pub open spec fn is_random_uuid_text(s: Seq<char>) -> bool {
    &&& s.len() == 36
    &&& forall|i: int|
        0 <= i < 36 ==> if i == 8 || i == 13 || i == 18 || i == 23 {
            s[i] == '-'
        } else {
            is_lower_hex(#[trigger] s[i])
        }
    &&& s[14] == '4'
    &&& (s[19] == '8' || s[19] == '9' || s[19] == 'a' || s[19] == 'b')
}

/// `uuid::Uuid::new_v4` draws a random version 4 UUID from the operating
/// system's generator, and the `Display` of a `Uuid` writes its hyphenated
/// lower-case form. The contract claims that form and nothing of the digits
/// drawn. The call panics if the system cannot supply random bytes.
#[verifier::external_body]
fn random_dataset_id() -> (id: String)
    ensures
        is_random_uuid_text(id@),
{
    uuid::Uuid::new_v4().to_string()
}

/// The two characters at `at` are decimal digits.
pub open spec fn two_digits_at(s: Seq<char>, at: int) -> bool {
    is_digit(s[at]) && is_digit(s[at + 1])
}

/// `s` is a date and time in UTC as RFC 3339 writes it, with a year of
/// `year_len` characters and `fraction_len` characters for the fraction of
/// the second: the year, `-`, month, `-`, day, `T`, hour, `:`, minute, `:`,
/// second, the fraction, and the offset `+00:00`. The year is four digits,
/// or `+` and five digits or more; the fraction is absent, or a point and
/// three, six or nine digits.
pub open spec fn has_utc_timestamp_shape(s: Seq<char>, year_len: int, fraction_len: int) -> bool {
    let y = year_len;
    let f = fraction_len;
    &&& s.len() == y + 15 + f + 6
    &&& {
        ||| y == 4 && all_digits(s.take(4))
        ||| y >= 6 && s[0] == '+' && all_digits(s.subrange(1, y))
    }
    &&& s[y] == '-'
    &&& two_digits_at(s, y + 1)
    &&& s[y + 3] == '-'
    &&& two_digits_at(s, y + 4)
    &&& s[y + 6] == 'T'
    &&& two_digits_at(s, y + 7)
    &&& s[y + 9] == ':'
    &&& two_digits_at(s, y + 10)
    &&& s[y + 12] == ':'
    &&& two_digits_at(s, y + 13)
    &&& {
        ||| f == 0
        ||| (f == 4 || f == 7 || f == 10) && s[y + 15] == '.' && all_digits(
            s.subrange(y + 16, y + 15 + f),
        )
    }
    &&& s.subrange(y + 15 + f, y + 15 + f + 6) == "+00:00"@
}

/// A date and time in UTC as RFC 3339 writes it, such as
/// `2024-05-17T09:30:00.250+00:00`.
pub open spec fn is_utc_timestamp_text(s: Seq<char>) -> bool {
    exists|year_len: int, fraction_len: int|
        #[trigger] has_utc_timestamp_shape(s, year_len, fraction_len)
}

/// `chrono::Utc::now` reads the system clock, and `DateTime::to_rfc3339`
/// writes the instant as an RFC 3339 date and time with the offset
/// `+00:00`. The contract claims this form and nothing of the instant. The
/// call panics if the clock stands before 1970 or beyond the years that a
/// `DateTime` can hold.
#[verifier::external_body]
fn current_utc_timestamp() -> (timestamp: String)
    ensures
        is_utc_timestamp_text(timestamp@),
{
    chrono::Utc::now().to_rfc3339()
}

/// The request for the given samples, under the given identifier and timestamp.
pub fn assemble_detection_request(
    data: Vec<DataPoint>,
    dataset_id: String,
    timestamp: String,
    port: String,
    baud_rate: u32,
    collection_duration_ms: u64,
) -> (request: DetectionRequest)
    ensures
        request@.dataset_id == dataset_id@,
        request@.timestamp == timestamp@,
        request@.row_count == data@.len(),
        request@.data == points_view(data@),
        request@.metadata == (DatasetMetadataView {
            port: port@,
            baud_rate,
            collection_duration_ms,
        }),
        request.data == data,
{
    let row_count = data.len();
    DetectionRequest {
        dataset_id,
        timestamp,
        row_count,
        data,
        metadata: DatasetMetadata { port, baud_rate, collection_duration_ms },
    }
}

/// Builds the request for a completed dataset.
///
/// The dataset is parsed; if it is rejected, so is the request, with the
/// parser's sentence. Otherwise the request carries the samples in order,
/// their number, the collection metadata as given, a random dataset
/// identifier and the time of the call in UTC.
pub fn create_detection_request(
    csv_buffer: &str,
    port: String,
    baud_rate: u32,
    collection_duration_ms: u64,
) -> (r: Result<DetectionRequest, String>)
    ensures
        match parse_csv(csv_buffer@) {
            Err(e) => r is Err && r->Err_0@ == e.text(),
            Ok(rows) => {
                &&& r is Ok
                &&& r->Ok_0@.data == rows
                &&& r->Ok_0@.row_count == rows.len()
                &&& rows.len() >= 1
                &&& r->Ok_0@.metadata == (DatasetMetadataView {
                    port: port@,
                    baud_rate,
                    collection_duration_ms,
                })
                &&& is_random_uuid_text(r->Ok_0@.dataset_id)
                &&& is_utc_timestamp_text(r->Ok_0@.timestamp)
            },
        },
{
    match parse_csv_data(csv_buffer) {
        Err(message) => Err(message),
        Ok(data) => {
            assert(points_view(data@).len() == data@.len());
            let dataset_id = random_dataset_id();
            let timestamp = current_utc_timestamp();
            let request = assemble_detection_request(
                data,
                dataset_id,
                timestamp,
                port,
                baud_rate,
                collection_duration_ms,
            );
            Ok(request)
        },
    }
}

/// What a request goes through: how many attempts are made, the delays
/// waited between them, and the result, if the request came to an end.
pub struct RequestCourse {
    pub attempts: nat,
    pub delays: Seq<u64>,
    pub result: Option<Result<DetectionResponse, Seq<char>>>,
}

/// The course of a request from attempt number `attempt` on, where the
/// attempts end, one after the other, as `outcomes` say. Outcomes beyond
/// the end of the request are never looked at.
pub open spec fn request_course(max_retries: u32, attempt: u32, outcomes: Seq<AttemptOutcome>)
    -> RequestCourse
    decreases outcomes.len(),
{
    if outcomes.len() == 0 {
        RequestCourse { attempts: 0, delays: Seq::<u64>::empty(), result: None }
    } else {
        match next_step(max_retries, attempt, outcomes[0]) {
            DetectStepView::Succeeded(response) => RequestCourse {
                attempts: 1,
                delays: Seq::<u64>::empty(),
                result: Some(Ok(response)),
            },
            DetectStepView::Failed(message) => RequestCourse {
                attempts: 1,
                delays: Seq::<u64>::empty(),
                result: Some(Err(message)),
            },
            DetectStepView::Retry { delay_ms, attempt: next, .. } => {
                let rest = request_course(max_retries, next, outcomes.skip(1));
                RequestCourse {
                    attempts: 1 + rest.attempts,
                    delays: seq![delay_ms] + rest.delays,
                    result: rest.result,
                }
            },
        }
    }
}

/// A request never makes more attempts than remain, waits once between
/// two attempts and not after the last, and ends whenever the outcomes
/// reach as far as the last attempt allowed.
pub proof fn lemma_course_is_bounded(max_retries: u32, attempt: u32, outcomes: Seq<AttemptOutcome>)
    requires
        1 <= attempt <= max_retries,
    ensures
        request_course(max_retries, attempt, outcomes).attempts <= max_retries - attempt + 1,
        request_course(max_retries, attempt, outcomes).attempts <= outcomes.len(),
        request_course(max_retries, attempt, outcomes).result is Some ==> request_course(
            max_retries,
            attempt,
            outcomes,
        ).delays.len() + 1 == request_course(max_retries, attempt, outcomes).attempts,
        outcomes.len() >= max_retries - attempt + 1 ==> request_course(
            max_retries,
            attempt,
            outcomes,
        ).result is Some,
    decreases outcomes.len(),
{
    if outcomes.len() > 0 {
        match next_step(max_retries, attempt, outcomes[0]) {
            DetectStepView::Retry { attempt: next, .. } => {
                lemma_course_is_bounded(max_retries, next, outcomes.skip(1));
            },
            _ => {},
        }
    }
}

/// Where every attempt fails in a way that is retried, all the attempts
/// that remain are made, with the backoff delay after each but the last,
/// and the request fails with the number of attempts and the last failure.
pub proof fn lemma_persistent_failure_exhausts_retries(
    max_retries: u32,
    attempt: u32,
    outcomes: Seq<AttemptOutcome>,
)
    requires
        1 <= attempt <= max_retries <= MAX_BACKOFF_ATTEMPT,
        outcomes.len() == max_retries - attempt + 1,
        forall|i: int| 0 <= i < outcomes.len() ==> (#[trigger] outcomes[i]).is_retryable(),
    ensures
        request_course(max_retries, attempt, outcomes).attempts == max_retries - attempt + 1,
        request_course(max_retries, attempt, outcomes).delays.len() == max_retries - attempt,
        forall|k: int|
            0 <= k < max_retries - attempt ==> #[trigger] request_course(
                max_retries,
                attempt,
                outcomes,
            ).delays[k] == backoff_delay_ms((attempt + k) as nat),
        request_course(max_retries, attempt, outcomes).result == Some(
            Err::<DetectionResponse, Seq<char>>(
                exhausted_text(max_retries, outcomes.last().failure_text()),
            ),
        ),
    decreases outcomes.len(),
{
    lemma_backoff_fits(attempt);
    if attempt < max_retries {
        let rest = outcomes.skip(1);
        assert forall|i: int| 0 <= i < rest.len() implies (#[trigger] rest[i]).is_retryable() by {
            assert(rest[i] == outcomes[i + 1]);
        }
        lemma_persistent_failure_exhausts_retries(max_retries, (attempt + 1) as u32, rest);
        assert(rest.last() == outcomes.last());
        let course = request_course(max_retries, attempt, outcomes);
        let tail = request_course(max_retries, (attempt + 1) as u32, rest);
        assert forall|k: int| 0 <= k < max_retries - attempt implies #[trigger] course.delays[k]
            == backoff_delay_ms((attempt + k) as nat) by {
            if k > 0 {
                assert(course.delays[k] == tail.delays[k - 1]);
            }
        }
    }
}

/// The delay after any attempt up to the largest fits in 64 bits.
pub proof fn lemma_backoff_fits(attempt: u32)
    requires
        1 <= attempt <= MAX_BACKOFF_ATTEMPT,
    ensures
        1000 <= backoff_delay_ms(attempt as nat) <= u64::MAX,
{
    lemma2_to64();
    lemma2_to64_rest();
    if attempt < 55 {
        lemma_pow2_strictly_increases((attempt - 1) as nat, 54);
    }
    if attempt > 1 {
        lemma_pow2_strictly_increases(0, (attempt - 1) as nat);
    }
}

/// A rejection by the service ends the request at the attempt that met it,
/// with the error of the rejection and without any wait.
pub proof fn lemma_rejection_is_final(
    max_retries: u32,
    attempt: u32,
    outcomes: Seq<AttemptOutcome>,
)
    requires
        outcomes.len() >= 1,
        outcomes[0] is Rejected,
    ensures
        request_course(max_retries, attempt, outcomes) == (RequestCourse {
            attempts: 1,
            delays: Seq::<u64>::empty(),
            result: Some(Err(outcomes[0].failure_text())),
        }),
{
}

/// A detection ends the request at the attempt that brought it.
pub proof fn lemma_success_is_final(max_retries: u32, attempt: u32, outcomes: Seq<AttemptOutcome>)
    requires
        outcomes.len() >= 1,
        outcomes[0] is Success,
    ensures
        request_course(max_retries, attempt, outcomes) == (RequestCourse {
            attempts: 1,
            delays: Seq::<u64>::empty(),
            result: Some(Ok(outcomes[0]->Success_0)),
        }),
{
}

} // verus!
