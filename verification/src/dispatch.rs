//! The dispatch of one completed dataset: what is published to the user
//! interface and what is recorded in the outcome store, and in which order.
//!
//! A dispatch opens with a loading notice. The dataset is parsed into a
//! request; if that fails, an error notice ends the dispatch. Otherwise the
//! identifier of the dataset is published, a pending outcome is recorded,
//! and the request is delivered. The result of the delivery is recorded
//! first and published last. Every dataset so comes to exactly one end.

use crate::csv::parse_csv;
use crate::detection_client::{
    create_detection_request, is_random_uuid_text, is_utc_timestamp_text, DatasetMetadataView,
    DetectionRequest, DetectionResponse,
};
use crate::framer::CompletedDataset;
use crate::serial_handler::{DetectionError, DetectionLoading, UiEvent, UiEventView};
use vstd::prelude::*;
use vstd::string::*;

verus! {

/// What the outcome store is told about a dataset. Outcomes are kept by
/// the identifier of their dataset.
#[derive(Debug, Clone, PartialEq, Eq)]
pub enum OutcomeRecord {
    /// To be inserted: the request of the dataset is about to be delivered.
    Pending { dataset_id: String, port: String, baud_rate: u32, collection_duration_ms: u64 },
    /// To replace the pending outcome: the detection arrived.
    Success { dataset_id: String, response: DetectionResponse },
    /// To replace the pending outcome: the delivery failed.
    Error { dataset_id: String, error: String },
}

pub enum OutcomeRecordView {
    Pending { dataset_id: Seq<char>, port: Seq<char>, baud_rate: u32, collection_duration_ms: u64 },
    Success { dataset_id: Seq<char>, response: DetectionResponse },
    Error { dataset_id: Seq<char>, error: Seq<char> },
}

impl View for OutcomeRecord {
    type V = OutcomeRecordView;

    open spec fn view(&self) -> OutcomeRecordView {
        match self {
            OutcomeRecord::Pending { dataset_id, port, baud_rate, collection_duration_ms } =>
                OutcomeRecordView::Pending {
                dataset_id: dataset_id@,
                port: port@,
                baud_rate: *baud_rate,
                collection_duration_ms: *collection_duration_ms,
            },
            OutcomeRecord::Success { dataset_id, response } => OutcomeRecordView::Success {
                dataset_id: dataset_id@,
                response: *response,
            },
            OutcomeRecord::Error { dataset_id, error } => OutcomeRecordView::Error {
                dataset_id: dataset_id@,
                error: error@,
            },
        }
    }
}

impl OutcomeRecordView {
    /// The identifier of the dataset that the outcome belongs to.
    pub open spec fn dataset_id(self) -> Seq<char> {
        match self {
            OutcomeRecordView::Pending { dataset_id, .. } => dataset_id,
            OutcomeRecordView::Success { dataset_id, .. } => dataset_id,
            OutcomeRecordView::Error { dataset_id, .. } => dataset_id,
        }
    }

    /// Whether the outcome is the last word on its dataset.
    pub open spec fn is_terminal(self) -> bool {
        !(self is Pending)
    }

    /// The name of the state of the outcome.
    pub open spec fn status(self) -> Seq<char> {
        match self {
            OutcomeRecordView::Pending { .. } => "pending"@,
            OutcomeRecordView::Success { .. } => "success"@,
            OutcomeRecordView::Error { .. } => "error"@,
        }
    }
}

impl OutcomeRecord {
    /// The identifier of the dataset that the outcome belongs to.
    pub fn dataset_id(&self) -> (id: &str)
        ensures
            id@ == self@.dataset_id(),
    {
        match self {
            OutcomeRecord::Pending { dataset_id, .. } => dataset_id.as_str(),
            OutcomeRecord::Success { dataset_id, .. } => dataset_id.as_str(),
            OutcomeRecord::Error { dataset_id, .. } => dataset_id.as_str(),
        }
    }

    /// The name of the state of the outcome.
    pub fn status(&self) -> (name: &'static str)
        ensures
            name@ == self@.status(),
    {
        match self {
            OutcomeRecord::Pending { .. } => "pending",
            OutcomeRecord::Success { .. } => "success",
            OutcomeRecord::Error { .. } => "error",
        }
    }
}

/// What the caller is to do in the course of a dispatch, in the order given.
#[derive(Debug, Clone, PartialEq, Eq)]
pub enum DispatchAction {
    /// Publish the event to the user interface.
    Emit(UiEvent),
    /// Hand the outcome to the outcome store, if there is one.
    Persist(OutcomeRecord),
}

pub enum DispatchActionView {
    Emit(UiEventView),
    Persist(OutcomeRecordView),
}

impl View for DispatchAction {
    type V = DispatchActionView;

    open spec fn view(&self) -> DispatchActionView {
        match self {
            DispatchAction::Emit(event) => DispatchActionView::Emit(event@),
            DispatchAction::Persist(record) => DispatchActionView::Persist(record@),
        }
    }
}

/// The contents of a list of actions.
pub open spec fn dispatch_actions_view(actions: Seq<DispatchAction>) -> Seq<DispatchActionView> {
    actions.map_values(|a: DispatchAction| a@)
}

/// How the dispatch of a dataset opens: what to do first, in order, and
/// the request to deliver after that, if the dataset gave one.
#[derive(Debug, PartialEq, Eq)]
pub struct DispatchStart {
    pub actions: Vec<DispatchAction>,
    pub request: Option<DetectionRequest>,
}

/// The notice that a dispatch is under way, with the identifier of the
/// dataset once it has one.
pub open spec fn loading_notice(dataset_id: Option<Seq<char>>) -> DispatchActionView {
    DispatchActionView::Emit(UiEventView::Loading { loading: true, dataset_id })
}

/// The error published for a dataset that could not be parsed.
pub open spec fn parse_failure_notice(reason: Seq<char>) -> DispatchActionView {
    DispatchActionView::Emit(
        UiEventView::Error { error: "Failed to parse CSV data: "@ + reason, dataset_id: None },
    )
}

/// How a dispatch opens once the request was built.
pub open spec fn opening_with_request(request: DetectionRequest) -> Seq<DispatchActionView> {
    seq![
        loading_notice(None),
        loading_notice(Some(request.dataset_id@)),
        DispatchActionView::Persist(
            OutcomeRecordView::Pending {
                dataset_id: request.dataset_id@,
                port: request.metadata.port@,
                baud_rate: request.metadata.baud_rate,
                collection_duration_ms: request.metadata.collection_duration_ms,
            },
        ),
    ]
}

/// How a dispatch opens, and ends, when the dataset gave no request.
pub open spec fn opening_without_request(reason: Seq<char>) -> Seq<DispatchActionView> {
    seq![loading_notice(None), parse_failure_notice(reason)]
}

/// How a dispatch ends once the delivery of its request has come to a result.
pub open spec fn conclusion(dataset_id: Seq<char>, result: Result<DetectionResponse, String>)
    -> Seq<DispatchActionView> {
    match result {
        Ok(response) => seq![
            DispatchActionView::Persist(OutcomeRecordView::Success { dataset_id, response }),
            DispatchActionView::Emit(UiEventView::Result(response)),
        ],
        Err(error) => seq![
            DispatchActionView::Persist(OutcomeRecordView::Error { dataset_id, error: error@ }),
            DispatchActionView::Emit(
                UiEventView::Error { error: error@, dataset_id: Some(dataset_id) },
            ),
        ],
    }
}

/// Opens a dispatch with the request that was built, or with the reason why none was.
///
/// A loading notice without identifier comes first. A dataset that gave no
/// request ends the dispatch with an error notice that carries the reason.
/// Otherwise a second loading notice carries the identifier of the dataset,
/// a pending outcome is recorded, and the request is to be delivered.
pub fn open_dispatch(built: Result<DetectionRequest, String>) -> (start: DispatchStart)
    ensures
        match built {
            Ok(request) => {
                &&& start.request == Some(request)
                &&& dispatch_actions_view(start.actions@) == opening_with_request(request)
            },
            Err(reason) => {
                &&& start.request is None
                &&& dispatch_actions_view(start.actions@) == opening_without_request(reason@)
            },
        },
{
    let mut actions: Vec<DispatchAction> = Vec::new();
    actions.push(
        DispatchAction::Emit(
            UiEvent::Loading(DetectionLoading { loading: true, dataset_id: None }),
        ),
    );
    match built {
        Ok(request) => {
            actions.push(
                DispatchAction::Emit(
                    UiEvent::Loading(
                        DetectionLoading {
                            loading: true,
                            dataset_id: Some(request.dataset_id.clone()),
                        },
                    ),
                ),
            );
            actions.push(
                DispatchAction::Persist(
                    OutcomeRecord::Pending {
                        dataset_id: request.dataset_id.clone(),
                        port: request.metadata.port.clone(),
                        baud_rate: request.metadata.baud_rate,
                        collection_duration_ms: request.metadata.collection_duration_ms,
                    },
                ),
            );
            assert(dispatch_actions_view(actions@) == opening_with_request(request));
            DispatchStart { actions, request: Some(request) }
        },
        Err(reason) => {
            let error = String::from_str("Failed to parse CSV data: ").concat(reason.as_str());
            actions.push(
                DispatchAction::Emit(UiEvent::Error(DetectionError { error, dataset_id: None })),
            );
            assert(dispatch_actions_view(actions@) == opening_without_request(reason@));
            DispatchStart { actions, request: None }
        },
    }
}

/// Opens the dispatch of a completed dataset: builds its request, under a
/// fresh identifier and the current time, and says what to do first.
pub fn begin_dispatch(dataset: &CompletedDataset) -> (start: DispatchStart)
    ensures
        match parse_csv(dataset.csv_data@) {
            Ok(rows) => {
                &&& start.request is Some
                &&& start.request->Some_0@.data == rows
                &&& start.request->Some_0@.row_count == rows.len()
                &&& start.request->Some_0@.metadata == (DatasetMetadataView {
                    port: dataset.port@,
                    baud_rate: dataset.baud_rate,
                    collection_duration_ms: dataset.collection_duration_ms,
                })
                &&& is_random_uuid_text(start.request->Some_0@.dataset_id)
                &&& is_utc_timestamp_text(start.request->Some_0@.timestamp)
                &&& dispatch_actions_view(start.actions@) == opening_with_request(
                    start.request->Some_0,
                )
            },
            Err(e) => {
                &&& start.request is None
                &&& dispatch_actions_view(start.actions@) == opening_without_request(e.text())
            },
        },
{
    let built = create_detection_request(
        dataset.csv_data.as_str(),
        dataset.port.clone(),
        dataset.baud_rate,
        dataset.collection_duration_ms,
    );
    open_dispatch(built)
}

/// Ends the dispatch of the dataset `dataset_id` with the result of the
/// delivery: the outcome is recorded, then published.
pub fn conclude_dispatch(dataset_id: String, result: Result<DetectionResponse, String>) -> (actions:
    Vec<DispatchAction>)
    ensures
        dispatch_actions_view(actions@) == conclusion(dataset_id@, result),
{
    let mut actions: Vec<DispatchAction> = Vec::new();
    match result {
        Ok(response) => {
            actions.push(
                DispatchAction::Persist(
                    OutcomeRecord::Success { dataset_id, response: response.clone() },
                ),
            );
            actions.push(DispatchAction::Emit(UiEvent::Result(response)));
            assert(dispatch_actions_view(actions@) == conclusion(dataset_id@, result));
        },
        Err(error) => {
            actions.push(
                DispatchAction::Persist(
                    OutcomeRecord::Error { dataset_id: dataset_id.clone(), error: error.clone() },
                ),
            );
            actions.push(
                DispatchAction::Emit(
                    UiEvent::Error(DetectionError { error, dataset_id: Some(dataset_id) }),
                ),
            );
            assert(dispatch_actions_view(actions@) == conclusion(dataset_id@, result));
        },
    }
    actions
}

/// The terminal outcomes among the actions: those recorded, and those published.
pub open spec fn terminal_records(actions: Seq<DispatchActionView>) -> Seq<OutcomeRecordView> {
    actions.filter(|a: DispatchActionView| a is Persist && a->Persist_0.is_terminal()).map_values(
        |a: DispatchActionView| a->Persist_0,
    )
}

/// The results and errors among the events that the actions publish.
pub open spec fn terminal_events(actions: Seq<DispatchActionView>) -> Seq<UiEventView> {
    actions.filter(
        |a: DispatchActionView| a is Emit && (a->Emit_0 is Result || a->Emit_0 is Error),
    ).map_values(|a: DispatchActionView| a->Emit_0)
}

/// A dataset comes to exactly one end. If it gives no request, the opening
/// publishes its one error and records nothing. If it gives a request, the
/// opening publishes and records nothing final, and the conclusion records
/// one final outcome under the identifier of the dataset and then publishes
/// it, once.
pub proof fn lemma_one_terminal_outcome(
    request: DetectionRequest,
    reason: Seq<char>,
    result: Result<DetectionResponse, String>,
)
    ensures
        terminal_events(opening_without_request(reason)).len() == 1,
        terminal_records(opening_without_request(reason)).len() == 0,
        terminal_events(opening_with_request(request)).len() == 0,
        terminal_records(opening_with_request(request)).len() == 0,
        terminal_records(conclusion(request.dataset_id@, result)).len() == 1,
        terminal_events(conclusion(request.dataset_id@, result)).len() == 1,
        terminal_records(conclusion(request.dataset_id@, result))[0].dataset_id()
            == request.dataset_id@,
        conclusion(request.dataset_id@, result)[0] is Persist,
        conclusion(request.dataset_id@, result)[1] is Emit,
        result is Ok <==> terminal_records(conclusion(request.dataset_id@, result))[0] is Success,
        result is Ok <==> terminal_events(conclusion(request.dataset_id@, result))[0] is Result,
{
    reveal(Seq::filter);
    let keep_record = |a: DispatchActionView| a is Persist && a->Persist_0.is_terminal();
    let keep_event = |a: DispatchActionView|
        a is Emit && (a->Emit_0 is Result || a->Emit_0 is Error);
    let without = opening_without_request(reason);
    let with = opening_with_request(request);
    let end = conclusion(request.dataset_id@, result);
    lemma_filter_short(without, keep_record);
    lemma_filter_short(without, keep_event);
    lemma_filter_short(with, keep_record);
    lemma_filter_short(with, keep_event);
    lemma_filter_short(end, keep_record);
    lemma_filter_short(end, keep_event);
}

/// What a filter keeps of up to three items.
proof fn lemma_filter_short(
    items: Seq<DispatchActionView>,
    keep: spec_fn(DispatchActionView) -> bool,
)
    requires
        items.len() <= 3,
    ensures
        items.filter(keep) == (if items.len() > 0 && keep(items[0]) {
            seq![items[0]]
        } else {
            Seq::<DispatchActionView>::empty()
        }) + (if items.len() > 1 && keep(items[1]) {
            seq![items[1]]
        } else {
            Seq::<DispatchActionView>::empty()
        }) + (if items.len() > 2 && keep(items[2]) {
            seq![items[2]]
        } else {
            Seq::<DispatchActionView>::empty()
        }),
    decreases items.len(),
{
    reveal(Seq::filter);
    if items.len() > 0 {
        lemma_filter_short(items.drop_last(), keep);
    }
}

} // verus!
