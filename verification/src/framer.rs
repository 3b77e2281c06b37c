//! Framing of the serial stream: the display lines that a chunk completes,
//! and the dataset that gathers until the instrument falls silent.
//!
//! The instrument marks no end of transmission. A dataset is complete when
//! nothing has arrived for the idle gap, or when the port goes away.
//!
//! Time is a count of milliseconds on a clock that never runs backwards,
//! read by the caller and handed in with each call. A reading that lies
//! before an earlier one counts as no time passed.

use crate::text::{
    lemma_split_continues, lemma_split_nonempty, lemma_split_then_join,
    lemma_split_without_separator, split_on, split_ranges, string_from_range, to_chars,
};
use vstd::prelude::*;
use vstd::string::*;

verus! {

/// Silence, in milliseconds, after which a dataset in progress is complete.
pub const IDLE_GAP_MS: u64 = 2000;

/// Milliseconds from `earlier` to `now`; zero if `now` lies before.
pub open spec fn elapsed_ms(earlier: u64, now: u64) -> u64 {
    if now >= earlier {
        (now - earlier) as u64
    } else {
        0
    }
}

/// `line` without one carriage return at its end.
pub open spec fn strip_carriage_return(line: Seq<char>) -> Seq<char> {
    if line.len() > 0 && line.last() == '\r' {
        line.drop_last()
    } else {
        line
    }
}

/// The lines that `buffer` holds in full: each stretch that a newline ends,
/// without the newline and without a carriage return before it.
pub open spec fn complete_lines(buffer: Seq<char>) -> Seq<Seq<char>> {
    split_on(buffer, '\n').drop_last().map_values(|l: Seq<char>| strip_carriage_return(l))
}

/// What follows the last newline of `buffer`: the start of a line still to be completed.
pub open spec fn pending_line(buffer: Seq<char>) -> Seq<char> {
    split_on(buffer, '\n').last()
}

/// The characters of each string.
pub open spec fn texts(lines: Seq<String>) -> Seq<Seq<char>> {
    lines.map_values(|l: String| l@)
}

/// Splits `buffer` into its complete lines and the pending rest.
pub fn split_complete_lines(buffer: &str) -> (r: (Vec<String>, String))
    ensures
        texts(r.0@) == complete_lines(buffer@),
        r.1@ == pending_line(buffer@),
{
    let v = to_chars(buffer);
    let bounds = split_ranges(&v, 0, v.len(), '\n');
    let ghost parts = split_on(buffer@, '\n');
    let ghost expected = complete_lines(buffer@);
    let last: usize = bounds.len() - 1;
    let mut lines: Vec<String> = Vec::new();
    let mut k: usize = 0;
    proof {
        assert(v@.subrange(0, v.len() as int) == buffer@);
        assert(texts(lines@) == expected.take(0));
    }
    while k < last
        invariant
            k <= last,
            last + 1 == bounds.len(),
            bounds@.len() == parts.len(),
            expected == complete_lines(buffer@),
            parts == split_on(buffer@, '\n'),
            forall|j: int|
                0 <= j < bounds@.len() ==> {
                    &&& (#[trigger] bounds@[j]).0 <= bounds@[j].1 <= v@.len()
                    &&& parts[j] == v@.subrange(bounds@[j].0 as int, bounds@[j].1 as int)
                },
            texts(lines@) == expected.take(k as int),
        decreases last - k,
    {
        let (lo, hi) = bounds[k];
        let end: usize = if hi > lo && v[hi - 1] == '\r' {
            hi - 1
        } else {
            hi
        };
        let line = string_from_range(&v, lo, end);
        proof {
            if hi > lo {
                assert(v@.subrange(lo as int, hi as int).drop_last() == v@.subrange(
                    lo as int,
                    hi - 1,
                ));
            }
            assert(line@ == strip_carriage_return(parts[k as int]));
            assert(expected[k as int] == strip_carriage_return(parts.drop_last()[k as int]));
            assert(expected.take(k + 1) == expected.take(k as int).push(expected[k as int]));
            assert(texts(lines@.push(line)) == texts(lines@).push(line@));
        }
        lines.push(line);
        k += 1;
    }
    assert(expected.take(last as int) == expected);
    let (lo, hi) = bounds[last];
    let rest = string_from_range(&v, lo, hi);
    (lines, rest)
}

/// What has been gathered from the port since the last completed dataset.
#[derive(Debug)]
pub struct SerialDataState {
    line_buffer: String,
    csv_buffer: String,
    last_data_at: Option<u64>,
    data_start_at: Option<u64>,
    idle_gap_ms: u64,
}

/// The mathematical content of a [`SerialDataState`].
pub struct SerialDataView {
    /// The start of a display line whose newline has not arrived.
    pub line_buffer: Seq<char>,
    /// The dataset gathered so far.
    pub csv_buffer: Seq<char>,
    /// When data last arrived.
    pub last_data_at: Option<u64>,
    /// When the first data of the dataset arrived.
    pub data_start_at: Option<u64>,
    /// The silence that completes a dataset; always `IDLE_GAP_MS`.
    pub idle_gap_ms: u64,
}

impl SerialDataView {
    /// The display line under way holds no newline: every line that a
    /// newline has ended was taken out.
    pub open spec fn line_is_open(self) -> bool {
        forall|i: int| 0 <= i < self.line_buffer.len() ==> self.line_buffer[i] != '\n'
    }

    /// The timing marks are set exactly while a dataset is being gathered.
    pub open spec fn timing_matches_buffer(self) -> bool {
        &&& self.data_start_at is Some <==> self.csv_buffer.len() > 0
        &&& self.last_data_at is Some <==> self.csv_buffer.len() > 0
    }

    /// Whether the dataset is complete at `now_ms`: there is one, and nothing
    /// has arrived for the idle gap of two seconds or longer.
    pub open spec fn is_idle(self, now_ms: u64) -> bool {
        &&& self.csv_buffer.len() > 0
        &&& self.last_data_at is Some
        &&& elapsed_ms(self.last_data_at->Some_0, now_ms) >= IDLE_GAP_MS
    }

    /// The time from the first data of the dataset to `now_ms`; zero if none has arrived.
    pub open spec fn collection_duration_ms(self, now_ms: u64) -> u64 {
        match self.data_start_at {
            Some(start) => elapsed_ms(start, now_ms),
            None => 0,
        }
    }

    /// The state once `chunk` has joined the dataset at `now_ms`: the time
    /// is noted as that of the last data, and as the start of the dataset
    /// if this is its first data. An empty chunk changes nothing.
    pub open spec fn appended(self, chunk: Seq<char>, now_ms: u64) -> SerialDataView {
        if chunk.len() == 0 {
            self
        } else {
            SerialDataView {
                csv_buffer: self.csv_buffer + chunk,
                last_data_at: Some(now_ms),
                data_start_at: match self.data_start_at {
                    Some(start) => Some(start),
                    None => Some(now_ms),
                },
                ..self
            }
        }
    }

    /// The state once `chunk` has joined the display line under way and
    /// the lines it completes have been taken out.
    pub open spec fn line_fed(self, chunk: Seq<char>) -> SerialDataView {
        SerialDataView { line_buffer: pending_line(self.line_buffer + chunk), ..self }
    }

    /// The state once `chunk` has been read from the port at `now_ms`. An
    /// empty chunk changes nothing.
    pub open spec fn received(self, chunk: Seq<char>, now_ms: u64) -> SerialDataView {
        if chunk.len() == 0 {
            self
        } else {
            self.appended(chunk, now_ms).line_fed(chunk)
        }
    }

    /// The state with the dataset discarded and the timing forgotten.
    pub open spec fn flushed(self) -> SerialDataView {
        SerialDataView {
            csv_buffer: Seq::<char>::empty(),
            last_data_at: None,
            data_start_at: None,
            ..self
        }
    }

    /// The state once the dataset has been handed on, if there was one:
    /// with nothing gathered, nothing changes.
    pub open spec fn after_completion(self) -> SerialDataView {
        if self.csv_buffer.len() == 0 {
            self
        } else {
            self.flushed()
        }
    }
}

impl View for SerialDataState {
    type V = SerialDataView;

    closed spec fn view(&self) -> SerialDataView {
        SerialDataView {
            line_buffer: self.line_buffer@,
            csv_buffer: self.csv_buffer@,
            last_data_at: self.last_data_at,
            data_start_at: self.data_start_at,
            idle_gap_ms: self.idle_gap_ms,
        }
    }
}

/// Milliseconds from `earlier` to `now`; zero if `now` lies before.
pub fn elapsed_since(earlier: u64, now: u64) -> (gap: u64)
    ensures
        gap == elapsed_ms(earlier, now),
{
    if now >= earlier {
        now - earlier
    } else {
        0
    }
}

impl SerialDataState {
    #[verifier::type_invariant]
    spec fn is_well_formed(self) -> bool {
        &&& self.idle_gap_ms == IDLE_GAP_MS
        &&& forall|i: int| 0 <= i < self.line_buffer@.len() ==> self.line_buffer@[i] != '\n'
    }

    /// An empty state with the idle gap of two seconds.
    pub fn new() -> (state: SerialDataState)
        ensures
            state@ == (SerialDataView {
                line_buffer: Seq::<char>::empty(),
                csv_buffer: Seq::<char>::empty(),
                last_data_at: None,
                data_start_at: None,
                idle_gap_ms: IDLE_GAP_MS,
            }),
            state@.timing_matches_buffer(),
    {
        SerialDataState {
            line_buffer: String::new(),
            csv_buffer: String::new(),
            last_data_at: None,
            data_start_at: None,
            idle_gap_ms: IDLE_GAP_MS,
        }
    }

    /// The silence that completes a dataset: two seconds, for every state.
    pub fn idle_gap_ms(&self) -> (gap: u64)
        ensures
            gap == IDLE_GAP_MS,
            gap == self@.idle_gap_ms,
    {
        proof {
            use_type_invariant(self);
        }
        self.idle_gap_ms
    }

    /// Forgets when data arrived; the data gathered stays.
    pub fn reset_timing(&mut self)
        ensures
            final(self)@ == (SerialDataView {
                last_data_at: None,
                data_start_at: None,
                ..old(self)@
            }),
    {
        proof {
            use_type_invariant(&*self);
        }
        self.last_data_at = None;
        self.data_start_at = None;
    }

    /// Discards the dataset gathered so far and its timing.
    pub fn clear_buffers(&mut self)
        ensures
            final(self)@ == old(self)@.flushed(),
            final(self)@.timing_matches_buffer(),
    {
        proof {
            use_type_invariant(&*self);
        }
        self.csv_buffer = String::new();
        self.reset_timing();
    }

    /// Whether the dataset is complete at `now_ms`: there is one, and
    /// nothing has arrived for the idle gap or longer.
    pub fn is_idle(&self, now_ms: u64) -> (idle: bool)
        ensures
            idle == self@.is_idle(now_ms),
    {
        proof {
            use_type_invariant(self);
        }
        match self.last_data_at {
            Some(t) => elapsed_since(t, now_ms) >= self.idle_gap_ms && self.has_pending_data(),
            None => false,
        }
    }

    /// The time from the first data of the dataset to `now_ms`; zero if
    /// none has arrived.
    pub fn get_collection_duration_ms(&self, now_ms: u64) -> (duration: u64)
        ensures
            duration == self@.collection_duration_ms(now_ms),
    {
        match self.data_start_at {
            Some(start) => elapsed_since(start, now_ms),
            None => 0,
        }
    }

    /// Whether a dataset is being gathered.
    pub fn has_pending_data(&self) -> (pending: bool)
        ensures
            pending == (self@.csv_buffer.len() > 0),
    {
        !self.csv_buffer.as_str().is_empty()
    }

    /// The dataset gathered so far.
    pub fn csv_buffer(&self) -> (s: &str)
        ensures
            s@ == self@.csv_buffer,
    {
        self.csv_buffer.as_str()
    }

    /// The start of a display line whose newline has not arrived.
    pub fn line_buffer(&self) -> (s: &str)
        ensures
            s@ == self@.line_buffer,
            self@.line_is_open(),
    {
        proof {
            use_type_invariant(self);
        }
        self.line_buffer.as_str()
    }

    /// When data last arrived.
    pub fn last_data_at(&self) -> (t: Option<u64>)
        ensures
            t == self@.last_data_at,
    {
        self.last_data_at
    }

    /// When the first data of the dataset arrived.
    pub fn data_start_at(&self) -> (t: Option<u64>)
        ensures
            t == self@.data_start_at,
    {
        self.data_start_at
    }

    /// Adds a chunk that arrived at `now_ms` to the dataset.
    ///
    /// The time is noted as that of the last data, and as the start of the
    /// dataset if this is its first data. An empty chunk changes nothing.
    pub fn append(&mut self, chunk: &str, now_ms: u64)
        ensures
            final(self)@ == old(self)@.appended(chunk@, now_ms),
            old(self)@.timing_matches_buffer() ==> final(self)@.timing_matches_buffer(),
    {
        if chunk.is_empty() {
            return;
        }
        proof {
            use_type_invariant(&*self);
        }
        let mut buffer = String::new();
        std::mem::swap(&mut self.csv_buffer, &mut buffer);
        buffer.append(chunk);
        self.csv_buffer = buffer;
        self.last_data_at = Some(now_ms);
        if self.data_start_at.is_none() {
            self.data_start_at = Some(now_ms);
        }
    }

    /// Adds a chunk to the display line under way and takes out the lines
    /// that are complete, in order.
    pub fn feed_lines(&mut self, chunk: &str) -> (lines: Vec<String>)
        ensures
            final(self)@ == old(self)@.line_fed(chunk@),
            texts(lines@) == complete_lines(old(self)@.line_buffer + chunk@),
            final(self)@.line_is_open(),
    {
        proof {
            use_type_invariant(&*self);
        }
        let mut buffer = String::new();
        std::mem::swap(&mut self.line_buffer, &mut buffer);
        buffer.append(chunk);
        let (lines, rest) = split_complete_lines(buffer.as_str());
        proof {
            lemma_pending_line_is_open(buffer@);
        }
        self.line_buffer = rest;
        lines
    }

    /// Hands on the dataset gathered so far and starts a new one.
    ///
    /// Returned is the text of the dataset; the buffer is empty afterwards
    /// and the timing forgotten. Where nothing was gathered, the text is
    /// empty and nothing changes.
    pub fn flush(&mut self) -> (dataset: String)
        ensures
            dataset@ == old(self)@.csv_buffer,
            final(self)@ == old(self)@.after_completion(),
            final(self)@.csv_buffer.len() == 0,
            old(self)@.timing_matches_buffer() ==> final(self)@.timing_matches_buffer(),
    {
        proof {
            use_type_invariant(&*self);
        }
        let mut dataset = String::new();
        if self.has_pending_data() {
            std::mem::swap(&mut self.csv_buffer, &mut dataset);
            self.reset_timing();
        }
        dataset
    }
}

/// Takes in a chunk read from the port at `now_ms`.
///
/// The chunk joins the dataset and the display line under way. Returned are
/// the display lines that it completes, in order. An empty chunk changes
/// nothing and completes no line.
pub fn process_serial_data_chunk(
    data_state: &mut SerialDataState,
    chunk: &str,
    now_ms: u64,
) -> (lines: Vec<String>)
    ensures
        final(data_state)@ == old(data_state)@.received(chunk@, now_ms),
        texts(lines@) == complete_lines(old(data_state)@.line_buffer + chunk@),
        chunk@.len() == 0 ==> lines@.len() == 0,
        final(data_state)@.line_is_open(),
        old(data_state)@.timing_matches_buffer() ==> final(data_state)@.timing_matches_buffer(),
{
    proof {
        use_type_invariant(&*data_state);
    }
    if chunk.is_empty() {
        let lines: Vec<String> = Vec::new();
        proof {
            let line = data_state@.line_buffer;
            assert(line + chunk@ == line);
            lemma_split_without_separator(line, '\n');
            assert(seq![line].drop_last() == Seq::<Seq<char>>::empty());
            assert(texts(lines@) == complete_lines(line));
        }
        return lines;
    }
    data_state.append(chunk, now_ms);
    data_state.feed_lines(chunk)
}

/// What follows the last newline holds no newline.
pub proof fn lemma_pending_line_is_open(buffer: Seq<char>)
    ensures
        forall|i: int| 0 <= i < pending_line(buffer).len() ==> pending_line(buffer)[i] != '\n',
{
    lemma_split_then_join(buffer, '\n');
    let parts = split_on(buffer, '\n');
    assert(pending_line(buffer) == parts[parts.len() - 1]);
}

/// Why a dataset counts as complete.
#[derive(Debug, Clone, Copy, PartialEq, Eq, Structural)]
pub enum CompletionReason {
    /// Nothing arrived for the idle gap.
    IdleTimeout,
    /// The port went away.
    Disconnect,
}

impl CompletionReason {
    pub open spec fn label(self) -> Seq<char> {
        match self {
            CompletionReason::IdleTimeout => "(idle timeout)"@,
            CompletionReason::Disconnect => "on disconnect"@,
        }
    }

    /// The reason in words.
    pub fn as_str(&self) -> (s: &'static str)
        ensures
            s@ == self.label(),
    {
        match self {
            CompletionReason::IdleTimeout => "(idle timeout)",
            CompletionReason::Disconnect => "on disconnect",
        }
    }
}

/// A dataset handed on for dispatch, with what is known of its collection.
#[derive(Debug, Clone, PartialEq, Eq)]
pub struct CompletedDataset {
    pub csv_data: String,
    pub port: String,
    pub baud_rate: u32,
    pub collection_duration_ms: u64,
    pub reason: CompletionReason,
}

pub struct CompletedDatasetView {
    pub csv_data: Seq<char>,
    pub port: Seq<char>,
    pub baud_rate: u32,
    pub collection_duration_ms: u64,
    pub reason: CompletionReason,
}

impl View for CompletedDataset {
    type V = CompletedDatasetView;

    open spec fn view(&self) -> CompletedDatasetView {
        CompletedDatasetView {
            csv_data: self.csv_data@,
            port: self.port@,
            baud_rate: self.baud_rate,
            collection_duration_ms: self.collection_duration_ms,
            reason: self.reason,
        }
    }
}

impl SerialDataView {
    /// The dataset that would be handed on at `now_ms`; none if nothing was gathered.
    pub open spec fn completed(
        self,
        port: Seq<char>,
        baud_rate: u32,
        reason: CompletionReason,
        now_ms: u64,
    ) -> Option<CompletedDatasetView> {
        if self.csv_buffer.len() == 0 {
            None
        } else {
            Some(
                CompletedDatasetView {
                    csv_data: self.csv_buffer,
                    port,
                    baud_rate,
                    collection_duration_ms: self.collection_duration_ms(now_ms),
                    reason,
                },
            )
        }
    }

}

/// The contents of an optional dataset.
pub open spec fn opt_dataset_view(d: Option<CompletedDataset>) -> Option<CompletedDatasetView> {
    match d {
        Some(d) => Some(d@),
        None => None,
    }
}

/// Hands on the dataset gathered so far, if there is one.
///
/// With an empty buffer nothing is handed on and nothing changes. Otherwise
/// the dataset leaves with the time its collection took and the reason
/// given, and the buffer is empty afterwards.
pub fn process_completed_dataset(
    data_state: &mut SerialDataState,
    port: &str,
    baud_rate: u32,
    reason: CompletionReason,
    now_ms: u64,
) -> (dataset: Option<CompletedDataset>)
    ensures
        opt_dataset_view(dataset) == old(data_state)@.completed(port@, baud_rate, reason, now_ms),
        final(data_state)@ == old(data_state)@.after_completion(),
        final(data_state)@.csv_buffer.len() == 0,
        old(data_state)@.timing_matches_buffer() ==> final(data_state)@.timing_matches_buffer(),
{
    if !data_state.has_pending_data() {
        return None;
    }
    let collection_duration_ms = data_state.get_collection_duration_ms(now_ms);
    let csv_data = data_state.flush();
    Some(
        CompletedDataset {
            csv_data,
            port: String::from_str(port),
            baud_rate,
            collection_duration_ms,
            reason,
        },
    )
}

/// The display lines do not depend on how the stream is cut into chunks:
/// two chunks fed one after the other complete the same lines, and leave
/// the same line pending, as the two fed as one.
pub proof fn lemma_lines_ignore_chunking(state: SerialDataView, first: Seq<char>, second: Seq<char>)
    ensures
        complete_lines(state.line_buffer + first) + complete_lines(
            state.line_fed(first).line_buffer + second,
        ) == complete_lines(state.line_buffer + (first + second)),
        state.line_fed(first).line_fed(second) == state.line_fed(first + second),
{
    let x = state.line_buffer + first;
    let done = split_on(x, '\n').drop_last();
    let rest = split_on(pending_line(x) + second, '\n');
    lemma_split_continues(x, second, '\n');
    lemma_split_nonempty(pending_line(x) + second, '\n');
    assert(x + second == state.line_buffer + (first + second));
    assert((done + rest).drop_last() == done + rest.drop_last());
    assert((done + rest.drop_last()).map_values(|l: Seq<char>| strip_carriage_return(l))
        == done.map_values(|l: Seq<char>| strip_carriage_return(l)) + rest.drop_last().map_values(
        |l: Seq<char>| strip_carriage_return(l),
    ));
    assert((done + rest).last() == rest.last());
}

/// The dataset does not depend on how the stream is cut into chunks
/// either: two chunks that arrive one after the other gather the same
/// text as the two arriving as one at the later time, with the same start.
pub proof fn lemma_dataset_ignores_chunking(
    state: SerialDataView,
    first: Seq<char>,
    second: Seq<char>,
    first_at: u64,
    second_at: u64,
)
    requires
        first.len() > 0,
        second.len() > 0,
    ensures
        state.appended(first, first_at).appended(second, second_at).csv_buffer
            == state.csv_buffer + (first + second),
        state.appended(first, first_at).appended(second, second_at).last_data_at == Some(
            second_at,
        ),
        state.appended(first, first_at).appended(second, second_at).data_start_at
            == state.appended(first, first_at).data_start_at,
{
    assert(state.csv_buffer + first + second == state.csv_buffer + (first + second));
}

/// A dataset is complete exactly when the gap since its last data has
/// reached the idle gap: with data in the buffer and a gap of two seconds
/// or more the state is idle, with a shorter gap it is not, and with an
/// empty buffer it never is.
pub proof fn lemma_idle_threshold(state: SerialDataView, last: u64, now_ms: u64)
    requires
        state.last_data_at == Some(last),
    ensures
        elapsed_ms(last, now_ms) >= 2000 && state.csv_buffer.len() > 0 ==> state.is_idle(now_ms),
        elapsed_ms(last, now_ms) < 2000 ==> !state.is_idle(now_ms),
        state.csv_buffer.len() == 0 ==> !state.is_idle(now_ms),
{
}

/// Flushing twice is flushing once: after a flush the buffer is empty and
/// never idle, a second flush returns nothing and changes nothing, and
/// there is no dataset to hand on.
pub proof fn lemma_flush_is_idempotent(
    state: SerialDataView,
    port: Seq<char>,
    baud_rate: u32,
    reason: CompletionReason,
    now_ms: u64,
)
    ensures
        state.after_completion().csv_buffer.len() == 0,
        state.after_completion().after_completion() == state.after_completion(),
        state.after_completion().completed(port, baud_rate, reason, now_ms) is None,
        !state.after_completion().is_idle(now_ms),
        state.flushed().flushed() == state.flushed(),
        state.flushed().after_completion() == state.flushed(),
{
}

} // verus!
