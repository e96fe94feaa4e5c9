//! The backend's answer to a range query, once decoded.

use vstd::prelude::*;

verus! {

/// One observation of the metric.
#[derive(Debug, Clone)]
pub struct Sample {
    /// When the value was observed, in seconds since the epoch.
    pub time: u64,
    /// The observed value, as the text in which the backend sent it.
    pub value: String,
}

/// A `Sample` with its text as a sequence of characters.
pub struct SampleView {
    pub time: u64,
    pub value: Seq<char>,
}

impl View for Sample {
    type V = SampleView;

    open spec fn view(&self) -> SampleView {
        SampleView { time: self.time, value: self.value@ }
    }
}

/// The views of `samples`, in the same order.
pub open spec fn sample_views(samples: Seq<Sample>) -> Seq<SampleView> {
    Seq::new(samples.len(), |i: int| samples[i]@)
}

/// The samples of one labelled metric, in the order in which the backend sent
/// them, which is by ascending time.
#[derive(Debug, Clone)]
pub struct Series {
    pub values: Vec<Sample>,
}

impl View for Series {
    type V = Seq<SampleView>;

    open spec fn view(&self) -> Seq<SampleView> {
        sample_views(self.values@)
    }
}

/// The payload of a successful answer: one series for each metric that matched.
#[derive(Debug, Clone, Default)]
pub struct QueryResultData {
    pub result: Vec<Series>,
}

impl View for QueryResultData {
    type V = Seq<Seq<SampleView>>;

    open spec fn view(&self) -> Seq<Seq<SampleView>> {
        Seq::new(self.result@.len(), |i: int| self.result@[i]@)
    }
}

/// A decoded answer: either the series that matched, or the backend's own error.
#[derive(Debug, Clone)]
pub enum QueryResult {
    /// The backend ran the query.
    Success { data: QueryResultData },
    /// The backend rejected the query.
    Failure { error_type: String, error: String },
}

/// A `QueryResult` with its series and texts as sequences.
pub enum QueryResultView {
    Success { data: Seq<Seq<SampleView>> },
    Failure { error_type: Seq<char>, error: Seq<char> },
}

impl View for QueryResult {
    type V = QueryResultView;

    open spec fn view(&self) -> QueryResultView {
        match self {
            QueryResult::Success { data } => QueryResultView::Success { data: data@ },
            QueryResult::Failure { error_type, error } => QueryResultView::Failure {
                error_type: error_type@,
                error: error@,
            },
        }
    }
}

/// What came of sending one range query. `E` is the transport's own error type.
#[derive(Debug)]
pub enum QueryOutcome<E> {
    /// The request could not be completed.
    NetworkFailure(E),
    /// A response arrived, but its body could not be decoded.
    MalformedBody(E),
    /// A response arrived and was decoded.
    Response(QueryResult),
}

/// A `QueryOutcome` with the decoded answer by its view.
pub enum QueryOutcomeView<E> {
    NetworkFailure(E),
    MalformedBody(E),
    Response(QueryResultView),
}

impl<E> View for QueryOutcome<E> {
    type V = QueryOutcomeView<E>;

    open spec fn view(&self) -> QueryOutcomeView<E> {
        match self {
            QueryOutcome::NetworkFailure(cause) => QueryOutcomeView::NetworkFailure(*cause),
            QueryOutcome::MalformedBody(cause) => QueryOutcomeView::MalformedBody(*cause),
            QueryOutcome::Response(answer) => QueryOutcomeView::Response(answer@),
        }
    }
}

} // verus!
