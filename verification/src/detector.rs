//! The edge detector: from a question about a metric to the range query that
//! answers it, and from what the backend sent to the edge.
//!
//! Looking for an edge takes two steps with the network in between. The detector
//! plans an `EdgeQuery`; the caller sends it to `EdgeQuery::url` with the
//! parameters of `EdgeQuery::params`, once; and `EdgeQuery::resolve` turns what
//! came of that into the answer.

use vstd::prelude::*;
use crate::decimal::{decimal_text, format_u64};
use crate::edge::{is_numeric, last_edge, lemma_non_numeric_fails_scan, scan, scan_view};
use crate::error::{Error, ErrorView};
use crate::response::{
    QueryOutcome,
    QueryOutcomeView,
    QueryResult,
    QueryResultData,
    QueryResultView,
    SampleView,
};
use crate::window::{TimeSpan, lookback_window, query_step, step_for, window_start};

verus! {

/// The path of the backend's range-query endpoint.
pub open spec fn range_query_path() -> Seq<char> {
    "/api/v1/query_range"@
}

/// Plans edge queries against one backend.
#[derive(Debug, Clone)]
pub struct EdgeDetector {
    base_url: String,
}

impl View for EdgeDetector {
    type V = Seq<char>;

    /// The URL of the backend's range-query endpoint.
    closed spec fn view(&self) -> Seq<char> {
        self.base_url@
    }
}

/// One planned search for an edge: where to ask, what to ask for, and the two
/// values between which the edge is sought.
#[derive(Debug, Clone)]
pub struct EdgeQuery {
    /// The URL of the range-query endpoint.
    pub url: String,
    /// The metric selector expression, as the caller gave it.
    pub query: String,
    /// The value that the metric leaves.
    pub from: u64,
    /// The value towards which the metric moves.
    pub to: u64,
    /// The first second of the window, since the epoch.
    pub start_time: u64,
    /// The last second of the window, since the epoch.
    pub end_time: u64,
    /// The distance between two samples, in seconds.
    pub step: u64,
}

/// An `EdgeQuery` with its texts as sequences of characters.
pub struct EdgeQueryView {
    pub url: Seq<char>,
    pub query: Seq<char>,
    pub from: u64,
    pub to: u64,
    pub start_time: u64,
    pub end_time: u64,
    pub step: u64,
}

impl View for EdgeQuery {
    type V = EdgeQueryView;

    open spec fn view(&self) -> EdgeQueryView {
        EdgeQueryView {
            url: self.url@,
            query: self.query@,
            from: self.from,
            to: self.to,
            start_time: self.start_time,
            end_time: self.end_time,
            step: self.step,
        }
    }
}

/// The query that a detector for `endpoint` plans for the window from
/// `start_time` to `end_time`.
pub open spec fn planned(
    endpoint: Seq<char>,
    query: Seq<char>,
    from: u64,
    to: u64,
    start_time: u64,
    end_time: u64,
) -> EdgeQueryView {
    EdgeQueryView {
        url: endpoint,
        query,
        from,
        to,
        start_time,
        end_time,
        step: step_for(start_time as int, end_time as int) as u64,
    }
}

/// The names and values of the request parameters, each as a sequence of
/// characters.
pub open spec fn param_views(params: Seq<(String, String)>) -> Seq<(Seq<char>, Seq<char>)> {
    Seq::new(params.len(), |i: int| (params[i].0@, params[i].1@))
}

/// The request parameters of a query: the expression unchanged, and the window
/// and the step as decimal text.
pub open spec fn request_params(query: EdgeQueryView) -> Seq<(Seq<char>, Seq<char>)> {
    seq![
        ("query"@, query.query),
        ("start"@, decimal_text(query.start_time as nat)),
        ("end"@, decimal_text(query.end_time as nat)),
        ("step"@, decimal_text(query.step as nat)),
    ]
}

/// The series that a query's outcome holds, or the failure that it stands for:
/// of a failed transport or an undecodable body the failure of that kind with
/// the transport's error, of a rejected query the backend's error as it came.
pub open spec fn outcome_data<E>(outcome: QueryOutcomeView<E>) -> Result<
    Seq<Seq<SampleView>>,
    ErrorView<E>,
> {
    match outcome {
        QueryOutcomeView::NetworkFailure(cause) => Err(ErrorView::Network(cause)),
        QueryOutcomeView::MalformedBody(cause) => Err(ErrorView::MalformedResponse(cause)),
        QueryOutcomeView::Response(QueryResultView::Failure { error_type, error }) => Err(
            ErrorView::PrometheusError { error_type, error },
        ),
        QueryOutcomeView::Response(QueryResultView::Success { data }) => Ok(data),
    }
}

/// The edge from `from` to `to` that the series of an answer show: none if the
/// answer holds no series, else what a scan of the first series gives. Further
/// series are not looked at.
pub open spec fn edge_in(data: Seq<Seq<SampleView>>, from: u64, to: u64) -> Result<
    Option<u64>,
    Seq<char>,
> {
    if data.len() == 0 {
        Ok(None)
    } else {
        scan(data.first(), from, to)
    }
}

/// The answer to a search for an edge from `from` to `to`, given what came of
/// its query.
pub open spec fn resolved<E>(from: u64, to: u64, outcome: QueryOutcomeView<E>) -> Result<
    Option<u64>,
    ErrorView<E>,
> {
    match outcome_data(outcome) {
        Err(error) => Err(error),
        Ok(data) => match edge_in(data, from, to) {
            Ok(edge) => Ok(edge),
            Err(text) => Err(ErrorView::NonNumericDataPoint(text)),
        },
    }
}

/// The view of an answer: the edge's time or its absence as it is, a failure by
/// its view.
pub open spec fn result_view<E>(result: Result<Option<u64>, Error<E>>) -> Result<
    Option<u64>,
    ErrorView<E>,
> {
    match result {
        Ok(edge) => Ok(edge),
        Err(error) => Err(error@),
    }
}

/// The view of the series of an answer, or of the failure in their place.
pub open spec fn data_view<E>(result: Result<QueryResultData, Error<E>>) -> Result<
    Seq<Seq<SampleView>>,
    ErrorView<E>,
> {
    match result {
        Ok(data) => Ok(data@),
        Err(error) => Err(error@),
    }
}

impl<E> QueryOutcome<E> {
    /// Takes the series out of the outcome, or gives the failure that the outcome
    /// stands for.
    pub fn into_data(self) -> (result: Result<QueryResultData, Error<E>>)
        ensures
            data_view(result) == outcome_data(self@),
    {
        match self {
            QueryOutcome::NetworkFailure(cause) => Err(Error::Network(cause)),
            QueryOutcome::MalformedBody(cause) => Err(Error::MalformedResponse(cause)),
            QueryOutcome::Response(QueryResult::Failure { error_type, error }) => Err(
                Error::PrometheusError { error_type, error },
            ),
            QueryOutcome::Response(QueryResult::Success { data }) => Ok(data),
        }
    }
}

/// Looks for the last edge from `from` to `to` in the first series of `data`.
///
/// Gives `None` if `data` holds no series, and the text of the first value in
/// the first series that is not an unsigned decimal number if there is one.
pub fn first_series_edge(data: &QueryResultData, from: u64, to: u64) -> (result: Result<
    Option<u64>,
    String,
>)
    ensures
        scan_view(result) == edge_in(data@, from, to),
{
    if data.result.len() == 0 {
        Ok(None)
    } else {
        last_edge(data.result[0].values.as_slice(), from, to)
    }
}

impl EdgeDetector {
    /// A detector for the backend at `prometheus_url`. Its endpoint is that
    /// address with the range-query path behind it.
    pub fn new(prometheus_url: &str) -> (detector: Self)
        ensures
            detector@ == prometheus_url@ + range_query_path(),
    {
        let mut base_url = prometheus_url.to_owned();
        base_url.append("/api/v1/query_range");
        EdgeDetector { base_url }
    }

    /// The URL of the backend's range-query endpoint.
    pub fn base_url(&self) -> (url: &str)
        ensures
            url@ == self@,
    {
        self.base_url.as_str()
    }

    /// Plans the search for the last edge of `query` from `from` to `to` within
    /// the last `max_age` before `now`, which is the time since the epoch.
    pub fn get_last_edge(
        &self,
        query: &str,
        from: u64,
        to: u64,
        now: TimeSpan,
        max_age: TimeSpan,
    ) -> (lookup: EdgeQuery)
        requires
            now.wf(),
            max_age.wf(),
            max_age.as_nanos() <= now.as_nanos(),
        ensures
            lookup@ == planned(
                self@,
                query@,
                from,
                to,
                window_start(now, max_age) as u64,
                now.secs,
            ),
    {
        let (start_time, end_time) = lookback_window(now, max_age);
        self.get_edge_between(query, from, to, start_time, end_time)
    }

    /// Plans the search for the last edge of `query` from `from` to `to` between
    /// `start_time` and `end_time`, both in seconds since the epoch.
    pub fn get_edge_between(
        &self,
        query: &str,
        from: u64,
        to: u64,
        start_time: u64,
        end_time: u64,
    ) -> (lookup: EdgeQuery)
        ensures
            lookup@ == planned(self@, query@, from, to, start_time, end_time),
    {
        EdgeQuery {
            url: self.base_url.clone(),
            query: query.to_owned(),
            from,
            to,
            start_time,
            end_time,
            step: query_step(start_time, end_time),
        }
    }
}

impl EdgeQuery {
    /// The parameters to send with the request, in order: `query`, `start`,
    /// `end` and `step`.
    pub fn params(&self) -> (params: Vec<(String, String)>)
        ensures
            param_views(params@) == request_params(self@),
    {
        let mut params: Vec<(String, String)> = Vec::new();
        params.push(("query".to_owned(), self.query.clone()));
        params.push(("start".to_owned(), format_u64(self.start_time)));
        params.push(("end".to_owned(), format_u64(self.end_time)));
        params.push(("step".to_owned(), format_u64(self.step)));
        assert(param_views(params@) =~= request_params(self@));
        params
    }

    /// The answer to the search, given what came of sending its query.
    ///
    /// A failed transport, an undecodable body and a query that the backend
    /// rejected each give the failure of their kind. An answer without series
    /// gives `None`. Else the first series is scanned: a value in it that is not
    /// an unsigned decimal number fails the search, and otherwise the result is
    /// the time of the last from-side sample that a later to-side sample follows,
    /// or `None`.
    pub fn resolve<E>(&self, outcome: QueryOutcome<E>) -> (result: Result<Option<u64>, Error<E>>)
        ensures
            result_view(result) == resolved(self.from, self.to, outcome@),
    {
        match outcome.into_data() {
            Err(error) => Err(error),
            Ok(data) => match first_series_edge(&data, self.from, self.to) {
                Ok(edge) => Ok(edge),
                Err(text) => Err(Error::NonNumericDataPoint(text)),
            },
        }
    }
}

/// An error that the backend reports is handed on as the backend's error, with
/// its kind and its message unchanged, and never as a malformed response.
pub proof fn lemma_backend_error_is_reported<E>(
    from: u64,
    to: u64,
    error_type: Seq<char>,
    error: Seq<char>,
)
    ensures
        resolved::<E>(
            from,
            to,
            QueryOutcomeView::Response(QueryResultView::Failure { error_type, error }),
        ) == Err::<Option<u64>, ErrorView<E>>(ErrorView::PrometheusError { error_type, error }),
{
}

/// An answer without series is no failure: it shows no edge.
pub proof fn lemma_no_series_no_edge<E>(from: u64, to: u64)
    ensures
        resolved::<E>(
            from,
            to,
            QueryOutcomeView::Response(QueryResultView::Success { data: Seq::empty() }),
        ) == Ok::<Option<u64>, ErrorView<E>>(None),
{
}

/// A value in the first series that is not numeric fails the search with that
/// kind of failure, whatever stands before and after it and in further series.
pub proof fn lemma_non_numeric_fails_search<E>(
    from: u64,
    to: u64,
    before: Seq<SampleView>,
    bad: SampleView,
    after: Seq<SampleView>,
    further: Seq<Seq<SampleView>>,
)
    requires
        !is_numeric(bad),
    ensures
        resolved::<E>(
            from,
            to,
            QueryOutcomeView::Response(
                QueryResultView::Success { data: seq![before + seq![bad] + after] + further },
            ),
        ) matches Err(ErrorView::NonNumericDataPoint(_)),
{
    lemma_non_numeric_fails_scan(before, bad, after, from, to);
    let data = seq![before + seq![bad] + after] + further;
    assert(data.first() == before + seq![bad] + after);
}

/// Resolving the same outcome of the same search twice gives the same answer.
pub proof fn lemma_resolve_is_repeatable<E>(
    from: u64,
    to: u64,
    outcome: QueryOutcomeView<E>,
    first: Result<Option<u64>, Error<E>>,
    second: Result<Option<u64>, Error<E>>,
)
    requires
        result_view(first) == resolved(from, to, outcome),
        result_view(second) == resolved(from, to, outcome),
    ensures
        result_view(first) == result_view(second),
        first is Ok ==> first == second,
{
}

} // verus!
