//! The edge detection algorithm.
//!
//! A query names two values, `from` and `to`. It is rising when `from < to` and
//! falling otherwise. Every sample lies on one of two sides of the threshold
//! `from`: on the from-side when it has not passed the threshold in the query's
//! direction, on the to-side when it has. An edge is found when the series was
//! last seen on the to-side after it was last seen on the from-side; its time is
//! that of the last from-side sample.
//!
//! `to` decides the direction and nothing else: both sides are told apart by
//! `from` alone.

use vstd::prelude::*;
use crate::decimal::{decimal_u64, parse_u64};
use crate::response::{Sample, SampleView, sample_views};

verus! {

/// A sample whose value has been read as a number.
pub struct Point {
    pub time: u64,
    pub value: u64,
}

/// Whether a query from `from` to `to` looks for a rising edge. A query with
/// `from == to` is not rising.
pub open spec fn is_rising(from: u64, to: u64) -> bool {
    from < to
}

/// Whether `value` lies on the from-side of `threshold`: at or below it for a
/// rising query, at or above it for a falling one.
pub open spec fn is_from_side(rising: bool, threshold: u64, value: u64) -> bool {
    if rising {
        value <= threshold
    } else {
        value >= threshold
    }
}

/// Whether `value` lies on the to-side of `threshold`: not on the from-side, and at
/// or above the threshold for a rising query, at or below it for a falling one.
pub open spec fn is_to_side(rising: bool, threshold: u64, value: u64) -> bool {
    !is_from_side(rising, threshold, value) && if rising {
        value >= threshold
    } else {
        value <= threshold
    }
}

/// The two sides of a threshold.
pub enum Side {
    /// Where the metric is before it crosses.
    From,
    /// Where the metric is once it has crossed.
    To,
}

/// Whether `value` lies on `side` of `threshold`.
pub open spec fn lies_on(side: Side, rising: bool, threshold: u64, value: u64) -> bool {
    match side {
        Side::From => is_from_side(rising, threshold, value),
        Side::To => is_to_side(rising, threshold, value),
    }
}

/// The index of the last point of `points` on `side`, or -1 if there is none.
pub open spec fn last_index_on(points: Seq<Point>, side: Side, rising: bool, threshold: u64) -> int
    decreases points.len(),
{
    if points.len() == 0 {
        -1
    } else if lies_on(side, rising, threshold, points.last().value) {
        points.len() - 1
    } else {
        last_index_on(points.drop_last(), side, rising, threshold)
    }
}

/// The time of the last point of `points` on `side`, or 0 if there is none.
pub open spec fn last_time_on(points: Seq<Point>, side: Side, rising: bool, threshold: u64) -> u64 {
    let last = last_index_on(points, side, rising, threshold);
    if last < 0 {
        0
    } else {
        points[last].time
    }
}

/// The edge that `points` show for a query from `from` to `to`: the time of the
/// last from-side point, if that time is not 0 and the last to-side point has a
/// later time.
pub open spec fn edge_between(points: Seq<Point>, from: u64, to: u64) -> Option<u64> {
    let rising = is_rising(from, to);
    let from_time = last_time_on(points, Side::From, rising, from);
    let to_time = last_time_on(points, Side::To, rising, from);
    if from_time > 0 && to_time > from_time {
        Some(from_time)
    } else {
        None
    }
}

/// Whether the times of `points` never go back.
pub open spec fn is_ascending(points: Seq<Point>) -> bool {
    forall|i: int, j: int|
        0 <= i <= j < points.len() ==> (#[trigger] points[i]).time <= (#[trigger] points[j]).time
}

/// Whether the sample's value is an unsigned decimal number of 64 bits.
pub open spec fn is_numeric(sample: SampleView) -> bool {
    decimal_u64(sample.value) is Some
}

/// Whether every sample's value is an unsigned decimal number of 64 bits.
pub open spec fn all_numeric(samples: Seq<SampleView>) -> bool {
    forall|i: int| 0 <= i < samples.len() ==> is_numeric(#[trigger] samples[i])
}

/// The sample with its value read as a number.
pub open spec fn point_of(sample: SampleView) -> Point
    recommends
        is_numeric(sample),
{
    Point { time: sample.time, value: decimal_u64(sample.value).unwrap() }
}

/// The samples with their values read as numbers, in the same order.
pub open spec fn points_of(samples: Seq<SampleView>) -> Seq<Point>
    recommends
        all_numeric(samples),
{
    Seq::new(samples.len(), |i: int| point_of(samples[i]))
}

/// The value text of the first sample that is not numeric, if there is one.
pub open spec fn first_non_numeric(samples: Seq<SampleView>) -> Option<Seq<char>>
    decreases samples.len(),
{
    if samples.len() == 0 {
        None
    } else if !is_numeric(samples.first()) {
        Some(samples.first().value)
    } else {
        first_non_numeric(samples.drop_first())
    }
}

/// What a scan of `samples` for an edge from `from` to `to` gives: the text of the
/// first value that is not numeric, if there is one, and else the edge that the
/// samples show, or its absence.
pub open spec fn scan(samples: Seq<SampleView>, from: u64, to: u64) -> Result<
    Option<u64>,
    Seq<char>,
> {
    match first_non_numeric(samples) {
        Some(text) => Err(text),
        None => Ok(edge_between(points_of(samples), from, to)),
    }
}

/// The result of a scan with the offending text, if any, as a sequence of
/// characters.
pub open spec fn scan_view(result: Result<Option<u64>, String>) -> Result<Option<u64>, Seq<char>> {
    match result {
        Ok(edge) => Ok(edge),
        Err(text) => Err(text@),
    }
}

/// A series has a first non-numeric value exactly if not all its values are
/// numeric.
pub proof fn lemma_first_non_numeric_none(samples: Seq<SampleView>)
    ensures
        first_non_numeric(samples) is None <==> all_numeric(samples),
    decreases samples.len(),
{
    if samples.len() > 0 {
        let rest = samples.drop_first();
        lemma_first_non_numeric_none(rest);
        if is_numeric(samples.first()) {
            if all_numeric(rest) {
                assert forall|i: int| 0 <= i < samples.len() implies is_numeric(
                    #[trigger] samples[i],
                ) by {
                    if i > 0 {
                        assert(samples[i] == rest[i - 1]);
                    }
                }
            } else {
                let j = choose|j: int| 0 <= j < rest.len() && !is_numeric(#[trigger] rest[j]);
                assert(samples[j + 1] == rest[j]);
            }
        }
    }
}

/// The first non-numeric value is the one before which every value is numeric.
pub proof fn lemma_first_non_numeric_at(samples: Seq<SampleView>, at: int)
    requires
        0 <= at < samples.len(),
        !is_numeric(samples[at]),
        forall|i: int| 0 <= i < at ==> is_numeric(#[trigger] samples[i]),
    ensures
        first_non_numeric(samples) == Some(samples[at].value),
    decreases samples.len(),
{
    if at > 0 {
        let rest = samples.drop_first();
        assert forall|i: int| 0 <= i < at - 1 implies is_numeric(#[trigger] rest[i]) by {
            assert(rest[i] == samples[i + 1]);
        }
        lemma_first_non_numeric_at(rest, at - 1);
    }
}

/// Every value lies on exactly one of the two sides.
pub proof fn lemma_sides_partition(rising: bool, threshold: u64, value: u64)
    ensures
        is_from_side(rising, threshold, value) != is_to_side(rising, threshold, value),
{
}

/// `last_index_on` is -1 if no point lies on the side, and else the index of a
/// point on the side after which no point lies on it.
pub proof fn lemma_last_index_on(points: Seq<Point>, side: Side, rising: bool, threshold: u64)
    ensures
        ({
            let last = last_index_on(points, side, rising, threshold);
            &&& -1 <= last < points.len()
            &&& last >= 0 ==> lies_on(side, rising, threshold, points[last].value)
            &&& forall|i: int|
                last < i < points.len() ==> !lies_on(
                    side,
                    rising,
                    threshold,
                    (#[trigger] points[i]).value,
                )
        }),
    decreases points.len(),
{
    if points.len() > 0 && !lies_on(side, rising, threshold, points.last().value) {
        let rest = points.drop_last();
        lemma_last_index_on(rest, side, rising, threshold);
        let last = last_index_on(rest, side, rising, threshold);
        assert forall|i: int| last < i < points.len() implies !lies_on(
            side,
            rising,
            threshold,
            (#[trigger] points[i]).value,
        ) by {
            if i < rest.len() {
                assert(rest[i] == points[i]);
            }
        }
        if last >= 0 {
            assert(rest[last] == points[last]);
        }
    }
}

/// The last point on a side is the one after which no point lies on that side.
pub proof fn lemma_last_index_on_at(
    points: Seq<Point>,
    side: Side,
    rising: bool,
    threshold: u64,
    at: int,
)
    requires
        0 <= at < points.len(),
        lies_on(side, rising, threshold, points[at].value),
        forall|i: int|
            at < i < points.len() ==> !lies_on(
                side,
                rising,
                threshold,
                (#[trigger] points[i]).value,
            ),
    ensures
        last_index_on(points, side, rising, threshold) == at,
        last_time_on(points, side, rising, threshold) == points[at].time,
{
    lemma_last_index_on(points, side, rising, threshold);
    let last = last_index_on(points, side, rising, threshold);
    if last < at {
        assert(!lies_on(side, rising, threshold, points[at].value));
    }
    if last > at {
        assert(!lies_on(side, rising, threshold, points[last].value));
    }
}

/// Seeing one more point moves the last time on the point's side to the point's
/// time, and leaves the last time on the other side as it was.
pub proof fn lemma_last_time_on_push(
    points: Seq<Point>,
    side: Side,
    rising: bool,
    threshold: u64,
    next: Point,
)
    ensures
        last_time_on(points.push(next), side, rising, threshold) == if lies_on(
            side,
            rising,
            threshold,
            next.value,
        ) {
            next.time
        } else {
            last_time_on(points, side, rising, threshold)
        },
{
    let longer = points.push(next);
    assert(longer.drop_last() =~= points);
    lemma_last_index_on(points, side, rising, threshold);
    let last = last_index_on(points, side, rising, threshold);
    if last >= 0 {
        assert(longer[last] == points[last]);
    }
}

/// A series whose every point lies on the from-side shows no edge.
pub proof fn lemma_no_crossing_no_edge(points: Seq<Point>, from: u64, to: u64)
    requires
        forall|i: int|
            0 <= i < points.len() ==> is_from_side(
                is_rising(from, to),
                from,
                (#[trigger] points[i]).value,
            ),
    ensures
        last_time_on(points, Side::To, is_rising(from, to), from) == 0,
        edge_between(points, from, to) is None,
{
    let rising = is_rising(from, to);
    lemma_last_index_on(points, Side::To, rising, from);
    let last = last_index_on(points, Side::To, rising, from);
    if last >= 0 {
        assert(is_from_side(rising, from, points[last].value));
    }
}

/// An edge is the time of a from-side point, and some to-side point has a later
/// time.
pub proof fn lemma_edge_is_seen(points: Seq<Point>, from: u64, to: u64) -> (seen: (int, int))
    requires
        edge_between(points, from, to) is Some,
    ensures
        0 <= seen.0 < points.len(),
        0 <= seen.1 < points.len(),
        is_from_side(is_rising(from, to), from, points[seen.0].value),
        is_to_side(is_rising(from, to), from, points[seen.1].value),
        edge_between(points, from, to) == Some(points[seen.0].time),
        points[seen.0].time < points[seen.1].time,
{
    let rising = is_rising(from, to);
    lemma_last_index_on(points, Side::From, rising, from);
    lemma_last_index_on(points, Side::To, rising, from);
    (last_index_on(points, Side::From, rising, from), last_index_on(points, Side::To, rising, from))
}

/// A series shows an edge if it ends on the to-side, at a later time than that of
/// its last from-side point, which is not 0. The edge is at that point's time.
pub proof fn lemma_edge_after_last_from(points: Seq<Point>, from: u64, to: u64, at: int)
    requires
        0 <= at < points.len() - 1,
        is_from_side(is_rising(from, to), from, points[at].value),
        forall|i: int|
            at < i < points.len() ==> !is_from_side(
                is_rising(from, to),
                from,
                (#[trigger] points[i]).value,
            ),
        0 < points[at].time < points.last().time,
    ensures
        edge_between(points, from, to) == Some(points[at].time),
{
    let rising = is_rising(from, to);
    lemma_last_index_on_at(points, Side::From, rising, from, at);
    assert(!is_from_side(rising, from, points[points.len() - 1].value));
    lemma_last_index_on_at(points, Side::To, rising, from, points.len() - 1);
}

/// In a series whose times never go back, the edge is decided by the last
/// from-side point and the final point alone: there is an edge exactly if the
/// last from-side point is not the final one, its time is not 0, and the final
/// point's time is later.
pub proof fn lemma_edge_of_ascending_series(points: Seq<Point>, from: u64, to: u64)
    requires
        is_ascending(points),
    ensures
        ({
            let last = last_index_on(points, Side::From, is_rising(from, to), from);
            edge_between(points, from, to) == if 0 <= last < points.len() - 1 && 0
                < points[last].time < points.last().time {
                Some(points[last].time)
            } else {
                None
            }
        }),
{
    let rising = is_rising(from, to);
    lemma_last_index_on(points, Side::From, rising, from);
    lemma_last_index_on(points, Side::To, rising, from);
    let last = last_index_on(points, Side::From, rising, from);
    let last_to = last_index_on(points, Side::To, rising, from);
    if 0 <= last < points.len() - 1 {
        assert(!is_from_side(rising, from, points[points.len() - 1].value));
        lemma_last_index_on_at(points, Side::To, rising, from, points.len() - 1);
    } else if last >= 0 && last_to >= 0 {
        assert(points[last_to].time <= points[last].time);
    }
}

/// A rising query finds the last sample at or below `from` once a later sample
/// lies above it: for points at times 100, 200 and 300 with the values `from - 1`,
/// `from` and `to + 1`, the edge is at 200.
pub proof fn lemma_rising_edge(from: u64, to: u64)
    requires
        from < to,
        1 <= from,
        to < u64::MAX,
    ensures
        edge_between(
            seq![
                Point { time: 100, value: (from - 1) as u64 },
                Point { time: 200, value: from },
                Point { time: 300, value: (to + 1) as u64 },
            ],
            from,
            to,
        ) == Some(200u64),
{
    let points = seq![
        Point { time: 100, value: (from - 1) as u64 },
        Point { time: 200, value: from },
        Point { time: 300, value: (to + 1) as u64 },
    ];
    lemma_edge_after_last_from(points, from, to, 1);
}

/// A falling query mirrors a rising one: for points at times 100, 200 and 300
/// with the values `from + 1`, `from` and `to - 1`, the edge is at 200.
pub proof fn lemma_falling_edge(from: u64, to: u64)
    requires
        from > to,
        from < u64::MAX,
        1 <= to,
    ensures
        edge_between(
            seq![
                Point { time: 100, value: (from + 1) as u64 },
                Point { time: 200, value: from },
                Point { time: 300, value: (to - 1) as u64 },
            ],
            from,
            to,
        ) == Some(200u64),
{
    let points = seq![
        Point { time: 100, value: (from + 1) as u64 },
        Point { time: 200, value: from },
        Point { time: 300, value: (to - 1) as u64 },
    ];
    lemma_edge_after_last_from(points, from, to, 1);
}

/// A series of numeric samples that all lie on the from-side scans to "no edge".
pub proof fn lemma_no_crossing_scans_to_none(samples: Seq<SampleView>, from: u64, to: u64)
    requires
        all_numeric(samples),
        forall|i: int|
            0 <= i < samples.len() ==> is_from_side(
                is_rising(from, to),
                from,
                point_of(#[trigger] samples[i]).value,
            ),
    ensures
        scan(samples, from, to) == Ok::<Option<u64>, Seq<char>>(None),
{
    lemma_first_non_numeric_none(samples);
    lemma_no_crossing_no_edge(points_of(samples), from, to);
}

/// One sample that is not numeric fails the scan, whatever stands before and
/// after it.
pub proof fn lemma_non_numeric_fails_scan(
    before: Seq<SampleView>,
    bad: SampleView,
    after: Seq<SampleView>,
    from: u64,
    to: u64,
)
    requires
        !is_numeric(bad),
    ensures
        scan(before + seq![bad] + after, from, to) is Err,
        all_numeric(before) ==> scan(before + seq![bad] + after, from, to) == Err::<
            Option<u64>,
            Seq<char>,
        >(bad.value),
{
    let samples = before + seq![bad] + after;
    assert(samples[before.len() as int] == bad);
    lemma_first_non_numeric_none(samples);
    if all_numeric(before) {
        assert forall|i: int| 0 <= i < before.len() implies is_numeric(#[trigger] samples[i]) by {
            assert(samples[i] == before[i]);
        }
        lemma_first_non_numeric_at(samples, before.len() as int);
    }
}

/// Two scans of the same samples for the same query agree: what a scan gives
/// depends on nothing but the samples and the two values.
pub proof fn lemma_scan_is_repeatable(
    samples: Seq<Sample>,
    from: u64,
    to: u64,
    first: Result<Option<u64>, String>,
    second: Result<Option<u64>, String>,
)
    requires
        scan_view(first) == scan(sample_views(samples), from, to),
        scan_view(second) == scan(sample_views(samples), from, to),
    ensures
        scan_view(first) == scan_view(second),
        first is Ok ==> first == second,
{
}

/// Scans `samples` in order for the last edge from `from` to `to`.
///
/// Gives the time of the last from-side sample if it is not 0 and the last
/// to-side sample has a later time, `None` if the samples show no such edge, and
/// the text of the first value that is not an unsigned decimal number if there is
/// one; no sample is skipped. The samples are taken in the order in which they
/// stand, which is expected to be by ascending time.
pub fn last_edge(samples: &[Sample], from: u64, to: u64) -> (result: Result<Option<u64>, String>)
    ensures
        scan_view(result) == scan(sample_views(samples@), from, to),
{
    let ghost views = sample_views(samples@);
    let rising = from < to;
    let mut from_time: u64 = 0;
    let mut to_time: u64 = 0;
    let mut i: usize = 0;
    while i < samples.len()
        invariant
            i <= samples@.len(),
            views == sample_views(samples@),
            rising == is_rising(from, to),
            forall|j: int| 0 <= j < i ==> is_numeric(#[trigger] views[j]),
            from_time == last_time_on(points_of(views.take(i as int)), Side::From, rising, from),
            to_time == last_time_on(points_of(views.take(i as int)), Side::To, rising, from),
        decreases samples@.len() - i,
    {
        let sample = &samples[i];
        assert(views[i as int] == sample@);
        match parse_u64(sample.value.as_str()) {
            None => {
                proof {
                    lemma_first_non_numeric_at(views, i as int);
                }
                return Err(sample.value.clone());
            },
            Some(value) => {
                proof {
                    let seen = points_of(views.take(i as int));
                    let next = points_of(views.take(i + 1));
                    let point = point_of(views[i as int]);
                    assert(next =~= seen.push(point));
                    lemma_last_time_on_push(seen, Side::From, rising, from, point);
                    lemma_last_time_on_push(seen, Side::To, rising, from, point);
                }
                let is_from_value = if rising {
                    value <= from
                } else {
                    value >= from
                };
                let is_to_value = if rising {
                    value >= from
                } else {
                    value <= from
                };
                if is_from_value {
                    from_time = sample.time;
                } else if is_to_value {
                    to_time = sample.time;
                }
            },
        }
        i = i + 1;
    }
    proof {
        assert(views.take(i as int) =~= views);
        assert(all_numeric(views));
        lemma_first_non_numeric_none(views);
    }
    if from_time > 0 && to_time > from_time {
        Ok(Some(from_time))
    } else {
        Ok(None)
    }
}

} // verus!
