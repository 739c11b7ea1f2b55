//! Time series of metric values with retention, range queries and
//! fixed-interval windows.
//!
//! Timestamps are milliseconds since the Unix epoch, read by the caller.
//! Gauge values and histogram bounds are `f64` numbers, held here as their
//! bits; the statistics of a window (sum, minimum, maximum, average) are
//! floating-point arithmetic that the caller does over the window's values.
use vstd::prelude::*;
use vstd::string::*;
use crate::keyed::{find_key, index_of_key};
use crate::text::owned;

verus! {

/// A metric value.
#[derive(PartialEq, Eq, Structural, Clone, Copy, Debug)]
pub enum MetricValue {
    /// A count.
    Counter(u64),
    /// A measurement: the bits of an `f64`.
    Gauge(u64),
    /// A histogram bucket: the bits of its `f64` upper bound, and its count.
    Histogram { le: u64, count: u64 },
}

/// A value at a time.
#[derive(PartialEq, Eq, Structural, Clone, Copy, Debug)]
pub struct MetricPoint {
    pub timestamp: i64,
    pub value: MetricValue,
}

/// The length of an aggregation window.
#[derive(PartialEq, Eq, Structural, Clone, Copy, Debug)]
pub enum AggregationInterval {
    OneMinute,
    FiveMinutes,
    OneHour,
    OneDay,
}

/// The seconds in an interval.
pub open spec fn interval_seconds(i: AggregationInterval) -> i64 {
    match i {
        AggregationInterval::OneMinute => 60,
        AggregationInterval::FiveMinutes => 300,
        AggregationInterval::OneHour => 3600,
        AggregationInterval::OneDay => 86400,
    }
}

/// The milliseconds in an interval.
pub open spec fn interval_millis(i: AggregationInterval) -> i64 {
    match i {
        AggregationInterval::OneMinute => 60_000,
        AggregationInterval::FiveMinutes => 300_000,
        AggregationInterval::OneHour => 3_600_000,
        AggregationInterval::OneDay => 86_400_000,
    }
}

impl AggregationInterval {
    /// The length of the interval in seconds.
    pub fn to_seconds(&self) -> (r: i64)
        ensures
            r == interval_seconds(*self),
    {
        match self {
            AggregationInterval::OneMinute => 60,
            AggregationInterval::FiveMinutes => 300,
            AggregationInterval::OneHour => 3600,
            AggregationInterval::OneDay => 86400,
        }
    }

    /// The length of the interval in milliseconds.
    pub fn to_millis(&self) -> (r: i64)
        ensures
            r == interval_millis(*self),
    {
        self.to_seconds() * 1000
    }
}

/// The points of `ps` kept after one more arrives at `now`: first those
/// older than the retention are dropped from the front, then the new point
/// is added, then the oldest are dropped while more than `max_points` remain.
pub open spec fn drop_old(ps: Seq<MetricPoint>, cutoff: i64) -> Seq<MetricPoint>
    decreases ps.len(),
{
    if ps.len() > 0 && ps[0].timestamp < cutoff {
        drop_old(ps.drop_first(), cutoff)
    } else {
        ps
    }
}

/// The last `max` points of `ps`, or all of them when fewer.
pub open spec fn newest(ps: Seq<MetricPoint>, max: nat) -> Seq<MetricPoint> {
    if ps.len() > max {
        ps.skip(ps.len() - max)
    } else {
        ps
    }
}

/// The series after `p` is added at `now`.
pub open spec fn with_point(ps: Seq<MetricPoint>, p: MetricPoint, now: i64, retention: i64, max: nat) -> Seq<
    MetricPoint,
> {
    newest(drop_old(ps, (now - retention) as i64).push(p), max)
}

/// A series never holds more than `max` points, and a point just recorded
/// is its newest whenever any may be kept.
pub proof fn lemma_series_bounded(ps: Seq<MetricPoint>, p: MetricPoint, now: i64, retention: i64, max: nat)
    ensures
        with_point(ps, p, now, retention, max).len() <= max,
        max > 0 ==> with_point(ps, p, now, retention, max).last() == p,
{
}

/// The points of `ps` with `start <= timestamp <= end`, in order.
pub open spec fn points_between(ps: Seq<MetricPoint>, start: i64, end: i64) -> Seq<MetricPoint>
    decreases ps.len(),
{
    if ps.len() == 0 {
        Seq::empty()
    } else if start <= ps.last().timestamp <= end {
        points_between(ps.drop_last(), start, end).push(ps.last())
    } else {
        points_between(ps.drop_last(), start, end)
    }
}

/// The counter and gauge values of `ps` with `start <= timestamp < end`, in
/// order; histograms are left out.
pub open spec fn window_values(ps: Seq<MetricPoint>, start: i64, end: i64) -> Seq<MetricValue>
    decreases ps.len(),
{
    if ps.len() == 0 {
        Seq::empty()
    } else if start <= ps.last().timestamp < end && !(ps.last().value is Histogram) {
        window_values(ps.drop_last(), start, end).push(ps.last().value)
    } else {
        window_values(ps.drop_last(), start, end)
    }
}

/// The values of one aggregation window.
#[derive(Debug)]
pub struct AggregationWindow {
    pub start_time: i64,
    pub end_time: i64,
    pub values: Vec<MetricValue>,
}

/// A window by value.
pub struct WindowView {
    pub start_time: i64,
    pub end_time: i64,
    pub values: Seq<MetricValue>,
}

/// The non-empty windows among the first `k` of length `len` from `start`.
pub open spec fn windows(ps: Seq<MetricPoint>, start: i64, len: i64, k: nat) -> Seq<WindowView>
    decreases k,
{
    if k == 0 {
        Seq::empty()
    } else {
        let prev = windows(ps, start, len, (k - 1) as nat);
        let ws = start + (k - 1) * len;
        let we = start + k * len;
        let vs = window_values(ps, ws as i64, we as i64);
        if vs.len() > 0 {
            prev.push(WindowView { start_time: ws as i64, end_time: we as i64, values: vs })
        } else {
            prev
        }
    }
}

/// The number of whole windows of length `len` from `start` up to `end`.
pub open spec fn window_count(start: i64, end: i64, len: i64) -> nat {
    if start < end {
        ((end - start) / (len as int)) as nat
    } else {
        0
    }
}

/// `a` lies in the `k`-th stretch of length `len`.
proof fn lemma_div_between(a: int, len: int, k: int)
    by (nonlinear_arith)
    requires
        len > 0,
        k >= 0,
        k * len <= a < (k + 1) * len,
    ensures
        a / len == k,
{
}

/// Adding a name other than `n` at the end keeps `n`'s position.
proof fn lemma_position_kept(before: Seq<Seq<char>>, after: Seq<Seq<char>>, name: Seq<char>, n: Seq<char>)
    requires
        after == before || after == before.push(name),
        n != name,
    ensures
        index_of_key(after, n) == index_of_key(before, n),
        index_of_key(before, n) < before.len(),
{
    if before.contains(n) {
        let w = choose|w: int| 0 <= w < before.len() && before[w] == n;
        crate::keyed::lemma_key_held(before, n, w);
        let k = index_of_key(before, n);
        assert(crate::keyed::is_first_index(after, n, k));
        crate::keyed::lemma_index_of_key(after, n, k);
    } else {
        crate::keyed::lemma_key_missing(before, n);
        assert(!after.contains(n)) by {
            if after.contains(n) {
                let w = choose|w: int| 0 <= w < after.len() && after[w] == n;
                if w < before.len() {
                    assert(before[w] == n);
                }
            }
        }
        crate::keyed::lemma_key_missing(after, n);
    }
}

/// One metric's points.
#[derive(Debug)]
struct TimeSeries {
    name: String,
    points: Vec<MetricPoint>,
}

/// Time series by name.
#[derive(Debug)]
pub struct MetricsStore {
    names: Vec<String>,
    series: Vec<TimeSeries>,
    max_points: usize,
    retention_ms: i64,
}

/// The views of a list of windows.
pub open spec fn windows_view(v: Seq<AggregationWindow>) -> Seq<WindowView> {
    v.map_values(|w: AggregationWindow| WindowView {
        start_time: w.start_time,
        end_time: w.end_time,
        values: w.values@,
    })
}

fn collect_between(ps: &Vec<MetricPoint>, start: i64, end: i64) -> (r: Vec<MetricPoint>)
    ensures
        r@ == points_between(ps@, start, end),
{
    let mut r: Vec<MetricPoint> = Vec::new();
    let mut i: usize = 0;
    assert(ps@.take(0) =~= Seq::<MetricPoint>::empty());
    while i < ps.len()
        invariant
            i <= ps.len(),
            r@ == points_between(ps@.take(i as int), start, end),
        decreases ps.len() - i,
    {
        assert(ps@.take(i + 1).drop_last() =~= ps@.take(i as int));
        let p = ps[i];
        if start <= p.timestamp && p.timestamp <= end {
            r.push(p);
        }
        i = i + 1;
    }
    assert(ps@.take(ps.len() as int) =~= ps@);
    r
}

fn collect_window(ps: &Vec<MetricPoint>, start: i64, end: i64) -> (r: Vec<MetricValue>)
    ensures
        r@ == window_values(ps@, start, end),
{
    let mut r: Vec<MetricValue> = Vec::new();
    let mut i: usize = 0;
    assert(ps@.take(0) =~= Seq::<MetricPoint>::empty());
    while i < ps.len()
        invariant
            i <= ps.len(),
            r@ == window_values(ps@.take(i as int), start, end),
        decreases ps.len() - i,
    {
        assert(ps@.take(i + 1).drop_last() =~= ps@.take(i as int));
        let p = ps[i];
        let counted = match p.value {
            MetricValue::Histogram { .. } => false,
            _ => true,
        };
        if start <= p.timestamp && p.timestamp < end && counted {
            r.push(p.value);
        }
        i = i + 1;
    }
    assert(ps@.take(ps.len() as int) =~= ps@);
    r
}

impl MetricsStore {
    /// The metric names, in the order first recorded.
    pub closed spec fn spec_names(&self) -> Seq<Seq<char>> {
        self.names@.map_values(|s: String| s@)
    }

    /// The points of the metric at position `i`.
    pub closed spec fn points_at(&self, i: int) -> Seq<MetricPoint> {
        self.series@[i].points@
    }

    /// The points of a metric, empty when it has none.
    pub open spec fn points_of(&self, name: Seq<char>) -> Seq<MetricPoint> {
        let i = index_of_key(self.spec_names(), name);
        if i >= 0 {
            self.points_at(i)
        } else {
            Seq::empty()
        }
    }

    /// The most points a series keeps.
    pub closed spec fn spec_max_points(&self) -> usize {
        self.max_points
    }

    /// How long points are kept, in milliseconds.
    pub closed spec fn spec_retention(&self) -> i64 {
        self.retention_ms
    }

    /// The name and series lists line up.
    pub closed spec fn wf(&self) -> bool {
        self.names@.len() == self.series@.len()
    }

    /// An empty store keeping at most `max_points` points per series, each
    /// for `retention_ms` milliseconds.
    pub fn new(max_points: usize, retention_ms: i64) -> (r: Self)
        ensures
            r.wf(),
            r.spec_names().len() == 0,
            r.spec_max_points() == max_points,
            r.spec_retention() == retention_ms,
    {
        let r = MetricsStore { names: Vec::new(), series: Vec::new(), max_points, retention_ms };
        assert(r.spec_names() =~= Seq::<Seq<char>>::empty());
        r
    }

    /// Records `value` for `name` at `now`, keeping the series within its
    /// retention and size.
    pub fn record(&mut self, name: &str, value: MetricValue, now: i64)
        requires
            old(self).wf(),
            i64::MIN + old(self).spec_retention() <= now,
            old(self).spec_retention() >= 0,
        ensures
            final(self).wf(),
            final(self).spec_max_points() == old(self).spec_max_points(),
            final(self).spec_retention() == old(self).spec_retention(),
            final(self).spec_names() == if old(self).spec_names().contains(name@) {
                old(self).spec_names()
            } else {
                old(self).spec_names().push(name@)
            },
            final(self).points_of(name@) == with_point(
                old(self).points_of(name@),
                MetricPoint { timestamp: now, value },
                now,
                old(self).spec_retention(),
                old(self).spec_max_points() as nat,
            ),
            forall|n: Seq<char>| n != name@ ==> #[trigger] final(self).points_of(n) == old(
                self,
            ).points_of(n),
    {
        let idx = match find_key(&self.names, name) {
            Some(i) => i,
            None => {
                let ghost old_names = self.spec_names();
                self.names.push(owned(name));
                self.series.push(TimeSeries { name: owned(name), points: Vec::new() });
                assert(self.spec_names() =~= old_names.push(name@));
                proof {
                    assert(crate::keyed::is_first_index(self.spec_names(), name@, old_names.len() as int));
                    crate::keyed::lemma_index_of_key(self.spec_names(), name@, old_names.len() as int);
                }
                self.names.len() - 1
            },
        };
        let ghost mid_names = self.spec_names();
        let ghost mid_series = self.series@;
        let mut ts = self.series.remove(idx);
        let cutoff = now - self.retention_ms;
        let ghost before = ts.points@;
        while ts.points.len() > 0 && ts.points[0].timestamp < cutoff
            invariant
                drop_old(ts.points@, cutoff) == drop_old(before, cutoff),
            decreases ts.points@.len(),
        {
            let ghost cur = ts.points@;
            ts.points.remove(0);
            assert(ts.points@ =~= cur.drop_first());
        }
        ts.points.push(MetricPoint { timestamp: now, value });
        let ghost grown = ts.points@;
        while ts.points.len() > self.max_points
            invariant
                newest(ts.points@, self.max_points as nat) == newest(grown, self.max_points as nat),
            decreases ts.points@.len(),
        {
            let ghost cur = ts.points@;
            ts.points.remove(0);
            assert(ts.points@ =~= cur.drop_first());
            assert(newest(ts.points@, self.max_points as nat) =~= newest(cur, self.max_points as nat));
        }
        assert(newest(ts.points@, self.max_points as nat) =~= ts.points@);
        let ghost new_ts = ts;
        self.series.insert(idx, ts);
        assert(self.series@ =~= mid_series.update(idx as int, new_ts));
        assert(self.spec_names() == mid_names);
        assert forall|n: Seq<char>| n != name@ implies #[trigger] self.points_of(n) == old(self).points_of(n) by {
            lemma_position_kept(old(self).spec_names(), self.spec_names(), name@, n);
            let j = index_of_key(self.spec_names(), n);
            if j >= 0 {
                crate::keyed::lemma_key_held(old(self).spec_names(), n, j);
                assert(self.spec_names()[j] == n);
                assert(j != idx);
                assert(self.series@[j] == old(self).series@[j]);
            }
        }
    }

    /// The points of `name` from `start` to `end`, both included.
    pub fn query(&self, name: &str, start: i64, end: i64) -> (r: Vec<MetricPoint>)
        requires
            self.wf(),
        ensures
            r@ == points_between(self.points_of(name@), start, end),
    {
        match find_key(&self.names, name) {
            Some(i) => collect_between(&self.series[i].points, start, end),
            None => {
                let r: Vec<MetricPoint> = Vec::new();
                assert(points_between(Seq::<MetricPoint>::empty(), start, end) =~= r@);
                r
            },
        }
    }

    /// The non-empty windows of `interval` from `start` while they end by
    /// `end`, each with the counter and gauge values of `name` inside it.
    pub fn query_aggregated(&self, name: &str, start: i64, end: i64, interval: AggregationInterval) -> (r:
        Vec<AggregationWindow>)
        requires
            self.wf(),
            end <= i64::MAX - 86_400_000,
        ensures
            windows_view(r@) == windows(
                self.points_of(name@),
                start,
                interval_millis(interval),
                window_count(start, end, interval_millis(interval)),
            ),
    {
        let ghost ps = self.points_of(name@);
        let empty: Vec<MetricPoint> = Vec::new();
        let points = match find_key(&self.names, name) {
            Some(i) => &self.series[i].points,
            None => &empty,
        };
        assert(points@ == ps);
        let len = interval.to_millis();
        let ghost n = window_count(start, end, len);
        let mut r: Vec<AggregationWindow> = Vec::new();
        let mut current_start = start;
        let ghost mut k: nat = 0;
        assert(windows_view(r@) =~= Seq::<WindowView>::empty());
        loop
            invariant_except_break
                current_start == start + k * len,
                windows_view(r@) == windows(ps, start, len, k),
                points@ == ps,
                len == interval_millis(interval),
                len > 0,
                len <= 86_400_000,
                end <= i64::MAX - 86_400_000,
                k == 0 || start + k * len <= end,
                n == window_count(start, end, len),
            ensures
                windows_view(r@) == windows(ps, start, len, n),
            decreases end - current_start,
        {
            if current_start >= end {
                proof {
                    if k > 0 {
                        assert(k * len == end - start);
                        assert(start < end) by (nonlinear_arith)
                            requires
                                k > 0,
                                len > 0,
                                k * len == end - start,
                        ;
                        assert(k * len <= end - start < (k + 1) * len) by (nonlinear_arith)
                            requires
                                k * len == end - start,
                                len > 0,
                        ;
                        lemma_div_between(end - start, len as int, k as int);
                    }
                }
                break;
            }
            let current_end = current_start + len;
            assert(start + (k + 1) * len == current_end) by (nonlinear_arith)
                requires
                    current_start == start + k * len,
                    current_end == current_start + len,
            ;
            if current_end > end {
                proof {
                    assert(0 <= k * len) by (nonlinear_arith)
                        requires
                            k >= 0,
                            len > 0,
                    ;
                    lemma_div_between(end - start, len as int, k as int);
                }
                break;
            }
            let values = collect_window(points, current_start, current_end);
            if values.len() > 0 {
                let ghost before = r@;
                r.push(AggregationWindow { start_time: current_start, end_time: current_end, values });
                assert(windows_view(r@) =~= windows_view(before).push(WindowView {
                    start_time: current_start,
                    end_time: current_end,
                    values: window_values(ps, current_start, current_end),
                }));
            }
            current_start = current_end;
            proof {
                k = k + 1;
            }
        }
        r
    }

    /// The metric names, in the order first recorded.
    pub fn list_metrics(&self) -> (r: Vec<String>)
        ensures
            r@.map_values(|s: String| s@) == self.spec_names(),
    {
        let v = crate::text::clone_strings(&self.names);
        v
    }

    /// Forgets every series.
    pub fn clear(&mut self)
        ensures
            final(self).wf(),
            final(self).spec_names().len() == 0,
            final(self).spec_max_points() == old(self).spec_max_points(),
            final(self).spec_retention() == old(self).spec_retention(),
    {
        self.names = Vec::new();
        self.series = Vec::new();
        assert(self.spec_names() =~= Seq::<Seq<char>>::empty());
    }
}

} // verus!
