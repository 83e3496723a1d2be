//! What the data points of all kinds of metrics have in common: attributes and times.
use vstd::prelude::*;

use crate::any_value::{kvs_view, AnyView, KeyValue};
use crate::attributes::{attrs_from_kvs, kvs_from_attrs, OtelAttributes};
use crate::keyed::views;
use crate::otlp_metric::{
    Data, DataView, ExponentialHistogramDataPoint, ExponentialHistogramDataPointView,
    ExponentialHistogramView, GaugeView, HistogramDataPoint, HistogramDataPointView, HistogramView,
    NumberDataPoint, NumberDataPointView, SumView, SummaryDataPoint, SummaryDataPointView,
    SummaryView,
};

verus! {

/// A data point: its attributes, when its measurement began, and when it was made.
pub trait DataPoint: View {
    spec fn attributes_of(v: <Self as View>::V) -> Seq<(Seq<char>, Option<AnyView>)>;

    spec fn start_of(v: <Self as View>::V) -> u64;

    spec fn time_of(v: <Self as View>::V) -> u64;

    spec fn with_attributes(
        v: <Self as View>::V,
        kvs: Seq<(Seq<char>, Option<AnyView>)>,
    ) -> <Self as View>::V;

    spec fn with_start(v: <Self as View>::V, nanos: u64) -> <Self as View>::V;

    spec fn with_time(v: <Self as View>::V, nanos: u64) -> <Self as View>::V;

    /// Sets the attributes, and gives those that were there.
    fn replace_attributes(&mut self, kvs: Vec<KeyValue>) -> (r: Vec<KeyValue>)
        ensures
            final(self)@ == Self::with_attributes(old(self)@, kvs_view(kvs@)),
            kvs_view(r@) == Self::attributes_of(old(self)@),
    ;

    fn start_nanos(&self) -> (r: u64)
        ensures
            r == Self::start_of(self@),
    ;

    fn time_nanos(&self) -> (r: u64)
        ensures
            r == Self::time_of(self@),
    ;

    fn set_start_nanos(&mut self, nanos: u64)
        ensures
            final(self)@ == Self::with_start(old(self)@, nanos),
    ;

    fn set_time_nanos(&mut self, nanos: u64)
        ensures
            final(self)@ == Self::with_time(old(self)@, nanos),
    ;
}

impl DataPoint for NumberDataPoint {
    open spec fn attributes_of(v: NumberDataPointView) -> Seq<(Seq<char>, Option<AnyView>)> {
        v.attributes
    }

    open spec fn start_of(v: NumberDataPointView) -> u64 {
        v.start_time_unix_nano
    }

    open spec fn time_of(v: NumberDataPointView) -> u64 {
        v.time_unix_nano
    }

    open spec fn with_attributes(v: NumberDataPointView, kvs: Seq<(Seq<char>, Option<AnyView>)>) -> NumberDataPointView {
        NumberDataPointView { attributes: kvs, ..v }
    }

    open spec fn with_start(v: NumberDataPointView, nanos: u64) -> NumberDataPointView {
        NumberDataPointView { start_time_unix_nano: nanos, ..v }
    }

    open spec fn with_time(v: NumberDataPointView, nanos: u64) -> NumberDataPointView {
        NumberDataPointView { time_unix_nano: nanos, ..v }
    }

    fn replace_attributes(&mut self, kvs: Vec<KeyValue>) -> (r: Vec<KeyValue>) {
        let mut kvs = kvs;
        std::mem::swap(&mut self.attributes, &mut kvs);
        kvs
    }

    fn start_nanos(&self) -> (r: u64) {
        self.start_time_unix_nano
    }

    fn time_nanos(&self) -> (r: u64) {
        self.time_unix_nano
    }

    fn set_start_nanos(&mut self, nanos: u64) {
        self.start_time_unix_nano = nanos;
    }

    fn set_time_nanos(&mut self, nanos: u64) {
        self.time_unix_nano = nanos;
    }
}

impl DataPoint for HistogramDataPoint {
    open spec fn attributes_of(v: HistogramDataPointView) -> Seq<(Seq<char>, Option<AnyView>)> {
        v.attributes
    }

    open spec fn start_of(v: HistogramDataPointView) -> u64 {
        v.start_time_unix_nano
    }

    open spec fn time_of(v: HistogramDataPointView) -> u64 {
        v.time_unix_nano
    }

    open spec fn with_attributes(v: HistogramDataPointView, kvs: Seq<(Seq<char>, Option<AnyView>)>) -> HistogramDataPointView {
        HistogramDataPointView { attributes: kvs, ..v }
    }

    open spec fn with_start(v: HistogramDataPointView, nanos: u64) -> HistogramDataPointView {
        HistogramDataPointView { start_time_unix_nano: nanos, ..v }
    }

    open spec fn with_time(v: HistogramDataPointView, nanos: u64) -> HistogramDataPointView {
        HistogramDataPointView { time_unix_nano: nanos, ..v }
    }

    fn replace_attributes(&mut self, kvs: Vec<KeyValue>) -> (r: Vec<KeyValue>) {
        let mut kvs = kvs;
        std::mem::swap(&mut self.attributes, &mut kvs);
        kvs
    }

    fn start_nanos(&self) -> (r: u64) {
        self.start_time_unix_nano
    }

    fn time_nanos(&self) -> (r: u64) {
        self.time_unix_nano
    }

    fn set_start_nanos(&mut self, nanos: u64) {
        self.start_time_unix_nano = nanos;
    }

    fn set_time_nanos(&mut self, nanos: u64) {
        self.time_unix_nano = nanos;
    }
}

impl DataPoint for ExponentialHistogramDataPoint {
    open spec fn attributes_of(v: ExponentialHistogramDataPointView) -> Seq<(Seq<char>, Option<AnyView>)> {
        v.attributes
    }

    open spec fn start_of(v: ExponentialHistogramDataPointView) -> u64 {
        v.start_time_unix_nano
    }

    open spec fn time_of(v: ExponentialHistogramDataPointView) -> u64 {
        v.time_unix_nano
    }

    open spec fn with_attributes(v: ExponentialHistogramDataPointView, kvs: Seq<(Seq<char>, Option<AnyView>)>) -> ExponentialHistogramDataPointView {
        ExponentialHistogramDataPointView { attributes: kvs, ..v }
    }

    open spec fn with_start(v: ExponentialHistogramDataPointView, nanos: u64) -> ExponentialHistogramDataPointView {
        ExponentialHistogramDataPointView { start_time_unix_nano: nanos, ..v }
    }

    open spec fn with_time(v: ExponentialHistogramDataPointView, nanos: u64) -> ExponentialHistogramDataPointView {
        ExponentialHistogramDataPointView { time_unix_nano: nanos, ..v }
    }

    fn replace_attributes(&mut self, kvs: Vec<KeyValue>) -> (r: Vec<KeyValue>) {
        let mut kvs = kvs;
        std::mem::swap(&mut self.attributes, &mut kvs);
        kvs
    }

    fn start_nanos(&self) -> (r: u64) {
        self.start_time_unix_nano
    }

    fn time_nanos(&self) -> (r: u64) {
        self.time_unix_nano
    }

    fn set_start_nanos(&mut self, nanos: u64) {
        self.start_time_unix_nano = nanos;
    }

    fn set_time_nanos(&mut self, nanos: u64) {
        self.time_unix_nano = nanos;
    }
}

impl DataPoint for SummaryDataPoint {
    open spec fn attributes_of(v: SummaryDataPointView) -> Seq<(Seq<char>, Option<AnyView>)> {
        v.attributes
    }

    open spec fn start_of(v: SummaryDataPointView) -> u64 {
        v.start_time_unix_nano
    }

    open spec fn time_of(v: SummaryDataPointView) -> u64 {
        v.time_unix_nano
    }

    open spec fn with_attributes(v: SummaryDataPointView, kvs: Seq<(Seq<char>, Option<AnyView>)>) -> SummaryDataPointView {
        SummaryDataPointView { attributes: kvs, ..v }
    }

    open spec fn with_start(v: SummaryDataPointView, nanos: u64) -> SummaryDataPointView {
        SummaryDataPointView { start_time_unix_nano: nanos, ..v }
    }

    open spec fn with_time(v: SummaryDataPointView, nanos: u64) -> SummaryDataPointView {
        SummaryDataPointView { time_unix_nano: nanos, ..v }
    }

    fn replace_attributes(&mut self, kvs: Vec<KeyValue>) -> (r: Vec<KeyValue>) {
        let mut kvs = kvs;
        std::mem::swap(&mut self.attributes, &mut kvs);
        kvs
    }

    fn start_nanos(&self) -> (r: u64) {
        self.start_time_unix_nano
    }

    fn time_nanos(&self) -> (r: u64) {
        self.time_unix_nano
    }

    fn set_start_nanos(&mut self, nanos: u64) {
        self.start_time_unix_nano = nanos;
    }

    fn set_time_nanos(&mut self, nanos: u64) {
        self.time_unix_nano = nanos;
    }
}

/// The attributes of each data point.
pub open spec fn attributes_of_points<P: DataPoint>(points: Seq<<P as View>::V>) -> Seq<
    Seq<(Seq<char>, Option<AnyView>)>,
> {
    Seq::new(points.len(), |i: int| P::attributes_of(points[i]))
}

/// The data points with these attributes instead of their own; the ones beyond the end of the list
/// keep theirs.
pub open spec fn points_with_attributes<P: DataPoint>(
    points: Seq<<P as View>::V>,
    kvs: Seq<Seq<(Seq<char>, Option<AnyView>)>>,
) -> Seq<<P as View>::V> {
    Seq::new(
        points.len(),
        |i: int|
            if i < kvs.len() {
                P::with_attributes(points[i], kvs[i])
            } else {
                points[i]
            },
    )
}

/// The data points with the same time.
pub open spec fn points_at<P: DataPoint>(points: Seq<<P as View>::V>, nanos: u64) -> Seq<
    <P as View>::V,
> {
    Seq::new(points.len(), |i: int| P::with_time(points[i], nanos))
}

/// When the measurement of the first data point began, and when it was made.
pub open spec fn first_times<P: DataPoint>(points: Seq<<P as View>::V>) -> Option<(u64, u64)> {
    if points.len() == 0 {
        None
    } else {
        Some((P::start_of(points[0]), P::time_of(points[0])))
    }
}

/// Attributes, each list gathered by name.
pub open spec fn gathered_attributes(kvs: Seq<Seq<(Seq<char>, Option<AnyView>)>>) -> Seq<
    Seq<(Seq<char>, AnyView)>,
> {
    Seq::new(kvs.len(), |i: int| attrs_from_kvs(kvs[i]))
}

/// Attributes as lists of named ones.
pub open spec fn listed_attributes(attrs: Seq<Seq<(Seq<char>, AnyView)>>) -> Seq<
    Seq<(Seq<char>, Option<AnyView>)>,
> {
    Seq::new(attrs.len(), |i: int| kvs_from_attrs(attrs[i]))
}

/// As many empty lists of attributes as there are data points.
pub open spec fn no_attributes(n: nat) -> Seq<Seq<(Seq<char>, Option<AnyView>)>> {
    Seq::new(n, |i: int| Seq::empty())
}

/// Takes the attributes out of each data point.
fn take_attributes<P: DataPoint>(points: &mut Vec<P>) -> (r: Vec<OtelAttributes>)
    ensures
        views(r@) == gathered_attributes(attributes_of_points::<P>(views(old(points)@))),
        views(final(points)@) == points_with_attributes::<P>(
            views(old(points)@),
            no_attributes(old(points)@.len()),
        ),
        forall|i: int| 0 <= i < r@.len() ==> (#[trigger] r@[i]).wf(),
{
    let ghost before = views(points@);
    let mut taken: Vec<OtelAttributes> = Vec::new();
    let mut i: usize = 0;
    while i < points.len()
        invariant
            i <= points@.len(),
            points@.len() == old(points)@.len(),
            taken@.len() == i,
            before == views(old(points)@),
            forall|j: int|
                0 <= j < i ==> (#[trigger] taken@[j])@ == attrs_from_kvs(
                    P::attributes_of(before[j]),
                ) && taken@[j].wf(),
            forall|j: int|
                0 <= j < i ==> (#[trigger] points@[j])@ == P::with_attributes(
                    before[j],
                    Seq::empty(),
                ),
            forall|j: int| i <= j < points@.len() ==> #[trigger] points@[j] == old(points)@[j],
        decreases points@.len() - i,
    {
        assert(before[i as int] == points@[i as int]@);
        let none: Vec<KeyValue> = Vec::new();
        assert(kvs_view(none@) =~= Seq::empty());
        let kvs = points[i].replace_attributes(none);
        taken.push(OtelAttributes::from_key_values(kvs));
        i = i + 1;
    }
    assert(views(taken@) =~= gathered_attributes(attributes_of_points::<P>(before)));
    assert(views(points@) =~= points_with_attributes::<P>(before, no_attributes(points@.len())));
    taken
}

/// Gives each data point its attributes back.
fn give_attributes<P: DataPoint>(points: &mut Vec<P>, attrs: &Vec<OtelAttributes>)
    ensures
        views(final(points)@) == points_with_attributes::<P>(
            views(old(points)@),
            listed_attributes(views(attrs@)),
        ),
{
    let ghost before = views(points@);
    let mut i: usize = 0;
    while i < points.len() && i < attrs.len()
        invariant
            i <= points@.len(),
            i <= attrs@.len(),
            points@.len() == old(points)@.len(),
            before == views(old(points)@),
            forall|j: int|
                0 <= j < i ==> (#[trigger] points@[j])@ == P::with_attributes(
                    before[j],
                    kvs_from_attrs(attrs@[j]@),
                ),
            forall|j: int| i <= j < points@.len() ==> #[trigger] points@[j] == old(points)@[j],
        decreases points@.len() - i,
    {
        assert(before[i as int] == points@[i as int]@);
        points[i].replace_attributes(attrs[i].to_key_values());
        i = i + 1;
    }
    assert(views(points@) =~= points_with_attributes::<P>(
        before,
        listed_attributes(views(attrs@)),
    ));
}

/// Sets the time of each data point.
fn set_times<P: DataPoint>(points: &mut Vec<P>, nanos: u64)
    ensures
        views(final(points)@) == points_at::<P>(views(old(points)@), nanos),
{
    let ghost before = views(points@);
    let mut i: usize = 0;
    while i < points.len()
        invariant
            i <= points@.len(),
            points@.len() == old(points)@.len(),
            before == views(old(points)@),
            forall|j: int|
                0 <= j < i ==> (#[trigger] points@[j])@ == P::with_time(before[j], nanos),
            forall|j: int| i <= j < points@.len() ==> #[trigger] points@[j] == old(points)@[j],
        decreases points@.len() - i,
    {
        assert(before[i as int] == points@[i as int]@);
        points[i].set_time_nanos(nanos);
        i = i + 1;
    }
    assert(views(points@) =~= points_at::<P>(before, nanos));
}

/// The first data point with the start of its measurement set some nanoseconds before its time,
/// unless that is unknown.
pub open spec fn first_started<P: DataPoint>(points: Seq<<P as View>::V>, nanos: u64) -> Seq<
    <P as View>::V,
> {
    if points.len() == 0 || P::time_of(points[0]) == 0 {
        points
    } else {
        let time = P::time_of(points[0]);
        points.update(
            0,
            P::with_start(
                points[0],
                if time >= nanos {
                    (time - nanos) as u64
                } else {
                    0
                },
            ),
        )
    }
}

/// Sets the start of the measurement of the first data point.
fn start_first<P: DataPoint>(points: &mut Vec<P>, nanos: u64)
    ensures
        views(final(points)@) == first_started::<P>(views(old(points)@), nanos),
{
    if points.len() > 0 {
        let time = points[0].time_nanos();
        if time > 0 {
            points[0].set_start_nanos(
                if time >= nanos {
                    time - nanos
                } else {
                    0
                },
            );
        }
    }
    assert(views(points@) =~= first_started::<P>(views(old(points)@), nanos));
}

/// When the measurement of the first data point began, and when it was made.
fn times_of_first<P: DataPoint>(points: &Vec<P>) -> (r: Option<(u64, u64)>)
    ensures
        r == first_times::<P>(views(points@)),
{
    if points.len() == 0 {
        None
    } else {
        Some((points[0].start_nanos(), points[0].time_nanos()))
    }
}

impl DataView {
    /// The attributes of each data point.
    pub open spec fn point_attributes(&self) -> Seq<Seq<(Seq<char>, Option<AnyView>)>> {
        match self {
            DataView::Gauge(g) => attributes_of_points::<NumberDataPoint>(g.data_points),
            DataView::Sum(s) => attributes_of_points::<NumberDataPoint>(s.data_points),
            DataView::Histogram(h) => attributes_of_points::<HistogramDataPoint>(h.data_points),
            DataView::ExponentialHistogram(e) => attributes_of_points::<ExponentialHistogramDataPoint>(e.data_points),
            DataView::Summary(s) => attributes_of_points::<SummaryDataPoint>(s.data_points),
        }
    }

    /// The data with these attributes of the data points instead of their own.
    pub open spec fn with_point_attributes(
        self,
        kvs: Seq<Seq<(Seq<char>, Option<AnyView>)>>,
    ) -> DataView {
        match self {
            DataView::Gauge(g) => DataView::Gauge(
                GaugeView {
                    data_points: points_with_attributes::<NumberDataPoint>(g.data_points, kvs),
                    ..g
                },
            ),
            DataView::Sum(s) => DataView::Sum(
                SumView {
                    data_points: points_with_attributes::<NumberDataPoint>(s.data_points, kvs),
                    ..s
                },
            ),
            DataView::Histogram(h) => DataView::Histogram(
                HistogramView {
                    data_points: points_with_attributes::<HistogramDataPoint>(h.data_points, kvs),
                    ..h
                },
            ),
            DataView::ExponentialHistogram(e) => DataView::ExponentialHistogram(
                ExponentialHistogramView {
                    data_points: points_with_attributes::<ExponentialHistogramDataPoint>(e.data_points, kvs),
                    ..e
                },
            ),
            DataView::Summary(s) => DataView::Summary(
                SummaryView {
                    data_points: points_with_attributes::<SummaryDataPoint>(s.data_points, kvs),
                    ..s
                },
            ),
        }
    }

    /// The data without the attributes of the data points.
    pub open spec fn without_point_attributes(self) -> DataView {
        self.with_point_attributes(no_attributes(self.point_attributes().len()))
    }

    /// The data with the same time for each data point.
    pub open spec fn at(self, nanos: u64) -> DataView {
        match self {
            DataView::Gauge(g) => DataView::Gauge(
                GaugeView { data_points: points_at::<NumberDataPoint>(g.data_points, nanos), ..g },
            ),
            DataView::Sum(s) => DataView::Sum(
                SumView { data_points: points_at::<NumberDataPoint>(s.data_points, nanos), ..s },
            ),
            DataView::Histogram(h) => DataView::Histogram(
                HistogramView { data_points: points_at::<HistogramDataPoint>(h.data_points, nanos), ..h },
            ),
            DataView::ExponentialHistogram(e) => DataView::ExponentialHistogram(
                ExponentialHistogramView { data_points: points_at::<ExponentialHistogramDataPoint>(e.data_points, nanos), ..e },
            ),
            DataView::Summary(s) => DataView::Summary(
                SummaryView { data_points: points_at::<SummaryDataPoint>(s.data_points, nanos), ..s },
            ),
        }
    }

    /// The data with the start of the measurement of the first data point set some nanoseconds before
    /// its time, unless that is unknown.
    pub open spec fn started(self, nanos: u64) -> DataView {
        match self {
            DataView::Gauge(g) => DataView::Gauge(
                GaugeView { data_points: first_started::<NumberDataPoint>(g.data_points, nanos), ..g },
            ),
            DataView::Sum(s) => DataView::Sum(
                SumView { data_points: first_started::<NumberDataPoint>(s.data_points, nanos), ..s },
            ),
            DataView::Histogram(h) => DataView::Histogram(
                HistogramView { data_points: first_started::<HistogramDataPoint>(h.data_points, nanos), ..h },
            ),
            DataView::ExponentialHistogram(e) => DataView::ExponentialHistogram(
                ExponentialHistogramView { data_points: first_started::<ExponentialHistogramDataPoint>(e.data_points, nanos), ..e },
            ),
            DataView::Summary(s) => DataView::Summary(
                SummaryView { data_points: first_started::<SummaryDataPoint>(s.data_points, nanos), ..s },
            ),
        }
    }

    /// When the measurement of the first data point began, and when it was made.
    pub open spec fn first_times(&self) -> Option<(u64, u64)> {
        match self {
            DataView::Gauge(g) => first_times::<NumberDataPoint>(g.data_points),
            DataView::Sum(s) => first_times::<NumberDataPoint>(s.data_points),
            DataView::Histogram(h) => first_times::<HistogramDataPoint>(h.data_points),
            DataView::ExponentialHistogram(e) => first_times::<ExponentialHistogramDataPoint>(e.data_points),
            DataView::Summary(s) => first_times::<SummaryDataPoint>(s.data_points),
        }
    }
}

impl Data {
    /// Takes the attributes out of each data point.
    pub fn take_point_attributes(&mut self) -> (r: Vec<OtelAttributes>)
        ensures
            views(r@) == gathered_attributes(old(self)@.point_attributes()),
            final(self)@ == old(self)@.without_point_attributes(),
            forall|i: int| 0 <= i < r@.len() ==> (#[trigger] r@[i]).wf(),
    {
        match self {
            Data::Gauge(g) => take_attributes(&mut g.data_points),
            Data::Sum(s) => take_attributes(&mut s.data_points),
            Data::Histogram(h) => take_attributes(&mut h.data_points),
            Data::ExponentialHistogram(e) => take_attributes(&mut e.data_points),
            Data::Summary(s) => take_attributes(&mut s.data_points),
        }
    }

    /// Gives each data point its attributes back.
    pub fn give_point_attributes(&mut self, attrs: &Vec<OtelAttributes>)
        ensures
            final(self)@ == old(self)@.with_point_attributes(listed_attributes(views(attrs@))),
    {
        match self {
            Data::Gauge(g) => give_attributes(&mut g.data_points, attrs),
            Data::Sum(s) => give_attributes(&mut s.data_points, attrs),
            Data::Histogram(h) => give_attributes(&mut h.data_points, attrs),
            Data::ExponentialHistogram(e) => give_attributes(&mut e.data_points, attrs),
            Data::Summary(s) => give_attributes(&mut s.data_points, attrs),
        }
    }

    /// Sets the time of each data point.
    pub fn set_times(&mut self, nanos: u64)
        ensures
            final(self)@ == old(self)@.at(nanos),
    {
        match self {
            Data::Gauge(g) => set_times(&mut g.data_points, nanos),
            Data::Sum(s) => set_times(&mut s.data_points, nanos),
            Data::Histogram(h) => set_times(&mut h.data_points, nanos),
            Data::ExponentialHistogram(e) => set_times(&mut e.data_points, nanos),
            Data::Summary(s) => set_times(&mut s.data_points, nanos),
        }
    }

    /// Sets the start of the measurement of the first data point some nanoseconds before its time,
    /// unless that is unknown.
    pub fn set_start(&mut self, nanos: u64)
        ensures
            final(self)@ == old(self)@.started(nanos),
    {
        match self {
            Data::Gauge(g) => start_first(&mut g.data_points, nanos),
            Data::Sum(s) => start_first(&mut s.data_points, nanos),
            Data::Histogram(h) => start_first(&mut h.data_points, nanos),
            Data::ExponentialHistogram(e) => start_first(&mut e.data_points, nanos),
            Data::Summary(s) => start_first(&mut s.data_points, nanos),
        }
    }

    /// When the measurement of the first data point began, and when it was made.
    pub fn first_times(&self) -> (r: Option<(u64, u64)>)
        ensures
            r == self@.first_times(),
    {
        match self {
            Data::Gauge(g) => times_of_first(&g.data_points),
            Data::Sum(s) => times_of_first(&s.data_points),
            Data::Histogram(h) => times_of_first(&h.data_points),
            Data::ExponentialHistogram(e) => times_of_first(&e.data_points),
            Data::Summary(s) => times_of_first(&s.data_points),
        }
    }
}

} // verus!
