//! The registry: metrics in order of registration, deduplicated by name, and
//! the descriptions declared for them.
use vstd::prelude::*;
use vstd::string::*;

use crate::float_order::ZERO_BITS;
use crate::float_order::is_bucket;
use crate::json::{array, document, floats_fit, joined, metrics_to_json, selected_docs, texts, FloatText};
use crate::metric::{
    bump, saturated_add, wrapped_add,
    CounterValue, GaugeValue, HistogramValue, Key, Label, MetricData, MetricDescription, MetricKind,
    MetricType,
};

verus! {

/// A metric and its identity, as the registry holds them.
pub type MetricEntry = (Key, MetricData);

/// Registration under a name that is taken by a metric of another kind.
#[derive(PartialEq, Eq, Structural, Clone, Copy, Debug)]
pub struct KindMismatch {
    pub expected: MetricKind,
    pub found: MetricKind,
}

/// `i` is the first metric named `name`.
pub open spec fn is_first_named(ms: Seq<MetricEntry>, name: Seq<char>, i: int) -> bool {
    &&& 0 <= i < ms.len()
    &&& ms[i].0.name@ == name
    &&& forall|j: int| 0 <= j < i ==> (#[trigger] ms[j]).0.name@ != name
}

/// Some metric is named `name`.
pub open spec fn has_named(ms: Seq<MetricEntry>, name: Seq<char>) -> bool {
    exists|i: int| 0 <= i < ms.len() && (#[trigger] ms[i]).0.name@ == name
}

/// `i` is the first description declared for `name`.
pub open spec fn is_first_description(ds: Seq<MetricDescription>, name: Seq<char>, i: int) -> bool {
    &&& 0 <= i < ds.len()
    &&& ds[i].key@ == name
    &&& forall|j: int| 0 <= j < i ==> (#[trigger] ds[j]).key@ != name
}

/// Some description is declared for `name`.
pub open spec fn has_description(ds: Seq<MetricDescription>, name: Seq<char>) -> bool {
    exists|i: int| 0 <= i < ds.len() && (#[trigger] ds[i]).key@ == name
}

/// What an optional unit label holds.
pub open spec fn unit_view(u: Option<String>) -> Option<Seq<char>> {
    match u {
        Some(s) => Some(s@),
        None => None,
    }
}

/// The time of a metric's last update.
pub open spec fn last_update(d: MetricData) -> u64 {
    match d.metric_type {
        MetricType::Counter(c) => c.time,
        MetricType::Gauge(g) => g.time,
        MetricType::Histogram(h) => h.time,
    }
}

/// An accumulator of `kind` as it stands when created, over `bounds` for a
/// histogram.
pub open spec fn is_fresh(t: MetricType, kind: MetricKind, bounds: Seq<u64>) -> bool {
    match t {
        MetricType::Counter(c) => kind == MetricKind::Counter && c.value == 0 && c.time == 0,
        MetricType::Gauge(g) => kind == MetricKind::Gauge && g.value == ZERO_BITS && g.time == 0,
        MetricType::Histogram(h) => {
            &&& kind == MetricKind::Histogram
            &&& h.wf()
            &&& h.explicit_bounds@ == bounds
            &&& h.sum == ZERO_BITS
            &&& h.count == 0
            &&& h.time == 0
            &&& forall|i: int| 0 <= i < h.bucket_count@.len() ==> h.bucket_count@[i] == 0
        },
    }
}

/// A metric just created for `key` at `now`, with the first description
/// declared for its name, if any.
pub open spec fn is_new_entry(
    e: MetricEntry,
    key: Key,
    kind: MetricKind,
    bounds: Seq<u64>,
    now: u64,
    ds: Seq<MetricDescription>,
) -> bool {
    &&& e.0.name@ == key.name@
    &&& e.0.labels_view() == key.labels_view()
    &&& e.1.start_time == now
    &&& is_fresh(e.1.metric_type, kind, bounds)
    &&& (forall|j: int|
        is_first_description(ds, key.name@, j) ==> e.1.description@ == ds[j].description@
            && unit_view(e.1.unit) == unit_view(ds[j].unit))
    &&& !has_description(ds, key.name@) ==> e.1.description@.len() == 0 && e.1.unit.is_none()
}

/// The outcome of registering `key` as `kind`: the first metric of that name
/// when it has that kind, a mismatch when it has another, and otherwise a new
/// metric appended at the end.
pub open spec fn registered(
    before: Seq<MetricEntry>,
    after: Seq<MetricEntry>,
    ds: Seq<MetricDescription>,
    key: Key,
    kind: MetricKind,
    bounds: Seq<u64>,
    now: u64,
    r: Result<usize, KindMismatch>,
) -> bool {
    if has_named(before, key.name@) {
        &&& after == before
        &&& forall|i: int|
            is_first_named(before, key.name@, i) ==> if before[i].1.metric_type.kind_of() == kind {
                r == Ok::<usize, KindMismatch>(i as usize)
            } else {
                r == Err::<usize, KindMismatch>(
                    KindMismatch { expected: kind, found: before[i].1.metric_type.kind_of() },
                )
            }
    } else {
        &&& r == Ok::<usize, KindMismatch>(before.len() as usize)
        &&& after.len() == before.len() + 1
        &&& after.take(before.len() as int) == before
        &&& is_new_entry(after.last(), key, kind, bounds, now, ds)
    }
}

/// Whether a metric last updated at `time` belongs to a snapshot taken at
/// `now`: always without a window, else when `now - time <= window`.
pub open spec fn in_window(time: u64, window: Option<u64>, now: u64) -> bool {
    match window {
        None => true,
        Some(w) => now - time <= w,
    }
}

/// The indices, in order, of the first `n` metrics that belong to the snapshot.
pub open spec fn selected(ms: Seq<MetricEntry>, window: Option<u64>, now: u64, n: int) -> Seq<usize>
    decreases n,
{
    if n <= 0 {
        Seq::empty()
    } else if in_window(last_update(ms[n - 1].1), window, now) {
        selected(ms, window, now, n - 1).push((n - 1) as usize)
    } else {
        selected(ms, window, now, n - 1)
    }
}

/// `after` differs from `before` at most in the accumulator of metric `id`.
pub open spec fn only_accumulator_changed(before: Seq<MetricEntry>, after: Seq<MetricEntry>, id: int) -> bool {
    &&& after.len() == before.len()
    &&& forall|i: int| 0 <= i < before.len() && i != id ==> after[i] == before[i]
    &&& after[id].0 == before[id].0
    &&& after[id].1.start_time == before[id].1.start_time
    &&& after[id].1.description == before[id].1.description
    &&& after[id].1.unit == before[id].1.unit
}

/// A registry of metrics for one service instance.
pub struct OtlpRecorder {
    pub name: String,
    pub version: String,
    pub instance_id: String,
    pub metrics: Vec<MetricEntry>,
    pub descriptions: Vec<MetricDescription>,
}

impl OtlpRecorder {
    /// Every histogram keeps one counter per bucket.
    pub open spec fn wf(&self) -> bool {
        forall|i: int| 0 <= i < self.metrics@.len() ==> (#[trigger] self.metrics@[i]).1.metric_type.wf()
    }

    /// `self` and `other` describe the same service instance.
    pub open spec fn same_service(&self, other: OtlpRecorder) -> bool {
        &&& self.name == other.name
        &&& self.version == other.version
        &&& self.instance_id == other.instance_id
    }

    /// Whether `id` designates a metric of `kind`.
    pub open spec fn is_handle(&self, id: int, kind: MetricKind) -> bool {
        0 <= id < self.metrics@.len() && self.metrics@[id].1.metric_type.kind_of() == kind
    }

    /// An empty registry for the service `name` at `version`, instance `instance_id`.
    pub fn new(name: &str, version: &str, instance_id: &str) -> (r: OtlpRecorder)
        ensures
            r.wf(),
            r.name@ == name@,
            r.version@ == version@,
            r.instance_id@ == instance_id@,
            r.metrics@.len() == 0,
            r.descriptions@.len() == 0,
    {
        OtlpRecorder {
            name: name.to_owned(),
            version: version.to_owned(),
            instance_id: instance_id.to_owned(),
            metrics: Vec::new(),
            descriptions: Vec::new(),
        }
    }

    /// The first metric named `name`, if any.
    pub fn find_metric(&self, name: &str) -> (r: Option<usize>)
        ensures
            r.is_none() <==> !has_named(self.metrics@, name@),
            r matches Some(i) ==> is_first_named(self.metrics@, name@, i as int),
    {
        let target = name.to_owned();
        let mut i: usize = 0;
        while i < self.metrics.len()
            invariant
                i <= self.metrics@.len(),
                target@ == name@,
                forall|j: int| 0 <= j < i ==> (#[trigger] self.metrics@[j]).0.name@ != name@,
            decreases self.metrics@.len() - i,
        {
            if self.metrics[i].0.name.eq(&target) {
                return Some(i);
            }
            i = i + 1;
        }
        None
    }

    fn find_description(&self, name: &str) -> (r: Option<usize>)
        ensures
            r.is_none() <==> !has_description(self.descriptions@, name@),
            r matches Some(i) ==> is_first_description(self.descriptions@, name@, i as int),
    {
        let target = name.to_owned();
        let mut i: usize = 0;
        while i < self.descriptions.len()
            invariant
                i <= self.descriptions@.len(),
                target@ == name@,
                forall|j: int| 0 <= j < i ==> (#[trigger] self.descriptions@[j]).key@ != name@,
            decreases self.descriptions@.len() - i,
        {
            if self.descriptions[i].key.eq(&target) {
                return Some(i);
            }
            i = i + 1;
        }
        None
    }

    /// Gives `metric` the description and unit first declared for `key`, if any.
    fn update_description(&self, key: &str, metric: &mut MetricData)
        ensures
            final(metric).start_time == old(metric).start_time,
            final(metric).metric_type == old(metric).metric_type,
            forall|j: int|
                is_first_description(self.descriptions@, key@, j) ==> final(metric).description@
                    == self.descriptions@[j].description@ && unit_view(final(metric).unit)
                    == unit_view(self.descriptions@[j].unit),
            !has_description(self.descriptions@, key@) ==> final(metric).description@ == old(
                metric,
            ).description@ && final(metric).unit == old(metric).unit,
    {
        match self.find_description(key) {
            Some(j) => {
                let d = &self.descriptions[j];
                metric.description = d.description.clone();
                metric.unit = match &d.unit {
                    Some(u) => Some(u.clone()),
                    None => None,
                };
            },
            None => {},
        }
    }

    fn add_description(&mut self, key: &str, unit: Option<String>, description: &str)
        ensures
            final(self).descriptions@.len() == old(self).descriptions@.len() + 1,
            final(self).descriptions@.take(old(self).descriptions@.len() as int) == old(
                self,
            ).descriptions@,
            final(self).descriptions@.last().key@ == key@,
            final(self).descriptions@.last().description@ == description@,
            final(self).descriptions@.last().unit == unit,
            final(self).metrics == old(self).metrics,
            final(self).name == old(self).name,
            final(self).version == old(self).version,
            final(self).instance_id == old(self).instance_id,
    {
        self.descriptions.push(
            MetricDescription { key: key.to_owned(), description: description.to_owned(), unit },
        );
        assert(self.descriptions@.take(old(self).descriptions@.len() as int) =~= old(
            self,
        ).descriptions@);
    }

    /// Declares the unit label and description of every counter named `key`
    /// that is registered from now on.
    pub fn describe_counter(&mut self, key: &str, unit: Option<String>, description: &str)
        ensures
            final(self).descriptions@.len() == old(self).descriptions@.len() + 1,
            final(self).descriptions@.take(old(self).descriptions@.len() as int) == old(
                self,
            ).descriptions@,
            final(self).descriptions@.last().key@ == key@,
            final(self).descriptions@.last().description@ == description@,
            final(self).descriptions@.last().unit == unit,
            final(self).metrics == old(self).metrics,
            final(self).same_service(*old(self)),
    {
        self.add_description(key, unit, description);
    }

    /// Declares the unit label and description of every gauge named `key`
    /// that is registered from now on.
    pub fn describe_gauge(&mut self, key: &str, unit: Option<String>, description: &str)
        ensures
            final(self).descriptions@.len() == old(self).descriptions@.len() + 1,
            final(self).descriptions@.take(old(self).descriptions@.len() as int) == old(
                self,
            ).descriptions@,
            final(self).descriptions@.last().key@ == key@,
            final(self).descriptions@.last().description@ == description@,
            final(self).descriptions@.last().unit == unit,
            final(self).metrics == old(self).metrics,
            final(self).same_service(*old(self)),
    {
        self.add_description(key, unit, description);
    }

    /// Declares the unit label and description of every histogram named `key`
    /// that is registered from now on.
    pub fn describe_histogram(&mut self, key: &str, unit: Option<String>, description: &str)
        ensures
            final(self).descriptions@.len() == old(self).descriptions@.len() + 1,
            final(self).descriptions@.take(old(self).descriptions@.len() as int) == old(
                self,
            ).descriptions@,
            final(self).descriptions@.last().key@ == key@,
            final(self).descriptions@.last().description@ == description@,
            final(self).descriptions@.last().unit == unit,
            final(self).metrics == old(self).metrics,
            final(self).same_service(*old(self)),
    {
        self.add_description(key, unit, description);
    }

    fn add_metric(&mut self, key: Key, metric: MetricData)
        requires
            old(self).wf(),
            metric.metric_type.wf(),
        ensures
            final(self).wf(),
            final(self).metrics@.len() == old(self).metrics@.len() + 1,
            final(self).metrics@.take(old(self).metrics@.len() as int) == old(self).metrics@,
            final(self).metrics@.last().0 == key,
            final(self).metrics@.last().1.start_time == metric.start_time,
            final(self).metrics@.last().1.metric_type == metric.metric_type,
            forall|j: int|
                is_first_description(old(self).descriptions@, key.name@, j)
                    ==> final(self).metrics@.last().1.description@ == old(
                    self,
                ).descriptions@[j].description@ && unit_view(final(self).metrics@.last().1.unit)
                    == unit_view(old(self).descriptions@[j].unit),
            !has_description(old(self).descriptions@, key.name@)
                ==> final(self).metrics@.last().1.description@ == metric.description@
                && final(self).metrics@.last().1.unit == metric.unit,
            final(self).descriptions == old(self).descriptions,
            final(self).name == old(self).name,
            final(self).version == old(self).version,
            final(self).instance_id == old(self).instance_id,
    {
        let mut metric = metric;
        self.update_description(key.name.as_str(), &mut metric);
        self.metrics.push((key, metric));
        assert(self.metrics@.take(old(self).metrics@.len() as int) =~= old(self).metrics@);
    }

    fn register(&mut self, key: &Key, fresh: MetricType, now: u64) -> (r: Result<usize, KindMismatch>)
        requires
            old(self).wf(),
            fresh.wf(),
        ensures
            final(self).wf(),
            final(self).descriptions == old(self).descriptions,
            final(self).name == old(self).name,
            final(self).version == old(self).version,
            final(self).instance_id == old(self).instance_id,
            has_named(old(self).metrics@, key.name@) ==> final(self).metrics@ == old(self).metrics@
                && forall|i: int|
                is_first_named(old(self).metrics@, key.name@, i) ==> if old(self).metrics@[i].1.metric_type.kind_of()
                    == fresh.kind_of() {
                    r == Ok::<usize, KindMismatch>(i as usize)
                } else {
                    r == Err::<usize, KindMismatch>(
                        KindMismatch {
                            expected: fresh.kind_of(),
                            found: old(self).metrics@[i].1.metric_type.kind_of(),
                        },
                    )
                },
            !has_named(old(self).metrics@, key.name@) ==> {
                &&& r == Ok::<usize, KindMismatch>(old(self).metrics@.len() as usize)
                &&& final(self).metrics@.len() == old(self).metrics@.len() + 1
                &&& final(self).metrics@.take(old(self).metrics@.len() as int) == old(self).metrics@
                &&& final(self).metrics@.last().0.name@ == key.name@
                &&& final(self).metrics@.last().0.labels_view() == key.labels_view()
                &&& final(self).metrics@.last().1.start_time == now
                &&& final(self).metrics@.last().1.metric_type == fresh
                &&& (forall|j: int|
                    is_first_description(old(self).descriptions@, key.name@, j)
                        ==> final(self).metrics@.last().1.description@ == old(
                        self,
                    ).descriptions@[j].description@ && unit_view(
                        final(self).metrics@.last().1.unit,
                    ) == unit_view(old(self).descriptions@[j].unit))
                &&& !has_description(old(self).descriptions@, key.name@)
                    ==> final(self).metrics@.last().1.description@.len() == 0
                    && final(self).metrics@.last().1.unit.is_none()
            },
    {
        match self.find_metric(key.name.as_str()) {
            Some(i) => {
                let found = self.metrics[i].1.metric_type.kind();
                let expected = fresh.kind();
                if found == expected {
                    Ok(i)
                } else {
                    Err(KindMismatch { expected, found })
                }
            },
            None => {
                let n = self.metrics.len();
                let metric = MetricData::basic(fresh, now);
                self.add_metric(key.copy(), metric);
                Ok(n)
            },
        }
    }

    /// Registers a counter for `key` at `now`: the first metric of that name
    /// when it is a counter (whatever its labels), a mismatch when it is of
    /// another kind, else a new counter at the end, with the first description
    /// declared for the name. The result designates the counter.
    pub fn register_counter(&mut self, key: &Key, now: u64) -> (r: Result<usize, KindMismatch>)
        requires
            old(self).wf(),
        ensures
            final(self).wf(),
            registered(
                old(self).metrics@,
                final(self).metrics@,
                old(self).descriptions@,
                *key,
                MetricKind::Counter,
                Seq::empty(),
                now,
                r,
            ),
            final(self).descriptions == old(self).descriptions,
            final(self).same_service(*old(self)),
    {
        self.register(key, MetricType::Counter(CounterValue::default()), now)
    }

    /// Registers a gauge for `key` at `now`, as `register_counter` does a counter.
    pub fn register_gauge(&mut self, key: &Key, now: u64) -> (r: Result<usize, KindMismatch>)
        requires
            old(self).wf(),
        ensures
            final(self).wf(),
            registered(
                old(self).metrics@,
                final(self).metrics@,
                old(self).descriptions@,
                *key,
                MetricKind::Gauge,
                Seq::empty(),
                now,
                r,
            ),
            final(self).descriptions == old(self).descriptions,
            final(self).same_service(*old(self)),
    {
        self.register(key, MetricType::Gauge(GaugeValue::default()), now)
    }

    /// Registers a histogram for `key` at `now` over `bounds`: for a new
    /// name, one ascending `f64` pattern per comma piece of the key's first
    /// `buckets` label (see `bucket_bounds_text`), none without that label. As
    /// `register_counter` does a counter. An existing histogram keeps its own
    /// bounds.
    pub fn register_histogram(&mut self, key: &Key, bounds: Vec<u64>, now: u64) -> (r: Result<
        usize,
        KindMismatch,
    >)
        requires
            old(self).wf(),
            !has_named(old(self).metrics@, key.name@) ==> bounds@.len() == bucket_pieces(
                key.labels@,
            ).len(),
        ensures
            final(self).wf(),
            registered(
                old(self).metrics@,
                final(self).metrics@,
                old(self).descriptions@,
                *key,
                MetricKind::Histogram,
                bounds@,
                now,
                r,
            ),
            final(self).descriptions == old(self).descriptions,
            final(self).same_service(*old(self)),
    {
        self.register(key, MetricType::Histogram(HistogramValue::from_bounds(bounds)), now)
    }

    /// Adds `value` to the counter `id` at `now`.
    pub fn increment_counter(&mut self, id: usize, value: u64, now: u64)
        requires
            old(self).wf(),
            old(self).is_handle(id as int, MetricKind::Counter),
        ensures
            final(self).wf(),
            only_accumulator_changed(old(self).metrics@, final(self).metrics@, id as int),
            match (old(self).metrics@[id as int].1.metric_type, final(self).metrics@[id as int].1.metric_type) {
                (MetricType::Counter(a), MetricType::Counter(b)) => b.value == saturated_add(a.value, value) && b.time == now,
                _ => false,
            },
            final(self).descriptions == old(self).descriptions,
            final(self).same_service(*old(self)),
    {
        let entry = &mut self.metrics[id];
        match &mut entry.1.metric_type {
            MetricType::Counter(c) => c.increment(value, now),
            _ => {},
        }
    }

    /// Raises the counter `id` to `value` if that is larger, at `now`.
    pub fn absolute_counter(&mut self, id: usize, value: u64, now: u64)
        requires
            old(self).wf(),
            old(self).is_handle(id as int, MetricKind::Counter),
        ensures
            final(self).wf(),
            only_accumulator_changed(old(self).metrics@, final(self).metrics@, id as int),
            match (old(self).metrics@[id as int].1.metric_type, final(self).metrics@[id as int].1.metric_type) {
                (MetricType::Counter(a), MetricType::Counter(b)) => b.value == (if value > a.value { value } else { a.value }) && b.time == now,
                _ => false,
            },
            final(self).descriptions == old(self).descriptions,
            final(self).same_service(*old(self)),
    {
        let entry = &mut self.metrics[id];
        match &mut entry.1.metric_type {
            MetricType::Counter(c) => c.absolute(value, now),
            _ => {},
        }
    }

    /// Sets the gauge `id` to the `f64` pattern `value` at `now`.
    pub fn set_gauge(&mut self, id: usize, value: u64, now: u64)
        requires
            old(self).wf(),
            old(self).is_handle(id as int, MetricKind::Gauge),
        ensures
            final(self).wf(),
            only_accumulator_changed(old(self).metrics@, final(self).metrics@, id as int),
            match final(self).metrics@[id as int].1.metric_type {
                MetricType::Gauge(b) => b.value == value && b.time == now,
                _ => false,
            },
            final(self).descriptions == old(self).descriptions,
            final(self).same_service(*old(self)),
    {
        let entry = &mut self.metrics[id];
        match &mut entry.1.metric_type {
            MetricType::Gauge(g) => g.set(value, now),
            _ => {},
        }
    }

    /// Records the observation `value` in the histogram `id` at `now`, its sum
    /// becoming `new_sum` (see `HistogramValue::record`).
    pub fn record_histogram(&mut self, id: usize, value: u64, new_sum: u64, now: u64)
        requires
            old(self).wf(),
            old(self).is_handle(id as int, MetricKind::Histogram),
        ensures
            final(self).wf(),
            only_accumulator_changed(old(self).metrics@, final(self).metrics@, id as int),
            match (old(self).metrics@[id as int].1.metric_type, final(self).metrics@[id as int].1.metric_type) {
                (MetricType::Histogram(a), MetricType::Histogram(b)) => {
                    &&& b.explicit_bounds@ == a.explicit_bounds@
                    &&& a.explicit_bounds@.len() == 0 ==> b.bucket_count@ == a.bucket_count@
                    &&& a.explicit_bounds@.len() > 0 ==> exists|i: int|
                        is_bucket(a.explicit_bounds@, value, i) && b.bucket_count@ == bump(a.bucket_count@, i)
                    &&& b.count == wrapped_add(a.count, 1)
                    &&& b.sum == new_sum
                    &&& b.time == now
                },
                _ => false,
            },
            final(self).descriptions == old(self).descriptions,
            final(self).same_service(*old(self)),
    {
        let entry = &mut self.metrics[id];
        match &mut entry.1.metric_type {
            MetricType::Histogram(h) => h.record(value, new_sum, now),
            _ => {},
        }
    }

    /// The time of the last update of metric `id`.
    pub fn last_update_of(&self, id: usize) -> (r: u64)
        requires
            id < self.metrics@.len(),
        ensures
            r == last_update(self.metrics@[id as int].1),
    {
        match &self.metrics[id].1.metric_type {
            MetricType::Counter(c) => c.time(),
            MetricType::Gauge(g) => g.time(),
            MetricType::Histogram(h) => h.time(),
        }
    }

    /// The metrics of a snapshot taken at `now`, in order of registration:
    /// all of them without a window, else those last updated no longer than
    /// `window` nanoseconds before `now`.
    pub fn snapshot(&self, window: Option<u64>, now: u64) -> (r: Vec<usize>)
        ensures
            r@ == selected(self.metrics@, window, now, self.metrics@.len() as int),
            forall|k: int| 0 <= k < r@.len() ==> #[trigger] r@[k] < self.metrics@.len(),
    {
        let mut r: Vec<usize> = Vec::new();
        let mut i: usize = 0;
        while i < self.metrics.len()
            invariant
                i <= self.metrics@.len(),
                r@ == selected(self.metrics@, window, now, i as int),
            decreases self.metrics@.len() - i,
        {
            let t = self.last_update_of(i);
            let keep = match window {
                None => true,
                Some(w) => now < t || now - t <= w,
            };
            if keep {
                r.push(i);
            }
            i = i + 1;
        }
        proof {
            assert forall|k: int| 0 <= k < r@.len() implies #[trigger] r@[k] < self.metrics@.len() by {
                lemma_selected_members(self.metrics@, window, now, self.metrics@.len() as int, 0);
            }
        }
        r
    }

    /// The OTLP JSON document of a snapshot taken at `now` (see `snapshot`);
    /// `floats[i]` is the text of the floating-point fields of metric `i`,
    /// with one bound text per bound of a histogram.
    pub fn to_json(&self, window: Option<u64>, now: u64, floats: &Vec<FloatText>) -> (r: String)
        requires
            self.wf(),
            floats@.len() == self.metrics@.len(),
            forall|i: int| 0 <= i < self.metrics@.len() ==> floats@[i].bounds@.len() == (
                #[trigger] self.metrics@[i]).1.metric_type.bound_count(),
        ensures
            r@ == document(
                self.name@,
                self.version@,
                self.instance_id@,
                selected_docs(self.metrics@, selected(self.metrics@, window, now, self.metrics@.len() as int), floats@),
            ),
    {
        let selection = self.snapshot(window, now);
        assert forall|i: int| 0 <= i < self.metrics@.len() implies floats_fit(
            #[trigger] self.metrics@[i],
            floats@[i],
        ) by {
            assert(self.metrics@[i].1.metric_type.wf());
        }
        metrics_to_json(
            self.name.as_str(),
            self.version.as_str(),
            self.instance_id.as_str(),
            &self.metrics,
            &selection,
            floats,
        )
    }
}

/// The pieces of `s` between commas, in order; a string without commas is
/// one piece.
pub open spec fn split_commas(s: Seq<char>) -> Seq<Seq<char>>
    decreases s.len(),
{
    if s.len() == 0 {
        seq![Seq::empty()]
    } else {
        let p = split_commas(s.drop_last());
        if s.last() == ',' {
            p.push(Seq::empty())
        } else {
            p.update(p.len() - 1, p.last().push(s.last()))
        }
    }
}

proof fn lemma_split_nonempty(s: Seq<char>)
    ensures
        split_commas(s).len() >= 1,
    decreases s.len(),
{
    if s.len() > 0 {
        lemma_split_nonempty(s.drop_last());
    }
}

/// `i` is the first label of `labels` with key `key`.
pub open spec fn is_first_label(labels: Seq<Label>, key: Seq<char>, i: int) -> bool {
    &&& 0 <= i < labels.len()
    &&& labels[i].key@ == key
    &&& forall|j: int| 0 <= j < i ==> (#[trigger] labels[j]).key@ != key
}

/// The texts of the bucket bounds that labels give a histogram: the value
/// of the first `buckets` label split at commas, or none without such a label.
pub open spec fn bucket_pieces(labels: Seq<Label>) -> Seq<Seq<char>>
    decreases labels.len(),
{
    if labels.len() == 0 {
        Seq::empty()
    } else if labels[0].key@ == "buckets"@ {
        split_commas(labels[0].value@)
    } else {
        bucket_pieces(labels.drop_first())
    }
}

proof fn lemma_bucket_pieces(labels: Seq<Label>, i: int)
    requires
        0 <= i <= labels.len(),
        forall|j: int| 0 <= j < i ==> (#[trigger] labels[j]).key@ != "buckets"@,
    ensures
        i < labels.len() && labels[i].key@ == "buckets"@ ==> bucket_pieces(labels) == split_commas(
            labels[i].value@,
        ),
        i == labels.len() ==> bucket_pieces(labels) == Seq::<Seq<char>>::empty(),
    decreases i,
{
    if i > 0 {
        assert forall|j: int| 0 <= j < i - 1 implies (#[trigger] labels.drop_first()[j]).key@ != "buckets"@ by {
            assert(labels.drop_first()[j] == labels[j + 1]);
        }
        lemma_bucket_pieces(labels.drop_first(), i - 1);
    }
}

/// The texts of the bucket bounds of a histogram for `key`: the first
/// `buckets` label's value split at commas, or nothing without such a label.
pub fn bucket_bounds_text(key: &Key) -> (r: Option<Vec<String>>)
    ensures
        r is None <==> forall|j: int| 0 <= j < key.labels@.len() ==> (#[trigger] key.labels@[j]).key@ != "buckets"@,
        r is None ==> bucket_pieces(key.labels@).len() == 0,
        r matches Some(v) ==> texts(v@) == bucket_pieces(key.labels@),
        r matches Some(v) ==> exists|i: int|
            is_first_label(key.labels@, "buckets"@, i) && texts(v@) == split_commas(key.labels@[i].value@),
{
    let target = "buckets".to_owned();
    let mut i: usize = 0;
    while i < key.labels.len()
        invariant
            i <= key.labels@.len(),
            target@ == "buckets"@,
            forall|j: int| 0 <= j < i ==> (#[trigger] key.labels@[j]).key@ != "buckets"@,
        decreases key.labels@.len() - i,
    {
        if key.labels[i].key.eq(&target) {
            let pieces = split_at_commas(key.labels[i].value.as_str());
            assert(is_first_label(key.labels@, "buckets"@, i as int));
            proof {
                lemma_bucket_pieces(key.labels@, i as int);
            }
            return Some(pieces);
        }
        i = i + 1;
    }
    proof {
        lemma_bucket_pieces(key.labels@, i as int);
    }
    None
}

/// Splits `s` at every comma.
pub fn split_at_commas(s: &str) -> (r: Vec<String>)
    ensures
        texts(r@) == split_commas(s@),
{
    let n = s.unicode_len();
    let mut pieces: Vec<String> = Vec::new();
    let mut start: usize = 0;
    let mut i: usize = 0;
    assert(s@.take(0) =~= Seq::<char>::empty());
    assert(texts(pieces@).push(s@.subrange(0, 0)) =~= split_commas(s@.take(0)));
    while i < n
        invariant
            n == s@.len(),
            start <= i <= n,
            texts(pieces@).push(s@.subrange(start as int, i as int)) == split_commas(s@.take(i as int)),
        decreases n - i,
    {
        let c = s.get_char(i);
        proof {
            assert(s@.take(i + 1).drop_last() =~= s@.take(i as int));
            assert(s@.take(i + 1).last() == c);
            lemma_split_nonempty(s@.take(i as int));
        }
        if c == ',' {
            let piece = s.substring_char(start, i).to_owned();
            let ghost prev = pieces@;
            pieces.push(piece);
            start = i + 1;
            proof {
                assert(texts(pieces@) =~= texts(prev).push(piece@));
                assert(s@.subrange(start as int, i + 1) =~= Seq::<char>::empty());
            }
        } else {
            proof {
                assert(s@.subrange(start as int, i + 1) =~= s@.subrange(start as int, i as int).push(c));
                assert(texts(pieces@).push(s@.subrange(start as int, i + 1)) =~= split_commas(s@.take(i + 1)));
            }
        }
        i = i + 1;
    }
    let piece = s.substring_char(start, n).to_owned();
    let ghost prev = pieces@;
    pieces.push(piece);
    assert(texts(pieces@) =~= texts(prev).push(piece@));
    assert(s@.take(n as int) =~= s@);
    assert(texts(pieces@) =~= split_commas(s@));
    pieces
}

/// An empty registry exports a document whose metrics list is empty.
pub proof fn lemma_empty_registry(
    r: OtlpRecorder,
    window: Option<u64>,
    now: u64,
    floats: Seq<FloatText>,
)
    requires
        r.metrics@.len() == 0,
    ensures
        selected_docs(r.metrics@, selected(r.metrics@, window, now, 0), floats) == Seq::<Seq<char>>::empty(),
        array(Seq::<Seq<char>>::empty()) == "["@ + "]"@,
{
    assert(selected_docs(r.metrics@, selected(r.metrics@, window, now, 0), floats) =~= Seq::<Seq<char>>::empty());
    assert(joined(Seq::<Seq<char>>::empty()) =~= Seq::empty());
    assert(array(Seq::<Seq<char>>::empty()) =~= "["@ + "]"@);
}

/// Registering a name a second time as the same kind, with any labels,
/// gives the metric of the first registration and changes nothing; updates
/// through either result therefore reach the same accumulator.
pub proof fn lemma_register_idempotent(
    before: Seq<MetricEntry>,
    middle: Seq<MetricEntry>,
    after: Seq<MetricEntry>,
    ds: Seq<MetricDescription>,
    k1: Key,
    k2: Key,
    kind: MetricKind,
    b1: Seq<u64>,
    b2: Seq<u64>,
    t1: u64,
    t2: u64,
    r1: Result<usize, KindMismatch>,
    r2: Result<usize, KindMismatch>,
)
    requires
        registered(before, middle, ds, k1, kind, b1, t1, r1),
        registered(middle, after, ds, k2, kind, b2, t2, r2),
        k1.name@ == k2.name@,
        r1 is Ok,
    ensures
        r2 == r1,
        after == middle,
{
    let name = k1.name@;
    if has_named(before, name) {
        let i = choose|i: int| 0 <= i < before.len() && (#[trigger] before[i]).0.name@ == name;
        let f = lemma_first_named(before, name, i);
        assert(r1 == Ok::<usize, KindMismatch>(f as usize));
        assert(is_first_named(middle, name, f));
    } else {
        let n = before.len() as int;
        assert(middle[n] == middle.last());
        assert(has_named(middle, name));
        assert forall|j: int| 0 <= j < n implies (#[trigger] middle[j]).0.name@ != name by {
            assert(middle[j] == middle.take(n)[j]);
            if middle[j].0.name@ == name {
                assert(before[j].0.name@ == name);
            }
        }
        assert(is_first_named(middle, name, n));
    }
}

/// Some metric is the first with a name that any metric has.
pub proof fn lemma_first_named(ms: Seq<MetricEntry>, name: Seq<char>, i: int) -> (f: int)
    requires
        0 <= i < ms.len(),
        ms[i].0.name@ == name,
    ensures
        is_first_named(ms, name, f),
    decreases i,
{
    if exists|j: int| 0 <= j < i && (#[trigger] ms[j]).0.name@ == name {
        let j = choose|j: int| 0 <= j < i && (#[trigger] ms[j]).0.name@ == name;
        lemma_first_named(ms, name, j)
    } else {
        i
    }
}

/// A metric last updated at `t` belongs to a snapshot taken at `t + d` with
/// window `w` exactly when `d <= w`; without a window it always does.
pub proof fn lemma_snapshot_window(ms: Seq<MetricEntry>, window: Option<u64>, now: u64, id: int)
    requires
        0 <= id < ms.len(),
        ms.len() <= usize::MAX,
    ensures
        selected(ms, window, now, ms.len() as int).contains(id as usize) <==> match window {
            None => true,
            Some(w) => now - last_update(ms[id].1) <= w,
        },
{
    lemma_selected_members(ms, window, now, ms.len() as int, id);
}

proof fn lemma_selected_members(ms: Seq<MetricEntry>, window: Option<u64>, now: u64, n: int, id: int)
    requires
        0 <= n <= ms.len(),
        0 <= id < ms.len(),
        ms.len() <= usize::MAX,
    ensures
        selected(ms, window, now, n).contains(id as usize) <==> (id < n && in_window(last_update(ms[id].1), window, now)),
        forall|k: int| 0 <= k < selected(ms, window, now, n).len() ==> selected(ms, window, now, n)[k] < n,
    decreases n,
{
    if n > 0 {
        lemma_selected_members(ms, window, now, n - 1, id);
        let p = selected(ms, window, now, n - 1);
        if in_window(last_update(ms[n - 1].1), window, now) {
            let x = (n - 1) as usize;
            let q = p.push(x);
            assert(selected(ms, window, now, n) == q);
            assert forall|y: usize| q.contains(y) <==> (p.contains(y) || y == x) by {
                if q.contains(y) {
                    let k = choose|k: int| 0 <= k < q.len() && #[trigger] q[k] == y;
                    if k < p.len() {
                        assert(p[k] == y);
                    }
                }
                if p.contains(y) {
                    let k = choose|k: int| 0 <= k < p.len() && #[trigger] p[k] == y;
                    assert(q[k] == y);
                }
                if y == x {
                    assert(q[p.len() as int] == y);
                }
            }
        } else {
            if p.contains((n - 1) as usize) {
                let k = choose|k: int| 0 <= k < p.len() && #[trigger] p[k] == (n - 1) as usize;
                assert(p[k] < n - 1);
            }
        }
    }
}

} // verus!
