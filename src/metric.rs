//! Metric identities, metadata and the three accumulator kinds.
use vstd::prelude::*;

use crate::float_order::{bucket_index, is_bucket, ZERO_BITS};

verus! {

/// `a + b`, held at `u64::MAX` when it would exceed it.
pub open spec fn saturated_add(a: u64, b: u64) -> u64 {
    if a + b <= u64::MAX {
        (a + b) as u64
    } else {
        u64::MAX
    }
}

/// The 64-bit result of `a + b`, wrapping around as an atomic add does.
pub open spec fn wrapped_add(a: u64, b: u64) -> u64 {
    ((a + b) % 0x1_0000_0000_0000_0000) as u64
}

fn wrapping_add(a: u64, b: u64) -> (r: u64)
    ensures
        r == wrapped_add(a, b),
{
    if b <= u64::MAX - a {
        a + b
    } else {
        b - (u64::MAX - a) - 1
    }
}

/// One label of a metric identity.
pub struct Label {
    pub key: String,
    pub value: String,
}

/// A metric identity: a name and its labels, in the order given.
pub struct Key {
    pub name: String,
    pub labels: Vec<Label>,
}

/// What a label holds.
pub open spec fn label_view(l: Label) -> (Seq<char>, Seq<char>) {
    (l.key@, l.value@)
}

impl Label {
    pub fn new(key: &str, value: &str) -> (r: Label)
        ensures
            r.key@ == key@,
            r.value@ == value@,
    {
        Label { key: key.to_owned(), value: value.to_owned() }
    }

    pub fn copy(&self) -> (r: Label)
        ensures
            label_view(r) == label_view(*self),
    {
        Label { key: self.key.clone(), value: self.value.clone() }
    }
}

impl Key {
    /// The labels as pairs of key and value.
    pub open spec fn labels_view(&self) -> Seq<(Seq<char>, Seq<char>)> {
        self.labels@.map_values(|l: Label| label_view(l))
    }

    /// A key with a name and labels.
    pub fn new(name: &str, labels: Vec<Label>) -> (r: Key)
        ensures
            r.name@ == name@,
            r.labels@ == labels@,
    {
        Key { name: name.to_owned(), labels }
    }

    /// A key with a name and no labels.
    pub fn from_name(name: &str) -> (r: Key)
        ensures
            r.name@ == name@,
            r.labels@.len() == 0,
    {
        Key { name: name.to_owned(), labels: Vec::new() }
    }

    pub fn copy(&self) -> (r: Key)
        ensures
            r.name@ == self.name@,
            r.labels_view() == self.labels_view(),
    {
        let mut labels: Vec<Label> = Vec::new();
        let mut i: usize = 0;
        while i < self.labels.len()
            invariant
                i <= self.labels@.len(),
                labels@.len() == i,
                forall|j: int| 0 <= j < i ==> label_view(#[trigger] labels@[j]) == label_view(self.labels@[j]),
            decreases self.labels@.len() - i,
        {
            labels.push(self.labels[i].copy());
            i = i + 1;
        }
        let r = Key { name: self.name.clone(), labels };
        assert(r.labels_view() =~= self.labels_view());
        r
    }
}

/// A monotonic counter: a magnitude and the time of its last update.
pub struct CounterValue {
    pub value: u64,
    pub time: u64,
}

impl Default for CounterValue {
    fn default() -> (r: CounterValue)
        ensures
            r.value == 0,
            r.time == 0,
    {
        CounterValue { value: 0, time: 0 }
    }
}

impl CounterValue {
    pub fn value(&self) -> (r: u64)
        ensures
            r == self.value,
    {
        self.value
    }

    pub fn time(&self) -> (r: u64)
        ensures
            r == self.time,
    {
        self.time
    }

    /// Adds `value` to the magnitude, holding it at `u64::MAX` rather than
    /// letting it wrap, and stamps `now`. The magnitude never decreases.
    pub fn increment(&mut self, value: u64, now: u64)
        ensures
            final(self).value == saturated_add(old(self).value, value),
            final(self).value >= old(self).value,
            final(self).time == now,
    {
        self.value = self.value.saturating_add(value);
        self.time = now;
    }

    /// Raises the magnitude to `value` if it is larger, and stamps `now`.
    pub fn absolute(&mut self, value: u64, now: u64)
        ensures
            final(self).value == if value > old(self).value { value } else { old(self).value },
            final(self).time == now,
    {
        if value > self.value {
            self.value = value;
        }
        self.time = now;
    }
}

/// The magnitude after a run of increments from `start`.
pub open spec fn after_increments(start: u64, deltas: Seq<u64>) -> u64
    decreases deltas.len(),
{
    if deltas.len() == 0 {
        start
    } else {
        saturated_add(after_increments(start, deltas.drop_last()), deltas.last())
    }
}

/// The sum of a sequence of deltas.
pub open spec fn total(deltas: Seq<u64>) -> int
    decreases deltas.len(),
{
    if deltas.len() == 0 {
        0
    } else {
        total(deltas.drop_last()) + deltas.last()
    }
}

/// A run of increments leaves the counter at its start plus the sum of the
/// deltas, or at `u64::MAX` when that sum would exceed it.
pub proof fn lemma_increments_total(start: u64, deltas: Seq<u64>)
    ensures
        after_increments(start, deltas) as int == if start + total(deltas) <= u64::MAX {
            start + total(deltas)
        } else {
            u64::MAX as int
        },
    decreases deltas.len(),
{
    if deltas.len() > 0 {
        lemma_increments_total(start, deltas.drop_last());
    }
}

/// A run of increments never lowers the counter.
pub proof fn lemma_increments_monotonic(start: u64, deltas: Seq<u64>, n: int)
    requires
        0 <= n <= deltas.len(),
    ensures
        after_increments(start, deltas.take(n)) <= after_increments(start, deltas),
    decreases deltas.len() - n,
{
    if n < deltas.len() {
        lemma_increments_monotonic(start, deltas, n + 1);
        assert(deltas.take(n + 1).drop_last() =~= deltas.take(n));
    } else {
        assert(deltas.take(n) =~= deltas);
    }
}

/// `n` increments of `v` on a fresh counter leave it at `n * v`, or at
/// `u64::MAX` when `n * v` exceeds it.
pub proof fn lemma_repeated_increments(deltas: Seq<u64>, v: u64)
    requires
        forall|i: int| 0 <= i < deltas.len() ==> deltas[i] == v,
    ensures
        after_increments(0, deltas) as int == if deltas.len() * v <= u64::MAX {
            deltas.len() * v
        } else {
            u64::MAX as int
        },
{
    lemma_increments_total(0, deltas);
    lemma_total_constant(deltas, v);
}

proof fn lemma_total_constant(deltas: Seq<u64>, v: u64)
    requires
        forall|i: int| 0 <= i < deltas.len() ==> deltas[i] == v,
    ensures
        total(deltas) == deltas.len() * v,
    decreases deltas.len(),
{
    if deltas.len() > 0 {
        lemma_total_constant(deltas.drop_last(), v);
        assert(deltas.last() == v);
        vstd::arithmetic::mul::lemma_mul_is_distributive_add_other_way(v as int, (deltas.len() - 1) as int, 1);
    }
}

/// A gauge: the bit pattern of an `f64` value and the time of its last update.
pub struct GaugeValue {
    pub value: u64,
    pub time: u64,
}

impl Default for GaugeValue {
    fn default() -> (r: GaugeValue)
        ensures
            r.value == ZERO_BITS,
            r.time == 0,
    {
        GaugeValue { value: ZERO_BITS, time: 0 }
    }
}

impl GaugeValue {
    /// The bit pattern of the current value.
    pub fn value(&self) -> (r: u64)
        ensures
            r == self.value,
    {
        self.value
    }

    pub fn time(&self) -> (r: u64)
        ensures
            r == self.time,
    {
        self.time
    }

    /// Replaces the value by the pattern `value` and stamps `now`. Increments
    /// and decrements store the pattern of the new value through here too.
    pub fn set(&mut self, value: u64, now: u64)
        ensures
            final(self).value == value,
            final(self).time == now,
    {
        self.value = value;
        self.time = now;
    }
}

/// A histogram: the running sum (an `f64` pattern), the number of
/// observations, the time of the last one, the ascending bucket bounds
/// (`f64` patterns) and one counter per bucket, the last for values above
/// every bound.
pub struct HistogramValue {
    pub sum: u64,
    pub count: u64,
    pub time: u64,
    pub explicit_bounds: Vec<u64>,
    pub bucket_count: Vec<u64>,
}

/// The bucket counters after an observation lands in bucket `i`.
pub open spec fn bump(counts: Seq<u64>, i: int) -> Seq<u64> {
    counts.update(i, wrapped_add(counts[i], 1))
}

/// Landing in bucket `i` raises that counter by one (wrapping at 64 bits)
/// and leaves every other counter as it was.
pub proof fn lemma_bump_changes_one(counts: Seq<u64>, i: int)
    requires
        0 <= i < counts.len(),
    ensures
        bump(counts, i).len() == counts.len(),
        bump(counts, i)[i] == wrapped_add(counts[i], 1),
        forall|j: int| 0 <= j < counts.len() && j != i ==> bump(counts, i)[j] == counts[j],
{
}

proof fn lemma_total_update(counts: Seq<u64>, i: int, v: u64)
    requires
        0 <= i < counts.len(),
    ensures
        total(counts.update(i, v)) == total(counts) - counts[i] + v,
    decreases counts.len(),
{
    let u = counts.update(i, v);
    if i < counts.len() - 1 {
        assert(u.drop_last() =~= counts.drop_last().update(i, v));
        lemma_total_update(counts.drop_last(), i, v);
    } else {
        assert(u.drop_last() =~= counts.drop_last());
    }
}

/// Bucket counters that add up to the observation count (modulo 2^64) still
/// do after an observation lands in one bucket and the count goes up by one.
pub proof fn lemma_record_keeps_total(counts: Seq<u64>, i: int, count: u64)
    requires
        0 <= i < counts.len(),
        total(counts) % 0x1_0000_0000_0000_0000 == count as int,
    ensures
        total(bump(counts, i)) % 0x1_0000_0000_0000_0000 == wrapped_add(count, 1) as int,
{
    let m: int = 0x1_0000_0000_0000_0000;
    lemma_total_update(counts, i, wrapped_add(counts[i], 1));
    let t = total(counts);
    if counts[i] == u64::MAX {
        assert(total(bump(counts, i)) == t + 1 - m);
        vstd::arithmetic::div_mod::lemma_mod_sub_multiples_vanish(t + 1, m);
    } else {
        assert(total(bump(counts, i)) == t + 1);
    }
    vstd::arithmetic::div_mod::lemma_add_mod_noop(t, 1, m);
    vstd::arithmetic::div_mod::lemma_small_mod(1, m as nat);
    vstd::arithmetic::div_mod::lemma_mod_twice(t, m);
}

impl Default for HistogramValue {
    fn default() -> (r: HistogramValue)
        ensures
            r.wf(),
            r.sum == ZERO_BITS,
            r.count == 0,
            r.time == 0,
            r.explicit_bounds@.len() == 0,
    {
        HistogramValue {
            sum: ZERO_BITS,
            count: 0,
            time: 0,
            explicit_bounds: Vec::new(),
            bucket_count: Vec::new(),
        }
    }
}

impl HistogramValue {
    /// Without bounds there are no buckets; with `k` bounds there are `k + 1`.
    pub open spec fn wf(&self) -> bool {
        if self.explicit_bounds@.len() == 0 {
            self.bucket_count@.len() == 0
        } else {
            self.bucket_count@.len() == self.explicit_bounds@.len() + 1
        }
    }

    /// An empty histogram over `bounds`.
    pub fn from_bounds(bounds: Vec<u64>) -> (r: HistogramValue)
        ensures
            r.wf(),
            r.explicit_bounds@ == bounds@,
            r.sum == ZERO_BITS,
            r.count == 0,
            r.time == 0,
            forall|i: int| 0 <= i < r.bucket_count@.len() ==> r.bucket_count@[i] == 0,
    {
        let mut bucket_count: Vec<u64> = Vec::new();
        if bounds.len() > 0 {
            let mut i: usize = 0;
            while i < bounds.len()
                invariant
                    i <= bounds@.len(),
                    bucket_count@.len() == i,
                    forall|j: int| 0 <= j < i ==> bucket_count@[j] == 0,
                decreases bounds@.len() - i,
            {
                bucket_count.push(0);
                i = i + 1;
            }
            bucket_count.push(0);
        }
        HistogramValue { sum: ZERO_BITS, count: 0, time: 0, explicit_bounds: bounds, bucket_count }
    }

    /// The bit pattern of the running sum.
    pub fn sum(&self) -> (r: u64)
        ensures
            r == self.sum,
    {
        self.sum
    }

    pub fn count(&self) -> (r: u64)
        ensures
            r == self.count,
    {
        self.count
    }

    pub fn time(&self) -> (r: u64)
        ensures
            r == self.time,
    {
        self.time
    }

    pub fn bucket_count(&self) -> (r: Vec<u64>)
        ensures
            r@ == self.bucket_count@,
    {
        self.bucket_count.clone()
    }

    pub fn explicit_bounds(&self) -> (r: &[u64])
        ensures
            r@ == self.explicit_bounds@,
    {
        self.explicit_bounds.as_slice()
    }

    /// Records the observation `value` (an `f64` pattern): with bounds, the
    /// counter of its bucket goes up by one and no other; the count goes up by
    /// one (both wrapping at 64 bits), the sum becomes `new_sum` (the pattern of the old sum plus
    /// `value`, added in floating point by the caller), and the time `now`.
    pub fn record(&mut self, value: u64, new_sum: u64, now: u64)
        requires
            old(self).wf(),
        ensures
            final(self).wf(),
            final(self).explicit_bounds@ == old(self).explicit_bounds@,
            old(self).explicit_bounds@.len() == 0 ==> final(self).bucket_count@ == old(
                self,
            ).bucket_count@,
            old(self).explicit_bounds@.len() > 0 ==> exists|i: int|
                is_bucket(old(self).explicit_bounds@, value, i) && final(self).bucket_count@ == bump(
                    old(self).bucket_count@,
                    i,
                ),
            final(self).count == wrapped_add(old(self).count, 1),
            final(self).sum == new_sum,
            final(self).time == now,
    {
        self.sum = new_sum;
        if self.explicit_bounds.len() > 0 {
            let i = bucket_index(&self.explicit_bounds, value);
            let c = wrapping_add(self.bucket_count[i], 1);
            self.bucket_count.set(i, c);
            assert(is_bucket(old(self).explicit_bounds@, value, i as int) && self.bucket_count@
                == bump(old(self).bucket_count@, i as int));
        }
        self.count = wrapping_add(self.count, 1);
        self.time = now;
    }
}

/// The kind of a metric, with its accumulator.
pub enum MetricType {
    Counter(CounterValue),
    Gauge(GaugeValue),
    Histogram(HistogramValue),
}

/// The three kinds, without their accumulators.
#[derive(PartialEq, Eq, Structural, Clone, Copy, Debug)]
pub enum MetricKind {
    Counter,
    Gauge,
    Histogram,
}

impl MetricType {
    pub open spec fn kind_of(&self) -> MetricKind {
        match self {
            MetricType::Counter(_) => MetricKind::Counter,
            MetricType::Gauge(_) => MetricKind::Gauge,
            MetricType::Histogram(_) => MetricKind::Histogram,
        }
    }

    pub open spec fn wf(&self) -> bool {
        match self {
            MetricType::Histogram(h) => h.wf(),
            _ => true,
        }
    }

    /// The number of bucket bounds: a histogram's, zero for the other kinds.
    pub open spec fn bound_count(&self) -> nat {
        match self {
            MetricType::Histogram(h) => h.explicit_bounds@.len(),
            _ => 0,
        }
    }

    pub fn kind(&self) -> (r: MetricKind)
        ensures
            r == self.kind_of(),
    {
        match self {
            MetricType::Counter(_) => MetricKind::Counter,
            MetricType::Gauge(_) => MetricKind::Gauge,
            MetricType::Histogram(_) => MetricKind::Histogram,
        }
    }

    /// The kind's name in lower case.
    pub fn kind_name(&self) -> (r: &'static str)
        ensures
            self.kind_of() == MetricKind::Counter ==> r@ == "counter"@,
            self.kind_of() == MetricKind::Gauge ==> r@ == "gauge"@,
            self.kind_of() == MetricKind::Histogram ==> r@ == "histogram"@,
    {
        match self {
            MetricType::Counter(_) => "counter",
            MetricType::Gauge(_) => "gauge",
            MetricType::Histogram(_) => "histogram",
        }
    }
}

/// A declared description of every metric with a given name.
pub struct MetricDescription {
    pub key: String,
    pub description: String,
    /// The canonical label of the unit, if one was declared.
    pub unit: Option<String>,
}

/// A metric's metadata and accumulator.
pub struct MetricData {
    pub start_time: u64,
    pub description: String,
    /// The canonical label of the unit, if one was declared.
    pub unit: Option<String>,
    pub metric_type: MetricType,
}

/// The unit label that a metric exports: its own, or "1" when it has none.
pub open spec fn unit_label(unit: Option<String>) -> Seq<char> {
    match unit {
        Some(u) => u@,
        None => "1"@,
    }
}

impl MetricData {
    /// A metric that starts at `now`, with no description and no unit.
    pub fn basic(metric_type: MetricType, now: u64) -> (r: MetricData)
        ensures
            r.start_time == now,
            r.description@.len() == 0,
            r.unit.is_none(),
            r.metric_type == metric_type,
    {
        MetricData { unit: None, start_time: now, description: String::new(), metric_type }
    }

    pub fn unit(&self) -> (r: &str)
        ensures
            r@ == unit_label(self.unit),
    {
        match &self.unit {
            Some(u) => u.as_str(),
            None => "1",
        }
    }
}

} // verus!
