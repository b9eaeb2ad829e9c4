//! Rendering of registry contents as an OTLP metrics JSON document.
use vstd::prelude::*;
use vstd::string::*;

use crate::metric::{label_view, Key, Label, MetricData, MetricType, unit_label};
use crate::otlp_recorder::MetricEntry;

verus! {

/// The lower-case hexadecimal digit `d`.
pub open spec fn hex_digit(d: int) -> char {
    if d < 10 {
        digit(d)
    } else if d == 10 { 'a' }
    else if d == 11 { 'b' }
    else if d == 12 { 'c' }
    else if d == 13 { 'd' }
    else if d == 14 { 'e' }
    else { 'f' }
}

/// How one character stands inside a JSON string literal: quote and
/// backslash escaped, the control characters with a short escape as such,
/// the other control characters as `\u00xx`, everything else unchanged.
pub open spec fn escaped_char(c: char) -> Seq<char> {
    let n = c as u32;
    if c == '"' {
        seq!['\\', '"']
    } else if c == '\\' {
        seq!['\\', '\\']
    } else if n == 0x08 {
        seq!['\\', 'b']
    } else if n == 0x09 {
        seq!['\\', 't']
    } else if n == 0x0a {
        seq!['\\', 'n']
    } else if n == 0x0c {
        seq!['\\', 'f']
    } else if n == 0x0d {
        seq!['\\', 'r']
    } else if n < 0x20 {
        seq!['\\', 'u', '0', '0', hex_digit(n as int / 16), hex_digit(n as int % 16)]
    } else {
        seq![c]
    }
}

/// The characters of `s`, each escaped.
pub open spec fn escaped(s: Seq<char>) -> Seq<char>
    decreases s.len(),
{
    if s.len() == 0 {
        Seq::empty()
    } else {
        escaped(s.drop_last()) + escaped_char(s.last())
    }
}

/// The JSON string literal of `s`: its escaped characters between quotes.
pub open spec fn json_string(s: Seq<char>) -> Seq<char> {
    seq!['"'] + escaped(s) + seq!['"']
}

/// Relies on `json::stringify` applied to a `&str`: it writes the string
/// between quotes, escaping by a table of the bytes below 0x80 (those of
/// `escaped_char`; non-ASCII characters pass unchanged).
#[verifier::external_body]
fn quote(s: &str) -> (r: String)
    ensures
        r@ == json_string(s@),
{
    json::stringify(s)
}

/// The decimal digit `d`.
pub open spec fn digit(d: int) -> char {
    if d == 0 { '0' }
    else if d == 1 { '1' }
    else if d == 2 { '2' }
    else if d == 3 { '3' }
    else if d == 4 { '4' }
    else if d == 5 { '5' }
    else if d == 6 { '6' }
    else if d == 7 { '7' }
    else if d == 8 { '8' }
    else { '9' }
}

/// The decimal digits of `n`, without leading zeros.
pub open spec fn decimal(n: nat) -> Seq<char>
    decreases n,
{
    if n < 10 {
        seq![digit(n as int)]
    } else {
        decimal(n / 10).push(digit((n % 10) as int))
    }
}

/// The decimal digit `d` as text.
fn digit_text(d: u8) -> (r: &'static str)
    requires
        d < 10,
    ensures
        r@ == seq![digit(d as int)],
{
    proof {
        reveal_strlit("0");
        reveal_strlit("1");
        reveal_strlit("2");
        reveal_strlit("3");
        reveal_strlit("4");
        reveal_strlit("5");
        reveal_strlit("6");
        reveal_strlit("7");
        reveal_strlit("8");
        reveal_strlit("9");
    }
    if d == 0 { "0" }
    else if d == 1 { "1" }
    else if d == 2 { "2" }
    else if d == 3 { "3" }
    else if d == 4 { "4" }
    else if d == 5 { "5" }
    else if d == 6 { "6" }
    else if d == 7 { "7" }
    else if d == 8 { "8" }
    else { "9" }
}

/// The decimal digits of `n`.
pub fn decimal_text(n: u64) -> (r: String)
    ensures
        r@ == decimal(n as nat),
    decreases n,
{
    if n < 10 {
        digit_text(n as u8).to_owned()
    } else {
        let mut r = decimal_text(n / 10);
        r.append(digit_text((n % 10) as u8));
        r
    }
}

/// The decimal digits of `n`.
pub fn length_text(n: usize) -> (r: String)
    ensures
        r@ == decimal(n as nat),
    decreases n,
{
    if n < 10 {
        digit_text(n as u8).to_owned()
    } else {
        let mut r = length_text(n / 10);
        r.append(digit_text((n % 10) as u8));
        r
    }
}

/// The items separated by commas.
pub open spec fn joined(items: Seq<Seq<char>>) -> Seq<char>
    decreases items.len(),
{
    if items.len() == 0 {
        Seq::empty()
    } else if items.len() == 1 {
        items[0]
    } else {
        joined(items.drop_last()) + ","@ + items.last()
    }
}

/// A JSON array of already rendered items.
pub open spec fn array(items: Seq<Seq<char>>) -> Seq<char> {
    "["@ + joined(items) + "]"@
}

/// The views of a sequence of strings.
pub open spec fn texts(v: Seq<String>) -> Seq<Seq<char>> {
    v.map_values(|s: String| s@)
}

/// An attribute with a string value.
pub open spec fn attr_doc(key: Seq<char>, value: Seq<char>) -> Seq<char> {
    "{\"key\":"@ + json_string(key) + ",\"value\":{\"stringValue\":"@ + json_string(value) + "}}"@
}

/// The attributes of a label list, in order.
pub open spec fn attributes_doc(labels: Seq<Label>) -> Seq<char> {
    array(labels.map_values(|l: Label| attr_doc(label_view(l).0, label_view(l).1)))
}

/// A JSON array of integers.
pub open spec fn integers_doc(v: Seq<u64>) -> Seq<char> {
    array(v.map_values(|x: u64| decimal(x as nat)))
}

/// The JSON text of a metric's floating-point fields, written by the caller:
/// the gauge's value or the histogram's sum, and the histogram's bounds.
pub struct FloatText {
    pub value: String,
    pub bounds: Vec<String>,
}

/// `f` fits the metric of `e`: a histogram keeps one counter per bucket and
/// `f` holds one bound text per bound of it.
pub open spec fn floats_fit(e: MetricEntry, f: FloatText) -> bool {
    match e.1.metric_type {
        MetricType::Histogram(h) => h.wf() && f.bounds@.len() == h.explicit_bounds@.len(),
        _ => true,
    }
}

/// The fields that every metric starts with.
pub open spec fn head_doc(e: MetricEntry) -> Seq<char> {
    "{\"name\":"@ + json_string(e.0.name@) + ",\"unit\":"@ + json_string(unit_label(e.1.unit))
        + ",\"description\":"@ + json_string(e.1.description@)
}

/// The start time and the time of the last update of a data point.
pub open spec fn times_doc(start: u64, time: u64) -> Seq<char> {
    "\"startTimeUnixNano\":"@ + decimal(start as nat) + ",\"timeUnixNano\":"@ + decimal(time as nat)
}

/// One metric as an OTLP metric object.
pub open spec fn metric_doc(e: MetricEntry, f: FloatText) -> Seq<char> {
    let attrs = ",\"attributes\":"@ + attributes_doc(e.0.labels@);
    match e.1.metric_type {
        MetricType::Counter(c) => head_doc(e)
            + ",\"sum\":{\"aggregationTemporality\":2,\"isMonotonic\":true,\"dataPoints\":[{\"asInt\":"@
            + decimal(c.value as nat) + ","@ + times_doc(e.1.start_time, c.time) + attrs + "}]}}"@,
        MetricType::Gauge(g) => head_doc(e) + ",\"gauge\":{\"dataPoints\":[{\"asDouble\":"@ + f.value@
            + ","@ + times_doc(e.1.start_time, g.time) + attrs + "}]}}"@,
        MetricType::Histogram(h) => head_doc(e)
            + ",\"histogram\":{\"aggregationTemporality\":2,\"dataPoints\":[{"@
            + times_doc(e.1.start_time, h.time) + ",\"count\":"@ + decimal(h.count as nat)
            + ",\"sum\":"@ + f.value@ + attrs + ",\"bucketCounts\":"@ + integers_doc(h.bucket_count@)
            + ",\"explicitBounds\":"@ + array(texts(f.bounds@)) + "}]}}"@,
    }
}

/// The whole document: one resource with the service's attributes, one
/// scope, and the metrics in the order given.
pub open spec fn document(
    name: Seq<char>,
    version: Seq<char>,
    instance_id: Seq<char>,
    metrics: Seq<Seq<char>>,
) -> Seq<char> {
    "{\"resourceMetrics\":[{\"resource\":{\"attributes\":["@ + attr_doc("service.name"@, name) + ","@
        + attr_doc("service.version"@, version) + ","@ + attr_doc("service.instance.id"@, instance_id)
        + "]},\"scopeMetrics\":[{\"metrics\":"@ + array(metrics) + "}]}]}"@
}

proof fn lemma_joined_step(items: Seq<Seq<char>>, i: int)
    requires
        0 <= i < items.len(),
    ensures
        joined(items.take(i + 1)) == if i == 0 {
            items[0]
        } else {
            joined(items.take(i)) + ","@ + items[i]
        },
{
    assert(items.take(i + 1).drop_last() =~= items.take(i));
}

/// Writes already rendered items as a JSON array.
pub fn array_text(items: &Vec<String>) -> (r: String)
    ensures
        r@ == array(texts(items@)),
{
    let ghost t = texts(items@);
    let mut r = String::new();
    r.append("[");
    let mut i: usize = 0;
    while i < items.len()
        invariant
            i <= items@.len(),
            t == texts(items@),
            r@ == "["@ + joined(t.take(i as int)),
        decreases items@.len() - i,
    {
        proof {
            lemma_joined_step(t, i as int);
        }
        if i > 0 {
            r.append(",");
        }
        r.append(items[i].as_str());
        i = i + 1;
    }
    assert(t.take(items@.len() as int) =~= t);
    r.append("]");
    r
}

/// An attribute `{"key":key,"value":{"stringValue":value}}`.
pub fn attr(key: &str, value: &str) -> (r: String)
    ensures
        r@ == attr_doc(key@, value@),
{
    let mut r = String::new();
    r.append("{\"key\":");
    r.append(quote(key).as_str());
    r.append(",\"value\":{\"stringValue\":");
    r.append(quote(value).as_str());
    r.append("}}");
    r
}

fn attributes_text(labels: &Vec<Label>) -> (r: String)
    ensures
        r@ == attributes_doc(labels@),
{
    let mut items: Vec<String> = Vec::new();
    let mut i: usize = 0;
    while i < labels.len()
        invariant
            i <= labels@.len(),
            items@.len() == i,
            forall|j: int| 0 <= j < i ==> (#[trigger] items@[j])@ == attr_doc(label_view(labels@[j]).0, label_view(labels@[j]).1),
        decreases labels@.len() - i,
    {
        items.push(attr(labels[i].key.as_str(), labels[i].value.as_str()));
        i = i + 1;
    }
    assert(texts(items@) =~= labels@.map_values(|l: Label| attr_doc(label_view(l).0, label_view(l).1)));
    array_text(&items)
}

fn integers_text(v: &Vec<u64>) -> (r: String)
    ensures
        r@ == integers_doc(v@),
{
    let mut items: Vec<String> = Vec::new();
    let mut i: usize = 0;
    while i < v.len()
        invariant
            i <= v@.len(),
            items@.len() == i,
            forall|j: int| 0 <= j < i ==> (#[trigger] items@[j])@ == decimal(v@[j] as nat),
        decreases v@.len() - i,
    {
        items.push(decimal_text(v[i]));
        i = i + 1;
    }
    assert(texts(items@) =~= v@.map_values(|x: u64| decimal(x as nat)));
    array_text(&items)
}

fn times_text(start: u64, time: u64) -> (r: String)
    ensures
        r@ == times_doc(start, time),
{
    let mut r = String::new();
    r.append("\"startTimeUnixNano\":");
    r.append(decimal_text(start).as_str());
    r.append(",\"timeUnixNano\":");
    r.append(decimal_text(time).as_str());
    r
}

/// Writes one metric as an OTLP metric object, taking the text of its
/// floating-point fields from `f`.
pub fn metric_text(e: &MetricEntry, f: &FloatText) -> (r: String)
    requires
        floats_fit(*e, *f),
    ensures
        r@ == metric_doc(*e, *f),
        e.1.metric_type matches MetricType::Histogram(h) ==> (h.explicit_bounds@.len() == 0
            && h.bucket_count@.len() == 0 && f.bounds@.len() == 0) || (h.bucket_count@.len()
            == f.bounds@.len() + 1),
{
    let key = &e.0;
    let data = &e.1;
    let mut r = String::new();
    r.append("{\"name\":");
    r.append(quote(key.name.as_str()).as_str());
    r.append(",\"unit\":");
    r.append(quote(data.unit()).as_str());
    r.append(",\"description\":");
    r.append(quote(data.description.as_str()).as_str());
    let ghost head = r@;
    assert(head == head_doc(*e));
    let attrs = attributes_text(&key.labels);
    match &data.metric_type {
        MetricType::Counter(c) => {
            r.append(",\"sum\":{\"aggregationTemporality\":2,\"isMonotonic\":true,\"dataPoints\":[{\"asInt\":");
            r.append(decimal_text(c.value).as_str());
            r.append(",");
            r.append(times_text(data.start_time, c.time).as_str());
            r.append(",\"attributes\":");
            r.append(attrs.as_str());
            r.append("}]}}");
        },
        MetricType::Gauge(g) => {
            r.append(",\"gauge\":{\"dataPoints\":[{\"asDouble\":");
            r.append(f.value.as_str());
            r.append(",");
            r.append(times_text(data.start_time, g.time).as_str());
            r.append(",\"attributes\":");
            r.append(attrs.as_str());
            r.append("}]}}");
        },
        MetricType::Histogram(h) => {
            r.append(",\"histogram\":{\"aggregationTemporality\":2,\"dataPoints\":[{");
            r.append(times_text(data.start_time, h.time).as_str());
            r.append(",\"count\":");
            r.append(decimal_text(h.count).as_str());
            r.append(",\"sum\":");
            r.append(f.value.as_str());
            r.append(",\"attributes\":");
            r.append(attrs.as_str());
            r.append(",\"bucketCounts\":");
            r.append(integers_text(&h.bucket_count).as_str());
            r.append(",\"explicitBounds\":");
            r.append(array_text(&f.bounds).as_str());
            r.append("}]}}");
        },
    }
    assert(r@ =~= metric_doc(*e, *f));
    r
}

/// The metrics at `selection` rendered, each with its floating-point text.
pub open spec fn selected_docs(values: Seq<MetricEntry>, selection: Seq<usize>, floats: Seq<FloatText>) -> Seq<Seq<char>> {
    selection.map_values(|i: usize| metric_doc(values[i as int], floats[i as int]))
}

/// Writes the document for the service `name` at `version`, instance
/// `instance_id`, holding the metrics of `values` at the indices in
/// `selection`, in that order; `floats[i]` is the text of the floating-point
/// fields of `values[i]`.
pub fn metrics_to_json(
    name: &str,
    version: &str,
    instance_id: &str,
    values: &Vec<MetricEntry>,
    selection: &Vec<usize>,
    floats: &Vec<FloatText>,
) -> (r: String)
    requires
        floats@.len() == values@.len(),
        forall|k: int| 0 <= k < selection@.len() ==> #[trigger] selection@[k] < values@.len(),
        forall|i: int| 0 <= i < values@.len() ==> floats_fit(#[trigger] values@[i], floats@[i]),
    ensures
        r@ == document(name@, version@, instance_id@, selected_docs(values@, selection@, floats@)),
{
    let mut items: Vec<String> = Vec::new();
    let mut k: usize = 0;
    while k < selection.len()
        invariant
            k <= selection@.len(),
            items@.len() == k,
            floats@.len() == values@.len(),
            forall|k: int| 0 <= k < selection@.len() ==> #[trigger] selection@[k] < values@.len(),
            forall|i: int| 0 <= i < values@.len() ==> floats_fit(#[trigger] values@[i], floats@[i]),
            forall|j: int| 0 <= j < k ==> (#[trigger] items@[j])@ == metric_doc(values@[selection@[j] as int], floats@[selection@[j] as int]),
        decreases selection@.len() - k,
    {
        let i = selection[k];
        items.push(metric_text(&values[i], &floats[i]));
        k = k + 1;
    }
    assert(texts(items@) =~= selected_docs(values@, selection@, floats@));
    let mut r = String::new();
    r.append("{\"resourceMetrics\":[{\"resource\":{\"attributes\":[");
    r.append(attr("service.name", name).as_str());
    r.append(",");
    r.append(attr("service.version", version).as_str());
    r.append(",");
    r.append(attr("service.instance.id", instance_id).as_str());
    r.append("]},\"scopeMetrics\":[{\"metrics\":");
    r.append(array_text(&items).as_str());
    r.append("}]}]}");
    assert(r@ =~= document(name@, version@, instance_id@, selected_docs(values@, selection@, floats@)));
    r
}

} // verus!
