//! Metrics in the text format of Prometheus.

use vstd::prelude::*;
use crate::counter::{wrapped_sum, wrapping_sum};
use crate::text::{decimal, decimal_text};
use crate::text_map::TextMap;

verus! {

/// Kinds of metrics.
#[derive(Debug, Clone, Copy, PartialEq, Eq, Structural)]
pub enum MetricType {
    Counter,
    Gauge,
    Histogram,
}

impl MetricType {
    /// The kind as text.
    pub open spec fn text(self) -> Seq<char> {
        match self {
            MetricType::Counter => "counter"@,
            MetricType::Gauge => "gauge"@,
            MetricType::Histogram => "histogram"@,
        }
    }

    /// The kind in lower case.
    pub fn as_str(self) -> (s: &'static str)
        ensures
            s@ == self.text(),
    {
        match self {
            MetricType::Counter => "counter",
            MetricType::Gauge => "gauge",
            MetricType::Histogram => "histogram",
        }
    }
}

/// A single metric.
#[derive(Debug)]
pub struct Metric {
    pub name: String,
    pub help: String,
    pub metric_type: MetricType,
    pub value: u64,
    pub labels: Vec<(String, String)>,
}

/// A metric as a value.
pub struct MetricModel {
    pub name: Seq<char>,
    pub help: Seq<char>,
    pub metric_type: MetricType,
    pub value: u64,
    pub labels: Seq<(Seq<char>, Seq<char>)>,
}

/// The labels that a list holds.
pub open spec fn labels_view(labels: Seq<(String, String)>) -> Seq<(Seq<char>, Seq<char>)> {
    Seq::new(labels.len(), |i: int| (labels[i].0@, labels[i].1@))
}

impl View for Metric {
    type V = MetricModel;

    open spec fn view(&self) -> MetricModel {
        MetricModel {
            name: self.name@,
            help: self.help@,
            metric_type: self.metric_type,
            value: self.value,
            labels: labels_view(self.labels@),
        }
    }
}

/// The first `n` labels as `name="value"`, with commas between them.
pub open spec fn joined_labels(labels: Seq<(Seq<char>, Seq<char>)>, n: int) -> Seq<char>
    decreases n,
{
    if n <= 0 {
        Seq::empty()
    } else if n == 1 {
        labels[0].0 + "=\""@ + labels[0].1 + "\""@
    } else {
        joined_labels(labels, n - 1) + ","@ + labels[n - 1].0 + "=\""@ + labels[n - 1].1 + "\""@
    }
}

impl MetricModel {
    /// The three lines that a metric is exported as: its help, its kind,
    /// and its value, behind its labels where it has any.
    pub open spec fn exported(self) -> Seq<char> {
        "# HELP "@ + self.name + " "@ + self.help + "\n"@ + "# TYPE "@ + self.name + " "@
            + self.metric_type.text() + "\n"@ + self.name + (if self.labels.len() == 0 {
            Seq::empty()
        } else {
            "{"@ + joined_labels(self.labels, self.labels.len() as int) + "}"@
        }) + " "@ + decimal_text(self.value as nat) + "\n"@
    }
}

impl Metric {
    /// A counter at zero.
    pub fn counter(name: &str, help: &str) -> (m: Metric)
        ensures
            m@ == (MetricModel {
                name: name@,
                help: help@,
                metric_type: MetricType::Counter,
                value: 0,
                labels: Seq::empty(),
            }),
    {
        let m = Metric {
            name: String::from_str(name),
            help: String::from_str(help),
            metric_type: MetricType::Counter,
            value: 0,
            labels: Vec::new(),
        };
        assert(m@.labels =~= Seq::<(Seq<char>, Seq<char>)>::empty());
        m
    }

    /// A gauge at zero.
    pub fn gauge(name: &str, help: &str) -> (m: Metric)
        ensures
            m@ == (MetricModel {
                name: name@,
                help: help@,
                metric_type: MetricType::Gauge,
                value: 0,
                labels: Seq::empty(),
            }),
    {
        let m = Metric {
            name: String::from_str(name),
            help: String::from_str(help),
            metric_type: MetricType::Gauge,
            value: 0,
            labels: Vec::new(),
        };
        assert(m@.labels =~= Seq::<(Seq<char>, Seq<char>)>::empty());
        m
    }

    /// Counts one more, modulo 2^64.
    pub fn inc(&mut self)
        ensures
            final(self)@ == (MetricModel { value: wrapped_sum(old(self)@.value, 1), ..old(self)@ }),
    {
        self.value = wrapping_sum(self.value, 1);
    }

    /// Counts `v` more, modulo 2^64.
    pub fn add(&mut self, v: u64)
        ensures
            final(self)@ == (MetricModel { value: wrapped_sum(old(self)@.value, v), ..old(self)@ }),
    {
        self.value = wrapping_sum(self.value, v);
    }

    /// Sets the value.
    pub fn set(&mut self, v: u64)
        ensures
            final(self)@ == (MetricModel { value: v, ..old(self)@ }),
    {
        self.value = v;
    }

    /// The value.
    pub fn get(&self) -> (v: u64)
        ensures
            v == self@.value,
    {
        self.value
    }

    /// The lines that this metric is exported as.
    pub fn export(&self) -> (s: String)
        ensures
            s@ == self@.exported(),
    {
        let mut s = String::from_str("# HELP ");
        s.append(self.name.as_str());
        s.append(" ");
        s.append(self.help.as_str());
        s.append("\n");
        s.append("# TYPE ");
        s.append(self.name.as_str());
        s.append(" ");
        s.append(self.metric_type.as_str());
        s.append("\n");
        s.append(self.name.as_str());
        let ghost head = s@;
        if self.labels.len() > 0 {
            s.append("{");
            let ghost open = s@;
            let mut i: usize = 0;
            while i < self.labels.len()
                invariant
                    i <= self.labels@.len(),
                    s@ == open + joined_labels(self@.labels, i as int),
                decreases self.labels@.len() - i,
            {
                if i > 0 {
                    s.append(",");
                }
                s.append(self.labels[i].0.as_str());
                s.append("=\"");
                s.append(self.labels[i].1.as_str());
                s.append("\"");
                proof {
                    assert(self@.labels[i as int] == (
                        self.labels@[i as int].0@,
                        self.labels@[i as int].1@,
                    ));
                    assert(s@ =~= open + joined_labels(self@.labels, i + 1));
                }
                i += 1;
            }
            s.append("}");
            assert(s@ =~= head + ("{"@ + joined_labels(self@.labels, self@.labels.len() as int)
                + "}"@));
        } else {
            assert(s@ =~= head + Seq::<char>::empty());
        }
        s.append(" ");
        let v = decimal(self.value);
        s.append(v.as_str());
        s.append("\n");
        assert(s@ =~= self@.exported());
        s
    }
}

/// The metrics that a list holds.
pub open spec fn metrics_view(metrics: Seq<Metric>) -> Seq<MetricModel> {
    Seq::new(metrics.len(), |i: int| metrics[i]@)
}

/// The export of the first `n` metrics, one after the other.
pub open spec fn exported_all(metrics: Seq<MetricModel>, n: int) -> Seq<char>
    decreases n,
{
    if n <= 0 {
        Seq::empty()
    } else {
        exported_all(metrics, n - 1) + metrics[n - 1].exported()
    }
}

/// Metrics registry.
pub struct MetricsRegistry {
    metrics: TextMap<Metric>,
}

/// Whether a name is that of one of the server's own metrics.
pub open spec fn is_default_name(name: Seq<char>) -> bool {
    name == "celrix_commands_total"@ || name == "celrix_commands_get_total"@ || name
        == "celrix_commands_set_total"@ || name == "celrix_commands_del_total"@ || name
        == "celrix_keys_total"@ || name == "celrix_memory_bytes"@ || name
        == "celrix_connections_active"@ || name == "celrix_connections_total"@ || name
        == "celrix_uptime_seconds"@
}

impl MetricsRegistry {
    /// The metrics, by name.
    pub closed spec fn metrics(&self) -> TextMap<Metric> {
        self.metrics
    }

    /// The table of metrics is well formed.
    pub open spec fn wf(&self) -> bool {
        self.metrics().wf()
    }

    /// The value of a metric, if it is registered.
    pub open spec fn value(&self, name: Seq<char>) -> Option<u64> {
        if self.metrics().has(name) {
            Some(self.metrics().value_of(name).value)
        } else {
            None
        }
    }

    /// A registry without metrics.
    pub fn empty() -> (r: MetricsRegistry)
        ensures
            r.wf(),
            forall|name: Seq<char>| !r.metrics().has(name),
    {
        MetricsRegistry { metrics: TextMap::new() }
    }

    /// A registry with the server's own metrics, all at zero, and no
    /// other: the counters of commands and connections, and the gauges of
    /// keys, memory, connections and uptime.
    pub fn new() -> (r: MetricsRegistry)
        ensures
            r.wf(),
            forall|name: Seq<char>|
                #[trigger] r.value(name) == if is_default_name(name) {
                    Some(0u64)
                } else {
                    None
                },
    {
        proof {
            reveal_strlit("celrix_commands_total");
            reveal_strlit("celrix_commands_get_total");
            reveal_strlit("celrix_commands_set_total");
            reveal_strlit("celrix_commands_del_total");
            reveal_strlit("celrix_keys_total");
            reveal_strlit("celrix_memory_bytes");
            reveal_strlit("celrix_connections_active");
            reveal_strlit("celrix_connections_total");
            reveal_strlit("celrix_uptime_seconds");
            assert("celrix_commands_total"@.len() == 21);
            assert("celrix_commands_get_total"@.len() == 25);
            assert("celrix_commands_set_total"@.len() == 25);
            assert("celrix_commands_del_total"@.len() == 25);
            assert("celrix_keys_total"@.len() == 17);
            assert("celrix_memory_bytes"@.len() == 19);
            assert("celrix_connections_active"@.len() == 25);
            assert("celrix_connections_total"@.len() == 24);
            assert("celrix_uptime_seconds"@.len() == 21);
            assert("celrix_commands_total"@[7] != "celrix_uptime_seconds"@[7]);
            assert("celrix_commands_get_total"@[16] != "celrix_commands_set_total"@[16]);
            assert("celrix_commands_get_total"@[16] != "celrix_commands_del_total"@[16]);
            assert("celrix_commands_set_total"@[16] != "celrix_commands_del_total"@[16]);
            assert("celrix_connections_active"@[9] != "celrix_commands_get_total"@[9]);
            assert("celrix_connections_active"@[9] != "celrix_commands_set_total"@[9]);
            assert("celrix_connections_active"@[9] != "celrix_commands_del_total"@[9]);
        }
        let mut r = MetricsRegistry::empty();
        r.register(Metric::counter("celrix_commands_total", "Total commands processed"));
        r.register(Metric::counter("celrix_commands_get_total", "Total GET commands"));
        r.register(Metric::counter("celrix_commands_set_total", "Total SET commands"));
        r.register(Metric::counter("celrix_commands_del_total", "Total DEL commands"));
        r.register(Metric::gauge("celrix_keys_total", "Current number of keys"));
        r.register(Metric::gauge("celrix_memory_bytes", "Estimated memory usage"));
        r.register(Metric::gauge("celrix_connections_active", "Active client connections"));
        r.register(Metric::counter("celrix_connections_total", "Total connections accepted"));
        r.register(Metric::gauge("celrix_uptime_seconds", "Server uptime in seconds"));
        r
    }

    /// Registers a metric, in the place of the one of the same name.
    pub fn register(&mut self, metric: Metric)
        requires
            old(self).wf(),
        ensures
            final(self).wf(),
            final(self).metrics().has(metric.name@),
            final(self).metrics().value_of(metric.name@) == metric,
            forall|other: Seq<char>|
                other != metric.name@
                    ==> final(self).metrics().has(other) == old(self).metrics().has(other)
                    && (old(self).metrics().has(other) ==> final(self).metrics().value_of(other)
                        == old(self).metrics().value_of(other)),
    {
        let name = metric.name.clone();
        self.metrics.insert(name, metric);
    }

    /// The value of a metric.
    pub fn get(&self, name: &str) -> (r: Option<u64>)
        requires
            self.wf(),
        ensures
            r == self.value(name@),
    {
        match self.metrics.get(name) {
            Some(m) => Some(m.get()),
            None => None,
        }
    }

    fn change(&mut self, name: &str, set_to: Option<u64>)
        requires
            old(self).wf(),
        ensures
            final(self).wf(),
            final(self).metrics().keys() == old(self).metrics().keys(),
            final(self).value(name@) == match old(self).value(name@) {
                Some(v) => Some(
                    match set_to {
                        Some(to) => to,
                        None => wrapped_sum(v, 1),
                    },
                ),
                None => None,
            },
            forall|other: Seq<char>|
                other != name@ ==> final(self).metrics().has(other) == old(self).metrics().has(
                    other,
                ) && (old(self).metrics().has(other) ==> final(self).metrics().value_of(other)
                    == old(self).metrics().value_of(other)),
            old(self).metrics().has(name@) ==> final(self).metrics().value_of(name@)@
                == (MetricModel {
                value: match set_to {
                    Some(to) => to,
                    None => wrapped_sum(old(self).metrics().value_of(name@).value, 1),
                },
                ..old(self).metrics().value_of(name@)@
            }),
    {
        if let Some(i) = self.metrics.find(name) {
            let current = self.metrics.value_at(i);
            let value = match set_to {
                Some(to) => to,
                None => wrapping_sum(current.value, 1),
            };
            let mut labels: Vec<(String, String)> = Vec::new();
            let mut k: usize = 0;
            while k < current.labels.len()
                invariant
                    k <= current.labels@.len(),
                    labels@.len() == k,
                    forall|j: int|
                        0 <= j < k ==> (#[trigger] labels@[j]).0@ == current.labels@[j].0@
                            && labels@[j].1@ == current.labels@[j].1@,
                decreases current.labels@.len() - k,
            {
                labels.push((current.labels[k].0.clone(), current.labels[k].1.clone()));
                k += 1;
            }
            assert(labels_view(labels@) =~= labels_view(current.labels@));
            let updated = Metric {
                name: current.name.clone(),
                help: current.help.clone(),
                metric_type: current.metric_type,
                value,
                labels,
            };
            let ghost keys = self.metrics().keys();
            self.metrics.set_value_at(i, updated);
            proof {
                assert forall|other: Seq<char>| other != name@ implies self.metrics().has(other)
                    == old(self).metrics().has(other) && (old(self).metrics().has(other)
                    ==> self.metrics().value_of(other) == old(self).metrics().value_of(other)) by {
                    if old(self).metrics().has(other) {
                        let j = crate::text_map::text_index(keys, other);
                        assert(keys[j] == other);
                    }
                }
            }
        }
    }

    /// Counts one more on a metric, modulo 2^64. An unknown metric is
    /// ignored.
    pub fn inc(&mut self, name: &str)
        requires
            old(self).wf(),
        ensures
            final(self).wf(),
            final(self).value(name@) == match old(self).value(name@) {
                Some(v) => Some(wrapped_sum(v, 1)),
                None => None,
            },
            forall|other: Seq<char>|
                other != name@ ==> final(self).metrics().has(other) == old(self).metrics().has(
                    other,
                ) && final(self).value(other) == old(self).value(other),
    {
        self.change(name, None);
    }

    /// Sets the value of a metric. An unknown metric is ignored.
    pub fn set(&mut self, name: &str, value: u64)
        requires
            old(self).wf(),
        ensures
            final(self).wf(),
            final(self).value(name@) == match old(self).value(name@) {
                Some(_) => Some(value),
                None => None,
            },
            forall|other: Seq<char>|
                other != name@ ==> final(self).metrics().has(other) == old(self).metrics().has(
                    other,
                ) && final(self).value(other) == old(self).value(other),
    {
        self.change(name, Some(value));
    }

    /// All metrics in the text format, in the order in which they were
    /// first registered.
    pub fn export(&self) -> (s: String)
        requires
            self.wf(),
        ensures
            s@ == exported_all(
                metrics_view(self.metrics().values()),
                self.metrics().values().len() as int,
            ),
    {
        let mut s = String::new();
        let n = self.metrics.len();
        let ghost all = metrics_view(self.metrics().values());
        let mut i: usize = 0;
        while i < n
            invariant
                i <= n,
                self.wf(),
                n == self.metrics().keys().len(),
                all == metrics_view(self.metrics().values()),
                s@ == exported_all(all, i as int),
            decreases n - i,
        {
            let lines = self.metrics.value_at(i).export();
            s.append(lines.as_str());
            assert(all[i as int] == self.metrics().values()[i as int]@);
            i += 1;
        }
        s
    }
}

impl Default for MetricsRegistry {
    fn default() -> (r: MetricsRegistry)
        ensures
            r.wf(),
            r.value("celrix_commands_total"@) == Some(0u64),
    {
        MetricsRegistry::new()
    }
}

/// Exporter of the server's metrics.
pub struct PrometheusExporter {
    registry: MetricsRegistry,
}

impl PrometheusExporter {
    /// The registry of this exporter.
    pub closed spec fn spec_registry(&self) -> MetricsRegistry {
        self.registry
    }

    /// An exporter with the server's own metrics.
    pub fn new() -> (e: PrometheusExporter)
        ensures
            e.spec_registry().wf(),
            e.spec_registry().value("celrix_commands_total"@) == Some(0u64),
    {
        PrometheusExporter { registry: MetricsRegistry::new() }
    }

    /// The registry, to read.
    pub fn registry(&self) -> (r: &MetricsRegistry)
        ensures
            *r == self.spec_registry(),
    {
        &self.registry
    }

    /// The registry, to count on.
    pub fn registry_mut(&mut self) -> (r: &mut MetricsRegistry)
        ensures
            *r == old(self).spec_registry(),
            *final(r) == final(self).spec_registry(),
    {
        &mut self.registry
    }

    /// All metrics in the text format.
    pub fn export(&self) -> (s: String)
        requires
            self.spec_registry().wf(),
        ensures
            s@ == exported_all(
                metrics_view(self.spec_registry().metrics().values()),
                self.spec_registry().metrics().values().len() as int,
            ),
    {
        self.registry.export()
    }
}

impl Default for PrometheusExporter {
    fn default() -> (e: PrometheusExporter)
        ensures
            e.spec_registry().wf(),
    {
        PrometheusExporter::new()
    }
}

} // verus!
