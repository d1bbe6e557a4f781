//! The series published for the `cluster.data` subtree.

use vstd::prelude::*;
use vstd::string::StringExecFns;
use crate::metrics::prometheus::{
    declarable, gauge_series, label_hash, label_texts, lemma_offered_next, no_readings,
    offered_under, register_gauges, registry_filing, Gauge, GaugeFamily, MetricError, MetricGroup,
    Series, StaticMetric, Title,
};
use crate::status_models::cluster_data::{ClusterData, ClusterDataMoving};

verus! {

/// The gauges of the `cluster.data` subtree.
pub struct ClusterDataMetrics {
    pub average_partition_size_bytes: Gauge,
    pub least_space_log_server_bytes: Gauge,
    pub least_space_storage_server_bytes: Gauge,
    pub partition_count: Gauge,
    pub total_disk_used_bytes: Gauge,
    pub total_kv_size_bytes: Gauge,
    pub healthy: Gauge,
    pub state: Gauge,
    pub moving_data_in_flight_bytes: Gauge,
    pub moving_data_in_queue_bytes: Gauge,
}

/// What the gauges of the `cluster.data` subtree read.
#[derive(Clone, Copy, Debug, PartialEq, Eq, Structural)]
pub struct ClusterDataReadings {
    pub average_partition_size_bytes: i64,
    pub least_space_log_server_bytes: i64,
    pub least_space_storage_server_bytes: i64,
    pub partition_count: i64,
    pub total_disk_used_bytes: i64,
    pub total_kv_size_bytes: i64,
    pub healthy: i64,
    pub state: i64,
    pub moving_data_in_flight_bytes: i64,
    pub moving_data_in_queue_bytes: i64,
}

/// A reading after a field was offered to its gauge: the field's value if it
/// is present, else the reading as it was.
pub open spec fn offered(field: Option<i64>, before: i64) -> i64 {
    match field {
        Some(v) => v,
        None => before,
    }
}

/// The number that stands for a flag.
pub open spec fn flag(b: bool) -> i64 {
    if b {
        1
    } else {
        0
    }
}

impl ClusterData {
    /// What the gauges read after this subtree was converted, given what they
    /// read before: every present field is written to its gauge, and the
    /// gauge of an absent field, or of a field in an absent subtree, keeps
    /// its reading.
    pub open spec fn published(self, before: ClusterDataReadings) -> ClusterDataReadings {
        ClusterDataReadings {
            average_partition_size_bytes: offered(
                self.average_partition_size_bytes,
                before.average_partition_size_bytes,
            ),
            least_space_log_server_bytes: offered(
                self.least_operating_space_bytes_log_server,
                before.least_space_log_server_bytes,
            ),
            least_space_storage_server_bytes: offered(
                self.least_operating_space_bytes_storage_server,
                before.least_space_storage_server_bytes,
            ),
            partition_count: offered(self.partitions_count, before.partition_count),
            total_disk_used_bytes: offered(self.total_disk_used_bytes, before.total_disk_used_bytes),
            total_kv_size_bytes: offered(self.total_kv_size_bytes, before.total_kv_size_bytes),
            healthy: match self.state {
                Some(state) => match state.healthy {
                    Some(health) => flag(health),
                    None => before.healthy,
                },
                None => before.healthy,
            },
            state: match self.state {
                Some(state) => state.name.spec_ordinal(),
                None => before.state,
            },
            moving_data_in_flight_bytes: match self.moving_data {
                Some(moving) => offered(moving.in_flight_bytes, before.moving_data_in_flight_bytes),
                None => before.moving_data_in_flight_bytes,
            },
            moving_data_in_queue_bytes: match self.moving_data {
                Some(moving) => offered(moving.in_queue_bytes, before.moving_data_in_queue_bytes),
                None => before.moving_data_in_queue_bytes,
            },
        }
    }

    /// Writes every present field of the subtree to its gauge.
    pub fn to_metrics(&self, metrics: &mut ClusterDataMetrics)
        ensures
            final(metrics)@ == self.published(old(metrics)@),
            final(metrics).titles() == old(metrics).titles(),
    {
        if let Some(total_kv_size_bytes) = self.total_kv_size_bytes {
            metrics.total_kv_size_bytes.set(total_kv_size_bytes);
        }
        if let Some(total_disk_used_bytes) = self.total_disk_used_bytes {
            metrics.total_disk_used_bytes.set(total_disk_used_bytes);
        }
        if let Some(partitions_count) = self.partitions_count {
            metrics.partition_count.set(partitions_count);
        }
        if let Some(least_operating_space_bytes_log_server) =
            self.least_operating_space_bytes_log_server {
            metrics.least_space_log_server_bytes.set(least_operating_space_bytes_log_server);
        }
        if let Some(least_operating_space_bytes_storage_server) =
            self.least_operating_space_bytes_storage_server {
            metrics.least_space_storage_server_bytes.set(
                least_operating_space_bytes_storage_server,
            );
        }
        if let Some(average_partition_size_bytes) = self.average_partition_size_bytes {
            metrics.average_partition_size_bytes.set(average_partition_size_bytes);
        }
        if let Some(state) = &self.state {
            if let Some(health) = state.healthy {
                metrics.healthy.set(if health { 1 } else { 0 });
            }
            metrics.state.set(state.name.ordinal());
        }
        if let Some(moving_data) = &self.moving_data {
            if let Some(in_flight_bytes) = moving_data.in_flight_bytes {
                metrics.moving_data_in_flight_bytes.set(in_flight_bytes);
            }
            if let Some(in_queue_bytes) = moving_data.in_queue_bytes {
                metrics.moving_data_in_queue_bytes.set(in_queue_bytes);
            }
        }
    }
}

impl View for ClusterDataMetrics {
    type V = ClusterDataReadings;

    open spec fn view(&self) -> ClusterDataReadings {
        ClusterDataReadings {
            average_partition_size_bytes: self.average_partition_size_bytes@,
            least_space_log_server_bytes: self.least_space_log_server_bytes@,
            least_space_storage_server_bytes: self.least_space_storage_server_bytes@,
            partition_count: self.partition_count@,
            total_disk_used_bytes: self.total_disk_used_bytes@,
            total_kv_size_bytes: self.total_kv_size_bytes@,
            healthy: self.healthy@,
            state: self.state@,
            moving_data_in_flight_bytes: self.moving_data_in_flight_bytes@,
            moving_data_in_queue_bytes: self.moving_data_in_queue_bytes@,
        }
    }
}

impl ClusterDataReadings {
    /// What the gauges read before anything was written.
    pub open spec fn initial() -> ClusterDataReadings {
        ClusterDataReadings {
            average_partition_size_bytes: 0,
            least_space_log_server_bytes: 0,
            least_space_storage_server_bytes: 0,
            partition_count: 0,
            total_disk_used_bytes: 0,
            total_kv_size_bytes: 0,
            healthy: 0,
            state: 0,
            moving_data_in_flight_bytes: 0,
            moving_data_in_queue_bytes: 0,
        }
    }
}

impl ClusterDataMetrics {
    /// The names and the help texts of the gauges, in the order of the
    /// fields.
    pub open spec fn titles(&self) -> Seq<Title> {
        seq![
            self.average_partition_size_bytes.title(),
            self.least_space_log_server_bytes.title(),
            self.least_space_storage_server_bytes.title(),
            self.partition_count.title(),
            self.total_disk_used_bytes.title(),
            self.total_kv_size_bytes.title(),
            self.healthy.title(),
            self.state.title(),
            self.moving_data_in_flight_bytes.title(),
            self.moving_data_in_queue_bytes.title(),
        ]
    }

    /// The names and the help texts under which the subtree is published.
    pub open spec fn declared_titles() -> Seq<Title> {
        seq![
            Title {
                name: "fdb_cluster_average_partition_size_bytes"@,
                help: "Average size for a partition in the cluster"@,
            },
            Title {
                name: "fdb_cluster_least_space_log_server_bytes"@,
                help: "Value of the log server with least space available"@,
            },
            Title {
                name: "fdb_cluster_least_space_storage_server_bytes"@,
                help: "Value of the storage server with least space avaiable"@,
            },
            Title { name: "fdb_cluster_partition_count"@, help: "Number of partitions"@ },
            Title {
                name: "fdb_cluster_total_disk_used_bytes"@,
                help: "Total number of bytes used on all disk"@,
            },
            Title {
                name: "fdb_cluster_total_kv_size_bytes"@,
                help: "Total number of bytes for all key values"@,
            },
            Title { name: "fdb_cluster_healthy"@, help: "Whether the cluster is healthy or not"@ },
            Title {
                name: "fdb_cluster_state"@,
                help: "Current state of the cluster (see src/status_models/cluster_data.rs)"@,
            },
            Title { name: "fdb_cluster_moving_data_in_flight_bytes"@, help: "Data in flight"@ },
            Title {
                name: "fdb_cluster_moving_data_in_queue_bytes"@,
                help: "Data waiting to be transferred"@,
            },
        ]
    }

    /// Declares the gauges of the subtree, under their names. Each reads 0.
    pub fn new() -> (metrics: ClusterDataMetrics)
        ensures
            metrics@ == ClusterDataReadings::initial(),
            metrics.titles() == Self::declared_titles(),
    {
        proof {
            reveal_strlit("fdb_cluster_average_partition_size_bytes");
            reveal_strlit("Average size for a partition in the cluster");
            reveal_strlit("fdb_cluster_least_space_log_server_bytes");
            reveal_strlit("Value of the log server with least space available");
            reveal_strlit("fdb_cluster_least_space_storage_server_bytes");
            reveal_strlit("Value of the storage server with least space avaiable");
            reveal_strlit("fdb_cluster_partition_count");
            reveal_strlit("Number of partitions");
            reveal_strlit("fdb_cluster_total_disk_used_bytes");
            reveal_strlit("Total number of bytes used on all disk");
            reveal_strlit("fdb_cluster_total_kv_size_bytes");
            reveal_strlit("Total number of bytes for all key values");
            reveal_strlit("fdb_cluster_healthy");
            reveal_strlit("Whether the cluster is healthy or not");
            reveal_strlit("fdb_cluster_state");
            reveal_strlit("Current state of the cluster (see src/status_models/cluster_data.rs)");
            reveal_strlit("fdb_cluster_moving_data_in_flight_bytes");
            reveal_strlit("Data in flight");
            reveal_strlit("fdb_cluster_moving_data_in_queue_bytes");
            reveal_strlit("Data waiting to be transferred");
        }
        ClusterDataMetrics {
            average_partition_size_bytes: Gauge::declared(
                "fdb_cluster_average_partition_size_bytes",
                "Average size for a partition in the cluster",
            ),
            least_space_log_server_bytes: Gauge::declared(
                "fdb_cluster_least_space_log_server_bytes",
                "Value of the log server with least space available",
            ),
            least_space_storage_server_bytes: Gauge::declared(
                "fdb_cluster_least_space_storage_server_bytes",
                "Value of the storage server with least space avaiable",
            ),
            partition_count: Gauge::declared("fdb_cluster_partition_count", "Number of partitions"),
            total_disk_used_bytes: Gauge::declared(
                "fdb_cluster_total_disk_used_bytes",
                "Total number of bytes used on all disk",
            ),
            total_kv_size_bytes: Gauge::declared(
                "fdb_cluster_total_kv_size_bytes",
                "Total number of bytes for all key values",
            ),
            healthy: Gauge::declared(
                "fdb_cluster_healthy",
                "Whether the cluster is healthy or not",
            ),
            state: Gauge::declared(
                "fdb_cluster_state",
                "Current state of the cluster (see src/status_models/cluster_data.rs)",
            ),
            moving_data_in_flight_bytes: Gauge::declared(
                "fdb_cluster_moving_data_in_flight_bytes",
                "Data in flight",
            ),
            moving_data_in_queue_bytes: Gauge::declared(
                "fdb_cluster_moving_data_in_queue_bytes",
                "Data waiting to be transferred",
            ),
        }
    }

    /// The gauges as a registry sees them, in the order of the fields.
    pub open spec fn series(&self) -> Seq<Series> {
        seq![
            self.average_partition_size_bytes.series(),
            self.least_space_log_server_bytes.series(),
            self.least_space_storage_server_bytes.series(),
            self.partition_count.series(),
            self.total_disk_used_bytes.series(),
            self.total_kv_size_bytes.series(),
            self.healthy.series(),
            self.state.series(),
            self.moving_data_in_flight_bytes.series(),
            self.moving_data_in_queue_bytes.series(),
        ]
    }

    /// Files the gauges in a registry, in the order of the fields, and stops
    /// at the first that the registry refuses. It succeeds exactly when the
    /// registry takes every gauge in its turn.
    pub fn register(&self, registry: &mut ::prometheus::Registry) -> (r: Result<(), MetricError>)
        ensures
            r is Ok <==> registry_filing(*old(registry)).takes_all(self.series(), false),
            registry_filing(*final(registry)) == registry_filing(*old(registry)).offered_in_order(
                self.series(),
                false,
            ),
    {
        let gauges: [&Gauge; 10] = [
            &self.average_partition_size_bytes,
            &self.least_space_log_server_bytes,
            &self.least_space_storage_server_bytes,
            &self.partition_count,
            &self.total_disk_used_bytes,
            &self.total_kv_size_bytes,
            &self.healthy,
            &self.state,
            &self.moving_data_in_flight_bytes,
            &self.moving_data_in_queue_bytes,
        ];
        assert(gauge_series(gauges@) =~= self.series());
        register_gauges(gauges.as_slice(), registry)
    }

    /// What the gauges read.
    pub fn readings(&self) -> (r: ClusterDataReadings)
        ensures
            r == self@,
    {
        ClusterDataReadings {
            average_partition_size_bytes: self.average_partition_size_bytes.get(),
            least_space_log_server_bytes: self.least_space_log_server_bytes.get(),
            least_space_storage_server_bytes: self.least_space_storage_server_bytes.get(),
            partition_count: self.partition_count.get(),
            total_disk_used_bytes: self.total_disk_used_bytes.get(),
            total_kv_size_bytes: self.total_kv_size_bytes.get(),
            healthy: self.healthy.get(),
            state: self.state.get(),
            moving_data_in_flight_bytes: self.moving_data_in_flight_bytes.get(),
            moving_data_in_queue_bytes: self.moving_data_in_queue_bytes.get(),
        }
    }
}

/// A family of a group as a registry sees it.
pub open spec fn family_series(
    prefix: Seq<char>,
    suffix: Seq<char>,
    desc: Seq<char>,
    label_names: Seq<Seq<char>>,
) -> Series {
    Series { title: Title { name: prefix + suffix, help: desc }, labels: label_names }
}

/// Declares one family of a group, named by the prefix and a suffix, and
/// files it in the registry. It fails, and leaves the registry alone, where
/// the family cannot be declared: on a name that is no series name, an empty
/// help text, or label names that are not valid or not distinct. Else the
/// family is offered to the registry. It succeeds exactly when the family
/// can be declared and the registry takes it.
fn register_family(
    registry: &mut ::prometheus::Registry,
    prefix: &str,
    suffix: &str,
    desc: &str,
    label_names: &[&str],
) -> (r: Result<(String, GaugeFamily), MetricError>)
    ensures
        r is Ok <==> declarable(
            Title { name: prefix@ + suffix@, help: desc@ },
            label_texts(label_names@),
        ) && registry_filing(*old(registry)).takes(
            family_series(prefix@, suffix@, desc@, label_texts(label_names@)),
        ),
        registry_filing(*final(registry)) == (if declarable(
            Title { name: prefix@ + suffix@, help: desc@ },
            label_texts(label_names@),
        ) {
            registry_filing(*old(registry)).offered(
                family_series(prefix@, suffix@, desc@, label_texts(label_names@)),
            )
        } else {
            registry_filing(*old(registry))
        }),
        r matches Ok(pair) ==> pair.0@ == prefix@ + suffix@ && pair.1.readings() == no_readings()
            && pair.1.arity() == label_names@.len() && pair.1.series() == family_series(
            prefix@,
            suffix@,
            desc@,
            label_texts(label_names@),
        ),
{
    let name = String::from_str(prefix).concat(suffix);
    let family = GaugeFamily::new(name.as_str(), desc, label_names)?;
    family.register(registry)?;
    Ok((name, family))
}

/// The names of the four families of moving data under a prefix differ.
proof fn lemma_moving_names_differ(prefix: Seq<char>)
    ensures
        prefix + "_highest_priority"@ != prefix + "_in_flight_bytes"@,
        prefix + "_highest_priority"@ != prefix + "_in_queue_bytes"@,
        prefix + "_highest_priority"@ != prefix + "_total_written_bytes"@,
        prefix + "_in_flight_bytes"@ != prefix + "_in_queue_bytes"@,
        prefix + "_in_flight_bytes"@ != prefix + "_total_written_bytes"@,
        prefix + "_in_queue_bytes"@ != prefix + "_total_written_bytes"@,
{
    reveal_strlit("_highest_priority");
    reveal_strlit("_in_flight_bytes");
    reveal_strlit("_in_queue_bytes");
    reveal_strlit("_total_written_bytes");
    assert((prefix + "_highest_priority"@).len() == prefix.len() + 17);
    assert((prefix + "_in_flight_bytes"@).len() == prefix.len() + 16);
    assert((prefix + "_in_queue_bytes"@).len() == prefix.len() + 15);
    assert((prefix + "_total_written_bytes"@).len() == prefix.len() + 20);
}

impl StaticMetric<GaugeFamily> for ClusterDataMoving {
    /// Four families with the same number of label names, each under its
    /// own name.
    open spec fn registered(group: MetricGroup<GaugeFamily>, label_count: nat) -> bool {
        &&& group.names@.len() == 4
        &&& group.metrics@.len() == 4
        &&& group.well_formed()
        &&& group.well_named()
        &&& forall|i: int| 0 <= i < 4 ==> (#[trigger] group.metrics@[i]).arity() == label_count
    }

    /// The families `highest_priority`, `in_flight_bytes`, `in_queue_bytes`
    /// and `total_written_bytes` under the prefix, in this order.
    open spec fn series(prefix: Seq<char>, desc: Seq<char>, label_names: Seq<Seq<char>>) -> Seq<
        Series,
    > {
        seq![
            family_series(prefix, "_highest_priority"@, desc, label_names),
            family_series(prefix, "_in_flight_bytes"@, desc, label_names),
            family_series(prefix, "_in_queue_bytes"@, desc, label_names),
            family_series(prefix, "_total_written_bytes"@, desc, label_names),
        ]
    }

    /// The four families are named by the prefix and `_highest_priority`,
    /// `_in_flight_bytes`, `_in_queue_bytes` and `_total_written_bytes`, in
    /// this order, and none has a gauge.
    open spec fn fresh(group: MetricGroup<GaugeFamily>, prefix: Seq<char>) -> bool {
        &&& group.names@.len() == 4
        &&& group.metrics@.len() == 4
        &&& group.names@[0]@ == prefix + "_highest_priority"@
        &&& group.names@[1]@ == prefix + "_in_flight_bytes"@
        &&& group.names@[2]@ == prefix + "_in_queue_bytes"@
        &&& group.names@[3]@ == prefix + "_total_written_bytes"@
        &&& forall|i: int| 0 <= i < 4 ==> (#[trigger] group.metrics@[i]).readings() == no_readings()
        &&& forall|i: int|
            0 <= i < 4 ==> (#[trigger] group.metrics@[i]).title().name == group.names@[i]@
    }

    /// Under the key of the label values each family reads the field that it
    /// stands for, where the subtree has that field; no other gauge of the
    /// group changes.
    open spec fn written(
        &self,
        before: MetricGroup<GaugeFamily>,
        labels: Seq<Seq<char>>,
        after: MetricGroup<GaugeFamily>,
    ) -> bool {
        let key = label_hash(labels);
        &&& after.names == before.names
        &&& after.metrics@.len() == 4
        &&& forall|i: int|
            0 <= i < 4 ==> (#[trigger] after.metrics@[i]).title() == before.metrics@[i].title()
        &&& after.metrics@[0].readings() == offered_under(
            before.metrics@[0].readings(),
            key,
            self.highest_priority,
        )
        &&& after.metrics@[1].readings() == offered_under(
            before.metrics@[1].readings(),
            key,
            self.in_flight_bytes,
        )
        &&& after.metrics@[2].readings() == offered_under(
            before.metrics@[2].readings(),
            key,
            self.in_queue_bytes,
        )
        &&& after.metrics@[3].readings() == offered_under(
            before.metrics@[3].readings(),
            key,
            self.total_written_bytes,
        )
    }

    /// Declares the families `highest_priority`, `in_flight_bytes`,
    /// `in_queue_bytes` and `total_written_bytes` under the prefix, and files
    /// each in the registry, in this order. It stops at the first family
    /// that cannot be declared or that the registry refuses.
    fn register(
        registry: &mut ::prometheus::Registry,
        prefix: &str,
        desc: &str,
        label_names: &[&str],
    ) -> (r: Result<MetricGroup<GaugeFamily>, MetricError>) {
        let ghost start = registry_filing(*registry);
        let ghost list = Self::series(prefix@, desc@, label_texts(label_names@));
        let mut names: Vec<String> = Vec::new();
        let mut metrics: Vec<GaugeFamily> = Vec::new();
        proof {
            assert(list.skip(0) =~= list);
            lemma_offered_next(start, list, 0, true);
            lemma_moving_names_differ(prefix@);
        }
        match register_family(registry, prefix, "_highest_priority", desc, label_names) {
            Ok((name, family)) => {
                names.push(name);
                metrics.push(family);
            },
            Err(e) => {
                return Err(e);
            },
        }
        proof {
            lemma_offered_next(registry_filing(*registry), list, 1, true);
        }
        match register_family(registry, prefix, "_in_flight_bytes", desc, label_names) {
            Ok((name, family)) => {
                names.push(name);
                metrics.push(family);
            },
            Err(e) => {
                return Err(e);
            },
        }
        proof {
            lemma_offered_next(registry_filing(*registry), list, 2, true);
        }
        match register_family(registry, prefix, "_in_queue_bytes", desc, label_names) {
            Ok((name, family)) => {
                names.push(name);
                metrics.push(family);
            },
            Err(e) => {
                return Err(e);
            },
        }
        proof {
            lemma_offered_next(registry_filing(*registry), list, 3, true);
        }
        match register_family(registry, prefix, "_total_written_bytes", desc, label_names) {
            Ok((name, family)) => {
                names.push(name);
                metrics.push(family);
            },
            Err(e) => {
                return Err(e);
            },
        }
        proof {
            assert(list.skip(4) =~= Seq::<Series>::empty());
        }
        Ok(MetricGroup { names, metrics })
    }

    fn set(&self, metric: &mut MetricGroup<GaugeFamily>, labels: &[&str]) {
        let _ = metric.metrics[0].set_if_present(labels, self.highest_priority);
        let _ = metric.metrics[1].set_if_present(labels, self.in_flight_bytes);
        let _ = metric.metrics[2].set_if_present(labels, self.in_queue_bytes);
        let _ = metric.metrics[3].set_if_present(labels, self.total_written_bytes);
    }
}

} // verus!
