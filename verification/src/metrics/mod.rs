//! The metrics that the exporter publishes, and the conversion of a status
//! document into them.

use vstd::prelude::*;

pub mod prometheus;

use crate::fetcher::{status_of, FetchError, FetchErrorKind};
use crate::status_models::cluster_data::ClusterData;
use crate::status_models::json::Json;
use crate::status_models::Status;
use self::prometheus::cluster_data::{ClusterDataMetrics, ClusterDataReadings};
use self::prometheus::fetch_errors::{ErrorCounters, ErrorCounts};
use self::prometheus::{lemma_offered_both, registry_filing, MetricError, Series, Title};

verus! {

/// Every series of the exporter.
pub struct ExporterMetrics {
    pub cluster_data: ClusterDataMetrics,
    pub errors: ErrorCounters,
}

/// What every series of the exporter reads.
#[derive(Clone, Copy, Debug, PartialEq, Eq, Structural)]
pub struct ExporterReadings {
    pub cluster_data: ClusterDataReadings,
    pub errors: ErrorCounts,
}

impl View for ExporterMetrics {
    type V = ExporterReadings;

    open spec fn view(&self) -> ExporterReadings {
        ExporterReadings { cluster_data: self.cluster_data@, errors: self.errors@ }
    }
}

impl Status {
    /// What the gauges read after the document was converted: those of a
    /// subtree that the document has are written, all others keep their
    /// reading.
    pub open spec fn published(self, before: ClusterDataReadings) -> ClusterDataReadings {
        match self.cluster {
            Some(cluster) => match cluster.data {
                Some(data) => data.published(before),
                None => before,
            },
            None => before,
        }
    }
}

impl ExporterReadings {
    /// The readings before the first tick.
    pub open spec fn initial() -> ExporterReadings {
        ExporterReadings {
            cluster_data: ClusterDataReadings::initial(),
            errors: ErrorCounts::initial(),
        }
    }

    /// The readings after a fetch failed with an error of a kind: the error
    /// is counted once, and no gauge changes.
    pub open spec fn after_failure(self, kind: FetchErrorKind) -> ExporterReadings {
        ExporterReadings { errors: self.errors.counted(kind), ..self }
    }

    /// The readings after a status was converted: no counter changes.
    pub open spec fn after_status(self, status: Status) -> ExporterReadings {
        ExporterReadings { cluster_data: status.published(self.cluster_data), ..self }
    }

    /// The readings after a fetch gave the value under the status key, or
    /// none: a status is converted; the lack of a value and a document that
    /// does not decode are counted as errors of their kinds.
    pub open spec fn after_value(self, value: Option<Seq<u8>>) -> ExporterReadings {
        match status_of(value) {
            Ok(status) => self.after_status(status),
            Err(None) => self.after_failure(FetchErrorKind::StatusNotFound),
            Err(Some(_)) => self.after_failure(FetchErrorKind::Parsing),
        }
    }
}

impl ExporterMetrics {
    /// The names and the help texts of every series: those of the gauges,
    /// then those of the counters.
    pub open spec fn titles(&self) -> Seq<Title> {
        self.cluster_data.titles() + self.errors.titles()
    }

    /// Declares every series, under its name. Each reads 0.
    pub fn new() -> (metrics: ExporterMetrics)
        ensures
            metrics@ == ExporterReadings::initial(),
            metrics.titles() == ClusterDataMetrics::declared_titles()
                + ErrorCounters::declared_titles(),
    {
        ExporterMetrics { cluster_data: ClusterDataMetrics::new(), errors: ErrorCounters::new() }
    }

    /// Every series as a registry sees it: the gauges, then the counters.
    pub open spec fn series(&self) -> Seq<Series> {
        self.cluster_data.series() + self.errors.series()
    }

    /// Files every series in a registry, the gauges and then the counters,
    /// and stops at the first that the registry refuses. It succeeds
    /// exactly when the registry takes every series in its turn.
    pub fn register(&self, registry: &mut ::prometheus::Registry) -> (r: Result<(), MetricError>)
        ensures
            r is Ok <==> registry_filing(*old(registry)).takes_all(self.series(), false),
            registry_filing(*final(registry)) == registry_filing(*old(registry)).offered_in_order(
                self.series(),
                false,
            ),
    {
        proof {
            lemma_offered_both(
                registry_filing(*registry),
                self.cluster_data.series(),
                self.errors.series(),
                false,
            );
            lemma_offered_both(
                registry_filing(*registry).offered_in_order(self.cluster_data.series(), false),
                self.errors.series(),
                Seq::empty(),
                false,
            );
        }
        self.cluster_data.register(registry)?;
        self.errors.register(registry)
    }
}

/// Converts a status into metrics: the subtrees that it has are written to
/// their gauges.
pub fn process_metrics(status: &Status, metrics: &mut ExporterMetrics)
    ensures
        final(metrics)@ == old(metrics)@.after_status(*status),
        final(metrics).titles() == old(metrics).titles(),
{
    if let Some(cluster) = &status.cluster {
        if let Some(data) = &cluster.data {
            data.to_metrics(&mut metrics.cluster_data);
        }
    }
}

/// Handles what one fetch gave: a status is converted into metrics, an error
/// is counted.
pub fn process_fetched(fetched: &Result<Status, FetchError>, metrics: &mut ExporterMetrics)
    ensures
        final(metrics)@ == (match fetched {
            Ok(status) => old(metrics)@.after_status(*status),
            Err(e) => old(metrics)@.after_failure(e.kind()),
        }),
        final(metrics).titles() == old(metrics).titles(),
{
    match fetched {
        Ok(status) => process_metrics(status, metrics),
        Err(e) => e.to_metrics(&mut metrics.errors),
    }
}

/// Handles the value read under the status key: the document is decoded and
/// converted into metrics; a document that does not decode, or the lack of a
/// value, is counted. Gives back the error, if there was one.
pub fn process_value(value: Option<&[u8]>, metrics: &mut ExporterMetrics) -> (r: Result<
    (),
    FetchError,
>)
    ensures
        final(metrics)@ == old(metrics)@.after_value(
            match value {
                Some(bytes) => Some(bytes@),
                None => None,
            },
        ),
        r is Ok <==> status_of(
            match value {
                Some(bytes) => Some(bytes@),
                None => None,
            },
        ) is Ok,
        r matches Err(e) ==> e.kind() == (if value is None {
            FetchErrorKind::StatusNotFound
        } else {
            FetchErrorKind::Parsing
        }),
        final(metrics).titles() == old(metrics).titles(),
{
    let fetched = crate::fetcher::decode_cluster_status(value);
    process_fetched(&fetched, metrics);
    match fetched {
        Ok(_) => Ok(()),
        Err(e) => Err(e),
    }
}

/// A status without a `cluster` subtree, or without a `data` subtree in it,
/// leaves every gauge as it was; a `data` subtree without `state` leaves the
/// two gauges of the state, and one without `moving_data` the two gauges of
/// moving data.
pub proof fn absent_subtree_keeps_readings(status: Status, before: ClusterDataReadings)
    ensures
        status.cluster is None ==> status.published(before) == before,
        status.cluster matches Some(cluster) && cluster.data is None ==> status.published(before)
            == before,
        status.cluster matches Some(cluster) && cluster.data matches Some(data) && data.state
            is None ==> status.published(before).healthy == before.healthy && status.published(
            before,
        ).state == before.state,
        status.cluster matches Some(cluster) && cluster.data matches Some(data) && data.moving_data
            is None ==> status.published(before).moving_data_in_flight_bytes
            == before.moving_data_in_flight_bytes && status.published(
            before,
        ).moving_data_in_queue_bytes == before.moving_data_in_queue_bytes,
{
}

/// A document without a `cluster` subtree, or without a `data` subtree in
/// it, decodes, and leaves every gauge as it was.
pub proof fn document_without_data_changes_nothing(document: Json, before: ClusterDataReadings)
    requires
        document is Object,
        document.optional("cluster"@) matches Some(cluster) ==> cluster is Object
            && cluster.optional("data"@) is None,
    ensures
        Status::decoded(document) is Ok,
        Status::decoded(document)->Ok_0.published(before) == before,
{
}

/// A document whose `data` subtree decodes, and has no `state` in it,
/// decodes, and leaves the two gauges of the state as they were; one that
/// has no `moving_data` in it leaves the two gauges of moving data as they
/// were.
pub proof fn document_without_subtree_keeps_its_gauges(
    document: Json,
    cluster: Json,
    data: Json,
    before: ClusterDataReadings,
)
    requires
        document is Object,
        cluster is Object,
        document.optional("cluster"@) == Some(cluster),
        cluster.optional("data"@) == Some(data),
        ClusterData::decoded(data) is Ok,
    ensures
        Status::decoded(document) is Ok,
        data.optional("state"@) is None ==> Status::decoded(document)->Ok_0.published(
            before,
        ).healthy == before.healthy && Status::decoded(document)->Ok_0.published(before).state
            == before.state,
        data.optional("moving_data"@) is None ==> Status::decoded(document)->Ok_0.published(
            before,
        ).moving_data_in_flight_bytes == before.moving_data_in_flight_bytes && Status::decoded(
            document,
        )->Ok_0.published(before).moving_data_in_queue_bytes
            == before.moving_data_in_queue_bytes,
{
}

/// A fetch that fails and a fetch that then succeeds leave the gauges as the
/// successful fetch alone does, and the error counters with one more error
/// of the failure's kind and no other change.
pub proof fn failure_then_success(before: ExporterReadings, kind: FetchErrorKind, status: Status)
    ensures
        before.after_failure(kind).after_status(status).cluster_data == before.after_status(
            status,
        ).cluster_data,
        before.after_failure(kind).after_status(status).errors == before.after_status(
            status,
        ).errors.counted(kind),
        before.after_status(status).errors == before.errors,
{
}

} // verus!
