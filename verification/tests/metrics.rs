use fdbexporter::metrics::prometheus::cluster_data::ClusterDataMetrics;
use fdbexporter::metrics::prometheus::fetch_errors::{ErrorCounters, ErrorCounts};
use fdbexporter::metrics::prometheus::{
    AndSet, AndSetSingle, Counter, Gauge, GaugeFamily, MetricError, MetricGroup, StaticMetric,
};
use fdbexporter::metrics::ExporterMetrics;
use fdbexporter::status_models::cluster_data::ClusterDataMoving;
use fdbexporter::FetchError;
use prometheus::Encoder;

fn exposition(registry: &prometheus::Registry) -> String {
    let mut buffer = vec![];
    prometheus::TextEncoder::new().encode(&registry.gather(), &mut buffer).unwrap();
    String::from_utf8(buffer).unwrap()
}

#[test]
fn gauge_reads_what_was_set() {
    let mut gauge = Gauge::new("a_gauge", "A gauge").unwrap();
    assert_eq!(gauge.get(), 0);
    gauge.set(-17);
    assert_eq!(gauge.get(), -17);
    gauge.set(i64::MAX);
    assert_eq!(gauge.get(), i64::MAX);
}

#[test]
fn names_and_help_are_checked() {
    assert!(Gauge::new("a:b_c9", "help").is_ok());
    assert!(Gauge::new("_", "help").is_ok());
    assert!(matches!(Gauge::new("", "help"), Err(MetricError::Message(_))));
    assert!(matches!(Gauge::new("9a", "help"), Err(MetricError::Message(_))));
    assert!(matches!(Gauge::new("a-b", "help"), Err(MetricError::Message(_))));
    assert!(matches!(Gauge::new("a", ""), Err(MetricError::Message(_))));
    assert!(Counter::new("a b", "help").is_err());
    assert!(GaugeFamily::new("family", "help", &["a", "b"]).is_ok());
    assert!(GaugeFamily::new("family", "help", &["a", "a"]).is_err());
    assert!(GaugeFamily::new("family", "help", &["a:b"]).is_err());
    assert!(GaugeFamily::new("family", "help", &["1a"]).is_err());
    assert!(GaugeFamily::new("family", "", &["a"]).is_err());
}

#[test]
fn a_series_is_registered_once() {
    let mut registry = prometheus::Registry::new();
    let gauge = Gauge::new("registered_gauge", "A gauge").unwrap();
    assert!(gauge.register(&mut registry).is_ok());
    assert!(matches!(gauge.register(&mut registry), Err(MetricError::AlreadyRegistered)));
}

#[test]
fn counter_counts() {
    let mut counter = Counter::new("a_counter", "A counter").unwrap();
    assert_eq!(counter.get(), 0);
    counter.inc();
    counter.inc();
    assert_eq!(counter.get(), 2);
}

#[test]
fn and_set_single_leaves_absent_alone() {
    let mut gauge = Gauge::new("single", "A gauge").unwrap();
    Some(5i64).and_set(&mut gauge);
    assert_eq!(gauge.get(), 5);
    None::<i64>.and_set(&mut gauge);
    assert_eq!(gauge.get(), 5);
    Some(0i64).and_set(&mut gauge);
    assert_eq!(gauge.get(), 0);
}

#[test]
fn family_makes_and_overwrites_series() {
    let mut family = GaugeFamily::new("per_process", "A family", &["process"]).unwrap();
    assert!(family.set_if_present(&["5"], Some(10)).is_ok());
    assert_eq!(family.get(&["5"]), Some(10));
    assert!(family.set_if_present(&["5"], Some(11)).is_ok());
    assert_eq!(family.get(&["5"]), Some(11));
    // a tuple that was never written reads 0
    assert_eq!(family.get(&["6"]), Some(0));
}

#[test]
fn family_checks_the_number_of_label_values() {
    let mut family = GaugeFamily::new("two_labels", "A family", &["a", "b"]).unwrap();
    assert!(matches!(
        family.set_if_present(&["only one"], Some(1)),
        Err(MetricError::InconsistentCardinality { expect: 2, got: 1 })
    ));
    assert!(family.set_if_present(&["only one"], None).is_ok());
    assert_eq!(family.get(&["x"]), None);
    assert!(family.set_if_present(&["x", "y"], Some(1)).is_ok());
    assert_eq!(family.get(&["x", "y"]), Some(1));
}

#[test]
fn absent_key_keeps_its_reading() {
    let mut family = GaugeFamily::new("keyed", "A family", &["key"]).unwrap();
    // the first tick supplies key 5
    family.set_if_present(&["5"], Some(123)).unwrap();
    // the next tick omits it: other keys are written, and nothing is offered under 5
    family.set_if_present(&["6"], Some(7)).unwrap();
    family.set_if_present(&["5"], None).unwrap();
    assert_eq!(family.get(&["5"]), Some(123));
    assert_eq!(family.get(&["6"]), Some(7));
}

#[test]
fn group_is_registered_and_written_under_labels() {
    let mut registry = prometheus::Registry::new();
    let mut group: MetricGroup<GaugeFamily> = <ClusterDataMoving as StaticMetric<GaugeFamily>>::register(
        &mut registry,
        "fdb_moving",
        "Moving data",
        &["cluster"],
    )
    .unwrap();
    assert_eq!(
        group.names,
        vec![
            "fdb_moving_highest_priority",
            "fdb_moving_in_flight_bytes",
            "fdb_moving_in_queue_bytes",
            "fdb_moving_total_written_bytes",
        ]
    );
    let moving = ClusterDataMoving {
        highest_priority: Some(1),
        in_flight_bytes: Some(2),
        in_queue_bytes: Some(3),
        total_written_bytes: Some(4),
    };
    Some(moving).and_set_with_labels(&mut group, &["5"]);
    // the next tick has no moving data: nothing is reset
    None::<ClusterDataMoving>.and_set_with_labels(&mut group, &["5"]);
    assert_eq!(group.metrics[0].get(&["5"]), Some(1));
    assert_eq!(group.metrics[1].get(&["5"]), Some(2));
    assert_eq!(group.metrics[2].get(&["5"]), Some(3));
    assert_eq!(group.metrics[3].get(&["5"]), Some(4));
    let text = exposition(&registry);
    assert!(text.contains("# HELP fdb_moving_in_flight_bytes Moving data\n"));
    assert!(text.contains("fdb_moving_in_flight_bytes{cluster=\"5\"} 2\n"));
}

#[test]
fn group_refuses_bad_declarations() {
    let mut registry = prometheus::Registry::new();
    let mut register = |prefix: &str, desc: &str, labels: &[&str]| {
        <ClusterDataMoving as StaticMetric<GaugeFamily>>::register(
            &mut registry,
            prefix,
            desc,
            labels,
        )
    };
    assert!(register("bad prefix", "Moving data", &["cluster"]).is_err());
    assert!(register("ok", "", &["cluster"]).is_err());
    assert!(register("ok", "Moving data", &["a", "a"]).is_err());
    assert!(register("ok", "Moving data", &["cluster"]).is_ok());
    // the same names cannot be filed twice
    assert!(register("ok", "Moving data", &["cluster"]).is_err());
}

#[test]
fn group_without_labels() {
    let mut registry = prometheus::Registry::new();
    let mut group = <ClusterDataMoving as StaticMetric<GaugeFamily>>::register(
        &mut registry,
        "plain",
        "Moving data",
        &[],
    )
    .unwrap();
    let moving = ClusterDataMoving {
        highest_priority: Some(9),
        in_flight_bytes: Some(8),
        in_queue_bytes: Some(7),
        total_written_bytes: Some(6),
    };
    Some(moving).and_set(&mut group);
    assert_eq!(group.metrics[3].get(&[]), Some(6));
}

#[test]
fn error_counters_count_by_kind() {
    let mut counters = ErrorCounters::new();
    let zero = ErrorCounts { parsing: 0, fdb: 0, fdb_binding: 0, status_not_found: 0 };
    assert_eq!(counters.counts(), zero);
    FetchError::StatusNotFound.to_metrics(&mut counters);
    assert_eq!(counters.counts(), ErrorCounts { status_not_found: 1, ..zero });
    FetchError::Fdb(1031, "Operation aborted because the transaction timed out".to_string())
        .to_metrics(&mut counters);
    FetchError::FdbBinding("bad cluster file".to_string()).to_metrics(&mut counters);
    FetchError::Fdb(1020, "not committed".to_string()).to_metrics(&mut counters);
    assert_eq!(
        counters.counts(),
        ErrorCounts { parsing: 0, fdb: 2, fdb_binding: 1, status_not_found: 1 }
    );
}

#[test]
fn every_series_is_exposed() {
    let mut registry = prometheus::Registry::new();
    let mut metrics = ExporterMetrics::new();
    metrics.register(&mut registry).unwrap();
    metrics.cluster_data.total_kv_size_bytes.set(42);
    let text = exposition(&registry);
    for line in [
        "# HELP fdb_cluster_total_kv_size_bytes Total number of bytes for all key values\n",
        "# TYPE fdb_cluster_total_kv_size_bytes gauge\n",
        "fdb_cluster_total_kv_size_bytes 42\n",
        "fdb_cluster_average_partition_size_bytes 0\n",
        "fdb_cluster_least_space_log_server_bytes 0\n",
        "fdb_cluster_least_space_storage_server_bytes 0\n",
        "fdb_cluster_partition_count 0\n",
        "fdb_cluster_total_disk_used_bytes 0\n",
        "fdb_cluster_healthy 0\n",
        "fdb_cluster_state 0\n",
        "fdb_cluster_moving_data_in_flight_bytes 0\n",
        "fdb_cluster_moving_data_in_queue_bytes 0\n",
        "# TYPE fdb_exporter_parsing_error_count counter\n",
        "fdb_exporter_parsing_error_count 0\n",
        "fdb_exporter_fdb_error_count 0\n",
        "fdb_exporter_fdb_binding_error_count 0\n",
        "fdb_exporter_status_not_found_count 0\n",
    ] {
        assert!(text.contains(line), "missing {:?} in\n{}", line, text);
    }
    // a registry takes the series only once
    assert!(ClusterDataMetrics::new().register(&mut registry).is_err());
}

#[test]
fn tuples_that_run_together_alike_share_a_gauge() {
    // the family files a tuple under a hash of its values written one after the other
    let mut family = GaugeFamily::new("run_together", "A family", &["a", "b"]).unwrap();
    family.set_if_present(&["ab", "c"], Some(1)).unwrap();
    family.set_if_present(&["a", "bc"], Some(2)).unwrap();
    assert_eq!(family.get(&["ab", "c"]), Some(2));
    family.set_if_present(&["a", "bd"], Some(3)).unwrap();
    assert_eq!(family.get(&["ab", "c"]), Some(2));
}

#[test]
fn a_new_registry_takes_what_it_is_offered_first() {
    let mut registry = fdbexporter::metrics::prometheus::new_registry();
    assert_eq!(exposition(&registry), "");
    let gauge = Gauge::new("first_gauge", "A gauge").unwrap();
    assert!(gauge.register(&mut registry).is_ok());
    assert!(exposition(&registry).contains("first_gauge 0\n"));

    let mut registry = fdbexporter::metrics::prometheus::new_registry();
    assert!(ExporterMetrics::new().register(&mut registry).is_ok());
    assert!(exposition(&registry).contains("fdb_cluster_average_partition_size_bytes 0\n"));
}

#[test]
fn registration_stops_at_the_first_refusal() {
    let mut registry = fdbexporter::metrics::prometheus::new_registry();
    // the name of the fourth gauge is taken
    let taken = Gauge::new("fdb_cluster_partition_count", "Number of partitions").unwrap();
    taken.register(&mut registry).unwrap();
    let metrics = ExporterMetrics::new();
    assert!(matches!(metrics.register(&mut registry), Err(MetricError::AlreadyRegistered)));
    let text = exposition(&registry);
    // the gauges before it are filed, the ones after it and the counters are not
    assert!(text.contains("fdb_cluster_average_partition_size_bytes 0\n"));
    assert!(text.contains("fdb_cluster_least_space_log_server_bytes 0\n"));
    assert!(text.contains("fdb_cluster_least_space_storage_server_bytes 0\n"));
    assert!(!text.contains("fdb_cluster_total_disk_used_bytes"));
    assert!(!text.contains("fdb_exporter_parsing_error_count"));
}

#[test]
fn group_registration_stops_at_the_first_refusal() {
    let mut registry = fdbexporter::metrics::prometheus::new_registry();
    let taken = Gauge::new("moving_in_queue_bytes", "Taken").unwrap();
    taken.register(&mut registry).unwrap();
    let group = <ClusterDataMoving as StaticMetric<GaugeFamily>>::register(
        &mut registry,
        "moving",
        "Moving data",
        &[],
    );
    assert!(group.is_err());
    // a family without a gauge is not exposed, so offer the names again to see what is filed
    for (name, filed) in [
        ("moving_highest_priority", true),
        ("moving_in_flight_bytes", true),
        ("moving_total_written_bytes", false),
    ] {
        let again = GaugeFamily::new(name, "Moving data", &[]).unwrap();
        assert_eq!(again.register(&mut registry).is_err(), filed, "{}", name);
    }
    // a group that cannot be declared leaves the registry alone
    let mut registry = fdbexporter::metrics::prometheus::new_registry();
    assert!(<ClusterDataMoving as StaticMetric<GaugeFamily>>::register(
        &mut registry,
        "bad prefix",
        "Moving data",
        &[],
    )
    .is_err());
    assert_eq!(exposition(&registry), "");
}

#[test]
fn group_leaves_the_series_of_absent_fields() {
    let mut registry = fdbexporter::metrics::prometheus::new_registry();
    let mut group = <ClusterDataMoving as StaticMetric<GaugeFamily>>::register(
        &mut registry,
        "partly",
        "Moving data",
        &["cluster"],
    )
    .unwrap();
    let all = ClusterDataMoving {
        highest_priority: Some(1),
        in_flight_bytes: Some(2),
        in_queue_bytes: Some(3),
        total_written_bytes: Some(4),
    };
    Some(all).and_set_with_labels(&mut group, &["5"]);
    let some = ClusterDataMoving {
        highest_priority: None,
        in_flight_bytes: Some(20),
        in_queue_bytes: None,
        total_written_bytes: None,
    };
    Some(some).and_set_with_labels(&mut group, &["5"]);
    assert_eq!(group.metrics[0].get(&["5"]), Some(1));
    assert_eq!(group.metrics[1].get(&["5"]), Some(20));
    assert_eq!(group.metrics[2].get(&["5"]), Some(3));
    assert_eq!(group.metrics[3].get(&["5"]), Some(4));
}

#[test]
fn a_registry_refuses_what_it_holds_and_what_has_another_shape() {
    let mut registry = fdbexporter::metrics::prometheus::new_registry();
    let first = Gauge::new("shaped", "One help").unwrap();
    let same = Gauge::new("shaped", "One help").unwrap();
    let other_name = Gauge::new("shaped_too", "One help").unwrap();
    assert!(first.register(&mut registry).is_ok());
    assert!(matches!(same.register(&mut registry), Err(MetricError::AlreadyRegistered)));
    assert!(other_name.register(&mut registry).is_ok());
    // a name that was offered with one help text is refused with another,
    // also where the first offer was refused
    let mut registry = fdbexporter::metrics::prometheus::new_registry();
    let family = GaugeFamily::new("noted", "One help", &["a"]).unwrap();
    assert!(family.register(&mut registry).is_ok());
    let other_help = GaugeFamily::new("noted", "Other help", &["a"]).unwrap();
    assert!(other_help.register(&mut registry).is_err());
    let other_labels = GaugeFamily::new("noted", "One help", &["b"]).unwrap();
    assert!(other_labels.register(&mut registry).is_err());
}
