use fdbexporter::driver::{step, Action, DriverState, Event};
use fdbexporter::metrics::prometheus::cluster_data::{ClusterDataMetrics, ClusterDataReadings};
use fdbexporter::metrics::prometheus::fetch_errors::ErrorCounts;
use fdbexporter::metrics::{process_fetched, process_metrics, process_value, ExporterMetrics};
use fdbexporter::status_models::cluster_data::{
    ClusterData, ClusterDataMoving, ClusterDataState, ClusterDataStateName,
};
use fdbexporter::status_models::json::{DecodeFault, Json};
use fdbexporter::status_models::{Cluster, Status};
use fdbexporter::{decode_cluster_status, FetchError};

fn zero_readings() -> ClusterDataReadings {
    ClusterDataReadings {
        average_partition_size_bytes: 0,
        least_space_log_server_bytes: 0,
        least_space_storage_server_bytes: 0,
        partition_count: 0,
        total_disk_used_bytes: 0,
        total_kv_size_bytes: 0,
        healthy: 0,
        state: 0,
        moving_data_in_flight_bytes: 0,
        moving_data_in_queue_bytes: 0,
    }
}

fn zero_counts() -> ErrorCounts {
    ErrorCounts { parsing: 0, fdb: 0, fdb_binding: 0, status_not_found: 0 }
}

const FULL: &[u8] = br#"{
    "client": {"cluster_file": {"up_to_date": true}},
    "cluster": {
        "data": {
            "average_partition_size_bytes": 1,
            "least_operating_space_bytes_log_server": 2,
            "least_operating_space_bytes_storage_server": 3,
            "moving_data": {
                "highest_priority": 4,
                "in_flight_bytes": 5,
                "in_queue_bytes": 6,
                "total_written_bytes": 7
            },
            "partitions_count": 8,
            "state": {
                "description": "",
                "healthy": true,
                "min_replicas_remaining": 2,
                "name": "healthy_rebalancing"
            },
            "system_kv_size_bytes": 0,
            "total_disk_used_bytes": 9,
            "total_kv_size_bytes": -10
        }
    }
}"#;

fn full_readings() -> ClusterDataReadings {
    ClusterDataReadings {
        average_partition_size_bytes: 1,
        least_space_log_server_bytes: 2,
        least_space_storage_server_bytes: 3,
        partition_count: 8,
        total_disk_used_bytes: 9,
        total_kv_size_bytes: -10,
        healthy: 1,
        state: 7,
        moving_data_in_flight_bytes: 5,
        moving_data_in_queue_bytes: 6,
    }
}

#[test]
fn minimal_document_sets_only_total_kv_size() {
    let mut metrics = ExporterMetrics::new();
    let document = br#"{"cluster":{"data":{"total_kv_size_bytes": 42}}}"#;
    assert!(process_value(Some(&document[..]), &mut metrics).is_ok());
    let expected = ClusterDataReadings { total_kv_size_bytes: 42, ..zero_readings() };
    assert_eq!(metrics.cluster_data.readings(), expected);
    assert_eq!(metrics.errors.counts(), zero_counts());
}

#[test]
fn full_document_sets_every_gauge() {
    let mut metrics = ExporterMetrics::new();
    assert!(process_value(Some(FULL), &mut metrics).is_ok());
    assert_eq!(metrics.cluster_data.readings(), full_readings());
}

#[test]
fn full_document_decodes_to_every_field() {
    let status = Status::decode(FULL).unwrap();
    let data = status.cluster.unwrap().data.unwrap();
    assert_eq!(data.average_partition_size_bytes, Some(1));
    assert_eq!(data.least_operating_space_bytes_log_server, Some(2));
    assert_eq!(data.least_operating_space_bytes_storage_server, Some(3));
    assert_eq!(data.partitions_count, Some(8));
    assert_eq!(data.total_disk_used_bytes, Some(9));
    assert_eq!(data.total_kv_size_bytes, Some(-10));
    let moving = data.moving_data.unwrap();
    assert_eq!(moving.highest_priority, Some(4));
    assert_eq!(moving.in_flight_bytes, Some(5));
    assert_eq!(moving.in_queue_bytes, Some(6));
    assert_eq!(moving.total_written_bytes, Some(7));
    let state = data.state.unwrap();
    assert_eq!(state.healthy, Some(true));
    assert_eq!(state.description, Some(String::new()));
    assert_eq!(state.min_replicas_remaining, Some(2));
    assert_eq!(state.name, ClusterDataStateName::HealthyRebalancing);
}

#[test]
fn to_metrics_writes_present_fields() {
    let mut metrics = ClusterDataMetrics::new();
    let data = ClusterData { partitions_count: Some(7), ..Default::default() };
    data.to_metrics(&mut metrics);
    assert_eq!(metrics.readings(), ClusterDataReadings { partition_count: 7, ..zero_readings() });
}

#[test]
fn to_metrics_writes_state_and_moving_data() {
    let mut metrics = ClusterDataMetrics::new();
    let data = ClusterData {
        state: Some(ClusterDataState {
            healthy: Some(true),
            name: ClusterDataStateName::Healthy,
            ..Default::default()
        }),
        moving_data: Some(ClusterDataMoving {
            highest_priority: Some(1),
            in_flight_bytes: Some(20),
            in_queue_bytes: Some(30),
            total_written_bytes: Some(40),
        }),
        ..Default::default()
    };
    data.to_metrics(&mut metrics);
    let expected = ClusterDataReadings {
        healthy: 1,
        state: 8,
        moving_data_in_flight_bytes: 20,
        moving_data_in_queue_bytes: 30,
        ..zero_readings()
    };
    assert_eq!(metrics.readings(), expected);
    // a state without the flag writes the phase and leaves the flag
    let data = ClusterData {
        state: Some(ClusterDataState { name: ClusterDataStateName::Healing, ..Default::default() }),
        ..Default::default()
    };
    data.to_metrics(&mut metrics);
    assert_eq!(metrics.readings(), ClusterDataReadings { state: 2, ..expected });
    let data = ClusterData {
        state: Some(ClusterDataState { healthy: Some(false), ..Default::default() }),
        ..Default::default()
    };
    data.to_metrics(&mut metrics);
    assert_eq!(metrics.readings(), ClusterDataReadings { healthy: 0, state: 10, ..expected });
}

#[test]
fn missing_subtree_leaves_its_gauges() {
    let mut metrics = ExporterMetrics::new();
    assert!(process_value(Some(FULL), &mut metrics).is_ok());
    for document in [
        &br#"{}"#[..],
        &br#"{"cluster": {}}"#[..],
        &br#"{"cluster": null}"#[..],
        &br#"{"cluster": {"data": {}}}"#[..],
        &br#"{"cluster": {"data": null}}"#[..],
        &br#"{"cluster": {"data": {"moving_data": null, "state": null}}}"#[..],
    ] {
        assert!(process_value(Some(document), &mut metrics).is_ok());
        assert_eq!(metrics.cluster_data.readings(), full_readings());
    }
    // a document with some fields writes those, and leaves the others
    let document = br#"{"cluster": {"data": {"partitions_count": 100, "state": {"name": "healing"}}}}"#;
    assert!(process_value(Some(&document[..]), &mut metrics).is_ok());
    assert_eq!(
        metrics.cluster_data.readings(),
        ClusterDataReadings { partition_count: 100, state: 2, ..full_readings() }
    );
    assert_eq!(metrics.errors.counts(), zero_counts());
}

#[test]
fn unknown_state_name_decodes_to_unknown() {
    let document = br#"{"cluster":{"data":{"state":{"name":"brand_new_phase"}}}}"#;
    let status = Status::decode(&document[..]).unwrap();
    let state = status.cluster.unwrap().data.unwrap().state.unwrap();
    assert_eq!(state.name, ClusterDataStateName::Unknown);
    assert_eq!(state.name.ordinal(), 10);
    let document = br#"{"cluster":{"data":{"state":{"healthy":false}}}}"#;
    let status = Status::decode(&document[..]).unwrap();
    let state = status.cluster.unwrap().data.unwrap().state.unwrap();
    assert_eq!(state.name, ClusterDataStateName::Unknown);
}

#[test]
fn state_names_and_ordinals() {
    let table = [
        ("initializing", ClusterDataStateName::Initializing, 0),
        ("missing_data", ClusterDataStateName::MissingData, 1),
        ("healing", ClusterDataStateName::Healing, 2),
        ("optimizing_team_collections", ClusterDataStateName::OptimizingTeamCollections, 3),
        ("healthy_populating_region", ClusterDataStateName::HealthyPopulatingRegion, 4),
        ("healthy_repartitioning", ClusterDataStateName::HealthyRepartitioning, 5),
        ("healthy_removing_server", ClusterDataStateName::HealthyRemovingServer, 6),
        ("healthy_rebalancing", ClusterDataStateName::HealthyRebalancing, 7),
        ("healthy", ClusterDataStateName::Healthy, 8),
        ("healthy_perpetual_wiggle", ClusterDataStateName::HealthyPerpetualWiggle, 9),
        ("unknown", ClusterDataStateName::Unknown, 10),
        ("Healthy", ClusterDataStateName::Unknown, 10),
        ("", ClusterDataStateName::Unknown, 10),
    ];
    for (text, name, ordinal) in table {
        assert_eq!(ClusterDataStateName::from_name(text), name);
        assert_eq!(name.ordinal(), ordinal);
    }
    assert_eq!(ClusterDataStateName::default(), ClusterDataStateName::Unknown);
}

fn fault_of(document: &[u8]) -> (Vec<String>, DecodeFault, String) {
    let e = Status::decode(document).err().unwrap();
    let words = e.to_string();
    (e.path, e.fault, words)
}

#[test]
fn decode_failures_name_the_field() {
    let (path, fault, words) = fault_of(b"{\"cluster\": ");
    assert!(path.is_empty());
    assert_eq!(fault, DecodeFault::Syntax);
    assert_eq!(words, ".: the text is not JSON");

    let (path, fault, _) = fault_of(b"[]");
    assert!(path.is_empty());
    assert_eq!(fault, DecodeFault::WrongType);

    let (path, fault, _) = fault_of(br#"{"cluster": 5}"#);
    assert_eq!(path, vec!["cluster"]);
    assert_eq!(fault, DecodeFault::WrongType);

    let (path, fault, words) =
        fault_of(br#"{"cluster": {"data": {"total_kv_size_bytes": "many"}}}"#);
    assert_eq!(path, vec!["cluster", "data", "total_kv_size_bytes"]);
    assert_eq!(fault, DecodeFault::WrongType);
    assert_eq!(words, "cluster.data.total_kv_size_bytes: a value of another type was expected");

    let (path, fault, _) = fault_of(br#"{"cluster": {"data": {"partitions_count": 1.5}}}"#);
    assert_eq!(path, vec!["cluster", "data", "partitions_count"]);
    assert_eq!(fault, DecodeFault::WrongType);

    let (path, fault, _) =
        fault_of(br#"{"cluster": {"data": {"partitions_count": 9223372036854775808}}}"#);
    assert_eq!(path, vec!["cluster", "data", "partitions_count"]);
    assert_eq!(fault, DecodeFault::WrongType);

    let (path, fault, words) =
        fault_of(br#"{"cluster": {"data": {"moving_data": {"in_flight_bytes": true}}}}"#);
    assert_eq!(path, vec!["cluster", "data", "moving_data", "in_flight_bytes"]);
    assert_eq!(fault, DecodeFault::WrongType);
    assert_eq!(
        words,
        "cluster.data.moving_data.in_flight_bytes: a value of another type was expected"
    );

    let (path, fault, _) = fault_of(br#"{"cluster": {"data": {"state": {"name": 3}}}}"#);
    assert_eq!(path, vec!["cluster", "data", "state", "name"]);
    assert_eq!(fault, DecodeFault::WrongType);

    let (path, fault, _) = fault_of(br#"{"cluster": {"data": {"state": {"healthy": "yes"}}}}"#);
    assert_eq!(path, vec!["cluster", "data", "state", "healthy"]);
    assert_eq!(fault, DecodeFault::WrongType);

    // the first field at fault, in the order of the fields, is reported
    let (path, _, _) = fault_of(
        br#"{"cluster": {"data": {"total_kv_size_bytes": "x", "average_partition_size_bytes": "y"}}}"#,
    );
    assert_eq!(path, vec!["cluster", "data", "average_partition_size_bytes"]);
}

#[test]
fn json_tree_of_a_text() {
    let tree = Json::parse(br#"{"b": [1, 2.5, "x", null, true], "a": {"c": -3}}"#).unwrap();
    let Json::Object(members) = &tree else { panic!("no object") };
    // the members come in the order of their keys
    assert_eq!(members[0].0, "a");
    assert_eq!(members[1].0, "b");
    let Some(Json::Object(inner)) = tree.get("a") else { panic!("no object") };
    assert!(matches!(inner[0], (ref key, Json::Number(Some(-3))) if key == "c"));
    let Some(Json::Array(items)) = tree.get("b") else { panic!("no array") };
    assert!(matches!(items[0], Json::Number(Some(1))));
    assert!(matches!(items[1], Json::Number(None)));
    assert!(matches!(items[2], Json::Text(ref s) if s == "x"));
    assert!(matches!(items[3], Json::Null));
    assert!(matches!(items[4], Json::Bool(true)));
    assert!(tree.get("c").is_none());
    assert!(tree.is_object());
    assert!(Json::parse(b"{").is_none());
    assert!(Json::parse(b"").is_none());
}

#[test]
fn value_under_the_status_key() {
    assert!(matches!(decode_cluster_status(None), Err(FetchError::StatusNotFound)));
    assert!(matches!(decode_cluster_status(Some(&b"nonsense"[..])), Err(FetchError::Parsing(_))));
    let status = decode_cluster_status(Some(&b"{}"[..])).unwrap();
    assert!(status.cluster.is_none());
}

#[test]
fn failures_are_counted_once_each() {
    let mut metrics = ExporterMetrics::new();
    assert!(matches!(process_value(None, &mut metrics), Err(FetchError::StatusNotFound)));
    assert!(matches!(
        process_value(Some(&b"not json"[..]), &mut metrics),
        Err(FetchError::Parsing(_))
    ));
    assert!(process_value(Some(&br#"{"cluster": []}"#[..]), &mut metrics).is_err());
    assert_eq!(
        metrics.errors.counts(),
        ErrorCounts { parsing: 2, status_not_found: 1, ..zero_counts() }
    );
    assert_eq!(metrics.cluster_data.readings(), zero_readings());
}

#[test]
fn failure_then_success_is_success_with_one_count() {
    let mut failed_first = ExporterMetrics::new();
    process_fetched(
        &Err(FetchError::Fdb(1031, "timed out".to_string())),
        &mut failed_first,
    );
    assert!(process_value(Some(FULL), &mut failed_first).is_ok());

    let mut success_only = ExporterMetrics::new();
    assert!(process_value(Some(FULL), &mut success_only).is_ok());

    assert_eq!(failed_first.cluster_data.readings(), success_only.cluster_data.readings());
    assert_eq!(success_only.errors.counts(), zero_counts());
    assert_eq!(failed_first.errors.counts(), ErrorCounts { fdb: 1, ..zero_counts() });
}

#[test]
fn last_values_stay_through_failing_ticks() {
    let mut metrics = ExporterMetrics::new();
    assert!(process_value(Some(FULL), &mut metrics).is_ok());
    for _ in 0..3 {
        assert!(process_value(Some(&b"{"[..]), &mut metrics).is_err());
        assert!(process_value(None, &mut metrics).is_err());
    }
    assert_eq!(metrics.cluster_data.readings(), full_readings());
    assert_eq!(
        metrics.errors.counts(),
        ErrorCounts { parsing: 3, status_not_found: 3, ..zero_counts() }
    );
}

#[test]
fn process_metrics_skips_absent_subtrees() {
    let mut metrics = ExporterMetrics::new();
    metrics.cluster_data.partition_count.set(3);
    process_metrics(&Status { cluster: None }, &mut metrics);
    process_metrics(&Status { cluster: Some(Cluster { data: None }) }, &mut metrics);
    assert_eq!(
        metrics.cluster_data.readings(),
        ClusterDataReadings { partition_count: 3, ..zero_readings() }
    );
}

#[test]
fn driver_runs_the_loop() {
    let mut metrics = ExporterMetrics::new();
    let errors = &mut metrics.errors;
    assert_eq!(step(DriverState::Idle, &Event::Woke, errors), (DriverState::Idle, Action::Wait));
    assert_eq!(
        step(DriverState::Idle, &Event::Start, errors),
        (DriverState::Fetching, Action::Fetch)
    );
    let fetched = Event::Fetched(Ok(Some(b"{}".to_vec())));
    assert_eq!(
        step(DriverState::Fetching, &fetched, errors),
        (DriverState::Converting, Action::Convert)
    );
    assert_eq!(
        step(DriverState::Converting, &fetched, errors),
        (DriverState::Converting, Action::Convert)
    );
    assert_eq!(
        step(DriverState::Converting, &Event::Converted, errors),
        (DriverState::Sleeping, Action::Sleep)
    );
    assert_eq!(
        step(DriverState::Sleeping, &Event::Woke, errors),
        (DriverState::Fetching, Action::Fetch)
    );
    // the lack of a value is for the conversion to count
    assert_eq!(
        step(DriverState::Fetching, &Event::Fetched(Ok(None)), errors),
        (DriverState::Converting, Action::Convert)
    );
    assert_eq!(errors.counts(), zero_counts());
}

#[test]
fn driver_counts_failures_and_stops_on_binding_failure() {
    let mut metrics = ExporterMetrics::new();
    let errors = &mut metrics.errors;
    let failed = Event::Fetched(Err(FetchError::Fdb(1031, "timed out".to_string())));
    assert_eq!(
        step(DriverState::Fetching, &failed, errors),
        (DriverState::Sleeping, Action::Sleep)
    );
    assert_eq!(errors.counts(), ErrorCounts { fdb: 1, ..zero_counts() });
    // a failure that the state does not wait for is not counted
    assert_eq!(
        step(DriverState::Sleeping, &failed, errors),
        (DriverState::Sleeping, Action::Sleep)
    );
    assert_eq!(errors.counts(), ErrorCounts { fdb: 1, ..zero_counts() });
    let fatal = Event::Fetched(Err(FetchError::FdbBinding("Invalid cluster file path".to_string())));
    assert_eq!(step(DriverState::Fetching, &fatal, errors), (DriverState::Stopped, Action::Stop));
    assert_eq!(errors.counts(), ErrorCounts { fdb: 1, ..zero_counts() });
    assert_eq!(
        step(DriverState::Stopped, &Event::Woke, errors),
        (DriverState::Stopped, Action::Stop)
    );
    assert_eq!(
        step(DriverState::Stopped, &Event::Start, errors),
        (DriverState::Stopped, Action::Stop)
    );
}

#[test]
fn errors_in_words() {
    assert_eq!(FetchError::StatusNotFound.to_string(), "Status key not found in FoundationDB");
    assert_eq!(
        FetchError::Fdb(1031, "timed out".to_string()).to_string(),
        "FoundationDB error: timed out"
    );
    assert_eq!(
        FetchError::FdbBinding("bad path".to_string()).to_string(),
        "FoundationDB binding error: bad path"
    );
    let e = decode_cluster_status(Some(&br#"{"cluster": 1}"#[..])).err().unwrap();
    assert_eq!(
        e.to_string(),
        "Failed to parse status JSON: cluster: a value of another type was expected"
    );
    assert!(FetchError::FdbBinding(String::new()).is_fatal());
    assert!(!FetchError::StatusNotFound.is_fatal());
}

#[test]
fn fields_of_a_json_object() {
    let tree = Json::parse(
        br#"{"n": 7, "t": "x", "b": false, "z": null, "a": "10.0.0.1:4500:tls", "bad": "nohost"}"#,
    )
    .unwrap();
    assert_eq!(tree.get_optional_i64("n").unwrap(), Some(7));
    assert_eq!(tree.get_optional_i64("z").unwrap(), None);
    assert_eq!(tree.get_optional_i64("missing").unwrap(), None);
    assert_eq!(tree.get_optional_i64("t").unwrap_err().fault, DecodeFault::WrongType);
    assert_eq!(tree.get_optional_bool("b").unwrap(), Some(false));
    assert_eq!(tree.get_optional_bool("n").unwrap_err().fault, DecodeFault::WrongType);
    assert_eq!(tree.get_optional_text("t").unwrap(), Some("x".to_string()));
    assert_eq!(tree.get_optional_text("b").unwrap_err().path, vec!["b"]);
    assert!(tree.get_optional("z").is_none());
    assert!(tree.get("z").is_some());

    let address = tree.get_optional_address("a").unwrap().unwrap();
    assert!(address.tls);
    assert_eq!(address.to_string(), "10.0.0.1:4500:tls");
    assert!(tree.get_optional_address("z").unwrap().is_none());
    let e = tree.get_optional_address("bad").unwrap_err();
    assert_eq!(e.path, vec!["bad"]);
    assert_eq!(
        e.fault,
        DecodeFault::Address(fdbexporter::status_models::network_address::ParseError::MissingPort)
    );
    assert_eq!(e.to_string(), "bad: the endpoint has no port");
    assert_eq!(tree.get_optional_address("n").unwrap_err().fault, DecodeFault::WrongType);
}

#[test]
fn a_key_missing_in_moving_data_is_an_absent_field() {
    let document = br#"{"cluster":{"data":{"moving_data":{"in_flight_bytes":7}}}}"#;
    let status = Status::decode(&document[..]).unwrap();
    let moving = status.cluster.unwrap().data.unwrap().moving_data.unwrap();
    assert_eq!(moving.in_flight_bytes, Some(7));
    assert_eq!(moving.highest_priority, None);
    assert_eq!(moving.in_queue_bytes, None);
    assert_eq!(moving.total_written_bytes, None);

    // the gauge of the field that is there is written, the other keeps its reading
    let mut metrics = ExporterMetrics::new();
    assert!(process_value(Some(FULL), &mut metrics).is_ok());
    assert!(process_value(Some(&document[..]), &mut metrics).is_ok());
    assert_eq!(
        metrics.cluster_data.readings(),
        ClusterDataReadings { moving_data_in_flight_bytes: 7, ..full_readings() }
    );
    assert!(process_value(
        Some(&br#"{"cluster":{"data":{"moving_data":{}}}}"#[..]),
        &mut metrics
    )
    .is_ok());
    assert_eq!(
        metrics.cluster_data.readings(),
        ClusterDataReadings { moving_data_in_flight_bytes: 7, ..full_readings() }
    );
    assert_eq!(metrics.errors.counts(), zero_counts());
}
