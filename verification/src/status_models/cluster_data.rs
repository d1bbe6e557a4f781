//! The `cluster.data` subtree of the status document.

use vstd::prelude::*;
use crate::status_models::json::{DecodeError, DecodeErrorView, DecodeFault, Json};
use crate::text::text_eq;

verus! {

/// jq: .cluster.data
pub struct ClusterData {
    pub average_partition_size_bytes: Option<i64>,
    pub least_operating_space_bytes_log_server: Option<i64>,
    pub least_operating_space_bytes_storage_server: Option<i64>,
    pub moving_data: Option<ClusterDataMoving>,
    pub partitions_count: Option<i64>,
    pub total_disk_used_bytes: Option<i64>,
    pub total_kv_size_bytes: Option<i64>,
    pub state: Option<ClusterDataState>,
}

/// jq: .cluster.data.state.name
#[derive(Copy, Clone, Debug, PartialEq, Eq, Structural)]
pub enum ClusterDataStateName {
    Initializing,
    MissingData,
    Healing,
    OptimizingTeamCollections,
    HealthyPopulatingRegion,
    HealthyRepartitioning,
    HealthyRemovingServer,
    HealthyRebalancing,
    Healthy,
    HealthyPerpetualWiggle,
    Unknown,
}

/// jq: .cluster.data.state
pub struct ClusterDataState {
    pub healthy: Option<bool>,
    pub description: Option<String>,
    pub min_replicas_remaining: Option<i64>,
    pub name: ClusterDataStateName,
}

/// jq: .cluster.data.moving_data
pub struct ClusterDataMoving {
    pub highest_priority: Option<i64>,
    pub in_flight_bytes: Option<i64>,
    pub in_queue_bytes: Option<i64>,
    /// reset whenever data distributor is re-recruited
    pub total_written_bytes: Option<i64>,
}

impl ClusterDataStateName {
    /// The phase that a name stands for. A name that is none of the ten known
    /// ones stands for `Unknown`.
    pub open spec fn named(text: Seq<char>) -> ClusterDataStateName {
        if text == "initializing"@ {
            ClusterDataStateName::Initializing
        } else if text == "missing_data"@ {
            ClusterDataStateName::MissingData
        } else if text == "healing"@ {
            ClusterDataStateName::Healing
        } else if text == "optimizing_team_collections"@ {
            ClusterDataStateName::OptimizingTeamCollections
        } else if text == "healthy_populating_region"@ {
            ClusterDataStateName::HealthyPopulatingRegion
        } else if text == "healthy_repartitioning"@ {
            ClusterDataStateName::HealthyRepartitioning
        } else if text == "healthy_removing_server"@ {
            ClusterDataStateName::HealthyRemovingServer
        } else if text == "healthy_rebalancing"@ {
            ClusterDataStateName::HealthyRebalancing
        } else if text == "healthy"@ {
            ClusterDataStateName::Healthy
        } else if text == "healthy_perpetual_wiggle"@ {
            ClusterDataStateName::HealthyPerpetualWiggle
        } else {
            ClusterDataStateName::Unknown
        }
    }

    /// The number under which a phase is published: its place in the list of
    /// phases, from 0.
    pub open spec fn spec_ordinal(self) -> i64 {
        match self {
            ClusterDataStateName::Initializing => 0,
            ClusterDataStateName::MissingData => 1,
            ClusterDataStateName::Healing => 2,
            ClusterDataStateName::OptimizingTeamCollections => 3,
            ClusterDataStateName::HealthyPopulatingRegion => 4,
            ClusterDataStateName::HealthyRepartitioning => 5,
            ClusterDataStateName::HealthyRemovingServer => 6,
            ClusterDataStateName::HealthyRebalancing => 7,
            ClusterDataStateName::Healthy => 8,
            ClusterDataStateName::HealthyPerpetualWiggle => 9,
            ClusterDataStateName::Unknown => 10,
        }
    }

    /// Reads a phase from its name in the status document.
    pub fn from_name(text: &str) -> (name: ClusterDataStateName)
        ensures
            name == Self::named(text@),
    {
        if text_eq(text, "initializing") {
            ClusterDataStateName::Initializing
        } else if text_eq(text, "missing_data") {
            ClusterDataStateName::MissingData
        } else if text_eq(text, "healing") {
            ClusterDataStateName::Healing
        } else if text_eq(text, "optimizing_team_collections") {
            ClusterDataStateName::OptimizingTeamCollections
        } else if text_eq(text, "healthy_populating_region") {
            ClusterDataStateName::HealthyPopulatingRegion
        } else if text_eq(text, "healthy_repartitioning") {
            ClusterDataStateName::HealthyRepartitioning
        } else if text_eq(text, "healthy_removing_server") {
            ClusterDataStateName::HealthyRemovingServer
        } else if text_eq(text, "healthy_rebalancing") {
            ClusterDataStateName::HealthyRebalancing
        } else if text_eq(text, "healthy") {
            ClusterDataStateName::Healthy
        } else if text_eq(text, "healthy_perpetual_wiggle") {
            ClusterDataStateName::HealthyPerpetualWiggle
        } else {
            ClusterDataStateName::Unknown
        }
    }

    /// The number under which the phase is published.
    #[verifier::when_used_as_spec(spec_ordinal)]
    pub fn ordinal(self) -> (n: i64)
        ensures
            n == self.spec_ordinal(),
    {
        match self {
            ClusterDataStateName::Initializing => 0,
            ClusterDataStateName::MissingData => 1,
            ClusterDataStateName::Healing => 2,
            ClusterDataStateName::OptimizingTeamCollections => 3,
            ClusterDataStateName::HealthyPopulatingRegion => 4,
            ClusterDataStateName::HealthyRepartitioning => 5,
            ClusterDataStateName::HealthyRemovingServer => 6,
            ClusterDataStateName::HealthyRebalancing => 7,
            ClusterDataStateName::Healthy => 8,
            ClusterDataStateName::HealthyPerpetualWiggle => 9,
            ClusterDataStateName::Unknown => 10,
        }
    }
}

impl Default for ClusterDataStateName {
    fn default() -> (name: ClusterDataStateName)
        ensures
            name == ClusterDataStateName::Unknown,
    {
        ClusterDataStateName::Unknown
    }
}

impl Default for ClusterDataState {
    fn default() -> (state: ClusterDataState)
        ensures
            state.healthy is None,
            state.description is None,
            state.min_replicas_remaining is None,
            state.name == ClusterDataStateName::Unknown,
    {
        ClusterDataState {
            healthy: None,
            description: None,
            min_replicas_remaining: None,
            name: ClusterDataStateName::Unknown,
        }
    }
}

impl Default for ClusterData {
    fn default() -> (data: ClusterData)
        ensures
            data.average_partition_size_bytes is None,
            data.least_operating_space_bytes_log_server is None,
            data.least_operating_space_bytes_storage_server is None,
            data.moving_data is None,
            data.partitions_count is None,
            data.total_disk_used_bytes is None,
            data.total_kv_size_bytes is None,
            data.state is None,
    {
        ClusterData {
            average_partition_size_bytes: None,
            least_operating_space_bytes_log_server: None,
            least_operating_space_bytes_storage_server: None,
            moving_data: None,
            partitions_count: None,
            total_disk_used_bytes: None,
            total_kv_size_bytes: None,
            state: None,
        }
    }
}

impl ClusterDataMoving {
    /// What a JSON value decodes to as a `moving_data` subtree: it must be an
    /// object; a field that it lacks is absent, and each field that it has
    /// must be an integer.
    pub open spec fn decoded(j: Json) -> Result<ClusterDataMoving, DecodeErrorView> {
        let highest_priority = j.optional_i64("highest_priority"@);
        let in_flight_bytes = j.optional_i64("in_flight_bytes"@);
        let in_queue_bytes = j.optional_i64("in_queue_bytes"@);
        let total_written_bytes = j.optional_i64("total_written_bytes"@);
        if !(j is Object) {
            Err(DecodeErrorView::here(DecodeFault::WrongType))
        } else if highest_priority is Err {
            Err(highest_priority->Err_0)
        } else if in_flight_bytes is Err {
            Err(in_flight_bytes->Err_0)
        } else if in_queue_bytes is Err {
            Err(in_queue_bytes->Err_0)
        } else if total_written_bytes is Err {
            Err(total_written_bytes->Err_0)
        } else {
            Ok(
                ClusterDataMoving {
                    highest_priority: highest_priority->Ok_0,
                    in_flight_bytes: in_flight_bytes->Ok_0,
                    in_queue_bytes: in_queue_bytes->Ok_0,
                    total_written_bytes: total_written_bytes->Ok_0,
                },
            )
        }
    }

    /// Decodes a `moving_data` subtree.
    pub fn from_json(j: &Json) -> (r: Result<ClusterDataMoving, DecodeError>)
        ensures
            r matches Ok(v) ==> Self::decoded(*j) == Ok::<_, DecodeErrorView>(v),
            r matches Err(e) ==> Self::decoded(*j) == Err::<ClusterDataMoving, _>(e@),
    {
        if !j.is_object() {
            return Err(DecodeError::here(DecodeFault::WrongType));
        }
        let highest_priority = j.get_optional_i64("highest_priority")?;
        let in_flight_bytes = j.get_optional_i64("in_flight_bytes")?;
        let in_queue_bytes = j.get_optional_i64("in_queue_bytes")?;
        let total_written_bytes = j.get_optional_i64("total_written_bytes")?;
        Ok(ClusterDataMoving { highest_priority, in_flight_bytes, in_queue_bytes, total_written_bytes })
    }
}

impl ClusterDataState {
    /// The phase of a `state` subtree: `Unknown` without a name, else the
    /// phase that the name stands for; a name must be a text.
    pub open spec fn decoded_name(j: Json) -> Result<ClusterDataStateName, DecodeErrorView> {
        match j.member("name"@) {
            None => Ok(ClusterDataStateName::Unknown),
            Some(Json::Text(s)) => Ok(ClusterDataStateName::named(s@)),
            Some(_) => Err(DecodeErrorView::here(DecodeFault::WrongType).under("name"@)),
        }
    }

    /// What a JSON value decodes to as a `state` subtree: it must be an
    /// object, and each field that it has must be of the field's type.
    pub open spec fn decoded(j: Json) -> Result<ClusterDataState, DecodeErrorView> {
        let healthy = j.optional_bool("healthy"@);
        let description = j.optional_text("description"@);
        let min_replicas_remaining = j.optional_i64("min_replicas_remaining"@);
        let name = Self::decoded_name(j);
        if !(j is Object) {
            Err(DecodeErrorView::here(DecodeFault::WrongType))
        } else if healthy is Err {
            Err(healthy->Err_0)
        } else if description is Err {
            Err(description->Err_0)
        } else if min_replicas_remaining is Err {
            Err(min_replicas_remaining->Err_0)
        } else if name is Err {
            Err(name->Err_0)
        } else {
            Ok(
                ClusterDataState {
                    healthy: healthy->Ok_0,
                    description: description->Ok_0,
                    min_replicas_remaining: min_replicas_remaining->Ok_0,
                    name: name->Ok_0,
                },
            )
        }
    }

    /// Decodes a `state` subtree.
    pub fn from_json(j: &Json) -> (r: Result<ClusterDataState, DecodeError>)
        ensures
            r matches Ok(v) ==> Self::decoded(*j) == Ok::<_, DecodeErrorView>(v),
            r matches Err(e) ==> Self::decoded(*j) == Err::<ClusterDataState, _>(e@),
    {
        if !j.is_object() {
            return Err(DecodeError::here(DecodeFault::WrongType));
        }
        let healthy = j.get_optional_bool("healthy")?;
        let description = j.get_optional_text("description")?;
        let min_replicas_remaining = j.get_optional_i64("min_replicas_remaining")?;
        let name = match j.get("name") {
            None => ClusterDataStateName::Unknown,
            Some(Json::Text(s)) => ClusterDataStateName::from_name(s.as_str()),
            Some(_) => {
                return Err(DecodeError::here(DecodeFault::WrongType).under("name"));
            },
        };
        Ok(ClusterDataState { healthy, description, min_replicas_remaining, name })
    }
}

impl ClusterData {
    /// The `moving_data` subtree of a `data` subtree, where it has one.
    pub open spec fn decoded_moving(j: Json) -> Result<Option<ClusterDataMoving>, DecodeErrorView> {
        match j.optional("moving_data"@) {
            None => Ok(None),
            Some(m) => match ClusterDataMoving::decoded(m) {
                Ok(v) => Ok(Some(v)),
                Err(e) => Err(e.under("moving_data"@)),
            },
        }
    }

    /// The `state` subtree of a `data` subtree, where it has one.
    pub open spec fn decoded_state(j: Json) -> Result<Option<ClusterDataState>, DecodeErrorView> {
        match j.optional("state"@) {
            None => Ok(None),
            Some(m) => match ClusterDataState::decoded(m) {
                Ok(v) => Ok(Some(v)),
                Err(e) => Err(e.under("state"@)),
            },
        }
    }

    /// What a JSON value decodes to as a `data` subtree: it must be an
    /// object; a field that it lacks is absent, and each field that it has
    /// must be of the field's type. The first field at fault, in the order
    /// of the fields, is the one reported.
    pub open spec fn decoded(j: Json) -> Result<ClusterData, DecodeErrorView> {
        let average_partition_size_bytes = j.optional_i64("average_partition_size_bytes"@);
        let log_server = j.optional_i64("least_operating_space_bytes_log_server"@);
        let storage_server = j.optional_i64("least_operating_space_bytes_storage_server"@);
        let moving_data = Self::decoded_moving(j);
        let partitions_count = j.optional_i64("partitions_count"@);
        let total_disk_used_bytes = j.optional_i64("total_disk_used_bytes"@);
        let total_kv_size_bytes = j.optional_i64("total_kv_size_bytes"@);
        let state = Self::decoded_state(j);
        if !(j is Object) {
            Err(DecodeErrorView::here(DecodeFault::WrongType))
        } else if average_partition_size_bytes is Err {
            Err(average_partition_size_bytes->Err_0)
        } else if log_server is Err {
            Err(log_server->Err_0)
        } else if storage_server is Err {
            Err(storage_server->Err_0)
        } else if moving_data is Err {
            Err(moving_data->Err_0)
        } else if partitions_count is Err {
            Err(partitions_count->Err_0)
        } else if total_disk_used_bytes is Err {
            Err(total_disk_used_bytes->Err_0)
        } else if total_kv_size_bytes is Err {
            Err(total_kv_size_bytes->Err_0)
        } else if state is Err {
            Err(state->Err_0)
        } else {
            Ok(
                ClusterData {
                    average_partition_size_bytes: average_partition_size_bytes->Ok_0,
                    least_operating_space_bytes_log_server: log_server->Ok_0,
                    least_operating_space_bytes_storage_server: storage_server->Ok_0,
                    moving_data: moving_data->Ok_0,
                    partitions_count: partitions_count->Ok_0,
                    total_disk_used_bytes: total_disk_used_bytes->Ok_0,
                    total_kv_size_bytes: total_kv_size_bytes->Ok_0,
                    state: state->Ok_0,
                },
            )
        }
    }

    /// Decodes a `data` subtree.
    pub fn from_json(j: &Json) -> (r: Result<ClusterData, DecodeError>)
        ensures
            r matches Ok(v) ==> Self::decoded(*j) == Ok::<_, DecodeErrorView>(v),
            r matches Err(e) ==> Self::decoded(*j) == Err::<ClusterData, _>(e@),
    {
        if !j.is_object() {
            return Err(DecodeError::here(DecodeFault::WrongType));
        }
        let average_partition_size_bytes = j.get_optional_i64("average_partition_size_bytes")?;
        let least_operating_space_bytes_log_server = j.get_optional_i64(
            "least_operating_space_bytes_log_server",
        )?;
        let least_operating_space_bytes_storage_server = j.get_optional_i64(
            "least_operating_space_bytes_storage_server",
        )?;
        let moving_data = match j.get_optional("moving_data") {
            None => None,
            Some(m) => match ClusterDataMoving::from_json(m) {
                Ok(v) => Some(v),
                Err(e) => {
                    return Err(e.under("moving_data"));
                },
            },
        };
        let partitions_count = j.get_optional_i64("partitions_count")?;
        let total_disk_used_bytes = j.get_optional_i64("total_disk_used_bytes")?;
        let total_kv_size_bytes = j.get_optional_i64("total_kv_size_bytes")?;
        let state = match j.get_optional("state") {
            None => None,
            Some(m) => match ClusterDataState::from_json(m) {
                Ok(v) => Some(v),
                Err(e) => {
                    return Err(e.under("state"));
                },
            },
        };
        Ok(
            ClusterData {
                average_partition_size_bytes,
                least_operating_space_bytes_log_server,
                least_operating_space_bytes_storage_server,
                moving_data,
                partitions_count,
                total_disk_used_bytes,
                total_kv_size_bytes,
                state,
            },
        )
    }
}

/// A name that is a text never fails a `state` subtree: a name that is
/// none of the known ones gives the phase `Unknown`.
pub proof fn unrecognized_name_is_unknown(j: Json, name: String)
    requires
        j.member("name"@) == Some(Json::Text(name)),
    ensures
        ClusterDataState::decoded_name(j) == Ok::<_, DecodeErrorView>(
            ClusterDataStateName::named(name@),
        ),
        name@ != "initializing"@ && name@ != "missing_data"@ && name@ != "healing"@ && name@
            != "optimizing_team_collections"@ && name@ != "healthy_populating_region"@ && name@
            != "healthy_repartitioning"@ && name@ != "healthy_removing_server"@ && name@
            != "healthy_rebalancing"@ && name@ != "healthy"@ && name@
            != "healthy_perpetual_wiggle"@ ==> ClusterDataState::decoded_name(j) == Ok::<
            _,
            DecodeErrorView,
        >(ClusterDataStateName::Unknown),
{
}

/// Whether one object is another without one of its keys.
pub open spec fn is_without(less: Json, whole: Json, key: Seq<char>) -> bool {
    &&& less is Object
    &&& whole is Object
    &&& less.member(key) is None
    &&& forall|other: Seq<char>| other != key ==> less.member(other) == whole.member(other)
}

/// A `data` subtree that decodes still decodes without its `moving_data`:
/// to the same fields, but with moving data absent.
pub proof fn decodes_without_moving_data(less: Json, whole: Json)
    requires
        is_without(less, whole, "moving_data"@),
        ClusterData::decoded(whole) is Ok,
    ensures
        ClusterData::decoded(less) == Ok::<_, DecodeErrorView>(
            ClusterData { moving_data: None, ..ClusterData::decoded(whole)->Ok_0 },
        ),
{
    reveal_strlit("moving_data");
    reveal_strlit("average_partition_size_bytes");
    reveal_strlit("least_operating_space_bytes_log_server");
    reveal_strlit("least_operating_space_bytes_storage_server");
    reveal_strlit("partitions_count");
    reveal_strlit("total_disk_used_bytes");
    reveal_strlit("total_kv_size_bytes");
    reveal_strlit("state");
    assert("moving_data"@.len() == 11);
    assert("partitions_count"@.len() == 16);
    assert("total_disk_used_bytes"@.len() == 21);
    assert("total_kv_size_bytes"@.len() == 19);
    assert("state"@.len() == 5);
}

/// A `data` subtree that decodes still decodes without its `state`: to the
/// same fields, but with the state absent.
pub proof fn decodes_without_state(less: Json, whole: Json)
    requires
        is_without(less, whole, "state"@),
        ClusterData::decoded(whole) is Ok,
    ensures
        ClusterData::decoded(less) == Ok::<_, DecodeErrorView>(
            ClusterData { state: None, ..ClusterData::decoded(whole)->Ok_0 },
        ),
{
    reveal_strlit("moving_data");
    reveal_strlit("average_partition_size_bytes");
    reveal_strlit("least_operating_space_bytes_log_server");
    reveal_strlit("least_operating_space_bytes_storage_server");
    reveal_strlit("partitions_count");
    reveal_strlit("total_disk_used_bytes");
    reveal_strlit("total_kv_size_bytes");
    reveal_strlit("state");
    assert("moving_data"@.len() == 11);
    assert("partitions_count"@.len() == 16);
    assert("total_disk_used_bytes"@.len() == 21);
    assert("total_kv_size_bytes"@.len() == 19);
    assert("state"@.len() == 5);
}

} // verus!
