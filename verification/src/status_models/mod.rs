//! The status document of a cluster: a tree in which every node below the
//! root may be absent.

use vstd::prelude::*;

pub mod address;
pub mod cluster_data;
pub mod json;
pub mod network_address;
pub mod round_trip;

use cluster_data::{is_without, ClusterData};
use json::{document_of, DecodeError, DecodeErrorView, DecodeFault, Json};

verus! {

/// jq: .cluster
pub struct Cluster {
    pub data: Option<ClusterData>,
}

/// The root of the status document.
pub struct Status {
    pub cluster: Option<Cluster>,
}

impl Cluster {
    /// The `data` subtree of a `cluster` subtree, where it has one.
    pub open spec fn decoded_data(j: Json) -> Result<Option<ClusterData>, DecodeErrorView> {
        match j.optional("data"@) {
            None => Ok(None),
            Some(m) => match ClusterData::decoded(m) {
                Ok(v) => Ok(Some(v)),
                Err(e) => Err(e.under("data"@)),
            },
        }
    }

    /// What a JSON value decodes to as a `cluster` subtree.
    pub open spec fn decoded(j: Json) -> Result<Cluster, DecodeErrorView> {
        if !(j is Object) {
            Err(DecodeErrorView::here(DecodeFault::WrongType))
        } else {
            match Self::decoded_data(j) {
                Ok(data) => Ok(Cluster { data }),
                Err(e) => Err(e),
            }
        }
    }

    /// Decodes a `cluster` subtree.
    pub fn from_json(j: &Json) -> (r: Result<Cluster, DecodeError>)
        ensures
            r matches Ok(v) ==> Self::decoded(*j) == Ok::<_, DecodeErrorView>(v),
            r matches Err(e) ==> Self::decoded(*j) == Err::<Cluster, _>(e@),
    {
        if !j.is_object() {
            return Err(DecodeError::here(DecodeFault::WrongType));
        }
        let data = match j.get_optional("data") {
            None => None,
            Some(m) => match ClusterData::from_json(m) {
                Ok(v) => Some(v),
                Err(e) => {
                    return Err(e.under("data"));
                },
            },
        };
        Ok(Cluster { data })
    }
}

impl Status {
    /// The `cluster` subtree of a status document, where it has one.
    pub open spec fn decoded_cluster(j: Json) -> Result<Option<Cluster>, DecodeErrorView> {
        match j.optional("cluster"@) {
            None => Ok(None),
            Some(m) => match Cluster::decoded(m) {
                Ok(v) => Ok(Some(v)),
                Err(e) => Err(e.under("cluster"@)),
            },
        }
    }

    /// What a JSON value decodes to as a status document: it must be an
    /// object; every subtree that it lacks is absent, and a value of the
    /// wrong type anywhere in a subtree that it has fails the whole document,
    /// with the path to that value.
    pub open spec fn decoded(j: Json) -> Result<Status, DecodeErrorView> {
        if !(j is Object) {
            Err(DecodeErrorView::here(DecodeFault::WrongType))
        } else {
            match Self::decoded_cluster(j) {
                Ok(cluster) => Ok(Status { cluster }),
                Err(e) => Err(e),
            }
        }
    }

    /// What a text decodes to as a status document: a text that is not JSON
    /// is a syntax fault at the root.
    pub open spec fn decoded_document(document: Option<Json>) -> Result<Status, DecodeErrorView> {
        match document {
            Some(j) => Self::decoded(j),
            None => Err(DecodeErrorView::here(DecodeFault::Syntax)),
        }
    }

    /// Decodes a status document from its tree.
    pub fn from_json(j: &Json) -> (r: Result<Status, DecodeError>)
        ensures
            r matches Ok(v) ==> Self::decoded(*j) == Ok::<_, DecodeErrorView>(v),
            r matches Err(e) ==> Self::decoded(*j) == Err::<Status, _>(e@),
    {
        if !j.is_object() {
            return Err(DecodeError::here(DecodeFault::WrongType));
        }
        let cluster = match j.get_optional("cluster") {
            None => None,
            Some(m) => match Cluster::from_json(m) {
                Ok(v) => Some(v),
                Err(e) => {
                    return Err(e.under("cluster"));
                },
            },
        };
        Ok(Status { cluster })
    }

    /// Decodes the text of a status document.
    pub fn decode(bytes: &[u8]) -> (r: Result<Status, DecodeError>)
        ensures
            r matches Ok(v) ==> Self::decoded_document(document_of(bytes@)) == Ok::<
                _,
                DecodeErrorView,
            >(v),
            r matches Err(e) ==> Self::decoded_document(document_of(bytes@)) == Err::<Status, _>(
                e@,
            ),
    {
        match Json::parse(bytes) {
            Some(j) => Status::from_json(&j),
            None => Err(DecodeError::here(DecodeFault::Syntax)),
        }
    }
}

/// A `cluster` subtree that decodes still decodes without its `data`, to a
/// cluster without data.
pub proof fn decodes_without_data(less: Json, whole: Json)
    requires
        is_without(less, whole, "data"@),
        Cluster::decoded(whole) is Ok,
    ensures
        Cluster::decoded(less) == Ok::<_, DecodeErrorView>(Cluster { data: None }),
{
}

/// A status document that decodes still decodes without its `cluster`, to a
/// status without a cluster. So does every object without that key.
pub proof fn decodes_without_cluster(less: Json)
    requires
        less is Object,
        less.member("cluster"@) is None,
    ensures
        Status::decoded(less) == Ok::<_, DecodeErrorView>(Status { cluster: None }),
{
}

} // verus!
