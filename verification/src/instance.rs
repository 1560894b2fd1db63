//! Endpoint resolution for compute instances.
//!
//! The caller describes an instance at the provider and hands the result in
//! as plain values: a list of reservations, each holding a list of instance
//! records. Resolution reads the first instance of the first reservation and
//! succeeds only when that instance carries a non-empty public address —
//! a stopped instance has none, and every session step depends on this
//! resolution succeeding first.

use vstd::prelude::*;

verus! {

/// One instance record out of a describe call, reduced to the plain values
/// the tool reads: identifier, optional name tag, lifecycle state, and the
/// public address that is present only while the instance runs.
pub struct InstanceInfo {
    pub instance_id: String,
    pub name_tag: Option<String>,
    pub state: String,
    pub public_dns: Option<String>,
}

/// One reservation out of a describe call: a group of instance records.
pub struct Reservation {
    pub instances: Vec<InstanceInfo>,
}

/// The endpoint a describe result resolves to: the public address of the
/// first instance of the first reservation, provided it is present and
/// non-empty; `None` otherwise.
pub open spec fn resolved_endpoint(reservations: Seq<Reservation>) -> Option<Seq<char>> {
    if reservations.len() == 0 {
        None
    } else if reservations[0].instances@.len() == 0 {
        None
    } else {
        match reservations[0].instances@[0].public_dns {
            Some(d) => if d@.len() == 0 {
                None
            } else {
                Some(d@)
            },
            None => None,
        }
    }
}

/// Resolves the reachable public endpoint out of a describe result.
/// Fails exactly when the result holds no reservation, no instance, or no
/// assigned public address — as it does for a stopped instance.
pub fn resolve_endpoint(reservations: &Vec<Reservation>) -> (r: Option<String>)
    ensures
        r is Some <==> resolved_endpoint(reservations@) is Some,
        r matches Some(e) ==> resolved_endpoint(reservations@) == Some(e@),
{
    if reservations.len() == 0 {
        return None;
    }
    let first = &reservations[0];
    if first.instances.len() == 0 {
        return None;
    }
    match &first.instances[0].public_dns {
        Some(d) => {
            if d.as_str().is_empty() {
                None
            } else {
                Some(d.clone())
            }
        },
        None => None,
    }
}

} // verus!
