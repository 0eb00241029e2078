//! The requests of the service: what is asked of it, what admits an add, and
//! how a reload is judged.

use crate::config_load::AppState;
use crate::engine::{
    diagnose, failure_of, Action, ActionView, CommandOutcome, Mutation, MutationError,
    MutationErrorView, MutationView, Request, RequestView,
};
use crate::policy::{allocation, compute};
use crate::utils::{admits, is_valid_ip_with_port, resolution_view, IpFamily, Resolution};
use vstd::prelude::*;

verus! {

/// A request to add a server: its address as `host:port` and the capacity,
/// in MB, that it declares.
#[derive(Debug, PartialEq, Eq)]
pub struct AddServerInfo {
    pub ip: String,
    pub capacity: u64,
}

/// A request to remove a server, by its address.
#[derive(Debug, PartialEq, Eq)]
pub struct RemoveServerInfo {
    pub ip: String,
}

/// A reload that failed, with what the reload command said.
#[derive(Debug, PartialEq, Eq)]
pub struct ReloadError {
    pub diagnostic: String,
}

/// Judges one run of the reload command: the reload failed when the command
/// exited with a status other than zero or could not be started, and the
/// error then carries its diagnostic.
pub fn soft_reload_nginx(outcome: CommandOutcome) -> (reloaded: Result<(), ReloadError>)
    ensures
        match reloaded {
            Ok(_) => failure_of(outcome@) is None,
            Err(error) => failure_of(outcome@) == Some(error.diagnostic@),
        },
{
    match diagnose(outcome) {
        None => Ok(()),
        Some(diagnostic) => Err(ReloadError { diagnostic }),
    }
}

/// What an add request is admitted as. The address must have resolved to an
/// IPv4 socket address, and the capacity must exceed the baseline; the
/// address is judged first.
pub open spec fn admission(
    address: Seq<char>,
    capacity: u64,
    resolution: Option<Seq<IpFamily>>,
    baseline: u64,
    allotment: u64,
) -> Result<RequestView, MutationErrorView> {
    if !admits(resolution) {
        Err(MutationErrorView::ValidationError)
    } else {
        match allocation(capacity, baseline, allotment) {
            Err(_) => Err(MutationErrorView::PolicyError),
            Ok(granted) => Ok(
                RequestView::Add {
                    address,
                    weight: granted.weight,
                    max_connections: granted.max_connections,
                },
            ),
        }
    }
}

/// Admits a request to add a server and opens its mutation. `resolution` is
/// what resolving the address of the request gave. A request that is turned
/// down asks for no outside work at all.
pub fn add_server(server: AddServerInfo, resolution: &Resolution, config: &AppState) -> (begun:
    Result<(Mutation, Action), MutationError>)
    requires
        config.wf(),
    ensures
        match begun {
            Ok((state, action)) => {
                &&& admission(
                    server.ip@,
                    server.capacity,
                    resolution_view(*resolution),
                    config.enclave_image_initial_used_capacity_mb,
                    config.allotment_per_workerd_mb,
                ) matches Ok(request)
                &&& state@ == MutationView::Idle(request)
                &&& action@ == ActionView::AcquireLock
            },
            Err(error) => admission(
                server.ip@,
                server.capacity,
                resolution_view(*resolution),
                config.enclave_image_initial_used_capacity_mb,
                config.allotment_per_workerd_mb,
            ) == Err::<RequestView, MutationErrorView>(error@),
        },
{
    if !is_valid_ip_with_port(resolution) {
        return Err(MutationError::ValidationError);
    }
    match compute(
        server.capacity,
        config.enclave_image_initial_used_capacity_mb,
        config.allotment_per_workerd_mb,
    ) {
        Err(_) => Err(MutationError::PolicyError),
        Ok(granted) => Ok(
            Mutation::start(
                Request::Add {
                    address: server.ip,
                    weight: granted.weight,
                    max_connections: granted.max_connections,
                },
            ),
        ),
    }
}

/// Opens the mutation that removes a server. The address is taken as it is:
/// removal matches text, so an address that never resolved can be removed.
pub fn remove_server(ip: String) -> (begun: (Mutation, Action))
    ensures
        begun.0@ == MutationView::Idle(RequestView::Remove { address: ip@ }),
        begun.1@ == ActionView::AcquireLock,
{
    Mutation::start(Request::Remove { address: ip })
}

} // verus!
