//! The capacity policy: from a declared capacity to a load-balancing weight
//! and a connection limit.

use vstd::prelude::*;

verus! {

/// What the policy grants a server.
#[derive(Clone, Copy, Debug, PartialEq, Eq, Structural)]
pub struct Allocation {
    pub weight: u64,
    pub max_connections: u64,
}

/// Why the policy grants nothing.
#[derive(Clone, Copy, Debug, PartialEq, Eq, Structural)]
pub enum PolicyError {
    /// The declared capacity does not exceed the baseline.
    InsufficientCapacity,
}

/// The policy as a function of its three inputs.
pub open spec fn allocation(declared: u64, baseline: u64, allotment: u64) -> Result<
    Allocation,
    PolicyError,
> {
    if declared <= baseline {
        Err(PolicyError::InsufficientCapacity)
    } else {
        Ok(
            Allocation {
                weight: (declared - baseline) as u64,
                max_connections: ((declared - baseline) / (allotment as int)) as u64,
            },
        )
    }
}

/// Weight is the capacity above the baseline; the connection limit is the
/// weight divided by the per-worker allotment, rounded down.
pub fn compute(declared_capacity: u64, baseline_capacity: u64, allotment: u64) -> (granted: Result<
    Allocation,
    PolicyError,
>)
    requires
        allotment > 0,
    ensures
        granted == allocation(declared_capacity, baseline_capacity, allotment),
        declared_capacity <= baseline_capacity ==> granted == Err::<Allocation, PolicyError>(
            PolicyError::InsufficientCapacity,
        ),
        declared_capacity > baseline_capacity ==> granted is Ok && granted->Ok_0.weight
            == declared_capacity - baseline_capacity && granted->Ok_0.max_connections == (
        declared_capacity - baseline_capacity) / (allotment as int),
{
    if declared_capacity <= baseline_capacity {
        return Err(PolicyError::InsufficientCapacity);
    }
    let weight: u64 = declared_capacity - baseline_capacity;
    let max_connections: u64 = weight / allotment;
    Ok(Allocation { weight, max_connections })
}

} // verus!
