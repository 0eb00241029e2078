//! Admission of a server address.

use vstd::prelude::*;

verus! {

/// Address family of one socket address that a `host:port` string resolved to.
#[derive(Clone, Copy, Debug, PartialEq, Eq, Structural)]
pub enum IpFamily {
    V4,
    V6,
}

/// What resolving a `host:port` string gave: the families of the socket
/// addresses it resolved to, in the resolver's order, or `None` where the
/// string did not parse or the host did not resolve.
pub type Resolution = Option<Vec<IpFamily>>;

/// An address is admitted when its resolution holds at least one IPv4 address.
pub open spec fn admits(resolution: Option<Seq<IpFamily>>) -> bool {
    match resolution {
        Some(families) => exists|i: int| 0 <= i < families.len() && families[i] == IpFamily::V4,
        None => false,
    }
}

/// View of a resolution as a sequence of families.
pub open spec fn resolution_view(resolution: Resolution) -> Option<Seq<IpFamily>> {
    match resolution {
        Some(families) => Some(families@),
        None => None,
    }
}

/// Decides whether a resolved address may enter the pool: `true` exactly when
/// the resolution succeeded and yielded at least one IPv4 socket address.
pub fn is_valid_ip_with_port(resolution: &Resolution) -> (valid: bool)
    ensures
        valid == admits(resolution_view(*resolution)),
{
    match resolution {
        Some(families) => {
            let mut i: usize = 0;
            while i < families.len()
                invariant
                    i <= families.len(),
                    resolution_view(*resolution) == Some(families@),
                    forall|j: int| 0 <= j < i ==> families@[j] != IpFamily::V4,
                decreases families.len() - i,
            {
                if families[i] == IpFamily::V4 {
                    assert(families@[i as int] == IpFamily::V4);
                    return true;
                }
                i += 1;
            }
            false
        },
        None => false,
    }
}

} // verus!
