//! Circuit building over one established channel. The channel itself,
//! the cell sending and the logging are outside work; this module holds
//! the choice of the endpoint the circuit dials and the timeout the
//! channel race runs under.

use vstd::prelude::*;

use crate::ds_load::DSInfo;
use crate::ds_load::HostInfo;
use crate::error::Error;
use crate::error::ErrorKind;

verus! {

/// A circuit over one established channel.
pub struct Circuit {}

/// The position in the snapshot of the endpoint the circuit dials.
pub const CIRCUIT_HOST_INDEX: usize = 5;

/// The timeout the channel race runs under, in milliseconds.
pub const CHANNEL_CONNECT_TIMEOUT_MS: u64 = 5000000000;

/// The endpoint `build_circuit` dials: the snapshot's host at
/// `CIRCUIT_HOST_INDEX`. A snapshot with too few hosts is refused
/// instead of read out of bounds.
pub fn select_circuit_host(dsinfo: &DSInfo) -> (r: Result<HostInfo, Error>)
    ensures
        r is Ok <==> dsinfo@.hosts.len() > CIRCUIT_HOST_INDEX,
        r matches Ok(h) ==> h@ == dsinfo@.hosts[CIRCUIT_HOST_INDEX as int],
        r matches Err(e) ==> (e.kind matches ErrorKind::RequestError(m) && m@
            == "not enough hosts in directory snapshot"@),
{
    if dsinfo.hosts.len() > CIRCUIT_HOST_INDEX {
        let h = dsinfo.hosts[CIRCUIT_HOST_INDEX].clone();
        proof {
            assert(dsinfo@.hosts[CIRCUIT_HOST_INDEX as int] == dsinfo.hosts@[
                CIRCUIT_HOST_INDEX as int
            ]@);
        }
        Ok(h)
    } else {
        Err(
            Error {
                kind: ErrorKind::RequestError(
                    "not enough hosts in directory snapshot".to_owned(),
                ),
            },
        )
    }
}

} // verus!
