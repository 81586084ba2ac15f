//! Replica count resolution.
//!
//! A caller may ask for one shared replica count, or for independent
//! metadata and data counts, or for neither; any other combination has no
//! meaning.  A resolved count may not exceed the number of target devices.

use vstd::prelude::*;

verus! {

use crate::{BchError, ConfigIssue};

/// Resolve the metadata and data replica counts from the three optional
/// inputs, against the number of target devices.
///
/// Exactly one of these holds:
/// - only the shared count is given: both resolved counts equal it;
/// - both the metadata and the data count are given (and the shared count
///   is not): they are used independently;
/// - none is given: both default to 1;
/// - any other combination is rejected.
///
/// A given count larger than the device count is rejected.
pub fn resolve_replicas(
    replicas: Option<u64>,
    metadata_replicas: Option<u64>,
    data_replicas: Option<u64>,
    nr_devices: u64,
) -> (r: Result<(u64, u64), BchError>)
    ensures
        ({
            match (replicas, metadata_replicas, data_replicas) {
                (Option::None, Option::Some(m), Option::Some(d)) => if m > nr_devices {
                    r == Err::<(u64, u64), BchError>(
                        BchError::Config(
                            ConfigIssue::ReplicasExceedDevices {
                                requested: m,
                                devices: nr_devices,
                            },
                        ),
                    )
                } else if d > nr_devices {
                    r == Err::<(u64, u64), BchError>(
                        BchError::Config(
                            ConfigIssue::ReplicasExceedDevices {
                                requested: d,
                                devices: nr_devices,
                            },
                        ),
                    )
                } else {
                    r == Ok::<(u64, u64), BchError>((m, d))
                },
                (Option::Some(n), Option::None, Option::None) => if n > nr_devices {
                    r == Err::<(u64, u64), BchError>(
                        BchError::Config(
                            ConfigIssue::ReplicasExceedDevices {
                                requested: n,
                                devices: nr_devices,
                            },
                        ),
                    )
                } else {
                    r == Ok::<(u64, u64), BchError>((n, n))
                },
                (Option::None, Option::None, Option::None) => r == Ok::<(u64, u64), BchError>(
                    (1, 1),
                ),
                _ => r == Err::<(u64, u64), BchError>(
                    BchError::Config(ConfigIssue::InvalidReplicas),
                ),
            }
        }),
{
    match (replicas, metadata_replicas, data_replicas) {
        (Option::None, Option::Some(m), Option::Some(d)) => {
            if m > nr_devices {
                Err(
                    BchError::Config(
                        ConfigIssue::ReplicasExceedDevices { requested: m, devices: nr_devices },
                    ),
                )
            } else if d > nr_devices {
                Err(
                    BchError::Config(
                        ConfigIssue::ReplicasExceedDevices { requested: d, devices: nr_devices },
                    ),
                )
            } else {
                Ok((m, d))
            }
        },
        (Option::Some(n), Option::None, Option::None) => {
            if n > nr_devices {
                Err(
                    BchError::Config(
                        ConfigIssue::ReplicasExceedDevices { requested: n, devices: nr_devices },
                    ),
                )
            } else {
                Ok((n, n))
            }
        },
        (Option::None, Option::None, Option::None) => Ok((1, 1)),
        _ => Err(BchError::Config(ConfigIssue::InvalidReplicas)),
    }
}

} // verus!
