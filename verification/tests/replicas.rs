use libbcachefs::replicas::resolve_replicas;
use libbcachefs::{BchError, ConfigIssue};

#[test]
fn independent_counts() {
    assert_eq!(resolve_replicas(None, Some(2), Some(3), 3), Ok((2, 3)));
}

#[test]
fn shared_count() {
    assert_eq!(resolve_replicas(Some(2), None, None, 2), Ok((2, 2)));
}

#[test]
fn default_counts() {
    assert_eq!(resolve_replicas(None, None, None, 1), Ok((1, 1)));
    assert_eq!(resolve_replicas(None, None, None, 3), Ok((1, 1)));
}

#[test]
fn conflicting_options() {
    assert_eq!(
        resolve_replicas(Some(1), Some(1), None, 4),
        Err(BchError::Config(ConfigIssue::InvalidReplicas))
    );
    assert_eq!(
        resolve_replicas(Some(1), None, Some(1), 4),
        Err(BchError::Config(ConfigIssue::InvalidReplicas))
    );
    assert_eq!(
        resolve_replicas(None, Some(1), None, 4),
        Err(BchError::Config(ConfigIssue::InvalidReplicas))
    );
    assert_eq!(
        resolve_replicas(None, None, Some(1), 4),
        Err(BchError::Config(ConfigIssue::InvalidReplicas))
    );
}

#[test]
fn counts_capped_by_devices() {
    assert_eq!(
        resolve_replicas(Some(3), None, None, 2),
        Err(BchError::Config(ConfigIssue::ReplicasExceedDevices { requested: 3, devices: 2 }))
    );
    assert_eq!(
        resolve_replicas(None, Some(4), Some(1), 3),
        Err(BchError::Config(ConfigIssue::ReplicasExceedDevices { requested: 4, devices: 3 }))
    );
    assert_eq!(
        resolve_replicas(None, Some(1), Some(4), 3),
        Err(BchError::Config(ConfigIssue::ReplicasExceedDevices { requested: 4, devices: 3 }))
    );
}
