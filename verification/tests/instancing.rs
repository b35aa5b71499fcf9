use fuse::instancing::{create_handle, lock_outcome, InstanceError, InstanceMap, SocketTable};

const EXISTS: &str = "Handle exists! Is process already running?";

#[test]
fn new_map_has_no_names() {
    let map = InstanceMap::new();
    assert!(!map.is_mapped("fuse-test-nothing"));
    let err = map.is_active("fuse-test-nothing").unwrap_err();
    assert_eq!(err.message(), "Instance is not mapped.");
}

#[test]
fn try_new_maps_one_active_name() {
    let map = InstanceMap::try_new("fuse-test-try-new-7f3a").unwrap();
    assert!(map.is_mapped("fuse-test-try-new-7f3a"));
    assert!(!map.is_mapped("fuse-test-try-new-other"));
    assert_eq!(map.is_active("fuse-test-try-new-7f3a").unwrap(), true);
}

#[test]
fn second_lock_on_a_held_name_is_refused() {
    let _first = InstanceMap::try_new("fuse-test-held-91c2").unwrap();
    let second = InstanceMap::try_new("fuse-test-held-91c2");
    assert_eq!(second.err().unwrap().message(), EXISTS);
    let mut other = InstanceMap::new();
    let pushed = other.try_push("fuse-test-held-91c2").map(|_| ());
    assert_eq!(pushed.unwrap_err().message(), EXISTS);
    assert!(!other.is_mapped("fuse-test-held-91c2"));
}

#[test]
fn try_push_twice_is_refused() {
    let mut map = InstanceMap::new();
    map.try_push("fuse-test-twice-a1").unwrap();
    let again = map.try_push("fuse-test-twice-a1").map(|_| ());
    assert_eq!(again.unwrap_err().message(), "Instance exists!");
    assert_eq!(map.is_active("fuse-test-twice-a1").unwrap(), true);
}

#[test]
fn try_push_chains() {
    let mut map = InstanceMap::new();
    map.try_push("fuse-test-chain-b1")
        .unwrap()
        .try_push("fuse-test-chain-b2")
        .unwrap();
    assert!(map.is_mapped("fuse-test-chain-b1"));
    assert!(map.is_mapped("fuse-test-chain-b2"));
}

#[test]
fn release_then_restart_cycle() {
    let name = "fuse-test-cycle-c4d0";
    let mut map = InstanceMap::try_new(name).unwrap();
    map.release_instance(name).unwrap();
    assert!(map.is_mapped(name));
    assert_eq!(map.is_active(name).unwrap(), false);
    let again = map.release_instance(name).map(|_| ());
    assert_eq!(again.unwrap_err().message(), "Instance doesn't exist!");
    map.restart_instance(name).unwrap();
    assert_eq!(map.is_active(name).unwrap(), true);
    let twice = map.restart_instance(name).map(|_| ());
    assert_eq!(twice.unwrap_err().message(), "Could not reinstate instance mutex!");
}

#[test]
fn released_lock_can_be_taken_elsewhere() {
    let name = "fuse-test-handover-e5";
    let mut first = InstanceMap::try_new(name).unwrap();
    first.release_instance(name).unwrap();
    let second = InstanceMap::try_new(name).unwrap();
    assert_eq!(second.is_active(name).unwrap(), true);
    let back = first.restart_instance(name).map(|_| ());
    assert_eq!(back.unwrap_err().message(), EXISTS);
    assert_eq!(first.is_active(name).unwrap(), false);
}

#[test]
fn unmapped_names_cannot_be_released_or_restarted() {
    let mut map = InstanceMap::new();
    let r = map.release_instance("fuse-test-absent").map(|_| ());
    assert_eq!(r.unwrap_err().message(), "Instance doesn't exist!");
    let r = map.restart_instance("fuse-test-absent").map(|_| ());
    assert_eq!(r.unwrap_err().message(), "Could not reinstate instance mutex!");
}

#[test]
fn push_handle_takes_the_outcome() {
    let mut map = InstanceMap::new();
    map.push_handle("fuse-test-outcome-ok", Ok(3)).unwrap();
    assert_eq!(map.is_active("fuse-test-outcome-ok").unwrap(), true);
    let err = map
        .push_handle("fuse-test-outcome-err", Err(InstanceError::new("boom".to_string())))
        .unwrap_err();
    assert_eq!(err.message(), "boom");
    assert!(!map.is_mapped("fuse-test-outcome-err"));
}

#[test]
fn reinstate_takes_the_outcome() {
    let name = "fuse-test-reinstate-f6";
    let mut map = InstanceMap::try_new(name).unwrap();
    map.release_instance(name).unwrap();
    let err = map.reinstate(name, Err(InstanceError::new("nope".to_string()))).unwrap_err();
    assert_eq!(err.message(), "nope");
    assert_eq!(map.is_active(name).unwrap(), false);
    map.reinstate(name, Ok(9)).unwrap();
    assert_eq!(map.is_active(name).unwrap(), true);
}

#[test]
fn longest_lockable_name_gets_a_lock() {
    let name = format!("fuse-test-{}", "n".repeat(97));
    assert_eq!(name.len(), 107);
    let mut sockets = SocketTable::new();
    let fd = create_handle(&mut sockets, &name).unwrap();
    assert!(fd >= 0);
    let again = create_handle(&mut sockets, &name).unwrap_err();
    assert_eq!(again.message(), EXISTS);
}

#[test]
fn error_is_described_with_prefix() {
    let e = InstanceError::new("Instance exists!".to_string());
    assert_eq!(e.describe(), "INSTANCING: Instance exists!");
    assert_eq!(e.message(), "Instance exists!");
}

#[test]
fn lock_outcome_names_each_failure() {
    let e = lock_outcome(Err(24), Ok(())).unwrap_err();
    assert_eq!(e.message(), "Windows handle invalid!");
    let e = lock_outcome(Err(24), Err(98)).unwrap_err();
    assert_eq!(e.message(), "Windows handle invalid!");
    let e = lock_outcome(Ok(5), Err(98)).unwrap_err();
    assert_eq!(e.message(), EXISTS);
    assert_eq!(lock_outcome(Ok(5), Ok(())).unwrap(), 5);
}

#[test]
fn only_pushes_add_names() {
    let name = "fuse-test-names-d7";
    let mut map = InstanceMap::new();
    map.try_push(name).unwrap();
    map.release_instance(name).unwrap();
    assert!(map.is_mapped(name));
    map.restart_instance(name).unwrap();
    assert!(map.is_mapped(name));
    assert!(map.release_instance("fuse-test-names-other").is_err());
    assert!(map.restart_instance("fuse-test-names-other").is_err());
    assert!(!map.is_mapped("fuse-test-names-other"));
}
