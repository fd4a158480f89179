use helix_core::conflict_resolution::{resolve_conflict, ConflictResolution, SyncEntity};
use helix_core::vector_clock::VectorClock;

fn now_micros() -> i64 {
    chrono::Utc::now().timestamp_micros()
}

fn create_entity(id: u128, vector_clock: VectorClock, device_id: &str) -> SyncEntity {
    SyncEntity {
        id,
        data: serde_json::Value::String("test data".to_string()),
        vector_clock,
        last_modified: now_micros(),
        device_id: device_id.to_string(),
    }
}

#[test]
fn test_no_conflict_remote_newer() {
    let id = uuid::Uuid::new_v4().as_u128();

    let mut local_clock = VectorClock::new();
    local_clock.increment("device1");

    let mut remote_clock = VectorClock::new();
    remote_clock.increment("device1");
    remote_clock.increment("device1");

    let local = create_entity(id, local_clock, "device1");
    let remote = create_entity(id, remote_clock, "device2");

    let resolution = resolve_conflict(local, remote);

    match resolution {
        ConflictResolution::NoConflict(entity) => {
            assert_eq!(entity.id, id);
            assert_eq!(entity.vector_clock.get("device1"), Some(2));
        }
        _ => panic!("Expected NoConflict"),
    }
}

#[test]
fn test_no_conflict_local_newer() {
    let id = uuid::Uuid::new_v4().as_u128();

    let mut local_clock = VectorClock::new();
    local_clock.increment("device1");
    local_clock.increment("device1");
    local_clock.increment("device1");

    let mut remote_clock = VectorClock::new();
    remote_clock.increment("device1");

    let local = create_entity(id, local_clock, "device1");
    let remote = create_entity(id, remote_clock, "device2");

    let resolution = resolve_conflict(local, remote);

    match resolution {
        ConflictResolution::NoConflict(entity) => {
            assert_eq!(entity.id, id);
            assert_eq!(entity.vector_clock.get("device1"), Some(3));
        }
        _ => panic!("Expected NoConflict"),
    }
}

#[test]
fn test_concurrent_modification_lww() {
    let id = uuid::Uuid::new_v4().as_u128();

    let mut local_clock = VectorClock::new();
    local_clock.increment("device1");

    let mut remote_clock = VectorClock::new();
    remote_clock.increment("device2");

    let local_time = now_micros();
    let remote_time = local_time - 10 * 1_000_000;

    let local = SyncEntity {
        id,
        data: serde_json::Value::String("test data".to_string()),
        vector_clock: local_clock,
        last_modified: local_time,
        device_id: "device1".to_string(),
    };

    let remote = SyncEntity {
        id,
        data: serde_json::Value::String("test data".to_string()),
        vector_clock: remote_clock,
        last_modified: remote_time,
        device_id: "device2".to_string(),
    };

    let resolution = resolve_conflict(local, remote);

    match resolution {
        ConflictResolution::LastWriteWins(entity) => {
            assert_eq!(entity.id, id);
            assert_eq!(entity.device_id, "device1");
        }
        _ => panic!("Expected LastWriteWins"),
    }
}

fn entity(device: &str, clock: &[(&str, u64)], at: i64) -> SyncEntity {
    let mut c = VectorClock::new();
    for (d, n) in clock {
        c.observe(d.to_string(), *n);
    }
    SyncEntity {
        id: 7,
        data: serde_json::Value::Null,
        vector_clock: c,
        last_modified: at,
        device_id: device.to_string(),
    }
}

fn winner(r: &ConflictResolution) -> (&'static str, String) {
    match r {
        ConflictResolution::NoConflict(e) => ("no_conflict", e.device_id.clone()),
        ConflictResolution::LastWriteWins(e) => ("last_write_wins", e.device_id.clone()),
        ConflictResolution::Merge(e) => ("merge", e.device_id.clone()),
        ConflictResolution::RequiresManual(_) => ("manual", String::new()),
    }
}

#[test]
fn causal_propagation_between_two_clients() {
    let t = 1_700_000_000_000_000;
    let local = entity("A", &[("A", 1)], t);
    let remote = entity("B", &[("A", 1), ("B", 1)], t + 5_000);
    let r = resolve_conflict(local, remote);
    assert_eq!(winner(&r), ("no_conflict", "B".to_string()));
}

#[test]
fn concurrent_writes_go_to_the_later_one() {
    let t = 1_700_000_000_000_000;
    let a = entity("A", &[("A", 1)], t);
    let b = entity("B", &[("B", 1)], t + 10_000);
    let r = resolve_conflict(a, b);
    assert_eq!(winner(&r), ("last_write_wins", "B".to_string()));

    let a = entity("A", &[("A", 1)], t);
    let b = entity("B", &[("B", 1)], t + 10_000);
    let r = resolve_conflict(b, a);
    assert_eq!(winner(&r), ("last_write_wins", "B".to_string()));
}

#[test]
fn equal_timestamps_favour_remote() {
    let t = 1_700_000_000_000_000;
    let r = resolve_conflict(entity("A", &[("A", 1)], t), entity("B", &[("B", 1)], t));
    assert_eq!(winner(&r), ("last_write_wins", "B".to_string()));
    let r = resolve_conflict(entity("B", &[("B", 1)], t), entity("A", &[("A", 1)], t));
    assert_eq!(winner(&r), ("last_write_wins", "A".to_string()));
}

#[test]
fn equal_clocks_keep_local() {
    let t = 1_700_000_000_000_000;
    let r = resolve_conflict(
        entity("A", &[("A", 2), ("B", 1)], t),
        entity("B", &[("B", 1), ("A", 2)], t + 99),
    );
    assert_eq!(winner(&r), ("no_conflict", "A".to_string()));
}

#[test]
fn causal_order_wins_over_timestamps() {
    let t = 1_700_000_000_000_000;
    let r = resolve_conflict(entity("A", &[("A", 2)], t + 1_000_000), entity("B", &[("A", 1)], t));
    assert_eq!(winner(&r), ("no_conflict", "A".to_string()));
}

#[test]
fn entities_and_outcomes_can_be_cloned() {
    let e = entity("A", &[("A", 3)], 42);
    let copy = e.clone();
    assert_eq!(copy.device_id, "A");
    assert_eq!(copy.vector_clock.get("A"), Some(3));
    assert_eq!(copy.last_modified, 42);
    assert_eq!(copy.data, serde_json::Value::Null);
    let r = resolve_conflict(e, entity("B", &[("A", 4)], 1));
    let r2 = r.clone();
    assert_eq!(winner(&r2), ("no_conflict", "B".to_string()));
}
