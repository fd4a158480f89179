use vstd::prelude::*;

use crate::vector_clock::VectorClock;

verus! {

/// Declares `serde_json::Value` so that an entity can carry its JSON payload. Nothing is
/// assumed of the value: the library moves it and never reads it.
#[verifier::external_type_specification]
#[verifier::external_body]
pub struct ExJsonValue(serde_json::Value);

/// Relies on `serde_json::Value`'s derived `Clone`, so that entities can be copied. Nothing
/// is assumed of the copy.
pub assume_specification[ <serde_json::Value as Clone>::clone ](v: &serde_json::Value) -> serde_json::Value;

/// One side's copy of a synchronised entity.
#[derive(Debug, Clone)]
pub struct SyncEntity {
    /// The entity's identifier, a UUID as a 128-bit integer.
    pub id: u128,
    pub data: serde_json::Value,
    pub vector_clock: VectorClock,
    /// Wall-clock time of the last modification, in microseconds since the Unix epoch.
    pub last_modified: i64,
    pub device_id: String,
}

/// How two copies of one entity are reconciled.
#[derive(Debug, Clone)]
pub enum ConflictResolution {
    /// One copy causally supersedes the other (or both carry the same clock).
    NoConflict(SyncEntity),
    /// The copies are concurrent; the later wall-clock write is kept.
    LastWriteWins(SyncEntity),
    /// The copies were merged into one.
    Merge(SyncEntity),
    /// The copies must be reconciled by hand.
    RequiresManual(Vec<SyncEntity>),
}

/// The outcome that reconciling `local` with `remote` gives: the causally later copy;
/// under true concurrency the later write, the remote one on a tie; with equal clocks
/// the local copy.
pub open spec fn resolution_of(local: SyncEntity, remote: SyncEntity) -> ConflictResolution {
    if local.vector_clock.precedes(remote.vector_clock) {
        ConflictResolution::NoConflict(remote)
    } else if remote.vector_clock.precedes(local.vector_clock) {
        ConflictResolution::NoConflict(local)
    } else if local.vector_clock.concurrent_with(remote.vector_clock)
        && !local.vector_clock.same_counters(remote.vector_clock) {
        if local.last_modified > remote.last_modified {
            ConflictResolution::LastWriteWins(local)
        } else {
            ConflictResolution::LastWriteWins(remote)
        }
    } else {
        ConflictResolution::NoConflict(local)
    }
}

/// Reconciles the local copy of an entity with a copy received from another device.
pub fn resolve_conflict(local: SyncEntity, remote: SyncEntity) -> (r: ConflictResolution)
    ensures
        r == resolution_of(local, remote),
{
    if local.vector_clock.happens_before(&remote.vector_clock) {
        return ConflictResolution::NoConflict(remote);
    }
    if remote.vector_clock.happens_before(&local.vector_clock) {
        return ConflictResolution::NoConflict(local);
    }
    if local.vector_clock.is_concurrent(&remote.vector_clock) && !local.vector_clock.same_as(
        &remote.vector_clock,
    ) {
        if local.last_modified > remote.last_modified {
            return ConflictResolution::LastWriteWins(local);
        } else {
            return ConflictResolution::LastWriteWins(remote);
        }
    }
    ConflictResolution::NoConflict(local)
}

/// Under true concurrency with distinct timestamps the same copy wins whichever side is
/// local; copies in causal order resolve to the later one either way.
pub proof fn lemma_resolution_swap(a: SyncEntity, b: SyncEntity)
    ensures
        a.vector_clock.concurrent_with(b.vector_clock) && !a.vector_clock.same_counters(
            b.vector_clock,
        ) && a.last_modified != b.last_modified ==> match (resolution_of(a, b), resolution_of(b, a)) {
            (
                ConflictResolution::LastWriteWins(x),
                ConflictResolution::LastWriteWins(y),
            ) => x == y,
            _ => false,
        },
        a.vector_clock.precedes(b.vector_clock) ==> resolution_of(a, b)
            == ConflictResolution::NoConflict(b) && resolution_of(b, a)
            == ConflictResolution::NoConflict(b),
{
    crate::vector_clock::lemma_happens_before_irreflexive(a.vector_clock);
    if a.vector_clock.precedes(b.vector_clock) && b.vector_clock.precedes(a.vector_clock) {
        crate::vector_clock::lemma_happens_before_transitive(
            a.vector_clock,
            b.vector_clock,
            a.vector_clock,
        );
    }
}

/// Every pair of copies resolves to exactly one of two outcomes, keeping one of the copies.
pub proof fn lemma_resolution_total(a: SyncEntity, b: SyncEntity)
    ensures
        resolution_of(a, b) == ConflictResolution::NoConflict(a) || resolution_of(a, b)
            == ConflictResolution::NoConflict(b) || resolution_of(a, b)
            == ConflictResolution::LastWriteWins(a) || resolution_of(a, b)
            == ConflictResolution::LastWriteWins(b),
{
}

/// Copies with equal timestamps under true concurrency resolve to whichever is remote:
/// the outcome then depends on the order of the arguments.
pub proof fn lemma_equal_timestamps_favour_remote(a: SyncEntity, b: SyncEntity)
    requires
        a.vector_clock.concurrent_with(b.vector_clock),
        !a.vector_clock.same_counters(b.vector_clock),
        a.last_modified == b.last_modified,
    ensures
        resolution_of(a, b) == ConflictResolution::LastWriteWins(b),
        resolution_of(b, a) == ConflictResolution::LastWriteWins(a),
{
}

} // verus!
