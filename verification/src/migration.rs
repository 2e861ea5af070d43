//! The decisions of copying a legacy goose directory to its OpenDuck place.
//!
//! The copy goes through a staging directory next to the new one and is
//! guarded by a lock file, so that a populated new directory is never
//! replaced and an interrupted copy leaves nothing half-written in place. The
//! caller performs each filesystem action and reports what it saw; the step
//! function decides what comes next.

use vstd::prelude::*;

verus! {

/// Where a migration stands.
#[derive(Debug, Clone, Copy, PartialEq, Eq, Structural)]
pub enum MigrationPhase {
    /// Nothing has been looked at yet.
    Start,
    /// The lock file is being taken.
    Locking,
    /// A leftover staging directory is being removed.
    ClearingStaging,
    /// The legacy directory is being copied into the staging directory.
    Copying,
    /// An empty new directory is being removed to make room.
    RemovingNew,
    /// The staging directory is being renamed to the new directory.
    Renaming,
    /// The migration is over.
    Finished,
}

/// What the caller saw after an action.
#[derive(Debug, Clone, Copy, PartialEq, Eq, Structural)]
pub enum MigrationEvent {
    /// The first look: whether the two directories are the same path, whether
    /// the legacy one exists, whether the new one was migrated before in this
    /// process, and whether it holds something.
    Checked { same_dir: bool, legacy_exists: bool, already_done: bool, new_populated: bool },
    /// The lock was taken (or not); then whether the new directory holds something.
    Locked { ok: bool, new_populated: bool },
    /// The leftover staging directory was removed (or not).
    Cleared { ok: bool },
    /// The copy into staging ended; then whether the new directory holds
    /// something and whether it exists.
    Copied { ok: bool, new_populated: bool, new_exists: bool },
    /// Removing the empty new directory ended; then whether it holds something.
    Removed { ok: bool, new_populated: bool },
    /// The rename ended.
    Renamed { ok: bool },
}

/// What the caller does next.
#[derive(Debug, Clone, Copy, PartialEq, Eq, Structural)]
pub enum MigrationAction {
    /// Take the lock file next to the new directory.
    TakeLock,
    /// Remove a leftover staging directory.
    ClearStaging,
    /// Copy the legacy directory into the staging directory.
    CopyToStaging,
    /// Remove the (empty) new directory.
    RemoveNew,
    /// Rename the staging directory to the new directory.
    RenameStaging,
    /// Stop. `drop_staging`: remove the staging directory first;
    /// `completed`: remember the new directory as migrated; `failed`: warn
    /// that the migration failed (the legacy files stay in place).
    Stop { drop_staging: bool, completed: bool, failed: bool },
}

/// The step of a migration: from where it stands and what was seen, where it
/// goes and what to do. An event that does not belong to the phase stops the
/// migration with a failure.
pub open spec fn migration_next(phase: MigrationPhase, event: MigrationEvent) -> (MigrationPhase, MigrationAction) {
    let stop = |d: bool, c: bool, f: bool|
        (MigrationPhase::Finished, MigrationAction::Stop { drop_staging: d, completed: c, failed: f });
    match (phase, event) {
        (MigrationPhase::Start, MigrationEvent::Checked { same_dir, legacy_exists, already_done, new_populated }) => {
            if same_dir || !legacy_exists || already_done || new_populated {
                stop(false, false, false)
            } else {
                (MigrationPhase::Locking, MigrationAction::TakeLock)
            }
        },
        (MigrationPhase::Locking, MigrationEvent::Locked { ok, new_populated }) => {
            if !ok {
                stop(false, false, true)
            } else if new_populated {
                stop(false, true, false)
            } else {
                (MigrationPhase::ClearingStaging, MigrationAction::ClearStaging)
            }
        },
        (MigrationPhase::ClearingStaging, MigrationEvent::Cleared { ok }) => {
            if ok {
                (MigrationPhase::Copying, MigrationAction::CopyToStaging)
            } else {
                stop(true, false, true)
            }
        },
        (MigrationPhase::Copying, MigrationEvent::Copied { ok, new_populated, new_exists }) => {
            if !ok {
                stop(true, false, true)
            } else if new_populated {
                stop(true, true, false)
            } else if new_exists {
                (MigrationPhase::RemovingNew, MigrationAction::RemoveNew)
            } else {
                (MigrationPhase::Renaming, MigrationAction::RenameStaging)
            }
        },
        (MigrationPhase::RemovingNew, MigrationEvent::Removed { ok, new_populated }) => {
            if ok {
                (MigrationPhase::Renaming, MigrationAction::RenameStaging)
            } else if new_populated {
                stop(true, true, false)
            } else {
                stop(true, false, true)
            }
        },
        (MigrationPhase::Renaming, MigrationEvent::Renamed { ok }) => {
            if ok {
                stop(false, true, false)
            } else {
                stop(true, false, true)
            }
        },
        _ => stop(true, false, true),
    }
}

/// A stop action.
fn stop(drop_staging: bool, completed: bool, failed: bool) -> (r: (MigrationPhase, MigrationAction))
    ensures
        r == (MigrationPhase::Finished, MigrationAction::Stop { drop_staging, completed, failed }),
{
    (MigrationPhase::Finished, MigrationAction::Stop { drop_staging, completed, failed })
}

/// One step of `maybe_migrate_dir`: the next phase and action after `event`.
pub fn migration_step(phase: MigrationPhase, event: MigrationEvent) -> (r: (MigrationPhase, MigrationAction))
    ensures
        r == migration_next(phase, event),
{
    match (phase, event) {
        (MigrationPhase::Start, MigrationEvent::Checked { same_dir, legacy_exists, already_done, new_populated }) => {
            if same_dir || !legacy_exists || already_done || new_populated {
                stop(false, false, false)
            } else {
                (MigrationPhase::Locking, MigrationAction::TakeLock)
            }
        },
        (MigrationPhase::Locking, MigrationEvent::Locked { ok, new_populated }) => {
            if !ok {
                stop(false, false, true)
            } else if new_populated {
                stop(false, true, false)
            } else {
                (MigrationPhase::ClearingStaging, MigrationAction::ClearStaging)
            }
        },
        (MigrationPhase::ClearingStaging, MigrationEvent::Cleared { ok }) => {
            if ok {
                (MigrationPhase::Copying, MigrationAction::CopyToStaging)
            } else {
                stop(true, false, true)
            }
        },
        (MigrationPhase::Copying, MigrationEvent::Copied { ok, new_populated, new_exists }) => {
            if !ok {
                stop(true, false, true)
            } else if new_populated {
                stop(true, true, false)
            } else if new_exists {
                (MigrationPhase::RemovingNew, MigrationAction::RemoveNew)
            } else {
                (MigrationPhase::Renaming, MigrationAction::RenameStaging)
            }
        },
        (MigrationPhase::RemovingNew, MigrationEvent::Removed { ok, new_populated }) => {
            if ok {
                (MigrationPhase::Renaming, MigrationAction::RenameStaging)
            } else if new_populated {
                stop(true, true, false)
            } else {
                stop(true, false, true)
            }
        },
        (MigrationPhase::Renaming, MigrationEvent::Renamed { ok }) => {
            if ok {
                stop(false, true, false)
            } else {
                stop(true, false, true)
            }
        },
        _ => stop(true, false, true),
    }
}

/// Whether an event reports that the new directory holds something.
pub open spec fn reports_populated(event: MigrationEvent) -> bool {
    match event {
        MigrationEvent::Checked { new_populated, .. } => new_populated,
        MigrationEvent::Locked { ok, new_populated } => ok && new_populated,
        MigrationEvent::Copied { ok, new_populated, .. } => ok && new_populated,
        MigrationEvent::Removed { new_populated, .. } => new_populated,
        _ => false,
    }
}

/// A populated new directory is never replaced: once an event reports that it
/// holds something, the step neither removes it nor renames staging over it,
/// and the migration stops.
pub proof fn law_populated_new_dir_is_kept(phase: MigrationPhase, event: MigrationEvent)
    requires
        reports_populated(event),
        !(event matches MigrationEvent::Removed { ok: true, .. }),
    ensures
        migration_next(phase, event).1 is Stop,
        migration_next(phase, event).0 == MigrationPhase::Finished,
{
}

/// Every write happens under the lock: from the start, the only step that
/// does not stop is taking the lock; and a failed action always stops with a
/// failure that removes the staging directory once one may exist.
pub proof fn law_lock_before_writes(event: MigrationEvent)
    ensures
        migration_next(MigrationPhase::Start, event).1 is Stop
            || migration_next(MigrationPhase::Start, event).1 == MigrationAction::TakeLock,
        migration_next(MigrationPhase::Locking, event).1 is Stop
            || migration_next(MigrationPhase::Locking, event).1 == MigrationAction::ClearStaging,
{
}

/// A failed copy, removal or rename leaves no staging directory behind and
/// does not count as migrated.
pub proof fn law_failures_clean_up(phase: MigrationPhase, event: MigrationEvent)
    requires
        match event {
            MigrationEvent::Cleared { ok } => !ok,
            MigrationEvent::Copied { ok, .. } => !ok,
            MigrationEvent::Removed { ok, new_populated } => !ok && !new_populated,
            MigrationEvent::Renamed { ok } => !ok,
            _ => false,
        },
    ensures
        migration_next(phase, event).1 == (MigrationAction::Stop { drop_staging: true, completed: false, failed: true }),
{
}

} // verus!
