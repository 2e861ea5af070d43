use goose_core::migration::{migration_step, MigrationAction, MigrationEvent, MigrationPhase};
use goose_core::paths::{AppDirs, DirFacts, Paths};

fn checked(new_populated: bool) -> MigrationEvent {
    MigrationEvent::Checked {
        same_dir: false,
        legacy_exists: true,
        already_done: false,
        new_populated,
    }
}

#[test]
fn config_dir_migrates_legacy_goose_config() {
    let (p, a) = migration_step(MigrationPhase::Start, checked(false));
    assert_eq!((p, a), (MigrationPhase::Locking, MigrationAction::TakeLock));
    let (p, a) = migration_step(p, MigrationEvent::Locked { ok: true, new_populated: false });
    assert_eq!(a, MigrationAction::ClearStaging);
    let (p, a) = migration_step(p, MigrationEvent::Cleared { ok: true });
    assert_eq!(a, MigrationAction::CopyToStaging);
    let (p, a) = migration_step(
        p,
        MigrationEvent::Copied { ok: true, new_populated: false, new_exists: true },
    );
    assert_eq!(a, MigrationAction::RemoveNew);
    let (p, a) = migration_step(p, MigrationEvent::Removed { ok: true, new_populated: false });
    assert_eq!(a, MigrationAction::RenameStaging);
    let (p, a) = migration_step(p, MigrationEvent::Renamed { ok: true });
    assert_eq!(p, MigrationPhase::Finished);
    assert_eq!(a, MigrationAction::Stop { drop_staging: false, completed: true, failed: false });
}

#[test]
fn config_dir_does_not_overwrite_populated_openduck_dir() {
    let (_, a) = migration_step(MigrationPhase::Start, checked(true));
    assert_eq!(a, MigrationAction::Stop { drop_staging: false, completed: false, failed: false });
    let (_, a) = migration_step(
        MigrationPhase::Locking,
        MigrationEvent::Locked { ok: true, new_populated: true },
    );
    assert_eq!(a, MigrationAction::Stop { drop_staging: false, completed: true, failed: false });
    let (_, a) = migration_step(
        MigrationPhase::Copying,
        MigrationEvent::Copied { ok: true, new_populated: true, new_exists: true },
    );
    assert_eq!(a, MigrationAction::Stop { drop_staging: true, completed: true, failed: false });
}

#[test]
fn config_dir_falls_back_to_legacy_when_copy_fails() {
    let (_, a) = migration_step(
        MigrationPhase::Copying,
        MigrationEvent::Copied { ok: false, new_populated: false, new_exists: false },
    );
    assert_eq!(a, MigrationAction::Stop { drop_staging: true, completed: false, failed: true });
    let (_, a) = migration_step(
        MigrationPhase::Locking,
        MigrationEvent::Locked { ok: false, new_populated: false },
    );
    assert_eq!(a, MigrationAction::Stop { drop_staging: false, completed: false, failed: true });

    // With the copy failed, only the legacy directory holds something: it is used.
    let facts = DirFacts {
        openduck_path_root: None,
        goose_path_root: None,
        separator: '/',
        current: AppDirs {
            config: "/x/openduck".into(),
            data: "/x/openduck-data".into(),
            state: None,
            home: "/h".into(),
        },
        legacy: AppDirs {
            config: "/x/goose".into(),
            data: "/x/goose-data".into(),
            state: None,
            home: "/h".into(),
        },
        populated: vec!["/x/goose".into()],
    };
    assert_eq!(Paths::config_dir(&facts), "/x/goose");
}

#[test]
fn config_dir_migrates_after_removing_leftover_staging_file() {
    let (p, a) = migration_step(
        MigrationPhase::Locking,
        MigrationEvent::Locked { ok: true, new_populated: false },
    );
    assert_eq!(a, MigrationAction::ClearStaging);
    let (p, a) = migration_step(p, MigrationEvent::Cleared { ok: true });
    assert_eq!((p, a), (MigrationPhase::Copying, MigrationAction::CopyToStaging));
    let (_, a) = migration_step(
        MigrationPhase::ClearingStaging,
        MigrationEvent::Cleared { ok: false },
    );
    assert_eq!(a, MigrationAction::Stop { drop_staging: true, completed: false, failed: true });
}

#[test]
fn nothing_to_do_without_legacy_or_when_done() {
    for ev in [
        MigrationEvent::Checked { same_dir: true, legacy_exists: true, already_done: false, new_populated: false },
        MigrationEvent::Checked { same_dir: false, legacy_exists: false, already_done: false, new_populated: false },
        MigrationEvent::Checked { same_dir: false, legacy_exists: true, already_done: true, new_populated: false },
    ] {
        let (p, a) = migration_step(MigrationPhase::Start, ev);
        assert_eq!(p, MigrationPhase::Finished);
        assert_eq!(a, MigrationAction::Stop { drop_staging: false, completed: false, failed: false });
    }
}

#[test]
fn new_dir_missing_goes_straight_to_rename() {
    let (p, a) = migration_step(
        MigrationPhase::Copying,
        MigrationEvent::Copied { ok: true, new_populated: false, new_exists: false },
    );
    assert_eq!((p, a), (MigrationPhase::Renaming, MigrationAction::RenameStaging));
    let (_, a) = migration_step(MigrationPhase::Renaming, MigrationEvent::Renamed { ok: false });
    assert_eq!(a, MigrationAction::Stop { drop_staging: true, completed: false, failed: true });
}

#[test]
fn out_of_order_events_stop_with_failure() {
    let (p, a) = migration_step(MigrationPhase::Start, MigrationEvent::Renamed { ok: true });
    assert_eq!(p, MigrationPhase::Finished);
    assert_eq!(a, MigrationAction::Stop { drop_staging: true, completed: false, failed: true });
}
