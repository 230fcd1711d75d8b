use rdr2photobackup::backup;
use rdr2photobackup::backup_and_convert;
use rdr2photobackup::copy_and_convert;
use rdr2photobackup::general_backup;
use rdr2photobackup::locator::locate;
use rdr2photobackup::locator::name_matches;
use rdr2photobackup::locator::AssetEntry;
use rdr2photobackup::orchestrator::BackupEnv;
use rdr2photobackup::orchestrator::BackupError;
use rdr2photobackup::transfer::confirm_transfers;
use rdr2photobackup::transfer::files_to_delete;
use rdr2photobackup::verify_has_source_files;

fn entry(path: &str, file_name: &str, is_file: bool) -> AssetEntry {
    AssetEntry {
        path: String::from(path),
        file_name: String::from(file_name),
        is_file,
    }
}

fn photos_env(entries: Vec<AssetEntry>) -> BackupEnv {
    BackupEnv {
        source_exists: true,
        source_is_dir: true,
        target_exists: true,
        target_is_dir: true,
        target_dir: String::from("backup-folder"),
        entries,
    }
}

fn one_asset() -> Vec<AssetEntry> {
    vec![entry("photos/PRDR34088256_1", "PRDR34088256_1", true)]
}

#[test]
fn name_prefix_rules() {
    assert!(name_matches("PRDR34088256_1"));
    assert!(name_matches("PRD"));
    assert!(!name_matches("PR"));
    assert!(!name_matches("prd_lowercase"));
    assert!(!name_matches("xPRD"));
}

#[test]
fn source_dir_exists() {
    let result = backup(photos_env(one_asset()));
    assert!(result.is_ok());
}

#[test]
fn source_dir_does_not_exist() {
    let mut env = photos_env(one_asset());
    env.source_exists = false;
    assert_eq!(backup(env).unwrap_err(), BackupError::SourceDirMissing);
}

#[test]
fn source_not_a_directory() {
    let mut env = photos_env(one_asset());
    env.source_is_dir = false;
    assert_eq!(backup(env).unwrap_err(), BackupError::SourceNotADirectory);
}

#[test]
fn target_dir_exists() {
    let plan = backup(photos_env(one_asset())).unwrap();
    assert!(!plan.copies.is_empty());
}

#[test]
fn target_dir_does_not_exist() {
    let mut env = photos_env(one_asset());
    env.target_exists = false;
    assert_eq!(backup(env).unwrap_err(), BackupError::TargetDirMissing);
}

#[test]
fn target_not_a_directory() {
    let mut env = photos_env(one_asset());
    env.target_is_dir = false;
    assert_eq!(backup(env).unwrap_err(), BackupError::TargetNotADirectory);
}

#[test]
fn no_files_to_backup() {
    // A populated source tree without one matching asset: the recoverable
    // empty-match error, and no plan to execute.
    let entries = vec![
        entry("photos/notes.txt", "notes.txt", true),
        entry("photos/sub", "sub", false),
    ];
    assert_eq!(backup(photos_env(entries)).unwrap_err(), BackupError::NoFilesToBackup);
}

#[test]
fn verify_has_source_files_probe() {
    assert!(verify_has_source_files(&one_asset()).is_ok());
    let none = vec![entry("photos/readme", "readme", true)];
    assert_eq!(verify_has_source_files(&none).unwrap_err(), BackupError::NoFilesToBackup);
}

#[test]
fn locate_filters_and_keeps_order() {
    let entries = vec![
        entry("photos/PRDA", "PRDA", true),
        entry("photos/other", "other", true),
        entry("photos/PRDdir", "PRDdir", false),
        entry("photos/sub/PRDB", "PRDB", true),
    ];
    let found = locate(entries);
    assert_eq!(found.len(), 2);
    assert_eq!(found[0].path, "photos/PRDA");
    assert_eq!(found[1].path, "photos/sub/PRDB");
}

#[test]
fn file_is_copied() {
    let plan = backup(photos_env(one_asset())).unwrap();
    assert_eq!(plan.copies.len(), 1);
    assert_eq!(plan.copies[0].source, "photos/PRDR34088256_1");
    assert_eq!(plan.copies[0].dest, "backup-folder/PRDR34088256_1");
    assert!(!plan.move_files);
    assert!(!plan.convert_files);
}

#[test]
fn file_is_copied_and_converted() {
    let plan = copy_and_convert(photos_env(one_asset())).unwrap();
    assert_eq!(plan.copies.len(), 1);
    assert!(!plan.move_files);
    assert!(plan.convert_files);
}

#[test]
fn backup_and_convert_files() {
    // Move mode: sources are deleted only after every copy is confirmed.
    let plan = backup_and_convert(photos_env(one_asset())).unwrap();
    assert!(plan.move_files);
    assert!(plan.convert_files);
    let confirmed = vec![true; plan.copies.len()];
    let move_files = plan.move_files;
    let result = confirm_transfers(plan.copies, &confirmed).unwrap();
    assert_eq!(result.dests, vec![String::from("backup-folder/PRDR34088256_1")]);
    let doomed = files_to_delete(result.sources, move_files);
    assert_eq!(doomed, vec![String::from("photos/PRDR34088256_1")]);
}

#[test]
fn copy_only_deletes_nothing() {
    let plan = backup(photos_env(one_asset())).unwrap();
    let confirmed = vec![true; plan.copies.len()];
    let move_files = plan.move_files;
    let result = confirm_transfers(plan.copies, &confirmed).unwrap();
    let doomed = files_to_delete(result.sources, move_files);
    assert!(doomed.is_empty());
}

#[test]
fn general_backup_move_without_convert() {
    let plan = general_backup(photos_env(one_asset()), true, false).unwrap();
    assert!(plan.move_files);
    assert!(!plan.convert_files);
}

#[test]
fn confirm_detects_missing_copy() {
    let plan = backup(photos_env(one_asset())).unwrap();
    let confirmed = vec![false];
    assert_eq!(
        confirm_transfers(plan.copies, &confirmed).unwrap_err(),
        BackupError::IntegrityFailure
    );
}

#[test]
fn confirm_detects_count_mismatch() {
    let plan = backup(photos_env(one_asset())).unwrap();
    let confirmed: Vec<bool> = Vec::new();
    assert_eq!(
        confirm_transfers(plan.copies, &confirmed).unwrap_err(),
        BackupError::IntegrityFailure
    );
}

#[test]
fn flattening_keeps_bare_names() {
    let entries = vec![
        entry("photos/a/PRD1", "PRD1", true),
        entry("photos/b/deep/PRD2", "PRD2", true),
    ];
    let plan = backup(photos_env(entries)).unwrap();
    assert_eq!(plan.copies[0].dest, "backup-folder/PRD1");
    assert_eq!(plan.copies[1].dest, "backup-folder/PRD2");
}
