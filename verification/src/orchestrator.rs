//! Backup orchestrator: validates the environment the caller scanned,
//! selects the assets, and plans the transfer for the requested mode.
//! The caller executes the plan (copies, confirmations, deferred
//! deletions, conversions) and feeds every outcome back to the library.

use vstd::prelude::*;
use crate::locator::AssetEntry;
use crate::locator::AssetEntryView;
use crate::locator::entry_views;
use crate::locator::locate;
use crate::locator::matched_entries;
use crate::locator::verify_has_source_files;
use crate::transfer::CopyStepView;
use crate::transfer::all_confirmed;
use crate::transfer::confirm_spec;
use crate::transfer::deletions_spec;
use crate::transfer::dest_path;
use crate::transfer::plan_copies;
use crate::transfer::step_for;
use crate::transfer::steps_for;
use crate::transfer::CopyStep;

verus! {

/// Why a backup run was refused or aborted.
#[derive(Clone, Copy, Debug, PartialEq, Eq, Structural)]
pub enum BackupError {
    /// The source path does not exist.
    SourceDirMissing,
    /// The source path exists but is not a directory.
    SourceNotADirectory,
    /// The target path does not exist.
    TargetDirMissing,
    /// The target path exists but is not a directory.
    TargetNotADirectory,
    /// The source directory holds no matching asset: nothing to back up.
    NoFilesToBackup,
    /// Confirmed copies and attempted copies disagree: a copy silently
    /// failed to materialize.
    IntegrityFailure,
}

/// What the caller found on disk before the run: the two directory
/// checks, the target path, and the recursive listing of the source tree.
#[derive(Debug)]
pub struct BackupEnv {
    pub source_exists: bool,
    pub source_is_dir: bool,
    pub target_exists: bool,
    pub target_is_dir: bool,
    pub target_dir: String,
    pub entries: Vec<AssetEntry>,
}

/// Mathematical content of a [`BackupEnv`].
pub ghost struct BackupEnvView {
    pub source_exists: bool,
    pub source_is_dir: bool,
    pub target_exists: bool,
    pub target_is_dir: bool,
    pub target_dir: Seq<char>,
    pub entries: Seq<AssetEntryView>,
}

impl View for BackupEnv {
    type V = BackupEnvView;

    open spec fn view(&self) -> BackupEnvView {
        BackupEnvView {
            source_exists: self.source_exists,
            source_is_dir: self.source_is_dir,
            target_exists: self.target_exists,
            target_is_dir: self.target_is_dir,
            target_dir: self.target_dir@,
            entries: entry_views(self.entries@),
        }
    }
}

/// Directory preconditions, checked in order: source exists, source is a
/// directory, target exists, target is a directory.
pub open spec fn validate_dirs(env: BackupEnvView) -> Option<BackupError> {
    if !env.source_exists {
        Some(BackupError::SourceDirMissing)
    } else if !env.source_is_dir {
        Some(BackupError::SourceNotADirectory)
    } else if !env.target_exists {
        Some(BackupError::TargetDirMissing)
    } else if !env.target_is_dir {
        Some(BackupError::TargetNotADirectory)
    } else {
        None
    }
}

/// Full validation: the directory checks, then the requirement that the
/// source tree holds at least one matching asset.
pub open spec fn validate_env(env: BackupEnvView) -> Option<BackupError> {
    match validate_dirs(env) {
        Some(e) => Some(e),
        None => if matched_entries(env.entries).len() == 0 {
            Some(BackupError::NoFilesToBackup)
        } else {
            None
        },
    }
}

/// What one backup run will do, for the caller to execute: the copies in
/// order, whether sources are deleted afterwards, and whether the copied
/// files are then converted.
#[derive(Debug)]
pub struct BackupPlan {
    pub copies: Vec<CopyStep>,
    pub move_files: bool,
    pub convert_files: bool,
}

/// Mathematical content of a [`BackupPlan`].
pub ghost struct BackupPlanView {
    pub copies: Seq<CopyStepView>,
    pub move_files: bool,
    pub convert_files: bool,
}

impl View for BackupPlan {
    type V = BackupPlanView;

    open spec fn view(&self) -> BackupPlanView {
        BackupPlanView {
            copies: crate::transfer::step_views(self.copies@),
            move_files: self.move_files,
            convert_files: self.convert_files,
        }
    }
}

/// The plan owed for an environment and a mode: every validation error is
/// reported exactly as [`validate_env`] ranks it, and on success the plan
/// copies exactly the matched assets into the target directory.
pub open spec fn backup_plan_spec(
    env: BackupEnvView,
    move_files: bool,
    convert_files: bool,
) -> Result<BackupPlanView, BackupError> {
    match validate_env(env) {
        Some(e) => Err(e),
        None => Ok(
            BackupPlanView {
                copies: steps_for(matched_entries(env.entries), env.target_dir),
                move_files,
                convert_files,
            },
        ),
    }
}

/// Checks the run's preconditions in order: source exists and is a
/// directory, target exists and is a directory, and the source holds at
/// least one asset to back up.
pub fn assert_source_and_target_dirs_exist(env: &BackupEnv) -> (r: Result<(), BackupError>)
    ensures
        r is Ok <==> validate_env(env@) is None,
        r matches Err(e) ==> validate_env(env@) == Some(e),
{
    if !env.source_exists {
        return Err(BackupError::SourceDirMissing);
    }
    if !env.source_is_dir {
        return Err(BackupError::SourceNotADirectory);
    }
    if !env.target_exists {
        return Err(BackupError::TargetDirMissing);
    }
    if !env.target_is_dir {
        return Err(BackupError::TargetNotADirectory);
    }
    match verify_has_source_files(&env.entries) {
        Ok(u) => Ok(u),
        Err(e) => Err(e),
    }
}

/// Plans a backup run for any of the four `(move, convert)` modes.
pub fn general_backup(env: BackupEnv, move_files: bool, convert_files: bool) -> (r: Result<
    BackupPlan,
    BackupError,
>)
    ensures
        match r {
            Ok(p) => backup_plan_spec(env@, move_files, convert_files) == Ok::<
                BackupPlanView,
                BackupError,
            >(p@),
            Err(e) => backup_plan_spec(env@, move_files, convert_files) == Err::<
                BackupPlanView,
                BackupError,
            >(e),
        },
{
    match assert_source_and_target_dirs_exist(&env) {
        Ok(_) => (),
        Err(e) => {
            return Err(e);
        },
    }
    let BackupEnv { target_dir, entries, .. } = env;
    let matched = locate(entries);
    let copies = plan_copies(matched, target_dir.as_str());
    Ok(BackupPlan { copies, move_files, convert_files })
}

/// Copy-only backup: sources stay in place, nothing is converted.
pub fn backup(env: BackupEnv) -> (r: Result<BackupPlan, BackupError>)
    ensures
        match r {
            Ok(p) => backup_plan_spec(env@, false, false) == Ok::<BackupPlanView, BackupError>(p@),
            Err(e) => backup_plan_spec(env@, false, false) == Err::<BackupPlanView, BackupError>(e),
        },
{
    general_backup(env, false, false)
}

/// Copy, then convert each newly copied file; sources stay in place.
pub fn copy_and_convert(env: BackupEnv) -> (r: Result<BackupPlan, BackupError>)
    ensures
        match r {
            Ok(p) => backup_plan_spec(env@, false, true) == Ok::<BackupPlanView, BackupError>(p@),
            Err(e) => backup_plan_spec(env@, false, true) == Err::<BackupPlanView, BackupError>(e),
        },
{
    general_backup(env, false, true)
}

/// Move, then convert each relocated file: sources are deleted once the
/// whole copy pass is confirmed.
pub fn backup_and_convert(env: BackupEnv) -> (r: Result<BackupPlan, BackupError>)
    ensures
        match r {
            Ok(p) => backup_plan_spec(env@, true, true) == Ok::<BackupPlanView, BackupError>(p@),
            Err(e) => backup_plan_spec(env@, true, true) == Err::<BackupPlanView, BackupError>(e),
        },
{
    general_backup(env, true, true)
}

/// Copy-only mode on a valid environment with at least one matching
/// asset: planning succeeds, there is work to do, nothing is deleted or
/// converted, and the plan copies exactly the matched assets, flattened
/// into the target directory.
pub proof fn lemma_copy_only_covers_matches(env: BackupEnvView)
    requires
        validate_dirs(env) is None,
        matched_entries(env.entries).len() > 0,
    ensures
        backup_plan_spec(env, false, false) matches Ok(plan) && {
            let matched = matched_entries(env.entries);
            &&& !plan.move_files
            &&& !plan.convert_files
            &&& plan.copies.len() == matched.len()
            &&& plan.copies.len() > 0
            &&& forall|i: int|
                0 <= i < matched.len() ==> #[trigger] plan.copies[i] == step_for(
                    matched[i],
                    env.target_dir,
                )
        },
{
}

/// A source tree with no matching asset is refused as the empty-match
/// error in every mode, and no plan is produced.
pub proof fn lemma_empty_match_is_error(env: BackupEnvView, move_files: bool, convert_files: bool)
    requires
        validate_dirs(env) is None,
        matched_entries(env.entries).len() == 0,
    ensures
        backup_plan_spec(env, move_files, convert_files) == Err::<BackupPlanView, BackupError>(
            BackupError::NoFilesToBackup,
        ),
{
}

/// Move mode: when every planned copy is confirmed, the transfer is
/// accepted, the deferred deletion list holds exactly the matched source
/// paths, and each matched asset's copy stands under the target
/// directory.
pub proof fn lemma_move_mode_clears_sources(
    env: BackupEnvView,
    convert_files: bool,
    confirmed: Seq<bool>,
)
    requires
        validate_dirs(env) is None,
        matched_entries(env.entries).len() > 0,
        confirmed.len() == matched_entries(env.entries).len(),
        all_confirmed(confirmed),
    ensures
        backup_plan_spec(env, true, convert_files) matches Ok(plan) && {
            let matched = matched_entries(env.entries);
            &&& plan.move_files
            &&& confirm_spec(plan.copies, confirmed) matches Ok(t) && {
                &&& deletions_spec(t.sources, true) == matched.map_values(
                    |e: AssetEntryView| e.path,
                )
                &&& t.dests.len() == matched.len()
                &&& forall|i: int|
                    0 <= i < matched.len() ==> #[trigger] t.dests[i] == dest_path(
                        env.target_dir,
                        matched[i].file_name,
                    )
            }
        },
{
    let matched = matched_entries(env.entries);
    let steps = steps_for(matched, env.target_dir);
    assert(steps.map_values(|s: CopyStepView| s.source) =~= matched.map_values(
        |e: AssetEntryView| e.path,
    ));
}

} // verus!
