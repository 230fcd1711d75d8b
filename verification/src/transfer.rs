//! Transfer engine: plans the copies of the selected assets into the flat
//! target directory, accepts a transfer only when every copy was
//! confirmed, and defers deletion of the originals to the end of the run.

use vstd::prelude::*;
use vstd::string::StringExecFns;
use crate::locator::AssetEntry;
use crate::locator::AssetEntryView;
use crate::locator::entry_views;
use crate::orchestrator::BackupError;

verus! {

/// One planned copy of an asset into the target directory.
#[derive(Debug)]
pub struct CopyStep {
    pub source: String,
    pub dest: String,
}

/// Mathematical content of a [`CopyStep`].
pub ghost struct CopyStepView {
    pub source: Seq<char>,
    pub dest: Seq<char>,
}

impl View for CopyStep {
    type V = CopyStepView;

    open spec fn view(&self) -> CopyStepView {
        CopyStepView { source: self.source@, dest: self.dest@ }
    }
}

/// Views of a sequence of copy steps.
pub open spec fn step_views(s: Seq<CopyStep>) -> Seq<CopyStepView> {
    s.map_values(|c: CopyStep| c@)
}

/// Views of a sequence of paths.
pub open spec fn path_views(s: Seq<String>) -> Seq<Seq<char>> {
    s.map_values(|p: String| p@)
}

/// Destination of one asset: the target directory joined with the bare
/// filename.  The tree is flattened; a later asset with the same bare
/// name gets the same destination.
pub open spec fn dest_path(target_dir: Seq<char>, file_name: Seq<char>) -> Seq<char> {
    target_dir + seq!['/'] + file_name
}

/// The copy step planned for one asset.
pub open spec fn step_for(e: AssetEntryView, target_dir: Seq<char>) -> CopyStepView {
    CopyStepView { source: e.path, dest: dest_path(target_dir, e.file_name) }
}

/// The copy steps planned for the selected assets, in locator order.
pub open spec fn steps_for(matched: Seq<AssetEntryView>, target_dir: Seq<char>) -> Seq<
    CopyStepView,
> {
    matched.map_values(|e: AssetEntryView| step_for(e, target_dir))
}

/// Joins the target directory and a bare filename into one path.
pub fn dest_for(target_dir: &str, file_name: &str) -> (r: String)
    ensures
        r@ == dest_path(target_dir@, file_name@),
{
    let mut s = String::from_str(target_dir);
    s.append("/");
    s.append(file_name);
    proof {
        reveal_strlit("/");
        assert("/"@ =~= seq!['/']);
        assert(s@ =~= dest_path(target_dir@, file_name@));
    }
    s
}

/// Plans one copy step per selected asset, in order.
pub fn plan_copies(matched: Vec<AssetEntry>, target_dir: &str) -> (r: Vec<CopyStep>)
    ensures
        step_views(r@) == steps_for(entry_views(matched@), target_dir@),
{
    let ghost all = entry_views(matched@);
    let mut rest = matched;
    let mut r: Vec<CopyStep> = Vec::new();
    while rest.len() > 0
        invariant
            step_views(r@) + steps_for(entry_views(rest@), target_dir@) == steps_for(
                all,
                target_dir@,
            ),
        decreases rest.len(),
    {
        let ghost old_r = r@;
        let ghost rv = entry_views(rest@);
        let e = rest.remove(0);
        proof {
            assert(rv.first() == e@);
            assert(entry_views(rest@) =~= rv.drop_first());
        }
        let dest = dest_for(target_dir, e.file_name.as_str());
        r.push(CopyStep { source: e.path, dest });
        proof {
            assert(step_views(r@) =~= step_views(old_r).push(step_for(e@, target_dir@)));
            assert(steps_for(rv, target_dir@) =~= seq![step_for(rv.first(), target_dir@)]
                + steps_for(rv.drop_first(), target_dir@));
            assert(step_views(r@) + steps_for(entry_views(rest@), target_dir@) =~= step_views(old_r)
                + steps_for(rv, target_dir@));
        }
    }
    proof {
        assert(steps_for(entry_views(rest@), target_dir@) =~= Seq::<CopyStepView>::empty());
        assert(step_views(r@) =~= step_views(r@) + steps_for(entry_views(rest@), target_dir@));
    }
    r
}

/// The confirmed transfer: destination paths paired one to one, by index,
/// with the source paths they were copied from.
#[derive(Debug)]
pub struct TransferResult {
    pub sources: Vec<String>,
    pub dests: Vec<String>,
}

/// Mathematical content of a [`TransferResult`].
pub ghost struct TransferResultView {
    pub sources: Seq<Seq<char>>,
    pub dests: Seq<Seq<char>>,
}

impl View for TransferResult {
    type V = TransferResultView;

    open spec fn view(&self) -> TransferResultView {
        TransferResultView { sources: path_views(self.sources@), dests: path_views(self.dests@) }
    }
}

/// Every planned copy was confirmed.
pub open spec fn all_confirmed(confirmed: Seq<bool>) -> bool {
    forall|i: int| 0 <= i < confirmed.len() ==> confirmed[i]
}

/// A transfer is accepted only when exactly the planned copies were
/// attempted and every one of them was confirmed; any mismatch is the
/// integrity failure.
pub open spec fn confirm_spec(steps: Seq<CopyStepView>, confirmed: Seq<bool>) -> Result<
    TransferResultView,
    BackupError,
> {
    if steps.len() == confirmed.len() && all_confirmed(confirmed) {
        Ok(
            TransferResultView {
                sources: steps.map_values(|s: CopyStepView| s.source),
                dests: steps.map_values(|s: CopyStepView| s.dest),
            },
        )
    } else {
        Err(BackupError::IntegrityFailure)
    }
}

/// Checks the per-copy confirmations against the plan and splits the
/// accepted transfer into its source and destination paths.
pub fn confirm_transfers(steps: Vec<CopyStep>, confirmed: &Vec<bool>) -> (r: Result<
    TransferResult,
    BackupError,
>)
    ensures
        match r {
            Ok(t) => confirm_spec(step_views(steps@), confirmed@) == Ok::<
                TransferResultView,
                BackupError,
            >(t@),
            Err(e) => confirm_spec(step_views(steps@), confirmed@) == Err::<
                TransferResultView,
                BackupError,
            >(e),
        },
{
    if steps.len() != confirmed.len() {
        return Err(BackupError::IntegrityFailure);
    }
    let n = confirmed.len();
    let mut i: usize = 0;
    while i < n
        invariant
            i <= n,
            n == confirmed@.len(),
            forall|k: int| 0 <= k < i ==> confirmed@[k],
        decreases n - i,
    {
        if !confirmed[i] {
            assert(!all_confirmed(confirmed@));
            return Err(BackupError::IntegrityFailure);
        }
        i = i + 1;
    }
    let ghost all = step_views(steps@);
    let mut rest = steps;
    let mut sources: Vec<String> = Vec::new();
    let mut dests: Vec<String> = Vec::new();
    while rest.len() > 0
        invariant
            path_views(sources@) + step_views(rest@).map_values(|s: CopyStepView| s.source)
                == all.map_values(|s: CopyStepView| s.source),
            path_views(dests@) + step_views(rest@).map_values(|s: CopyStepView| s.dest)
                == all.map_values(|s: CopyStepView| s.dest),
        decreases rest.len(),
    {
        let ghost old_sources = sources@;
        let ghost old_dests = dests@;
        let ghost rv = step_views(rest@);
        let s = rest.remove(0);
        proof {
            assert(rv.first() == s@);
            assert(step_views(rest@) =~= rv.drop_first());
        }
        sources.push(s.source);
        dests.push(s.dest);
        proof {
            assert(path_views(sources@) =~= path_views(old_sources).push(s@.source));
            assert(path_views(dests@) =~= path_views(old_dests).push(s@.dest));
            assert(rv.map_values(|t: CopyStepView| t.source) =~= seq![s@.source]
                + rv.drop_first().map_values(|t: CopyStepView| t.source));
            assert(rv.map_values(|t: CopyStepView| t.dest) =~= seq![s@.dest]
                + rv.drop_first().map_values(|t: CopyStepView| t.dest));
            assert(path_views(sources@) + step_views(rest@).map_values(
                |t: CopyStepView| t.source,
            ) =~= path_views(old_sources) + rv.map_values(|t: CopyStepView| t.source));
            assert(path_views(dests@) + step_views(rest@).map_values(|t: CopyStepView| t.dest)
                =~= path_views(old_dests) + rv.map_values(|t: CopyStepView| t.dest));
        }
    }
    proof {
        assert(step_views(rest@).map_values(|s: CopyStepView| s.source) =~= Seq::<
            Seq<char>,
        >::empty());
        assert(step_views(rest@).map_values(|s: CopyStepView| s.dest) =~= Seq::<Seq<char>>::empty());
        assert(path_views(sources@) =~= path_views(sources@) + step_views(rest@).map_values(
            |s: CopyStepView| s.source,
        ));
        assert(path_views(dests@) =~= path_views(dests@) + step_views(rest@).map_values(
            |s: CopyStepView| s.dest,
        ));
    }
    Ok(TransferResult { sources, dests })
}

/// Deletion is deferred to the end of the run: only after the whole copy
/// pass is confirmed, and only when move semantics were requested, are
/// the confirmed source paths handed back for deletion.
pub open spec fn deletions_spec(sources: Seq<Seq<char>>, move_files: bool) -> Seq<Seq<char>> {
    if move_files {
        sources
    } else {
        Seq::empty()
    }
}

/// The source files to delete after a confirmed transfer.
pub fn files_to_delete(sources: Vec<String>, move_files: bool) -> (r: Vec<String>)
    ensures
        path_views(r@) == deletions_spec(path_views(sources@), move_files),
{
    if move_files {
        sources
    } else {
        let r: Vec<String> = Vec::new();
        proof {
            assert(path_views(r@) =~= Seq::<Seq<char>>::empty());
        }
        r
    }
}

} // verus!
