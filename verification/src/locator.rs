//! Asset locator: selects, from a recursive listing of the source tree,
//! the files whose bare name carries the asset prefix.  Directories and
//! non-matching entries are skipped.

use vstd::prelude::*;
use vstd::string::StrSliceExecFns;

verus! {

/// Filename prefix that marks a photo asset.
pub open spec fn prd_prefix() -> Seq<char> {
    seq!['P', 'R', 'D']
}

/// A filename names an asset when it begins with the fixed prefix.
pub open spec fn is_asset_name(name: Seq<char>) -> bool {
    name.len() >= 3 && name.subrange(0, 3) == prd_prefix()
}

/// Decides whether a bare filename names a photo asset.
pub fn name_matches(name: &str) -> (r: bool)
    ensures
        r == is_asset_name(name@),
{
    let n = name.unicode_len();
    if n < 3 {
        return false;
    }
    let r = name.get_char(0) == 'P' && name.get_char(1) == 'R' && name.get_char(2) == 'D';
    proof {
        assert(name@.subrange(0, 3) =~= seq![name@[0], name@[1], name@[2]]);
    }
    r
}

/// One entry of the recursive source-tree listing, as the caller's walk
/// reported it: its full path, its bare filename, and whether it is a
/// plain file.
#[derive(Debug)]
pub struct AssetEntry {
    pub path: String,
    pub file_name: String,
    pub is_file: bool,
}

/// Mathematical content of an [`AssetEntry`].
pub ghost struct AssetEntryView {
    pub path: Seq<char>,
    pub file_name: Seq<char>,
    pub is_file: bool,
}

impl View for AssetEntry {
    type V = AssetEntryView;

    open spec fn view(&self) -> AssetEntryView {
        AssetEntryView { path: self.path@, file_name: self.file_name@, is_file: self.is_file }
    }
}

/// Views of a sequence of entries.
pub open spec fn entry_views(s: Seq<AssetEntry>) -> Seq<AssetEntryView> {
    s.map_values(|e: AssetEntry| e@)
}

/// An entry is selected when it is a plain file named like an asset.
pub open spec fn is_match(e: AssetEntryView) -> bool {
    e.is_file && is_asset_name(e.file_name)
}

/// The matching entries of a listing, in listing order.
pub open spec fn matched_entries(entries: Seq<AssetEntryView>) -> Seq<AssetEntryView>
    decreases entries.len(),
{
    if entries.len() == 0 {
        Seq::empty()
    } else if is_match(entries.first()) {
        seq![entries.first()] + matched_entries(entries.drop_first())
    } else {
        matched_entries(entries.drop_first())
    }
}

/// Every selected entry matches and comes from the listing, and every
/// matching entry of the listing is selected.
pub proof fn lemma_matched_entries_characterization(entries: Seq<AssetEntryView>)
    ensures
        forall|i: int|
            0 <= i < matched_entries(entries).len() ==> {
                &&& is_match(#[trigger] matched_entries(entries)[i])
                &&& entries.contains(matched_entries(entries)[i])
            },
        forall|i: int|
            0 <= i < entries.len() && is_match(#[trigger] entries[i]) ==> matched_entries(
                entries,
            ).contains(entries[i]),
    decreases entries.len(),
{
    if entries.len() > 0 {
        let rest = entries.drop_first();
        lemma_matched_entries_characterization(rest);
        assert forall|i: int| 0 <= i < matched_entries(entries).len() implies {
            &&& is_match(#[trigger] matched_entries(entries)[i])
            &&& entries.contains(matched_entries(entries)[i])
        } by {
            let m = matched_entries(entries);
            if is_match(entries.first()) {
                if i == 0 {
                    assert(m[0] == entries.first());
                    assert(entries[0] == entries.first());
                } else {
                    assert(m[i] == matched_entries(rest)[i - 1]);
                    let j = choose|j: int| 0 <= j < rest.len() && rest[j] == m[i];
                    assert(entries[j + 1] == m[i]);
                }
            } else {
                assert(m[i] == matched_entries(rest)[i]);
                let j = choose|j: int| 0 <= j < rest.len() && rest[j] == m[i];
                assert(entries[j + 1] == m[i]);
            }
        }
        assert forall|i: int|
            0 <= i < entries.len() && is_match(#[trigger] entries[i]) implies matched_entries(
            entries,
        ).contains(entries[i]) by {
            let m = matched_entries(entries);
            if i == 0 {
                assert(is_match(entries.first()));
                assert(m[0] == entries.first());
            } else {
                assert(rest[i - 1] == entries[i]);
                let j = choose|j: int|
                    0 <= j < matched_entries(rest).len() && matched_entries(rest)[j] == entries[i];
                if is_match(entries.first()) {
                    assert(m[j + 1] == entries[i]);
                } else {
                    assert(m[j] == entries[i]);
                }
            }
        }
    }
}

/// Selects the assets of a listing, keeping listing order.
pub fn locate(entries: Vec<AssetEntry>) -> (r: Vec<AssetEntry>)
    ensures
        entry_views(r@) == matched_entries(entry_views(entries@)),
{
    let ghost all = entry_views(entries@);
    let mut rest = entries;
    let mut r: Vec<AssetEntry> = Vec::new();
    while rest.len() > 0
        invariant
            entry_views(r@) + matched_entries(entry_views(rest@)) == matched_entries(all),
        decreases rest.len(),
    {
        let ghost old_r = r@;
        let ghost rv = entry_views(rest@);
        let e = rest.remove(0);
        proof {
            assert(rv.first() == e@);
            assert(entry_views(rest@) =~= rv.drop_first());
        }
        let keep = e.is_file && name_matches(e.file_name.as_str());
        if keep {
            r.push(e);
        }
        proof {
            if keep {
                assert(matched_entries(rv) == seq![rv.first()] + matched_entries(rv.drop_first()));
                assert(entry_views(r@) =~= entry_views(old_r).push(e@));
                assert(entry_views(r@) + matched_entries(entry_views(rest@)) =~= entry_views(old_r)
                    + matched_entries(rv));
            } else {
                assert(matched_entries(rv) == matched_entries(rv.drop_first()));
            }
        }
    }
    proof {
        assert(entry_views(rest@) =~= Seq::<AssetEntryView>::empty());
        assert(entry_views(r@) =~= entry_views(r@) + matched_entries(entry_views(rest@)));
    }
    r
}

/// Existence probe of the locator: succeeds as soon as one matching asset
/// stands in the listing, and reports the empty-match condition otherwise.
pub fn verify_has_source_files(entries: &Vec<AssetEntry>) -> (r: Result<(), crate::orchestrator::BackupError>)
    ensures
        r is Ok <==> matched_entries(entry_views(entries@)).len() > 0,
        r is Err ==> r == Err::<(), crate::orchestrator::BackupError>(
            crate::orchestrator::BackupError::NoFilesToBackup,
        ),
{
    let n = entries.len();
    let mut i: usize = 0;
    while i < n
        invariant
            i <= n,
            n == entries@.len(),
            forall|k: int| 0 <= k < i ==> !is_match(#[trigger] entry_views(entries@)[k]),
        decreases n - i,
    {
        if entries[i].is_file && name_matches(entries[i].file_name.as_str()) {
            proof {
                lemma_matched_entries_characterization(entry_views(entries@));
                assert(entry_views(entries@)[i as int] == entries@[i as int]@);
                assert(is_match(entry_views(entries@)[i as int]));
                assert(matched_entries(entry_views(entries@)).contains(
                    entry_views(entries@)[i as int],
                ));
            }
            return Ok(());
        }
        proof {
            assert(entry_views(entries@)[i as int] == entries@[i as int]@);
        }
        i = i + 1;
    }
    proof {
        lemma_matched_entries_characterization(entry_views(entries@));
        let m = matched_entries(entry_views(entries@));
        if m.len() > 0 {
            assert(is_match(m[0]));
            assert(entry_views(entries@).contains(m[0]));
        }
    }
    Err(crate::orchestrator::BackupError::NoFilesToBackup)
}

} // verus!
