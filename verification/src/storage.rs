//! Disk usage of installed models: the storage report, partial downloads,
//! directories no model owns, and stale partial files.
use vstd::prelude::*;

use crate::text::{chars_of, ends_with, ends_with_chars};

verus! {

broadcast use vstd::string::group_string_axioms;

/// Disk usage of one installed model.
#[derive(Clone, Debug)]
pub struct ModelStorageInfo {
    pub model_id: String,
    pub model_name: String,
    pub size_bytes: u64,
    pub path: String,
    /// Last use, in seconds since the Unix epoch.
    pub last_used: Option<i64>,
}

/// A partial download found in a model directory.
#[derive(Clone, Debug)]
pub struct PartialDownloadInfo {
    pub model_id: String,
    pub filename: String,
    pub bytes_downloaded: u64,
    pub path: String,
}

/// Overall storage report.
#[derive(Clone, Debug)]
pub struct StorageReport {
    pub total_bytes: u64,
    pub models: Vec<ModelStorageInfo>,
    pub partial_downloads: Vec<PartialDownloadInfo>,
    pub orphaned_files: Vec<String>,
}

/// A file found in a model directory.
#[derive(Clone, Debug)]
pub struct ScannedFile {
    pub name: String,
    pub size: u64,
    pub path: String,
}

/// A directory found in the models directory, with its files.
#[derive(Clone, Debug)]
pub struct ScannedDir {
    pub path: String,
    pub name: String,
    pub files: Vec<ScannedFile>,
}

/// Total size of the models.
pub open spec fn total_size(models: Seq<ModelStorageInfo>) -> nat
    decreases models.len(),
{
    if models.len() == 0 {
        0
    } else {
        total_size(models.drop_last()) + models.last().size_bytes as nat
    }
}

/// `m` placed into a list sorted by decreasing size, after every model at
/// least as large.
pub open spec fn insert_by_size(sorted: Seq<ModelStorageInfo>, m: ModelStorageInfo) -> Seq<
    ModelStorageInfo,
>
    decreases sorted.len(),
{
    if sorted.len() == 0 {
        seq![m]
    } else if sorted.last().size_bytes >= m.size_bytes {
        sorted.push(m)
    } else {
        insert_by_size(sorted.drop_last(), m).push(sorted.last())
    }
}

/// The models sorted by decreasing size, keeping the given order among
/// models of equal size (a stable sort).
pub open spec fn sorted_by_size(models: Seq<ModelStorageInfo>) -> Seq<ModelStorageInfo>
    decreases models.len(),
{
    if models.len() == 0 {
        Seq::empty()
    } else {
        insert_by_size(sorted_by_size(models.drop_last()), models.last())
    }
}

/// Names whether two path strings denote the same `std::path::Path`.
pub uninterp spec fn paths_equal(a: Seq<char>, b: Seq<char>) -> bool;

/// `std::path::Path` equality of two path strings. `Path` compares paths
/// component by component (so `a/b/` and `a/b` are equal); identical strings
/// are always equal paths.
#[verifier::external_body]
fn same_path(a: &str, b: &str) -> (r: bool)
    ensures
        r == paths_equal(a@, b@),
        a@ == b@ ==> r,
{
    std::path::Path::new(a) == std::path::Path::new(b)
}

/// The directory's path is, as a `Path`, that of an installed model.
pub open spec fn is_tracked(models: Seq<ModelStorageInfo>, path: Seq<char>) -> bool {
    exists|i: int| 0 <= i < models.len() && paths_equal((#[trigger] models[i]).path@, path)
}

/// The file is a partial download.
pub open spec fn is_partial_file(f: ScannedFile) -> bool {
    ends_with(f.name@, ".partial"@)
}

/// The partial downloads of one directory, in listing order.
pub open spec fn partials_in(d: ScannedDir) -> Seq<ScannedFile> {
    d.files@.filter(partial_pred())
}

/// Holds of partial-download files.
pub open spec fn partial_pred() -> spec_fn(ScannedFile) -> bool {
    |f: ScannedFile| is_partial_file(f)
}

/// The partial downloads of the directories no installed model owns, in
/// scan order, as (directory name, file) pairs.
pub open spec fn untracked_partials(models: Seq<ModelStorageInfo>, dirs: Seq<ScannedDir>) -> Seq<
    (Seq<char>, ScannedFile),
>
    decreases dirs.len(),
{
    if dirs.len() == 0 {
        Seq::empty()
    } else {
        let rest = untracked_partials(models, dirs.drop_last());
        let d = dirs.last();
        if is_tracked(models, d.path@) {
            rest
        } else {
            rest + partials_in(d).map_values(|f: ScannedFile| (d.name@, f))
        }
    }
}

/// The directories no installed model owns and that hold no partial
/// download, in scan order.
pub open spec fn orphan_dirs(models: Seq<ModelStorageInfo>, dirs: Seq<ScannedDir>) -> Seq<
    Seq<char>,
>
    decreases dirs.len(),
{
    if dirs.len() == 0 {
        Seq::empty()
    } else {
        let rest = orphan_dirs(models, dirs.drop_last());
        let d = dirs.last();
        if !is_tracked(models, d.path@) && partials_in(d).len() == 0 {
            rest.push(d.path@)
        } else {
            rest
        }
    }
}

/// The partial download record of a file.
pub open spec fn partial_record_matches(p: PartialDownloadInfo, dir_name: Seq<char>, f: ScannedFile) -> bool {
    &&& p.model_id@ == dir_name
    &&& p.filename == f.name
    &&& p.bytes_downloaded == f.size
    &&& p.path == f.path
}

fn path_is_tracked(models: &Vec<ModelStorageInfo>, path: &str) -> (r: bool)
    ensures
        r == is_tracked(models@, path@),
{
    let mut i: usize = 0;
    while i < models.len()
        invariant
            i <= models@.len(),
            forall|j: int| 0 <= j < i ==> !paths_equal((#[trigger] models@[j]).path@, path@),
        decreases models@.len() - i,
    {
        if same_path(models[i].path.as_str(), path) {
            return true;
        }
        i = i + 1;
    }
    false
}

fn copy_model(m: &ModelStorageInfo) -> (r: ModelStorageInfo)
    ensures
        r == *m,
{
    ModelStorageInfo {
        model_id: m.model_id.clone(),
        model_name: m.model_name.clone(),
        size_bytes: m.size_bytes,
        path: m.path.clone(),
        last_used: m.last_used,
    }
}

/// Insert `m` into a list sorted by decreasing size, after the models at
/// least as large.
fn insert_sorted(sorted: &mut Vec<ModelStorageInfo>, m: ModelStorageInfo)
    ensures
        final(sorted)@ == insert_by_size(old(sorted)@, m),
{
    let ghost s0 = sorted@;
    let mut k: usize = sorted.len();
    proof {
        assert(s0.take(s0.len() as int) =~= s0);
        assert(insert_by_size(s0, m) + s0.skip(s0.len() as int) =~= insert_by_size(s0, m));
    }
    while k > 0 && sorted[k - 1].size_bytes < m.size_bytes
        invariant
            k <= s0.len(),
            sorted@ == s0,
            insert_by_size(s0, m) == insert_by_size(s0.take(k as int), m) + s0.skip(k as int),
        decreases k,
    {
        proof {
            let t = s0.take(k as int);
            assert(t.drop_last() =~= s0.take(k - 1));
            assert(t.last() == s0[k - 1]);
            assert(s0.skip(k - 1) =~= seq![s0[k - 1]] + s0.skip(k as int));
            assert(insert_by_size(t, m) == insert_by_size(s0.take(k - 1), m).push(s0[k - 1]));
            assert(insert_by_size(s0.take(k - 1), m).push(s0[k - 1]) + s0.skip(k as int)
                =~= insert_by_size(s0.take(k - 1), m) + s0.skip(k - 1));
        }
        k = k - 1;
    }
    proof {
        let t = s0.take(k as int);
        if k > 0 {
            assert(t.last() == s0[k - 1]);
            assert(insert_by_size(t, m) == t.push(m));
        } else {
            assert(insert_by_size(t, m) == seq![m]);
        }
        assert(t.push(m) + s0.skip(k as int) =~= s0.insert(k as int, m));
    }
    sorted.insert(k, m);
}

/// Build the storage report from the installed models (in index order) and
/// the directories found in the models directory (in scan order).
///
/// Models are listed largest first, and their sizes add up to the total.
/// A directory that no installed model owns either holds partial downloads
/// (files ending in `.partial`), which are listed, or is an orphan.
pub fn storage_report(installed: &Vec<ModelStorageInfo>, dirs: &Vec<ScannedDir>) -> (r: StorageReport)
    requires
        total_size(installed@) <= u64::MAX,
    ensures
        r.total_bytes == total_size(installed@),
        r.models@ == sorted_by_size(installed@),
        r.partial_downloads@.len() == untracked_partials(installed@, dirs@).len(),
        forall|k: int|
            0 <= k < r.partial_downloads@.len() ==> partial_record_matches(
                #[trigger] r.partial_downloads@[k],
                untracked_partials(installed@, dirs@)[k].0,
                untracked_partials(installed@, dirs@)[k].1,
            ),
        r.orphaned_files@.map_values(|p: String| p@) == orphan_dirs(installed@, dirs@),
{
    let mut total: u64 = 0;
    let mut models: Vec<ModelStorageInfo> = Vec::new();
    let mut i: usize = 0;
    while i < installed.len()
        invariant
            i <= installed@.len(),
            total_size(installed@) <= u64::MAX,
            total == total_size(installed@.take(i as int)),
            models@ == sorted_by_size(installed@.take(i as int)),
        decreases installed@.len() - i,
    {
        proof {
            assert(installed@.take(i + 1).drop_last() =~= installed@.take(i as int));
            lemma_total_size_prefix(installed@, i + 1);
        }
        total = total + installed[i].size_bytes;
        insert_sorted(&mut models, copy_model(&installed[i]));
        i = i + 1;
    }
    proof {
        assert(installed@.take(installed@.len() as int) =~= installed@);
    }
    let suffix = chars_of(".partial");
    let mut partials: Vec<PartialDownloadInfo> = Vec::new();
    let mut orphans: Vec<String> = Vec::new();
    let mut d: usize = 0;
    while d < dirs.len()
        invariant
            d <= dirs@.len(),
            suffix@ == ".partial"@,
            partials@.len() == untracked_partials(installed@, dirs@.take(d as int)).len(),
            forall|k: int|
                0 <= k < partials@.len() ==> partial_record_matches(
                    #[trigger] partials@[k],
                    untracked_partials(installed@, dirs@.take(d as int))[k].0,
                    untracked_partials(installed@, dirs@.take(d as int))[k].1,
                ),
            orphans@.map_values(|p: String| p@) == orphan_dirs(installed@, dirs@.take(d as int)),
        decreases dirs@.len() - d,
    {
        let dir = &dirs[d];
        proof {
            assert(dirs@.take(d + 1).drop_last() =~= dirs@.take(d as int));
            assert(dirs@.take(d + 1).last() == dirs@[d as int]);
        }
        let ghost before = partials@;
        let ghost prev = untracked_partials(installed@, dirs@.take(d as int));
        if !path_is_tracked(installed, dir.path.as_str()) {
            let mut j: usize = 0;
            let mut found: usize = 0;
            while j < dir.files.len()
                invariant
                    j <= dir.files@.len(),
                    suffix@ == ".partial"@,
                    partials@.len() == before.len() + found,
                    found == dir.files@.take(j as int).filter(partial_pred()).len(),
                    forall|k: int| 0 <= k < before.len() ==> partials@[k] == before[k],
                    before.len() == prev.len(),
                    forall|k: int|
                        0 <= k < before.len() ==> partial_record_matches(
                            #[trigger] before[k],
                            prev[k].0,
                            prev[k].1,
                        ),
                    forall|k: int|
                        0 <= k < found ==> partial_record_matches(
                            #[trigger] partials@[before.len() + k],
                            dir.name@,
                            dir.files@.take(j as int).filter(partial_pred())[k],
                        ),
                decreases dir.files@.len() - j,
            {
                let f = &dir.files[j];
                proof {
                    assert(dir.files@.take(j + 1).drop_last() =~= dir.files@.take(j as int));
                    assert(dir.files@.take(j + 1).last() == dir.files@[j as int]);
                    reveal(Seq::filter);
                }
                let name = chars_of(f.name.as_str());
                if ends_with_chars(&name, &suffix) {
                    partials.push(
                        PartialDownloadInfo {
                            model_id: dir.name.clone(),
                            filename: f.name.clone(),
                            bytes_downloaded: f.size,
                            path: f.path.clone(),
                        },
                    );
                    found = found + 1;
                }
                j = j + 1;
            }
            proof {
                assert(dir.files@.take(dir.files@.len() as int) =~= dir.files@);
                let added = partials_in(dirs@[d as int]).map_values(
                    |f: ScannedFile| (dirs@[d as int].name@, f),
                );
                assert(untracked_partials(installed@, dirs@.take(d + 1)) == prev + added);
                assert forall|k: int| 0 <= k < partials@.len() implies partial_record_matches(
                    #[trigger] partials@[k],
                    (prev + added)[k].0,
                    (prev + added)[k].1,
                ) by {
                    if k >= before.len() {
                        assert((prev + added)[k] == added[k - before.len()]);
                        assert(partial_record_matches(partials@[before.len() + (k - before.len())], dir.name@, partials_in(dirs@[d as int])[k - before.len()]));
                    } else {
                        assert(partials@[k] == before[k]);
                    }
                }
            }
            if found == 0 {
                let ghost ob = orphans@;
                orphans.push(dir.path.clone());
                proof {
                    assert(orphans@.map_values(|p: String| p@) =~= ob.map_values(|p: String| p@).push(
                        dir.path@,
                    ));
                }
            }
        }
        d = d + 1;
    }
    proof {
        assert(dirs@.take(dirs@.len() as int) =~= dirs@);
    }
    StorageReport { total_bytes: total, models, partial_downloads: partials, orphaned_files: orphans }
}

proof fn lemma_total_size_prefix(models: Seq<ModelStorageInfo>, k: int)
    requires
        0 <= k <= models.len(),
    ensures
        total_size(models.take(k)) <= total_size(models),
    decreases models.len() - k,
{
    if k < models.len() {
        lemma_total_size_prefix(models, k + 1);
        assert(models.take(k + 1).drop_last() =~= models.take(k));
    } else {
        assert(models.take(k) =~= models);
    }
}

/// Directories of the models directory that no installed model owns, in
/// scan order.
pub fn find_orphans(installed: &Vec<ModelStorageInfo>, dir_paths: &Vec<String>) -> (r: Vec<String>)
    ensures
        r@.map_values(|p: String| p@) == dir_paths@.map_values(|p: String| p@).filter(
            |p: Seq<char>| !is_tracked(installed@, p),
        ),
{
    let ghost all = dir_paths@.map_values(|p: String| p@);
    let mut out: Vec<String> = Vec::new();
    let mut i: usize = 0;
    while i < dir_paths.len()
        invariant
            i <= dir_paths@.len(),
            all == dir_paths@.map_values(|p: String| p@),
            out@.map_values(|p: String| p@) == all.take(i as int).filter(
                |p: Seq<char>| !is_tracked(installed@, p),
            ),
        decreases dir_paths@.len() - i,
    {
        proof {
            assert(all.take(i + 1).drop_last() =~= all.take(i as int));
            assert(all.take(i + 1).last() == dir_paths@[i as int]@);
            reveal(Seq::filter);
        }
        if !path_is_tracked(installed, dir_paths[i].as_str()) {
            let ghost ob = out@;
            out.push(dir_paths[i].clone());
            proof {
                assert(out@.map_values(|p: String| p@) =~= ob.map_values(|p: String| p@).push(
                    dir_paths@[i as int]@,
                ));
            }
        }
        i = i + 1;
    }
    proof {
        assert(all.take(dir_paths@.len() as int) =~= all);
    }
    out
}

/// A file left by an unfinished download: its data (`.partial`) or its
/// resume record (`.partial.meta`).
pub open spec fn is_partial_artifact(name: Seq<char>) -> bool {
    ends_with(name, ".partial"@) || ends_with(name, ".partial.meta"@)
}

/// A file of a model directory, with its modification time in nanoseconds
/// since the Unix epoch when it could be read.
#[derive(Clone, Debug)]
pub struct TimedFile {
    pub name: String,
    pub path: String,
    pub modified_nanos: Option<u128>,
}

/// The file is an unfinished download last modified before the cutoff.
pub open spec fn is_stale_partial(f: TimedFile, cutoff: u128) -> bool {
    is_partial_artifact(f.name@) && (f.modified_nanos matches Some(t) && t < cutoff)
}

/// The unfinished-download files modified before the cutoff, in listing
/// order: the files that cleaning up removes.
pub fn stale_partial_files(files: &Vec<TimedFile>, cutoff_nanos: u128) -> (r: Vec<String>)
    ensures
        r@.map_values(|p: String| p@) == files@.filter(|f: TimedFile| is_stale_partial(f, cutoff_nanos)).map_values(
            |f: TimedFile| f.path@,
        ),
{
    let partial = chars_of(".partial");
    let meta = chars_of(".partial.meta");
    let mut out: Vec<String> = Vec::new();
    let mut i: usize = 0;
    while i < files.len()
        invariant
            i <= files@.len(),
            partial@ == ".partial"@,
            meta@ == ".partial.meta"@,
            out@.map_values(|p: String| p@) == files@.take(i as int).filter(
                |f: TimedFile| is_stale_partial(f, cutoff_nanos),
            ).map_values(|f: TimedFile| f.path@),
        decreases files@.len() - i,
    {
        proof {
            assert(files@.take(i + 1).drop_last() =~= files@.take(i as int));
            assert(files@.take(i + 1).last() == files@[i as int]);
            reveal(Seq::filter);
        }
        let f = &files[i];
        let name = chars_of(f.name.as_str());
        let is_artifact = ends_with_chars(&name, &partial) || ends_with_chars(&name, &meta);
        let old_enough = match f.modified_nanos {
            Some(t) => t < cutoff_nanos,
            None => false,
        };
        let ghost before = out@;
        let ghost kept = files@.take(i as int).filter(|f: TimedFile| is_stale_partial(f, cutoff_nanos));
        if is_artifact && old_enough {
            out.push(f.path.clone());
            proof {
                assert(out@.map_values(|p: String| p@) =~= before.map_values(|p: String| p@).push(
                    f.path@,
                ));
                assert(kept.push(files@[i as int]).map_values(|f: TimedFile| f.path@) =~= kept.map_values(
                    |f: TimedFile| f.path@,
                ).push(f.path@));
            }
        }
        i = i + 1;
    }
    proof {
        assert(files@.take(files@.len() as int) =~= files@);
    }
    out
}

/// The file is a resume record of a partial download.
pub fn is_partial_meta_name(name: &str) -> (r: bool)
    ensures
        r == ends_with(name@, ".partial.meta"@),
{
    let n = chars_of(name);
    let s = chars_of(".partial.meta");
    ends_with_chars(&n, &s)
}

} // verus!
