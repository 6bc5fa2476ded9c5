//! Model registry rules: the files a repository offers and which one to
//! install, and the errors the registry reports.
use vstd::prelude::*;

use crate::huggingface::{download_url, resolve_url, Quantization};
use crate::paths::{join_path, path_join};
use crate::text::{chars_of, contains, contains_chars, ends_with, ends_with_chars, find_first, join, join_strings, lowercased, occurs_at, replace_char, replace_char_chars, slice_range, string_of, to_lowercase, to_uppercase, uppercased, chars_eq};

verus! {

broadcast use vstd::string::group_string_axioms;

/// A downloadable model file offered by a remote repository.
#[derive(Clone, Debug)]
pub struct RemoteFile {
    pub filename: String,
    pub size_bytes: u64,
    pub sha256: Option<String>,
    pub quantization: Option<Quantization>,
    pub download_url: String,
}

impl RemoteFile {
    /// An identical copy of this file description.
    pub fn duplicate(&self) -> (r: RemoteFile)
        ensures
            r == *self,
    {
        RemoteFile {
            filename: self.filename.clone(),
            size_bytes: self.size_bytes,
            sha256: match &self.sha256 {
                Some(h) => Some(h.clone()),
                None => None,
            },
            quantization: self.quantization,
            download_url: self.download_url.clone(),
        }
    }
}

/// Errors reported by the model registry.
#[derive(Clone, Debug)]
pub enum RegistryError {
    ModelNotFound(String),
    AlreadyInstalled(String),
    NoFilesFound(String),
    DownloadError(String),
    HuggingFaceError(String),
    IndexError(String),
    IntegrityError { path: String, expected: String, actual: String },
}

/// The upper-cased name of a file.
pub open spec fn upper_name(f: RemoteFile) -> Seq<char> {
    uppercased(f.filename@)
}

/// Index `i` is the first file whose upper-cased name contains `pat`.
pub open spec fn is_first_containing(files: Seq<RemoteFile>, pat: Seq<char>, i: int) -> bool {
    &&& 0 <= i < files.len()
    &&& contains(upper_name(files[i]), pat)
    &&& forall|j: int| 0 <= j < i ==> !contains(upper_name(#[trigger] files[j]), pat)
}

/// The first file whose upper-cased name contains `pat`.
pub open spec fn first_containing(files: Seq<RemoteFile>, pat: Seq<char>) -> Option<int> {
    if exists|i: int| is_first_containing(files, pat, i) {
        Some(choose|i: int| is_first_containing(files, pat, i))
    } else {
        None
    }
}

/// Index `i` is the first file named exactly `name`.
pub open spec fn is_first_named(files: Seq<RemoteFile>, name: Seq<char>, i: int) -> bool {
    &&& 0 <= i < files.len()
    &&& files[i].filename@ == name
    &&& forall|j: int| 0 <= j < i ==> (#[trigger] files[j]).filename@ != name
}

/// The first file named exactly `name`.
pub open spec fn first_named(files: Seq<RemoteFile>, name: Seq<char>) -> Option<int> {
    if exists|i: int| is_first_named(files, name, i) {
        Some(choose|i: int| is_first_named(files, name, i))
    } else {
        None
    }
}

/// Number of quantizations preferred when the user states none.
pub const DEFAULT_QUANT_LEN: usize = 6;

/// The quantizations preferred when the user states none, best first.
pub open spec fn default_quant(k: int) -> Seq<char> {
    if k == 0 {
        "Q4_K_M"@
    } else if k == 1 {
        "Q5_K_M"@
    } else if k == 2 {
        "Q4_K_S"@
    } else if k == 3 {
        "Q5_K_S"@
    } else if k == 4 {
        "Q6_K"@
    } else {
        "Q8_0"@
    }
}

fn default_quant_name(k: usize) -> (r: &'static str)
    requires
        k < DEFAULT_QUANT_LEN,
    ensures
        r@ == default_quant(k as int),
{
    match k {
        0 => "Q4_K_M",
        1 => "Q5_K_M",
        2 => "Q4_K_S",
        3 => "Q5_K_S",
        4 => "Q6_K",
        _ => "Q8_0",
    }
}

/// Preference `k` is the best default quantization that some file offers.
pub open spec fn is_first_default(files: Seq<RemoteFile>, k: int) -> bool {
    &&& 0 <= k < DEFAULT_QUANT_LEN
    &&& first_containing(files, default_quant(k)) is Some
    &&& forall|m: int| 0 <= m < k ==> first_containing(files, #[trigger] default_quant(m)) is None
}

/// The file chosen by the default preferences, if any file matches one.
pub open spec fn default_choice(files: Seq<RemoteFile>) -> Option<int> {
    if exists|k: int| is_first_default(files, k) {
        first_containing(files, default_quant(choose|k: int| is_first_default(files, k)))
    } else {
        None
    }
}

/// Index `i` is the first of the smallest files.
pub open spec fn is_first_smallest(files: Seq<RemoteFile>, i: int) -> bool {
    &&& 0 <= i < files.len()
    &&& forall|j: int| 0 <= j < files.len() ==> files[i].size_bytes <= (#[trigger] files[j]).size_bytes
    &&& forall|j: int| 0 <= j < i ==> files[i].size_bytes < (#[trigger] files[j]).size_bytes
}

/// The first of the smallest files, if there are any files.
pub open spec fn smallest(files: Seq<RemoteFile>) -> Option<int> {
    if files.len() > 0 {
        Some(choose|i: int| is_first_smallest(files, i))
    } else {
        None
    }
}

/// The form a quantization preference is matched in: upper case, with `-`
/// read as `_`.
pub open spec fn quant_key(q: Seq<char>) -> Seq<char> {
    replace_char(uppercased(q), '-', '_')
}

/// The message for a requested file that the repository does not offer.
pub open spec fn file_not_found_message(name: Seq<char>, files: Seq<RemoteFile>) -> Seq<char> {
    "File '"@ + name + "' not found. Available: "@ + join(
        files.map_values(|f: RemoteFile| f.filename@),
        ", "@,
    )
}

/// Which file to install: the index chosen, or the message of the
/// `NoFilesFound` error.
///
/// A requested file name must match exactly. Otherwise a requested
/// quantization picks the first file that names it; failing that, the
/// default preferences apply, best first; failing those, the first of the
/// smallest files.
pub open spec fn pick_choice(
    files: Seq<RemoteFile>,
    quant: Option<Seq<char>>,
    file: Option<Seq<char>>,
) -> Result<int, Seq<char>> {
    match file {
        Some(name) => match first_named(files, name) {
            Some(i) => Ok(i),
            None => Err(file_not_found_message(name, files)),
        },
        None => {
            let by_quant = match quant {
                Some(q) => first_containing(files, quant_key(q)),
                None => None,
            };
            match by_quant {
                Some(i) => Ok(i),
                None => match default_choice(files) {
                    Some(i) => Ok(i),
                    None => match smallest(files) {
                        Some(i) => Ok(i),
                        None => Err("No files available"@),
                    },
                },
            }
        },
    }
}

proof fn lemma_first_containing_is(files: Seq<RemoteFile>, pat: Seq<char>, i: int)
    requires
        is_first_containing(files, pat, i),
    ensures
        first_containing(files, pat) == Some(i),
{
    let k = choose|k: int| is_first_containing(files, pat, k);
    if k < i {
        assert(!contains(upper_name(files[k]), pat));
    } else if i < k {
        assert(!contains(upper_name(files[i]), pat));
    }
}

/// With neither a file nor a quantization requested, the first file whose
/// name (in any case) contains `Q4_K_M` is chosen; when no file does, the
/// first one containing `Q5_K_M`.
pub proof fn default_prefers_q4_k_m_then_q5_k_m(files: Seq<RemoteFile>, i: int)
    requires
        0 <= i < files.len(),
    ensures
        contains(uppercased(files[i].filename@), "Q4_K_M"@) && (forall|j: int|
            0 <= j < i ==> !contains(uppercased((#[trigger] files[j]).filename@), "Q4_K_M"@))
            ==> pick_choice(files, None, None) == Ok::<int, Seq<char>>(i),
        (forall|j: int|
            0 <= j < files.len() ==> !contains(uppercased((#[trigger] files[j]).filename@), "Q4_K_M"@))
            && contains(uppercased(files[i].filename@), "Q5_K_M"@) && (forall|j: int|
            0 <= j < i ==> !contains(uppercased((#[trigger] files[j]).filename@), "Q5_K_M"@))
            ==> pick_choice(files, None, None) == Ok::<int, Seq<char>>(i),
{
    if contains(uppercased(files[i].filename@), "Q4_K_M"@) && (forall|j: int|
        0 <= j < i ==> !contains(uppercased((#[trigger] files[j]).filename@), "Q4_K_M"@)) {
        assert(is_first_containing(files, default_quant(0), i));
        lemma_first_containing_is(files, default_quant(0), i);
        assert(is_first_default(files, 0));
        let k = choose|k: int| is_first_default(files, k);
        if k > 0 {
            assert(first_containing(files, default_quant(0)) is None);
        }
    }
    if (forall|j: int|
        0 <= j < files.len() ==> !contains(uppercased((#[trigger] files[j]).filename@), "Q4_K_M"@))
        && contains(uppercased(files[i].filename@), "Q5_K_M"@) && (forall|j: int|
        0 <= j < i ==> !contains(uppercased((#[trigger] files[j]).filename@), "Q5_K_M"@)) {
        assert(first_containing(files, default_quant(0)) is None) by {
            if exists|k: int| is_first_containing(files, default_quant(0), k) {
                let k = choose|k: int| is_first_containing(files, default_quant(0), k);
                assert(!contains(uppercased(files[k].filename@), "Q4_K_M"@));
            }
        }
        assert(is_first_containing(files, default_quant(1), i));
        lemma_first_containing_is(files, default_quant(1), i);
        assert(is_first_default(files, 1));
        let k = choose|k: int| is_first_default(files, k);
        if k > 1 {
            assert(first_containing(files, default_quant(1)) is None);
        }
        if k == 0 {
            assert(first_containing(files, default_quant(0)) is Some);
        }
    }
}

/// The documented order of default quantizations, best first.
pub open spec fn default_order() -> Seq<Seq<char>> {
    seq!["Q4_K_M"@, "Q5_K_M"@, "Q4_K_S"@, "Q5_K_S"@, "Q6_K"@, "Q8_0"@]
}

/// With neither a file nor a quantization requested, the preference order
/// is Q4_K_M, Q5_K_M, Q4_K_S, Q5_K_S, Q6_K, Q8_0: when no file names any of
/// the first `k` of them, the first file naming the next one is chosen.
pub proof fn default_preference_order(files: Seq<RemoteFile>, k: int, i: int)
    requires
        0 <= k < 6,
        0 <= i < files.len(),
        contains(
            uppercased(files[i].filename@),
            default_order()[k],
        ),
        forall|j: int|
            0 <= j < i ==> !contains(
                uppercased((#[trigger] files[j]).filename@),
                default_order()[k],
            ),
        forall|m: int, j: int|
            0 <= m < k && 0 <= j < files.len() ==> !contains(
                uppercased((#[trigger] files[j]).filename@),
                #[trigger] default_order()[m],
            ),
    ensures
        pick_choice(files, None, None) == Ok::<int, Seq<char>>(i),
{
    let order = default_order();
    assert(forall|m: int| 0 <= m < 6 ==> default_quant(m) == #[trigger] order[m]);
    assert(is_first_containing(files, default_quant(k), i));
    lemma_first_containing_is(files, default_quant(k), i);
    assert forall|m: int| 0 <= m < k implies first_containing(files, #[trigger] default_quant(m))
        is None by {
        if exists|j: int| is_first_containing(files, default_quant(m), j) {
            let j = choose|j: int| is_first_containing(files, default_quant(m), j);
            assert(order[m] == default_quant(m));
            assert(!contains(uppercased(files[j].filename@), order[m]));
        }
    }
    assert(is_first_default(files, k));
    let w = choose|w: int| is_first_default(files, w);
    if w < k {
        assert(first_containing(files, default_quant(w)) is None);
    } else if k < w {
        assert(first_containing(files, default_quant(k)) is Some);
    }
}

/// The first file whose upper-cased name contains `pat`.
fn find_containing(files: &[RemoteFile], pat: &Vec<char>) -> (r: Option<usize>)
    ensures
        r == (match first_containing(files@, pat@) {
            Some(i) => Some(i as usize),
            None => None::<usize>,
        }),
        r matches Some(i) ==> i < files@.len(),
{
    let mut i: usize = 0;
    while i < files.len()
        invariant
            i <= files@.len(),
            forall|j: int| 0 <= j < i ==> !contains(upper_name(#[trigger] files@[j]), pat@),
        decreases files@.len() - i,
    {
        let up = to_uppercase(files[i].filename.as_str());
        let upc = chars_of(up.as_str());
        if contains_chars(&upc, pat) {
            proof {
                lemma_first_containing_is(files@, pat@, i as int);
            }
            return Some(i);
        }
        i = i + 1;
    }
    proof {
        if exists|k: int| is_first_containing(files@, pat@, k) {
            let k = choose|k: int| is_first_containing(files@, pat@, k);
            assert(!contains(upper_name(files@[k]), pat@));
        }
    }
    None
}

/// The first file named exactly `name`.
fn find_named(files: &[RemoteFile], name: &str) -> (r: Option<usize>)
    ensures
        r == (match first_named(files@, name@) {
            Some(i) => Some(i as usize),
            None => None::<usize>,
        }),
        r matches Some(i) ==> i < files@.len(),
{
    let nc = chars_of(name);
    let mut i: usize = 0;
    while i < files.len()
        invariant
            i <= files@.len(),
            nc@ == name@,
            forall|j: int| 0 <= j < i ==> (#[trigger] files@[j]).filename@ != name@,
        decreases files@.len() - i,
    {
        let fc = chars_of(files[i].filename.as_str());
        if chars_eq(&fc, &nc) {
            proof {
                assert(is_first_named(files@, name@, i as int));
                let k = choose|k: int| is_first_named(files@, name@, k);
                if k < i {
                    assert(files@[k].filename@ != name@);
                } else if i < k {
                    assert(files@[i as int].filename@ != name@);
                }
            }
            return Some(i);
        }
        i = i + 1;
    }
    proof {
        if exists|k: int| is_first_named(files@, name@, k) {
            let k = choose|k: int| is_first_named(files@, name@, k);
            assert(files@[k].filename@ != name@);
        }
    }
    None
}

/// The file chosen by the default preferences.
fn find_default(files: &[RemoteFile]) -> (r: Option<usize>)
    ensures
        r == (match default_choice(files@) {
            Some(i) => Some(i as usize),
            None => None::<usize>,
        }),
        r matches Some(i) ==> i < files@.len(),
{
    let mut k: usize = 0;
    while k < DEFAULT_QUANT_LEN
        invariant
            k <= DEFAULT_QUANT_LEN,
            forall|m: int| 0 <= m < k ==> first_containing(files@, #[trigger] default_quant(m)) is None,
        decreases DEFAULT_QUANT_LEN - k,
    {
        let pat = chars_of(default_quant_name(k));
        match find_containing(files, &pat) {
            Some(i) => {
                proof {
                    assert(is_first_default(files@, k as int));
                    let w = choose|w: int| is_first_default(files@, w);
                    if w < k {
                        assert(first_containing(files@, default_quant(w)) is None);
                    } else if k < w {
                        assert(first_containing(files@, default_quant(k as int)) is None);
                    }
                }
                return Some(i);
            },
            None => {},
        }
        k = k + 1;
    }
    proof {
        if exists|w: int| is_first_default(files@, w) {
            let w = choose|w: int| is_first_default(files@, w);
            assert(first_containing(files@, default_quant(w)) is None);
        }
    }
    None
}

/// The first of the smallest files (`Iterator::min_by_key`).
fn find_smallest(files: &[RemoteFile]) -> (r: Option<usize>)
    ensures
        r matches Some(i) ==> i < files@.len() && smallest(files@) == Some(i as int),
        r is None ==> smallest(files@) is None,
{
    if files.len() == 0 {
        return None;
    }
    let mut best: usize = 0;
    let mut i: usize = 1;
    while i < files.len()
        invariant
            1 <= i <= files@.len(),
            best < i,
            forall|j: int| 0 <= j < i ==> files@[best as int].size_bytes <= (#[trigger] files@[j]).size_bytes,
            forall|j: int| 0 <= j < best ==> files@[best as int].size_bytes < (#[trigger] files@[j]).size_bytes,
        decreases files@.len() - i,
    {
        if files[i].size_bytes < files[best].size_bytes {
            best = i;
        }
        i = i + 1;
    }
    proof {
        assert(is_first_smallest(files@, best as int));
        let k = choose|k: int| is_first_smallest(files@, k);
        if k < best {
            assert(files@[best as int].size_bytes < files@[k].size_bytes);
        } else if best < k {
            assert(files@[k].size_bytes < files@[best as int].size_bytes);
        }
    }
    Some(best)
}

/// The names of the files, joined by `", "`.
fn file_names(files: &[RemoteFile]) -> (r: String)
    ensures
        r@ == join(files@.map_values(|f: RemoteFile| f.filename@), ", "@),
{
    let mut names: Vec<String> = Vec::new();
    let mut i: usize = 0;
    while i < files.len()
        invariant
            i <= files@.len(),
            names@.len() == i,
            forall|j: int| 0 <= j < i ==> (#[trigger] names@[j])@ == files@[j].filename@,
        decreases files@.len() - i,
    {
        names.push(files[i].filename.clone());
        i = i + 1;
    }
    let r = join_strings(&names, ", ");
    proof {
        assert(names@.map_values(|p: String| p@) =~= files@.map_values(
            |f: RemoteFile| f.filename@,
        ));
    }
    r
}

/// Pick the file to install from those a repository offers, following the
/// user's file or quantization preference, else the default preferences
/// (Q4_K_M first), else the smallest file.
pub fn pick_file(files: &[RemoteFile], quant_preference: Option<&str>, file_preference: Option<
    &str,
>) -> (r: Result<RemoteFile, RegistryError>)
    ensures
        match pick_choice(
            files@,
            match quant_preference {
                Some(q) => Some(q@),
                None => None,
            },
            match file_preference {
                Some(f) => Some(f@),
                None => None,
            },
        ) {
            Ok(i) => r == Ok::<RemoteFile, RegistryError>(files@[i]),
            Err(msg) => r matches Err(RegistryError::NoFilesFound(m)) && m@ == msg,
        },
{
    if let Some(filename) = file_preference {
        match find_named(files, filename) {
            Some(i) => {
                return Ok(files[i].duplicate());
            },
            None => {
                let mut m = "File '".to_owned();
                m.append(filename);
                m.append("' not found. Available: ");
                let names = file_names(files);
                m.append(names.as_str());
                return Err(RegistryError::NoFilesFound(m));
            },
        }
    }
    if let Some(quant_str) = quant_preference {
        let up = to_uppercase(quant_str);
        let upc = chars_of(up.as_str());
        let key = replace_char_chars(&upc, '-', '_');
        match find_containing(files, &key) {
            Some(i) => {
                return Ok(files[i].duplicate());
            },
            None => {},
        }
    }
    match find_default(files) {
        Some(i) => {
            return Ok(files[i].duplicate());
        },
        None => {},
    }
    let ghost qv = match quant_preference {
        Some(q) => Some(q@),
        None => None,
    };
    assert(file_preference is None);
    assert(default_choice(files@) is None);
    assert(match qv {
        Some(q) => first_containing(files@, quant_key(q)),
        None => None,
    } is None);
    match find_smallest(files) {
        Some(i) => Ok(files[i].duplicate()),
        None => Err(RegistryError::NoFilesFound("No files available".to_owned())),
    }
}


/// Names what `std::path::Path::starts_with` says of two paths: whether
/// `base` is a prefix of `p`, compared component by component.
pub uninterp spec fn path_has_prefix(p: Seq<char>, base: Seq<char>) -> bool;

/// `Path::new(p).starts_with(base)`.
#[verifier::external_body]
fn path_starts_with(p: &str, base: &str) -> (r: bool)
    ensures
        r == path_has_prefix(p@, base@),
{
    std::path::Path::new(p).starts_with(base)
}

/// The models directory: the configured one when it is an absolute path
/// (under `/data/` on Android), else the default one, which is known to be
/// writable.
pub fn models_dir_choice(configured: &str, default_dir: &str, on_android: bool) -> (r: String)
    ensures
        r@ == (if !(configured@.len() > 0 && configured@[0] == '/') || (on_android
            && !path_has_prefix(configured@, "/data/"@)) {
            default_dir@
        } else {
            configured@
        }),
{
    let absolute = configured.unicode_len() > 0 && configured.get_char(0) == '/';
    if !absolute || (on_android && !path_starts_with(configured, "/data/")) {
        default_dir.to_owned()
    } else {
        configured.to_owned()
    }
}

/// Where a model id's HuggingFace repository is looked up, in order.
#[derive(Clone, Copy, Debug, PartialEq, Eq)]
pub enum RepoSource {
    /// The local index's record of the model.
    LocalIndex,
    /// The built-in model database.
    BuiltinModels,
    /// The first hit of a HuggingFace search for the id.
    HubSearch,
}

/// The next step of resolving a model id to a repository.
#[derive(Clone, Debug)]
pub enum RepoStep {
    /// The repository.
    Resolved(String),
    /// Look the id up in this source and report what it names.
    Ask(RepoSource),
    /// No source names a repository.
    Unresolved(RegistryError),
}

/// Start resolving a model id: an id with a `/` already names a repository;
/// otherwise ask the local index first.
pub fn resolve_repo_start(model_id: &str) -> (r: RepoStep)
    ensures
        contains(model_id@, "/"@) ==> (r matches RepoStep::Resolved(id) && id@ == model_id@),
        !contains(model_id@, "/"@) ==> r == RepoStep::Ask(RepoSource::LocalIndex),
{
    let c = chars_of(model_id);
    let slash = chars_of("/");
    if contains_chars(&c, &slash) {
        RepoStep::Resolved(model_id.to_owned())
    } else {
        RepoStep::Ask(RepoSource::LocalIndex)
    }
}

/// The message when no source names a repository.
pub open spec fn unresolved_message(model_id: Seq<char>) -> Seq<char> {
    "Could not resolve '"@ + model_id + "' to a HuggingFace repository"@
}

/// After asking `asked`: the repository it named, else the next source,
/// else the id is unresolved.
pub fn resolve_repo_next(model_id: &str, asked: RepoSource, answer: Option<String>) -> (r: RepoStep)
    ensures
        match answer {
            Some(h) => r == RepoStep::Resolved(h),
            None => match asked {
                RepoSource::LocalIndex => r == RepoStep::Ask(RepoSource::BuiltinModels),
                RepoSource::BuiltinModels => r == RepoStep::Ask(RepoSource::HubSearch),
                RepoSource::HubSearch => r matches RepoStep::Unresolved(
                    RegistryError::ModelNotFound(m),
                ) && m@ == unresolved_message(model_id@),
            },
        },
{
    match answer {
        Some(h) => RepoStep::Resolved(h),
        None => match asked {
            RepoSource::LocalIndex => RepoStep::Ask(RepoSource::BuiltinModels),
            RepoSource::BuiltinModels => RepoStep::Ask(RepoSource::HubSearch),
            RepoSource::HubSearch => {
                let mut m = "Could not resolve '".to_owned();
                m.append(model_id);
                m.append("' to a HuggingFace repository");
                RepoStep::Unresolved(RegistryError::ModelNotFound(m))
            },
        },
    }
}

/// A model that is already installed is not installed again.
pub fn check_not_installed(model_id: &str, installed: bool) -> (r: Result<(), RegistryError>)
    ensures
        installed ==> (r matches Err(RegistryError::AlreadyInstalled(id)) && id@ == model_id@),
        !installed ==> r is Ok,
{
    if installed {
        Err(RegistryError::AlreadyInstalled(model_id.to_owned()))
    } else {
        Ok(())
    }
}

/// What an installation downloads, and where.
#[derive(Clone, Debug)]
pub struct InstallPlan {
    /// The model file chosen.
    pub file: RemoteFile,
    /// The model's own directory under the models directory.
    pub model_dir: String,
    /// The repository's tokenizer, fetched beside the model if present.
    pub tokenizer_url: String,
}

/// Plan the installation of `model_id` from repository `repo_id`, given
/// the files the repository offers and the user's preferences.
pub fn plan_install(
    models_dir: &str,
    model_id: &str,
    repo_id: &str,
    files: &[RemoteFile],
    quant_preference: Option<&str>,
    file_preference: Option<&str>,
) -> (r: Result<InstallPlan, RegistryError>)
    ensures
        files@.len() == 0 ==> (r matches Err(RegistryError::NoFilesFound(m)) && m@ == model_id@),
        files@.len() > 0 ==> match pick_choice(
            files@,
            match quant_preference {
                Some(q) => Some(q@),
                None => None,
            },
            match file_preference {
                Some(f) => Some(f@),
                None => None,
            },
        ) {
            Ok(i) => r matches Ok(p) && p.file == files@[i] && p.model_dir@ == path_join(
                models_dir@,
                model_id@,
            ) && p.tokenizer_url@ == resolve_url(repo_id@, "tokenizer.json"@),
            Err(msg) => r matches Err(RegistryError::NoFilesFound(m)) && m@ == msg,
        },
{
    if files.len() == 0 {
        return Err(RegistryError::NoFilesFound(model_id.to_owned()));
    }
    let file = match pick_file(files, quant_preference, file_preference) {
        Ok(f) => f,
        Err(e) => {
            return Err(e);
        },
    };
    Ok(
        InstallPlan {
            file,
            model_dir: join_path(models_dir, model_id),
            tokenizer_url: download_url(repo_id, "tokenizer.json"),
        },
    )
}

/// The error when a name is neither an existing file nor an installed
/// model.
pub fn not_resolvable(model_id_or_path: &str) -> (r: RegistryError)
    ensures
        r matches RegistryError::ModelNotFound(m) && m@ == "'"@ + model_id_or_path@
            + "' is not a file path or installed model. Use `hivebear install "@
            + model_id_or_path@ + "` first."@,
{
    let mut m = "'".to_owned();
    m.append(model_id_or_path);
    m.append("' is not a file path or installed model. Use `hivebear install ");
    m.append(model_id_or_path);
    m.append("` first.");
    RegistryError::ModelNotFound(m)
}

/// Removing a model frees its installed size (nothing if it was only
/// known, not installed); an unknown model is an error.
pub fn removal_freed_bytes(model_id: &str, known: bool, installed_size: Option<u64>) -> (r: Result<
    u64,
    RegistryError,
>)
    ensures
        !known ==> (r matches Err(RegistryError::ModelNotFound(m)) && m@ == model_id@),
        known ==> r == Ok::<u64, RegistryError>(
            match installed_size {
                Some(n) => n,
                None => 0,
            },
        ),
{
    if !known {
        return Err(RegistryError::ModelNotFound(model_id.to_owned()));
    }
    match installed_size {
        Some(n) => Ok(n),
        None => Ok(0),
    }
}


/// An entry of merged search results: a local index hit or a Hub hit, by
/// position in its own list.
#[derive(Clone, Copy, Debug, PartialEq, Eq)]
pub enum SearchSlot {
    Local(usize),
    Hub(usize),
}

/// Whether a Hub hit joins the results: its id is neither among the local
/// hits nor that of an earlier Hub hit.
pub open spec fn hub_hit_kept(local: Seq<Seq<char>>, hub: Seq<Seq<char>>, j: int) -> bool {
    &&& !local.contains(hub[j])
    &&& forall|k: int| 0 <= k < j ==> hub[k] != hub[j]
}

/// The merged results: every local hit in order, then the Hub hits that
/// are kept, in order.
pub open spec fn merged_slots(local: Seq<Seq<char>>, hub: Seq<Seq<char>>) -> Seq<SearchSlot>
    decreases hub.len(),
{
    if hub.len() == 0 {
        Seq::new(local.len(), |i: int| SearchSlot::Local(i as usize))
    } else {
        let rest = merged_slots(local, hub.drop_last());
        if hub_hit_kept(local, hub, hub.len() - 1) {
            rest.push(SearchSlot::Hub((hub.len() - 1) as usize))
        } else {
            rest
        }
    }
}

fn id_in(ids: &Vec<String>, n: usize, id: &str) -> (r: bool)
    requires
        n <= ids@.len(),
    ensures
        r == exists|k: int| 0 <= k < n && ids@[k]@ == id@,
{
    let mut k: usize = 0;
    while k < n
        invariant
            k <= n <= ids@.len(),
            forall|t: int| 0 <= t < k ==> ids@[t]@ != id@,
        decreases n - k,
    {
        if crate::text::str_eq(ids[k].as_str(), id) {
            return true;
        }
        k = k + 1;
    }
    false
}

/// Merge search hits by model id: local hits first, then the Hub hits
/// whose id is not already listed.
pub fn merge_search_hits(local_ids: &Vec<String>, hub_ids: &Vec<String>) -> (r: Vec<SearchSlot>)
    ensures
        r@ == merged_slots(
            local_ids@.map_values(|s: String| s@),
            hub_ids@.map_values(|s: String| s@),
        ),
{
    let ghost lv = local_ids@.map_values(|s: String| s@);
    let ghost hv = hub_ids@.map_values(|s: String| s@);
    let mut r: Vec<SearchSlot> = Vec::new();
    let mut i: usize = 0;
    while i < local_ids.len()
        invariant
            i <= local_ids@.len(),
            r@ == Seq::new(i as nat, |t: int| SearchSlot::Local(t as usize)),
        decreases local_ids@.len() - i,
    {
        r.push(SearchSlot::Local(i));
        proof {
            assert(r@ =~= Seq::new((i + 1) as nat, |t: int| SearchSlot::Local(t as usize)));
        }
        i = i + 1;
    }
    proof {
        assert(hv.take(0) =~= Seq::<Seq<char>>::empty());
        assert(r@ == merged_slots(lv, hv.take(0)));
    }
    let mut j: usize = 0;
    while j < hub_ids.len()
        invariant
            j <= hub_ids@.len(),
            lv == local_ids@.map_values(|s: String| s@),
            hv == hub_ids@.map_values(|s: String| s@),
            r@ == merged_slots(lv, hv.take(j as int)),
        decreases hub_ids@.len() - j,
    {
        let id = hub_ids[j].as_str();
        let in_local = id_in(local_ids, local_ids.len(), id);
        let earlier = id_in(hub_ids, j, id);
        proof {
            let h = hv.take(j + 1);
            assert(h.drop_last() =~= hv.take(j as int));
            assert(h[j as int] == id@);
            assert(lv.contains(id@) == in_local) by {
                if in_local {
                    let k = choose|k: int| 0 <= k < local_ids@.len() && local_ids@[k]@ == id@;
                    assert(lv[k] == id@);
                }
                if lv.contains(id@) {
                    let k = choose|k: int| 0 <= k < lv.len() && lv[k] == id@;
                    assert(local_ids@[k]@ == id@);
                }
            }
            assert((forall|k: int| 0 <= k < j ==> h[k] != h[j as int]) == !earlier) by {
                if earlier {
                    let k = choose|k: int| 0 <= k < j && hub_ids@[k]@ == id@;
                    assert(h[k] == hub_ids@[k]@);
                } else {
                    assert forall|k: int| 0 <= k < j implies h[k] != h[j as int] by {
                        assert(h[k] == hub_ids@[k]@);
                    }
                }
            }
        }
        if !in_local && !earlier {
            r.push(SearchSlot::Hub(j));
        }
        j = j + 1;
    }
    proof {
        assert(hv.take(hub_ids@.len() as int) =~= hv);
    }
    r
}


proof fn lemma_merged_slots(local: Seq<Seq<char>>, hub: Seq<Seq<char>>)
    requires
        local.len() <= usize::MAX,
        hub.len() <= usize::MAX,
    ensures
        merged_slots(local, hub).len() >= local.len(),
        forall|t: int| 0 <= t < local.len() ==> merged_slots(local, hub)[t] == SearchSlot::Local(t as usize),
        forall|t: int|
            local.len() <= t < merged_slots(local, hub).len() ==> ((#[trigger] merged_slots(local, hub)[t]) matches SearchSlot::Hub(j) && 0 <= j < hub.len() && hub_hit_kept(local, hub, j as int)),
        forall|t1: int, t2: int|
            local.len() <= t1 < t2 < merged_slots(local, hub).len() ==> (#[trigger] merged_slots(local, hub)[t1])->Hub_0 < (#[trigger] merged_slots(local, hub)[t2])->Hub_0,
    decreases hub.len(),
{
    if hub.len() > 0 {
        let p = hub.drop_last();
        lemma_merged_slots(local, p);
        assert forall|j: int| 0 <= j < p.len() implies hub_hit_kept(local, p, j) == hub_hit_kept(local, hub, j) by {
            assert(p[j] == hub[j]);
            assert forall|k: int| 0 <= k < j implies p[k] == hub[k] by {}
        }
        let r = merged_slots(local, p);
        let m = merged_slots(local, hub);
        let n = hub.len() - 1;
        if hub_hit_kept(local, hub, n) {
            assert(m == r.push(SearchSlot::Hub(n as usize)));
            assert forall|t: int| 0 <= t < r.len() implies m[t] == r[t] by {}
            assert forall|t: int|
                local.len() <= t < m.len() implies ((#[trigger] m[t]) matches SearchSlot::Hub(j) && 0 <= j < hub.len() && hub_hit_kept(local, hub, j as int)) by {
                if t < r.len() {
                    assert(m[t] == r[t]);
                    let j = r[t]->Hub_0;
                    assert(r[t] matches SearchSlot::Hub(_));
                    assert(0 <= j < p.len() && hub_hit_kept(local, p, j as int));
                    assert(hub_hit_kept(local, hub, j as int));
                } else {
                    assert(m[t] == SearchSlot::Hub(n as usize));
                }
            }
            assert forall|t1: int, t2: int|
                local.len() <= t1 < t2 < m.len() implies (#[trigger] m[t1])->Hub_0 < (#[trigger] m[t2])->Hub_0 by {
                assert(m[t1] == r[t1]);
                assert(r[t1] matches SearchSlot::Hub(_));
                if t2 < r.len() {
                    assert(m[t2] == r[t2]);
                } else {
                    assert(m[t2] == SearchSlot::Hub(n as usize));
                    assert(r[t1]->Hub_0 < p.len());
                }
            }
        } else {
            assert(m == r);
        }
    }
}

/// Merged search results list every local hit first, in order, and then
/// only Hub hits with new ids: no id is listed twice by the Hub, and none
/// repeats a local hit.
pub proof fn merged_results_have_no_duplicate_hub_ids(local: Seq<Seq<char>>, hub: Seq<Seq<char>>, t1: int, t2: int)
    requires
        local.len() <= usize::MAX,
        hub.len() <= usize::MAX,
        local.len() <= t1 < t2 < merged_slots(local, hub).len(),
    ensures
        ({
            let m = merged_slots(local, hub);
            &&& m[t1] matches SearchSlot::Hub(a)
            &&& m[t2] matches SearchSlot::Hub(b)
            &&& hub[a as int] != hub[b as int]
            &&& !local.contains(hub[b as int])
            &&& forall|t: int| 0 <= t < local.len() ==> m[t] == SearchSlot::Local(t as usize)
        }),
{
    lemma_merged_slots(local, hub);
    let m = merged_slots(local, hub);
    assert(m[t1] matches SearchSlot::Hub(_));
    assert(m[t2] matches SearchSlot::Hub(_));
}

} // verus!
