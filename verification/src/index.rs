//! The local index of models the registry knows, and what installing and
//! removing a model do to it.
use vstd::prelude::*;

use crate::huggingface::Quantization;
use crate::registry::{check_not_installed, removal_freed_bytes, InstallPlan, RegistryError};
use crate::text::str_eq;

verus! {

broadcast use vstd::string::group_string_axioms;

/// What the index records of an installed model.
#[derive(Clone, Debug)]
pub struct InstalledInfo {
    /// The model's own directory.
    pub path: String,
    /// The model file inside it.
    pub filename: String,
    pub quantization: Option<Quantization>,
    pub size_bytes: u64,
    pub sha256: Option<String>,
    /// Installation time, RFC 3339.
    pub installed_at: String,
    /// Last use, RFC 3339.
    pub last_used: Option<String>,
}

/// A model known to the index, installed or not.
#[derive(Clone, Debug)]
pub struct IndexedModel {
    pub id: String,
    pub name: String,
    pub huggingface_id: Option<String>,
    pub installed: Option<InstalledInfo>,
}

fn copy_opt_string(o: &Option<String>) -> (r: Option<String>)
    ensures
        r == *o,
{
    match o {
        Some(s) => Some(s.clone()),
        None => None,
    }
}

impl InstalledInfo {
    /// An identical copy.
    pub fn duplicate(&self) -> (r: InstalledInfo)
        ensures
            r == *self,
    {
        InstalledInfo {
            path: self.path.clone(),
            filename: self.filename.clone(),
            quantization: self.quantization,
            size_bytes: self.size_bytes,
            sha256: copy_opt_string(&self.sha256),
            installed_at: self.installed_at.clone(),
            last_used: copy_opt_string(&self.last_used),
        }
    }
}

impl IndexedModel {
    /// An identical copy.
    pub fn duplicate(&self) -> (r: IndexedModel)
        ensures
            r == *self,
    {
        IndexedModel {
            id: self.id.clone(),
            name: self.name.clone(),
            huggingface_id: copy_opt_string(&self.huggingface_id),
            installed: match &self.installed {
                Some(i) => Some(i.duplicate()),
                None => None,
            },
        }
    }
}

/// No model id occurs twice.
pub open spec fn ids_distinct(s: Seq<IndexedModel>) -> bool {
    forall|i: int, j: int| 0 <= i < j < s.len() ==> (#[trigger] s[i]).id@ != (#[trigger] s[j]).id@
}

/// Some entry has the id.
pub open spec fn has_id(s: Seq<IndexedModel>, id: Seq<char>) -> bool {
    exists|i: int| 0 <= i < s.len() && (#[trigger] s[i]).id@ == id
}

/// The position of the entry with the id (meaningful when there is one).
pub open spec fn position_of(s: Seq<IndexedModel>, id: Seq<char>) -> int {
    choose|i: int| 0 <= i < s.len() && (#[trigger] s[i]).id@ == id
}

/// The entry with the id, if any.
pub open spec fn entry(s: Seq<IndexedModel>, id: Seq<char>) -> Option<IndexedModel> {
    if has_id(s, id) {
        Some(s[position_of(s, id)])
    } else {
        None
    }
}

/// The model with the id is installed.
pub open spec fn installed_in(s: Seq<IndexedModel>, id: Seq<char>) -> bool {
    entry(s, id) matches Some(e) && e.installed is Some
}

/// The entries after adding `m`: it replaces the entry with its id, in
/// place, or comes last.
pub open spec fn with_model(s: Seq<IndexedModel>, m: IndexedModel) -> Seq<IndexedModel> {
    if has_id(s, m.id@) {
        s.update(position_of(s, m.id@), m)
    } else {
        s.push(m)
    }
}

/// Holds of entries whose id differs from `id`.
pub open spec fn other_id(id: Seq<char>) -> spec_fn(IndexedModel) -> bool {
    |e: IndexedModel| e.id@ != id
}

/// The entries without the one with the id.
pub open spec fn without_id(s: Seq<IndexedModel>, id: Seq<char>) -> Seq<IndexedModel> {
    s.filter(other_id(id))
}

/// Holds of installed entries.
pub open spec fn is_installed_entry() -> spec_fn(IndexedModel) -> bool {
    |e: IndexedModel| e.installed is Some
}

/// The installed models, in index order.
pub open spec fn installed_models(s: Seq<IndexedModel>) -> Seq<IndexedModel> {
    s.filter(is_installed_entry())
}

proof fn lemma_position_unique(s: Seq<IndexedModel>, id: Seq<char>, i: int)
    requires
        ids_distinct(s),
        0 <= i < s.len(),
        s[i].id@ == id,
    ensures
        has_id(s, id),
        position_of(s, id) == i,
{
    assert(has_id(s, id));
    let w = position_of(s, id);
    if w < i {
        assert(s[w].id@ != s[i].id@);
    } else if i < w {
        assert(s[i].id@ != s[w].id@);
    }
}

/// The local index: the models the registry knows, each id once, in the
/// order they were first added.
pub struct LocalIndex {
    models: Vec<IndexedModel>,
}

impl LocalIndex {
    /// The entries, in order.
    pub closed spec fn entries(&self) -> Seq<IndexedModel> {
        self.models@
    }

    #[verifier::type_invariant]
    closed spec fn well_formed(&self) -> bool {
        ids_distinct(self.models@)
    }

    /// An empty index.
    pub fn new() -> (r: LocalIndex)
        ensures
            r.entries() == Seq::<IndexedModel>::empty(),
            ids_distinct(r.entries()),
    {
        LocalIndex { models: Vec::new() }
    }

    fn position(&self, id: &str) -> (r: Option<usize>)
        ensures
            match r {
                Some(i) => i < self.entries().len() && self.entries()[i as int].id@ == id@,
                None => !has_id(self.entries(), id@),
            },
    {
        let mut i: usize = 0;
        while i < self.models.len()
            invariant
                i <= self.models@.len(),
                forall|j: int| 0 <= j < i ==> (#[trigger] self.models@[j]).id@ != id@,
            decreases self.models@.len() - i,
        {
            if str_eq(self.models[i].id.as_str(), id) {
                return Some(i);
            }
            i = i + 1;
        }
        None
    }

    /// The entry with the id, copied out, if any.
    pub fn find(&self, id: &str) -> (r: Option<IndexedModel>)
        ensures
            r == entry(self.entries(), id@),
    {
        proof {
            use_type_invariant(self);
        }
        match self.position(id) {
            Some(i) => {
                proof {
                    lemma_position_unique(self.entries(), id@, i as int);
                }
                Some(self.models[i].duplicate())
            },
            None => None,
        }
    }

    /// Add a model: it replaces the entry with its id, or comes last.
    pub fn add(&mut self, m: IndexedModel)
        ensures
            final(self).entries() == with_model(old(self).entries(), m),
            ids_distinct(final(self).entries()),
    {
        proof {
            use_type_invariant(&*self);
        }
        let ghost s = self.entries();
        match self.position(m.id.as_str()) {
            Some(i) => {
                proof {
                    lemma_position_unique(s, m.id@, i as int);
                }
                let mut models: Vec<IndexedModel> = Vec::new();
                core::mem::swap(&mut models, &mut self.models);
                models.set(i, m);
                proof {
                    assert(models@ == s.update(i as int, m));
                    assert forall|a: int, b: int| 0 <= a < b < models@.len() implies (
                    #[trigger] models@[a]).id@ != (#[trigger] models@[b]).id@ by {
                        if a != i && b != i {
                            assert(models@[a] == s[a] && models@[b] == s[b]);
                        } else if a == i {
                            assert(models@[b] == s[b]);
                            assert(s[a].id@ != s[b].id@);
                        } else {
                            assert(models@[a] == s[a]);
                            assert(s[a].id@ != s[b].id@);
                        }
                    }
                }
                self.models = models;
            },
            None => {
                let mut models: Vec<IndexedModel> = Vec::new();
                core::mem::swap(&mut models, &mut self.models);
                models.push(m);
                proof {
                    assert forall|a: int, b: int| 0 <= a < b < models@.len() implies (
                    #[trigger] models@[a]).id@ != (#[trigger] models@[b]).id@ by {
                        assert(models@[a] == s[a]);
                        if b == s.len() {
                            assert(s[a].id@ != m.id@);
                        } else {
                            assert(models@[b] == s[b]);
                        }
                    }
                }
                self.models = models;
            },
        }
    }

    /// Remove the entry with the id, if any.
    pub fn remove(&mut self, id: &str)
        ensures
            final(self).entries() == without_id(old(self).entries(), id@),
            ids_distinct(final(self).entries()),
    {
        proof {
            use_type_invariant(&*self);
        }
        let ghost s = self.entries();
        let mut kept: Vec<IndexedModel> = Vec::new();
        let ghost mut src: Seq<int> = Seq::empty();
        let mut i: usize = 0;
        while i < self.models.len()
            invariant
                i <= self.models@.len(),
                s == self.entries(),
                ids_distinct(s),
                kept@ == s.take(i as int).filter(other_id(id@)),
                src.len() == kept@.len(),
                forall|t: int| 0 <= t < kept@.len() ==> 0 <= #[trigger] src[t] < i && kept@[t] == s[src[t]],
                forall|a: int, b: int| 0 <= a < b < kept@.len() ==> #[trigger] src[a] < #[trigger] src[b],
            decreases self.models@.len() - i,
        {
            proof {
                assert(s.take(i + 1).drop_last() =~= s.take(i as int));
                assert(s.take(i + 1).last() == s[i as int]);
                reveal(Seq::filter);
            }
            if !str_eq(self.models[i].id.as_str(), id) {
                let e = self.models[i].duplicate();
                kept.push(e);
                proof {
                    src = src.push(i as int);
                }
            }
            i = i + 1;
        }
        proof {
            assert(s.take(s.len() as int) =~= s);
            assert forall|a: int, b: int| 0 <= a < b < kept@.len() implies (
            #[trigger] kept@[a]).id@ != (#[trigger] kept@[b]).id@ by {
                assert(src[a] < src[b]);
                assert(s[src[a]].id@ != s[src[b]].id@);
            }
        }
        self.models = kept;
    }

    /// Copies of all entries, in order.
    pub fn all(&self) -> (r: Vec<IndexedModel>)
        ensures
            r@ == self.entries(),
    {
        let mut out: Vec<IndexedModel> = Vec::new();
        let mut i: usize = 0;
        while i < self.models.len()
            invariant
                i <= self.models@.len(),
                out@ == self.models@.take(i as int),
            decreases self.models@.len() - i,
        {
            let e = self.models[i].duplicate();
            out.push(e);
            proof {
                assert(self.models@.take(i + 1) =~= self.models@.take(i as int).push(e));
            }
            i = i + 1;
        }
        proof {
            assert(self.models@.take(self.models@.len() as int) =~= self.models@);
        }
        out
    }

    /// The installed models, in index order.
    pub fn list_installed(&self) -> (r: Vec<IndexedModel>)
        ensures
            r@ == installed_models(self.entries()),
    {
        let ghost s = self.entries();
        let mut out: Vec<IndexedModel> = Vec::new();
        let mut i: usize = 0;
        while i < self.models.len()
            invariant
                i <= self.models@.len(),
                s == self.entries(),
                out@ == s.take(i as int).filter(is_installed_entry()),
            decreases self.models@.len() - i,
        {
            proof {
                assert(s.take(i + 1).drop_last() =~= s.take(i as int));
                assert(s.take(i + 1).last() == s[i as int]);
                reveal(Seq::filter);
            }
            if self.models[i].installed.is_some() {
                let e = self.models[i].duplicate();
                out.push(e);
            }
            i = i + 1;
        }
        proof {
            assert(s.take(s.len() as int) =~= s);
        }
        out
    }
}

/// A model already installed in the index is not installed again; the
/// index is only read.
pub fn install_check(index: &LocalIndex, model_id: &str) -> (r: Result<(), RegistryError>)
    ensures
        installed_in(index.entries(), model_id@) ==> (r matches Err(
            RegistryError::AlreadyInstalled(id),
        ) && id@ == model_id@),
        !installed_in(index.entries(), model_id@) ==> r is Ok,
{
    let found = index.find(model_id);
    let installed = match &found {
        Some(e) => e.installed.is_some(),
        None => false,
    };
    check_not_installed(model_id, installed)
}

/// What an installation records: the planned file in the model's own
/// directory, with its quantization and checksum, the size found on disk
/// and the installation time; not used yet.
pub fn installed_info(plan: &InstallPlan, size_bytes: u64, installed_at: String) -> (r: InstalledInfo)
    ensures
        r.path == plan.model_dir,
        r.filename == plan.file.filename,
        r.quantization == plan.file.quantization,
        r.sha256 == plan.file.sha256,
        r.size_bytes == size_bytes,
        r.installed_at == installed_at,
        r.last_used is None,
{
    InstalledInfo {
        path: plan.model_dir.clone(),
        filename: plan.file.filename.clone(),
        quantization: plan.file.quantization,
        sha256: copy_opt_string(&plan.file.sha256),
        size_bytes,
        installed_at,
        last_used: None,
    }
}

/// `m` is the entry an installation of `model_id` from `repo_id` records:
/// the model's existing entry, or a new one named after it and pointing at
/// the repository, installed as `info`.
pub open spec fn records_install(
    s: Seq<IndexedModel>,
    model_id: Seq<char>,
    repo_id: Seq<char>,
    info: InstalledInfo,
    m: IndexedModel,
) -> bool {
    &&& m.id@ == model_id
    &&& m.installed == Some(info)
    &&& match entry(s, model_id) {
        Some(e) => m.name == e.name && m.huggingface_id == e.huggingface_id,
        None => m.name@ == model_id && (m.huggingface_id matches Some(h) && h@ == repo_id),
    }
}

/// Record a finished installation in the index; returns the recorded entry.
pub fn record_install(index: &mut LocalIndex, model_id: &str, repo_id: &str, info: InstalledInfo) -> (r:
    IndexedModel)
    ensures
        records_install(old(index).entries(), model_id@, repo_id@, info, r),
        final(index).entries() == with_model(old(index).entries(), r),
{
    let m = match index.find(model_id) {
        Some(e) => IndexedModel { id: e.id, name: e.name, huggingface_id: e.huggingface_id, installed: Some(info) },
        None => IndexedModel {
            id: model_id.to_owned(),
            name: model_id.to_owned(),
            huggingface_id: Some(repo_id.to_owned()),
            installed: Some(info),
        },
    };
    proof {
        if has_id(index.entries(), model_id@) {
            let p = position_of(index.entries(), model_id@);
            assert(index.entries()[p].id@ == model_id@);
        }
    }
    let r = m.duplicate();
    index.add(m);
    r
}

/// Remove a model from the index: its installed size is freed (nothing if
/// it was only known); an unknown model is an error and the index stays as
/// it was.
pub fn remove_model(index: &mut LocalIndex, model_id: &str) -> (r: Result<u64, RegistryError>)
    ensures
        match entry(old(index).entries(), model_id@) {
            None => (r matches Err(RegistryError::ModelNotFound(m)) && m@ == model_id@)
                && final(index).entries() == old(index).entries(),
            Some(e) => r == Ok::<u64, RegistryError>(
                match e.installed {
                    Some(i) => i.size_bytes,
                    None => 0,
                },
            ) && final(index).entries() == without_id(old(index).entries(), model_id@),
        },
{
    let found = index.find(model_id);
    let size = match &found {
        Some(e) => match &e.installed {
            Some(i) => Some(i.size_bytes),
            None => None,
        },
        None => None,
    };
    let r = removal_freed_bytes(model_id, found.is_some(), size);
    if found.is_some() {
        index.remove(model_id);
    }
    r
}

/// Adding a model makes it the entry for its id and leaves every other id's
/// entry as it was; ids stay distinct.
pub proof fn added_model_is_found(s: Seq<IndexedModel>, m: IndexedModel, other: Seq<char>)
    requires
        ids_distinct(s),
    ensures
        ids_distinct(with_model(s, m)),
        entry(with_model(s, m), m.id@) == Some(m),
        other != m.id@ ==> entry(with_model(s, m), other) == entry(s, other),
{
    let t = with_model(s, m);
    if has_id(s, m.id@) {
        let p = position_of(s, m.id@);
        assert forall|a: int, b: int| 0 <= a < b < t.len() implies (#[trigger] t[a]).id@
            != (#[trigger] t[b]).id@ by {
            if a != p && b != p {
                assert(t[a] == s[a] && t[b] == s[b]);
            } else if a == p {
                assert(t[b] == s[b]);
                assert(s[a].id@ != s[b].id@);
            } else {
                assert(t[a] == s[a]);
                assert(s[a].id@ != s[b].id@);
            }
        }
        lemma_position_unique(t, m.id@, p);
        if other != m.id@ {
            if has_id(s, other) {
                let q = position_of(s, other);
                assert(t[q] == s[q]);
                lemma_position_unique(t, other, q);
            } else {
                if has_id(t, other) {
                    let q = position_of(t, other);
                    assert(t[q] == s[q]);
                }
            }
        }
    } else {
        assert forall|a: int, b: int| 0 <= a < b < t.len() implies (#[trigger] t[a]).id@
            != (#[trigger] t[b]).id@ by {
            assert(t[a] == s[a]);
            if b < s.len() {
                assert(t[b] == s[b]);
            }
        }
        lemma_position_unique(t, m.id@, s.len() as int);
        if other != m.id@ {
            if has_id(s, other) {
                let q = position_of(s, other);
                assert(t[q] == s[q]);
                lemma_position_unique(t, other, q);
            } else {
                if has_id(t, other) {
                    let q = position_of(t, other);
                    assert(t[q] == s[q]);
                }
            }
        }
    }
}

/// After an installation is recorded, the model is listed among the
/// installed models with what was recorded, it counts as installed (so
/// installing it again is refused), and the other models keep their
/// entries.
pub proof fn recorded_install_is_listed(
    s: Seq<IndexedModel>,
    model_id: Seq<char>,
    repo_id: Seq<char>,
    info: InstalledInfo,
    m: IndexedModel,
    other: Seq<char>,
)
    requires
        ids_distinct(s),
        records_install(s, model_id, repo_id, info, m),
    ensures
        installed_models(with_model(s, m)).contains(m),
        entry(with_model(s, m), model_id) == Some(m),
        installed_in(with_model(s, m), model_id),
        other != model_id ==> entry(with_model(s, m), other) == entry(s, other),
{
    added_model_is_found(s, m, other);
    let t = with_model(s, m);
    let p = position_of(t, m.id@);
    assert(t[p] == m);
    t.lemma_filter_contains(is_installed_entry(), p);
}

/// Removing a model leaves no entry for it and keeps every other entry.
pub proof fn removed_model_is_gone(s: Seq<IndexedModel>, id: Seq<char>, other: Seq<char>)
    requires
        ids_distinct(s),
    ensures
        entry(without_id(s, id), id) is None,
        other != id ==> entry(without_id(s, id), other) == entry(s, other),
{
    let t = without_id(s, id);
    broadcast use vstd::seq_lib::group_filter_ensures;
    if has_id(t, id) {
        let q = position_of(t, id);
        assert(other_id(id)(t[q]));
    }
    if other != id {
        if has_id(s, other) {
            let q = position_of(s, other);
            s.lemma_filter_contains(other_id(id), q);
            let k = choose|k: int| 0 <= k < t.len() && t[k] == s[q];
            assert(t[k].id@ == other);
            assert(ids_distinct(t)) by {
                lemma_filter_keeps_distinct(s, id);
            }
            lemma_position_unique(t, other, k);
        } else {
            if has_id(t, other) {
                let k = position_of(t, other);
                assert(t.contains(t[k]));
                s.lemma_filter_contains_rev(other_id(id), t[k]);
            }
        }
    }
}

proof fn lemma_filter_keeps_distinct(s: Seq<IndexedModel>, id: Seq<char>)
    requires
        ids_distinct(s),
    ensures
        ids_distinct(without_id(s, id)),
    decreases s.len(),
{
    reveal(Seq::filter);
    if s.len() > 0 {
        let r = s.drop_last();
        assert(ids_distinct(r));
        lemma_filter_keeps_distinct(r, id);
        let t = without_id(s, id);
        let tr = without_id(r, id);
        if other_id(id)(s.last()) {
            assert(t == tr.push(s.last()));
            assert forall|a: int, b: int| 0 <= a < b < t.len() implies (#[trigger] t[a]).id@
                != (#[trigger] t[b]).id@ by {
                if b == tr.len() {
                    assert(t[a] == tr[a]);
                    assert(tr.contains(tr[a]));
                    r.lemma_filter_contains_rev(other_id(id), tr[a]);
                    let k = choose|k: int| 0 <= k < r.len() && r[k] == tr[a];
                    assert(s[k] == r[k]);
                    assert(s[k].id@ != s[s.len() - 1].id@);
                } else {
                    assert(t[a] == tr[a] && t[b] == tr[b]);
                }
            }
        } else {
            assert(t == tr);
        }
    }
}

} // verus!
