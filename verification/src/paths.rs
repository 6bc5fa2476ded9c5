//! Where HiveBear keeps its configuration, data, models and caches.
use vstd::prelude::*;

verus! {

broadcast use vstd::string::group_string_axioms;

/// A path appended to a directory, as `Path::join` does on Unix: an
/// absolute path replaces the directory; a relative one is appended, with a
/// separator unless the directory is empty or already ends with one.
pub open spec fn path_join(base: Seq<char>, part: Seq<char>) -> Seq<char> {
    if part.len() > 0 && part[0] == '/' {
        part
    } else if base.len() == 0 {
        part
    } else if base.last() == '/' {
        base + part
    } else {
        base + seq!['/'] + part
    }
}

/// Append the relative component `part` to the directory `base`.
pub fn join_path(base: &str, part: &str) -> (r: String)
    ensures
        r@ == path_join(base@, part@),
{
    if part.unicode_len() > 0 && part.get_char(0) == '/' {
        return part.to_owned();
    }
    let mut r = base.to_owned();
    let n = base.unicode_len();
    if n > 0 && base.get_char(n - 1) != '/' {
        r.push('/');
    }
    r.append(part);
    r
}

/// Paths for HiveBear's configuration, data, models and caches.
#[derive(Clone, Debug)]
pub struct AppPaths {
    pub config_dir: String,
    pub config_file: String,
    pub data_dir: String,
    pub models_dir: String,
    pub cache_dir: String,
    pub benchmark_cache: String,
    pub db_file: String,
}

/// The layout under one base directory: `config/config.toml`,
/// `data/models`, `data/hivebear.db`, `cache/benchmark.json`.
pub open spec fn layout_under(base: Seq<char>, p: AppPaths) -> bool {
    &&& p.config_dir@ == path_join(base, "config"@)
    &&& p.config_file@ == path_join(path_join(base, "config"@), "config.toml"@)
    &&& p.data_dir@ == path_join(base, "data"@)
    &&& p.models_dir@ == path_join(path_join(base, "data"@), "models"@)
    &&& p.db_file@ == path_join(path_join(base, "data"@), "hivebear.db"@)
    &&& p.cache_dir@ == path_join(base, "cache"@)
    &&& p.benchmark_cache@ == path_join(path_join(base, "cache"@), "benchmark.json"@)
}

/// The layout under the platform's own config, data and cache directories.
pub open spec fn layout_in_dirs(dirs: ProjectDirPaths, p: AppPaths) -> bool {
    &&& p.config_dir == dirs.config_dir
    &&& p.config_file@ == path_join(dirs.config_dir@, "config.toml"@)
    &&& p.data_dir == dirs.data_dir
    &&& p.models_dir@ == path_join(dirs.data_dir@, "models"@)
    &&& p.db_file@ == path_join(dirs.data_dir@, "hivebear.db"@)
    &&& p.cache_dir == dirs.cache_dir
    &&& p.benchmark_cache@ == path_join(dirs.cache_dir@, "benchmark.json"@)
}

/// The platform's standard directories for the application, when the
/// platform defines them.
#[derive(Clone, Debug)]
pub struct ProjectDirPaths {
    pub config_dir: String,
    pub data_dir: String,
    pub cache_dir: String,
}

/// Base directory of the fixed layout used in WebAssembly builds, which have
/// no real filesystem.
pub open spec fn wasm_base() -> Seq<char> {
    "/hivebear"@
}

/// The base directory named by the environment: `HIVEBEAR_HOME` when set,
/// else `HIVEBEAR_DATA_DIR` when set.
pub open spec fn env_base(hivebear_home: Option<String>, hivebear_data_dir: Option<String>) -> Option<
    Seq<char>,
> {
    match hivebear_home {
        Some(h) => Some(h@),
        None => match hivebear_data_dir {
            Some(d) => Some(d@),
            None => None,
        },
    }
}

/// Base directory of the app's internal storage on Android.
pub open spec fn android_base() -> Seq<char> {
    "/data/data/com.hivebear.app/files"@
}

/// The home-directory fallback base: `$HOME/.hivebear`, or `./.hivebear`.
pub open spec fn home_base(home: Option<String>) -> Seq<char> {
    path_join(
        match home {
            Some(h) => h@,
            None => "."@,
        },
        ".hivebear"@,
    )
}

impl AppPaths {
    /// Paths relative to one base directory.
    pub fn from_base(base: String) -> (p: AppPaths)
        ensures
            layout_under(base@, p),
    {
        let config_dir = join_path(base.as_str(), "config");
        let data_dir = join_path(base.as_str(), "data");
        let cache_dir = join_path(base.as_str(), "cache");
        AppPaths {
            config_file: join_path(config_dir.as_str(), "config.toml"),
            models_dir: join_path(data_dir.as_str(), "models"),
            db_file: join_path(data_dir.as_str(), "hivebear.db"),
            benchmark_cache: join_path(cache_dir.as_str(), "benchmark.json"),
            config_dir,
            data_dir,
            cache_dir,
        }
    }

    /// Resolve the paths. A WebAssembly build has no filesystem and always
    /// uses the fixed layout under `/hivebear`. Elsewhere, in order of
    /// priority: an explicit base directory from the environment
    /// (`HIVEBEAR_HOME`, else `HIVEBEAR_DATA_DIR`, each given here when it
    /// is set); Android's internal
    /// storage; the platform's standard directories; `.hivebear` under the
    /// home directory (or under `.`).
    pub fn new(
        on_wasm: bool,
        hivebear_home: Option<String>,
        hivebear_data_dir: Option<String>,
        on_android: bool,
        project_dirs: Option<ProjectDirPaths>,
        home: Option<String>,
    ) -> (p: AppPaths)
        ensures
            on_wasm ==> layout_under(wasm_base(), p),
            !on_wasm ==> match env_base(hivebear_home, hivebear_data_dir) {
                Some(b) => layout_under(b, p),
                None => if on_android {
                    layout_under(android_base(), p)
                } else {
                    match project_dirs {
                        Some(d) => layout_in_dirs(d, p),
                        None => layout_under(home_base(home), p),
                    }
                },
            },
    {
        if on_wasm {
            return Self::from_base("/hivebear".to_owned());
        }
        if let Some(base) = hivebear_home {
            return Self::from_base(base);
        }
        if let Some(base) = hivebear_data_dir {
            return Self::from_base(base);
        }
        if on_android {
            return Self::from_base("/data/data/com.hivebear.app/files".to_owned());
        }
        match project_dirs {
            Some(dirs) => {
                let config_file = join_path(dirs.config_dir.as_str(), "config.toml");
                let models_dir = join_path(dirs.data_dir.as_str(), "models");
                let db_file = join_path(dirs.data_dir.as_str(), "hivebear.db");
                let benchmark_cache = join_path(dirs.cache_dir.as_str(), "benchmark.json");
                AppPaths {
                    config_dir: dirs.config_dir,
                    config_file,
                    data_dir: dirs.data_dir,
                    models_dir,
                    cache_dir: dirs.cache_dir,
                    benchmark_cache,
                    db_file,
                }
            },
            None => {
                let h = match home {
                    Some(h) => h,
                    None => ".".to_owned(),
                };
                let base = join_path(h.as_str(), ".hivebear");
                Self::from_base(base)
            },
        }
    }

    /// The directories that must exist, in the order they are created:
    /// config, data, models, cache; none in a WebAssembly build, which has
    /// no filesystem.
    pub fn dirs_to_ensure(&self, on_wasm: bool) -> (r: Vec<String>)
        ensures
            on_wasm ==> r@.len() == 0,
            !on_wasm ==> r@.len() == 4,
            !on_wasm ==> r@[0] == self.config_dir,
            !on_wasm ==> r@[1] == self.data_dir,
            !on_wasm ==> r@[2] == self.models_dir,
            !on_wasm ==> r@[3] == self.cache_dir,
    {
        let mut r: Vec<String> = Vec::new();
        if on_wasm {
            return r;
        }
        r.push(self.config_dir.clone());
        r.push(self.data_dir.clone());
        r.push(self.models_dir.clone());
        r.push(self.cache_dir.clone());
        r
    }
}

/// Everything lives under the base directory: each path starts with it.
pub proof fn layout_stays_under_base(base: Seq<char>, p: AppPaths)
    requires
        layout_under(base, p),
    ensures
        p.config_file@.take(base.len() as int) == base,
        p.models_dir@.take(base.len() as int) == base,
        p.db_file@.take(base.len() as int) == base,
        p.benchmark_cache@.take(base.len() as int) == base,
{
    reveal_strlit("config");
    reveal_strlit("config.toml");
    reveal_strlit("data");
    reveal_strlit("models");
    reveal_strlit("hivebear.db");
    reveal_strlit("cache");
    reveal_strlit("benchmark.json");
    lemma_join_prefix(base, "config"@);
    lemma_join_prefix(path_join(base, "config"@), "config.toml"@);
    lemma_join_prefix(base, "data"@);
    lemma_join_prefix(path_join(base, "data"@), "models"@);
    lemma_join_prefix(path_join(base, "data"@), "hivebear.db"@);
    lemma_join_prefix(base, "cache"@);
    lemma_join_prefix(path_join(base, "cache"@), "benchmark.json"@);
    lemma_prefix_trans(base, path_join(base, "config"@), p.config_file@);
    lemma_prefix_trans(base, path_join(base, "data"@), p.models_dir@);
    lemma_prefix_trans(base, path_join(base, "data"@), p.db_file@);
    lemma_prefix_trans(base, path_join(base, "cache"@), p.benchmark_cache@);
}

proof fn lemma_join_prefix(base: Seq<char>, part: Seq<char>)
    requires
        part.len() == 0 || part[0] != '/',
    ensures
        path_join(base, part).len() >= base.len(),
        path_join(base, part).take(base.len() as int) == base,
{
    if base.len() == 0 {
        assert(path_join(base, part).take(0) =~= base);
    } else if base.last() == '/' {
        assert((base + part).take(base.len() as int) =~= base);
    } else {
        assert((base + seq!['/'] + part).take(base.len() as int) =~= base);
    }
}

proof fn lemma_prefix_trans(a: Seq<char>, b: Seq<char>, c: Seq<char>)
    requires
        b.len() >= a.len(),
        b.take(a.len() as int) == a,
        c.len() >= b.len(),
        c.take(b.len() as int) == b,
    ensures
        c.take(a.len() as int) == a,
{
    assert(c.take(a.len() as int) =~= b.take(a.len() as int));
}

} // verus!
