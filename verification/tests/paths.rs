use hivebear::paths::{join_path, AppPaths, ProjectDirPaths};

#[test]
fn from_base_layout() {
    let p = AppPaths::from_base("/srv/hb".to_string());
    assert_eq!(p.config_dir, "/srv/hb/config");
    assert_eq!(p.config_file, "/srv/hb/config/config.toml");
    assert_eq!(p.data_dir, "/srv/hb/data");
    assert_eq!(p.models_dir, "/srv/hb/data/models");
    assert_eq!(p.db_file, "/srv/hb/data/hivebear.db");
    assert_eq!(p.cache_dir, "/srv/hb/cache");
    assert_eq!(p.benchmark_cache, "/srv/hb/cache/benchmark.json");
    assert_eq!(AppPaths::from_base("/srv/hb/".to_string()).config_dir, "/srv/hb/config");
}

#[test]
fn join_path_matches_std() {
    for (base, part) in [("/a", "b"), ("/a/", "b"), ("", "b"), ("rel", "x.toml"), ("/a", "/b/c"), ("rel/", "")] {
        let expected = std::path::Path::new(base).join(part);
        assert_eq!(join_path(base, part), expected.to_str().unwrap());
    }
}

#[test]
fn new_priorities() {
    let dirs = ProjectDirPaths {
        config_dir: "/home/u/.config/hivebear".into(),
        data_dir: "/home/u/.local/share/hivebear".into(),
        cache_dir: "/home/u/.cache/hivebear".into(),
    };
    let p = AppPaths::new(false, Some("/env".into()), Some("/data-env".into()), true, Some(dirs.clone()), Some("/home/u".into()));
    assert_eq!(p.models_dir, "/env/data/models");
    let p = AppPaths::new(false, None, Some("/data-env".into()), true, Some(dirs.clone()), None);
    assert_eq!(p.models_dir, "/data-env/data/models");
    let p = AppPaths::new(false, None, None, true, Some(dirs.clone()), None);
    assert_eq!(p.config_file, "/data/data/com.hivebear.app/files/config/config.toml");
    let p = AppPaths::new(false, None, None, false, Some(dirs.clone()), None);
    assert_eq!(p.config_file, "/home/u/.config/hivebear/config.toml");
    assert_eq!(p.models_dir, "/home/u/.local/share/hivebear/models");
    assert_eq!(p.db_file, "/home/u/.local/share/hivebear/hivebear.db");
    assert_eq!(p.benchmark_cache, "/home/u/.cache/hivebear/benchmark.json");
    let p = AppPaths::new(false, None, None, false, None, Some("/home/u".into()));
    assert_eq!(p.cache_dir, "/home/u/.hivebear/cache");
    let p = AppPaths::new(false, None, None, false, None, None);
    assert_eq!(p.data_dir, "./.hivebear/data");
    assert_eq!(
        p.dirs_to_ensure(false),
        vec![
            "./.hivebear/config".to_string(),
            "./.hivebear/data".to_string(),
            "./.hivebear/data/models".to_string(),
            "./.hivebear/cache".to_string()
        ]
    );
}

#[test]
fn wasm_layout_is_fixed() {
    let p = AppPaths::new(true, Some("/env".into()), None, true, None, Some("/home/u".into()));
    assert_eq!(p.config_dir, "/hivebear/config");
    assert_eq!(p.config_file, "/hivebear/config/config.toml");
    assert_eq!(p.data_dir, "/hivebear/data");
    assert_eq!(p.models_dir, "/hivebear/data/models");
    assert_eq!(p.db_file, "/hivebear/data/hivebear.db");
    assert_eq!(p.cache_dir, "/hivebear/cache");
    assert_eq!(p.benchmark_cache, "/hivebear/cache/benchmark.json");
    assert!(p.dirs_to_ensure(true).is_empty());
}
