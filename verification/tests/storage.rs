use hivebear::storage::{
    find_orphans, is_partial_meta_name, stale_partial_files, storage_report, ModelStorageInfo,
    ScannedDir, ScannedFile, TimedFile,
};

fn model(id: &str, size: u64, path: &str) -> ModelStorageInfo {
    ModelStorageInfo {
        model_id: id.into(),
        model_name: id.into(),
        size_bytes: size,
        path: path.into(),
        last_used: None,
    }
}

fn file(name: &str, size: u64, path: &str) -> ScannedFile {
    ScannedFile { name: name.into(), size, path: path.into() }
}

#[test]
fn test_empty_storage_report() {
    let r = storage_report(&vec![], &vec![]);
    assert_eq!(r.total_bytes, 0);
    assert!(r.models.is_empty());
    assert!(r.partial_downloads.is_empty());
    assert!(r.orphaned_files.is_empty());
}

#[test]
fn report_sorts_models_and_finds_partials_and_orphans() {
    let installed = vec![model("small", 10, "/m/small"), model("big", 30, "/m/big")];
    let dirs = vec![
        ScannedDir { path: "/m/small".into(), name: "small".into(), files: vec![file("a.gguf", 10, "/m/small/a.gguf")] },
        ScannedDir {
            path: "/m/dl".into(),
            name: "dl".into(),
            files: vec![file("x.gguf.partial", 5, "/m/dl/x.gguf.partial"), file("x.gguf.partial.meta", 1, "/m/dl/x.gguf.partial.meta")],
        },
        ScannedDir { path: "/m/junk".into(), name: "junk".into(), files: vec![file("old.bin", 3, "/m/junk/old.bin")] },
    ];
    let r = storage_report(&installed, &dirs);
    assert_eq!(r.total_bytes, 40);
    assert_eq!(r.models[0].model_id, "big");
    assert_eq!(r.models[1].model_id, "small");
    assert_eq!(r.partial_downloads.len(), 1);
    assert_eq!(r.partial_downloads[0].model_id, "dl");
    assert_eq!(r.partial_downloads[0].filename, "x.gguf.partial");
    assert_eq!(r.partial_downloads[0].bytes_downloaded, 5);
    assert_eq!(r.orphaned_files, vec!["/m/junk".to_string()]);
}

#[test]
fn test_find_orphans_empty() {
    assert!(find_orphans(&vec![], &vec![]).is_empty());
}

#[test]
fn test_find_orphans_with_untracked_dir() {
    let installed = vec![model("llama", 1, "/models/llama")];
    let dirs = vec!["/models/llama".to_string(), "/models/orphan-model".to_string()];
    let orphans = find_orphans(&installed, &dirs);
    assert_eq!(orphans.len(), 1);
    assert_eq!(orphans[0], "/models/orphan-model");
}

#[test]
fn stale_partials_are_selected_by_age() {
    let files = vec![
        TimedFile { name: "a.partial".into(), path: "/a".into(), modified_nanos: Some(5) },
        TimedFile { name: "b.partial.meta".into(), path: "/b".into(), modified_nanos: Some(50) },
        TimedFile { name: "c.gguf".into(), path: "/c".into(), modified_nanos: Some(1) },
        TimedFile { name: "d.partial".into(), path: "/d".into(), modified_nanos: None },
    ];
    assert_eq!(stale_partial_files(&files, 10), vec!["/a".to_string()]);
    assert_eq!(stale_partial_files(&files, 100), vec!["/a".to_string(), "/b".to_string()]);
    assert!(is_partial_meta_name("x.gguf.partial.meta"));
    assert!(!is_partial_meta_name("x.gguf.partial"));
}

#[test]
fn orphans_compare_paths_by_component() {
    let installed = vec![model("a", 1, "/models/a")];
    let dirs = vec!["/models/a/".to_string(), "/models//a".to_string(), "/models/b".to_string()];
    assert_eq!(find_orphans(&installed, &dirs), vec!["/models/b".to_string()]);
}
