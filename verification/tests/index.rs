use hivebear::index::{
    install_check, installed_info, record_install, remove_model, IndexedModel, InstalledInfo,
    LocalIndex,
};
use hivebear::registry::{plan_install, RegistryError, RemoteFile};

fn file(name: &str, size: u64) -> RemoteFile {
    RemoteFile {
        filename: name.into(),
        size_bytes: size,
        sha256: Some("abc".into()),
        quantization: None,
        download_url: format!("https://example.org/{name}"),
    }
}

fn info(path: &str, size: u64) -> InstalledInfo {
    InstalledInfo {
        path: path.into(),
        filename: "m.gguf".into(),
        quantization: None,
        size_bytes: size,
        sha256: None,
        installed_at: "2024-01-01T00:00:00Z".into(),
        last_used: None,
    }
}

#[test]
fn index_add_find_replace_and_remove() {
    let mut idx = LocalIndex::new();
    assert!(idx.find("a").is_none());
    idx.add(IndexedModel { id: "a".into(), name: "A".into(), huggingface_id: None, installed: None });
    idx.add(IndexedModel { id: "b".into(), name: "B".into(), huggingface_id: None, installed: Some(info("/m/b", 5)) });
    assert_eq!(idx.find("a").unwrap().name, "A");
    assert_eq!(idx.list_installed().len(), 1);
    idx.add(IndexedModel { id: "a".into(), name: "A2".into(), huggingface_id: None, installed: Some(info("/m/a", 7)) });
    let listed = idx.list_installed();
    assert_eq!(listed.iter().map(|m| m.id.as_str()).collect::<Vec<_>>(), vec!["a", "b"]);
    assert_eq!(idx.find("a").unwrap().name, "A2");
    assert_eq!(idx.all().iter().map(|m| m.name.as_str()).collect::<Vec<_>>(), vec!["A2", "B"]);
    idx.remove("a");
    assert!(idx.find("a").is_none());
    assert_eq!(idx.all().len(), 1);
    assert_eq!(idx.list_installed().len(), 1);
}

#[test]
fn install_is_recorded_listed_and_not_repeated() {
    let mut idx = LocalIndex::new();
    idx.add(IndexedModel { id: "known".into(), name: "Known Model".into(), huggingface_id: Some("org/known".into()), installed: None });
    assert!(install_check(&idx, "new").is_ok());
    assert!(install_check(&idx, "known").is_ok());

    let files = vec![file("m-Q4_K_M.gguf", 10), file("m-Q8_0.gguf", 20)];
    let plan = plan_install("/models", "new", "org/new", &files, None, None).unwrap();
    let inf = installed_info(&plan, 10, "2024-05-01T12:00:00Z".into());
    assert_eq!(inf.path, "/models/new");
    assert_eq!(inf.filename, "m-Q4_K_M.gguf");
    assert_eq!(inf.sha256.as_deref(), Some("abc"));
    assert!(inf.last_used.is_none());
    let rec = record_install(&mut idx, "new", "org/new", inf);
    assert_eq!(rec.name, "new");
    assert_eq!(rec.huggingface_id.as_deref(), Some("org/new"));
    let listed = idx.list_installed();
    assert_eq!(listed.len(), 1);
    assert_eq!(listed[0].id, "new");
    assert_eq!(listed[0].installed.as_ref().unwrap().path, "/models/new");
    assert!(matches!(install_check(&idx, "new"), Err(RegistryError::AlreadyInstalled(id)) if id == "new"));

    let rec = record_install(&mut idx, "known", "org/other", info("/models/known", 3));
    assert_eq!(rec.name, "Known Model");
    assert_eq!(rec.huggingface_id.as_deref(), Some("org/known"));
    assert_eq!(idx.list_installed().len(), 2);
}

#[test]
fn removing_models_from_the_index() {
    let mut idx = LocalIndex::new();
    idx.add(IndexedModel { id: "x".into(), name: "x".into(), huggingface_id: None, installed: Some(info("/m/x", 42)) });
    idx.add(IndexedModel { id: "y".into(), name: "y".into(), huggingface_id: None, installed: None });
    assert!(matches!(remove_model(&mut idx, "z"), Err(RegistryError::ModelNotFound(m)) if m == "z"));
    assert_eq!(remove_model(&mut idx, "x").unwrap(), 42);
    assert_eq!(remove_model(&mut idx, "y").unwrap(), 0);
    assert!(idx.find("x").is_none() && idx.find("y").is_none());
}
