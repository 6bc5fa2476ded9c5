use hivebear::registry::{merge_search_hits, SearchSlot};
use hivebear::registry::models_dir_choice;
use hivebear::registry::{resolve_repo_next, resolve_repo_start, RepoSource, RepoStep};
use hivebear::registry::{check_not_installed, plan_install};
use hivebear::registry::{not_resolvable, removal_freed_bytes};
use hivebear::registry::{pick_file, RegistryError, RemoteFile};

fn file(name: &str, size: u64, url: &str) -> RemoteFile {
    RemoteFile {
        filename: name.into(),
        size_bytes: size,
        sha256: None,
        quantization: None,
        download_url: url.into(),
    }
}

#[test]
fn test_pick_file_by_name() {
    let files = vec![
        file("model-Q4_K_M.gguf", 4_000_000_000, "https://example.com/q4km"),
        file("model-Q8_0.gguf", 8_000_000_000, "https://example.com/q80"),
    ];

    let result = pick_file(&files, None, Some("model-Q8_0.gguf")).unwrap();
    assert_eq!(result.filename, "model-Q8_0.gguf");
}

#[test]
fn test_pick_file_by_quant() {
    let files = vec![
        file("model-Q4_K_M.gguf", 4_000_000_000, "https://example.com/q4km"),
        file("model-Q8_0.gguf", 8_000_000_000, "https://example.com/q80"),
    ];

    let result = pick_file(&files, Some("Q8_0"), None).unwrap();
    assert_eq!(result.filename, "model-Q8_0.gguf");
}

#[test]
fn test_pick_file_default_prefers_q4km() {
    let files = vec![
        file("model-Q2_K.gguf", 2_000_000_000, "https://example.com/q2k"),
        file("model-Q4_K_M.gguf", 4_000_000_000, "https://example.com/q4km"),
        file("model-Q8_0.gguf", 8_000_000_000, "https://example.com/q80"),
    ];

    let result = pick_file(&files, None, None).unwrap();
    assert_eq!(result.filename, "model-Q4_K_M.gguf");
}

#[test]
fn pick_file_quant_preference_is_case_and_dash_insensitive() {
    let files = vec![
        file("model-Q4_K_M.gguf", 4, "u1"),
        file("model-q5_k_s.gguf", 5, "u2"),
    ];
    let result = pick_file(&files, Some("q5-k-s"), None).unwrap();
    assert_eq!(result.download_url, "u2");
}

#[test]
fn pick_file_unknown_quant_falls_back_to_defaults_then_smallest() {
    let files = vec![
        file("a-Q2_K.gguf", 3, "u1"),
        file("b-IQ3_XS.gguf", 2, "u2"),
        file("c-IQ1_S.gguf", 2, "u3"),
    ];
    let result = pick_file(&files, Some("Q9_9"), None).unwrap();
    assert_eq!(result.download_url, "u2");
    let files = vec![file("a-Q8_0.gguf", 9, "u1"), file("b-Q6_K.gguf", 8, "u2")];
    assert_eq!(pick_file(&files, None, None).unwrap().download_url, "u2");
}

#[test]
fn pick_file_errors() {
    let files = vec![file("a.gguf", 1, "u1"), file("b.gguf", 2, "u2")];
    match pick_file(&files, None, Some("c.gguf")) {
        Err(RegistryError::NoFilesFound(m)) => {
            assert_eq!(m, "File 'c.gguf' not found. Available: a.gguf, b.gguf")
        }
        other => panic!("unexpected {:?}", other),
    }
    match pick_file(&[], Some("Q4_K_M"), None) {
        Err(RegistryError::NoFilesFound(m)) => assert_eq!(m, "No files available"),
        other => panic!("unexpected {:?}", other),
    }
    let result = pick_file(&files, Some("Q8_0"), Some("b.gguf")).unwrap();
    assert_eq!(result.filename, "b.gguf");
}

#[test]
fn models_dir_must_be_absolute() {
    assert_eq!(models_dir_choice("", "/default", false), "/default");
    assert_eq!(models_dir_choice(".", "/default", false), "/default");
    assert_eq!(models_dir_choice("rel/models", "/default", false), "/default");
    assert_eq!(models_dir_choice("/srv/models", "/default", false), "/srv/models");
    assert_eq!(models_dir_choice("/srv/models", "/default", true), "/default");
    assert_eq!(models_dir_choice("/data/user/0/models", "/default", true), "/data/user/0/models");
    assert_eq!(models_dir_choice("/database/models", "/default", true), "/default");
}

#[test]
fn repositories_are_resolved_in_order() {
    assert!(matches!(resolve_repo_start("owner/model"), RepoStep::Resolved(r) if r == "owner/model"));
    assert!(matches!(resolve_repo_start("llama"), RepoStep::Ask(RepoSource::LocalIndex)));
    assert!(matches!(resolve_repo_next("llama", RepoSource::LocalIndex, None), RepoStep::Ask(RepoSource::BuiltinModels)));
    assert!(matches!(resolve_repo_next("llama", RepoSource::BuiltinModels, None), RepoStep::Ask(RepoSource::HubSearch)));
    assert!(matches!(resolve_repo_next("llama", RepoSource::BuiltinModels, Some("a/b".into())), RepoStep::Resolved(r) if r == "a/b"));
    assert!(matches!(
        resolve_repo_next("llama", RepoSource::HubSearch, None),
        RepoStep::Unresolved(RegistryError::ModelNotFound(m)) if m == "Could not resolve 'llama' to a HuggingFace repository"
    ));
}

#[test]
fn installs_are_planned() {
    assert!(matches!(check_not_installed("m", true), Err(RegistryError::AlreadyInstalled(id)) if id == "m"));
    assert!(check_not_installed("m", false).is_ok());
    assert!(matches!(plan_install("/models", "m", "o/m", &[], None, None), Err(RegistryError::NoFilesFound(id)) if id == "m"));
    let files = vec![
        file("model-Q8_0.gguf", 8, "https://example.com/q80"),
        file("model-Q4_K_M.gguf", 4, "https://example.com/q4km"),
    ];
    let plan = plan_install("/models", "m", "o/m", &files, None, None).unwrap();
    assert_eq!(plan.file.filename, "model-Q4_K_M.gguf");
    assert_eq!(plan.model_dir, "/models/m");
    assert_eq!(plan.tokenizer_url, "https://huggingface.co/o/m/resolve/main/tokenizer.json");
    assert!(matches!(plan_install("/models", "m", "o/m", &files, None, Some("nope.gguf")), Err(RegistryError::NoFilesFound(_))));
}

#[test]
fn unresolvable_names_and_removals() {
    assert!(matches!(not_resolvable("x"), RegistryError::ModelNotFound(m) if m == "'x' is not a file path or installed model. Use `hivebear install x` first."));
    assert!(matches!(removal_freed_bytes("x", false, None), Err(RegistryError::ModelNotFound(m)) if m == "x"));
    assert_eq!(removal_freed_bytes("x", true, Some(42)).unwrap(), 42);
    assert_eq!(removal_freed_bytes("x", true, None).unwrap(), 0);
}

#[test]
fn search_hits_merge_without_duplicates() {
    let local = vec!["llama".to_string(), "qwen".to_string()];
    let hub = vec!["qwen".to_string(), "phi".to_string(), "phi".to_string(), "gemma".to_string()];
    assert_eq!(
        merge_search_hits(&local, &hub),
        vec![SearchSlot::Local(0), SearchSlot::Local(1), SearchSlot::Hub(1), SearchSlot::Hub(3)]
    );
    assert_eq!(merge_search_hits(&vec![], &vec![]), vec![]);
}
