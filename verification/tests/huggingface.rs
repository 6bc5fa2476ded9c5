use hivebear::huggingface::hf_to_metadata;
use hivebear::huggingface::{hf_get_status, hf_list_status, hf_search_status};
use hivebear::registry::RegistryError;
use hivebear::huggingface::{
    download_url, guess_category, match_param_pattern, model_api_url, model_name_from_repo,
    param_count_tenths, parse_quantization_from_filename, remote_files_from_siblings, search_url,
    HfSibling, ModelCategory, Quantization,
};

#[test]
fn test_parse_quantization_standard() {
    assert_eq!(
        parse_quantization_from_filename("model-Q4_K_M.gguf"),
        Some(Quantization::Q4KM)
    );
    assert_eq!(
        parse_quantization_from_filename("model-Q5_K_S.gguf"),
        Some(Quantization::Q5KS)
    );
    assert_eq!(
        parse_quantization_from_filename("model-Q8_0.gguf"),
        Some(Quantization::Q8_0)
    );
    assert_eq!(
        parse_quantization_from_filename("model-F16.gguf"),
        Some(Quantization::F16)
    );
}

#[test]
fn test_parse_quantization_lowercase() {
    assert_eq!(
        parse_quantization_from_filename("model-q4_k_m.gguf"),
        Some(Quantization::Q4KM)
    );
}

#[test]
fn test_parse_quantization_dot_separator() {
    assert_eq!(
        parse_quantization_from_filename("model.Q4_K_M.gguf"),
        Some(Quantization::Q4KM)
    );
}

#[test]
fn test_parse_quantization_none() {
    assert_eq!(parse_quantization_from_filename("model.gguf"), None);
    assert_eq!(parse_quantization_from_filename("tokenizer.json"), None);
}

#[test]
fn test_guess_category() {
    assert_eq!(
        guess_category(&["code".into(), "python".into()]),
        ModelCategory::Code
    );
    assert_eq!(
        guess_category(&["conversational".into()]),
        ModelCategory::Chat
    );
    assert_eq!(
        guess_category(&["text-generation".into()]),
        ModelCategory::General
    );
}

#[test]
fn quantization_table_order_prefers_longer_names() {
    assert_eq!(parse_quantization_from_filename("x-Q2_K.gguf"), Some(Quantization::Q2K));
    assert_eq!(parse_quantization_from_filename("x-IQ4_XS-Q4_0.gguf"), Some(Quantization::IQ4XS));
    assert_eq!(parse_quantization_from_filename("x-f32.gguf"), Some(Quantization::F32));
    assert_eq!(parse_quantization_from_filename("model-IQ4_XS.gguf"), Some(Quantization::IQ4XS));
    assert_eq!(parse_quantization_from_filename("model-iq4_xs.gguf"), Some(Quantization::IQ4XS));
    assert_eq!(parse_quantization_from_filename("x-Q3_K_L.gguf"), Some(Quantization::Q3KL));
}

#[test]
fn category_first_matching_tag_wins_and_case_is_ignored() {
    assert_eq!(guess_category(&["Instruct".into(), "Math".into()]), ModelCategory::Instruction);
    assert_eq!(guess_category(&["MATH".into()]), ModelCategory::Math);
    assert_eq!(guess_category(&["multilingual".into()]), ModelCategory::Multilingual);
    assert_eq!(guess_category(&["StarCoder2".into()]), ModelCategory::Code);
    assert_eq!(guess_category(&[]), ModelCategory::General);
}

#[test]
fn param_count_from_name_and_tags() {
    assert_eq!(param_count_tenths("unknown-model", &["license:mit".into(), "size:7b".into()]), 0);
    assert_eq!(param_count_tenths("unknown-model", &["gguf".into(), "llama-13B".into()]), 130);
    assert_eq!(match_param_pattern("mixtral-8x7b"), None);
    assert_eq!(match_param_pattern("mixtral_46.7b"), Some(467));
}

#[test]
fn repo_names_and_urls() {
    assert_eq!(model_name_from_repo("bartowski/Meta-Llama-3.1-8B-Instruct-GGUF"), "Meta-Llama-3.1-8B-Instruct-GGUF");
    assert_eq!(model_name_from_repo("plain"), "plain");
    assert_eq!(model_name_from_repo("a/b/c"), "c");
    assert_eq!(
        download_url("org/repo", "m-Q4_K_M.gguf"),
        "https://huggingface.co/org/repo/resolve/main/m-Q4_K_M.gguf"
    );
    assert_eq!(model_api_url("org/repo"), "https://huggingface.co/api/models/org/repo");
    assert_eq!(
        search_url("llama 3/ü", 20),
        "https://huggingface.co/api/models?search=llama%203%2F%C3%BC&filter=gguf&sort=downloads&direction=-1&limit=20"
    );
    assert_eq!(
        search_url("a-b_c.d~e", 0),
        "https://huggingface.co/api/models?search=a-b_c.d~e&filter=gguf&sort=downloads&direction=-1&limit=0"
    );
}

#[test]
fn listing_keeps_gguf_files_in_order() {
    let siblings = vec![
        HfSibling { filename: "README.md".into(), size: Some(10) },
        HfSibling { filename: "m-Q8_0.gguf".into(), size: Some(8) },
        HfSibling { filename: "tokenizer.json".into(), size: None },
        HfSibling { filename: "m.gguf".into(), size: None },
    ];
    let files = remote_files_from_siblings("org/m", siblings);
    assert_eq!(files.len(), 2);
    assert_eq!(files[0].filename, "m-Q8_0.gguf");
    assert_eq!(files[0].size_bytes, 8);
    assert_eq!(files[0].quantization, Some(Quantization::Q8_0));
    assert_eq!(files[0].download_url, "https://huggingface.co/org/m/resolve/main/m-Q8_0.gguf");
    assert_eq!(files[1].filename, "m.gguf");
    assert_eq!(files[1].size_bytes, 0);
    assert_eq!(files[1].quantization, None);
    assert!(files[1].sha256.is_none());
}

#[test]
fn test_hf_to_metadata() {
    let meta = hf_to_metadata(
        None,
        Some("bartowski/Meta-Llama-3.1-8B-Instruct-GGUF".into()),
        Some(vec!["gguf".into(), "llama".into()]),
        Some(50000),
        Some(200),
        None,
    );
    assert_eq!(meta.repo_id, "bartowski/Meta-Llama-3.1-8B-Instruct-GGUF");
    assert_eq!(meta.downloads, Some(50000));
    assert_eq!(meta.params_tenths, 80);
    let m = hf_to_metadata(
        Some("bartowski/Meta-Llama-3.1-8B-Instruct-GGUF".into()),
        None,
        Some(vec!["gguf".into(), "llama".into(), "conversational".into()]),
        Some(50000),
        Some(200),
        Some("2024-07-23T10:06:17.000Z".into()),
    );
    assert_eq!(m.repo_id, "bartowski/Meta-Llama-3.1-8B-Instruct-GGUF");
    assert_eq!(m.name, "Meta-Llama-3.1-8B-Instruct-GGUF");
    assert_eq!(m.id, "meta-llama-3.1-8b-instruct-gguf");
    assert_eq!(m.params_tenths, 80);
    assert_eq!(m.category, ModelCategory::Chat);
    assert_eq!(m.downloads, Some(50000));
    assert_eq!(m.likes, Some(200));
    assert_eq!(m.last_modified_ms, Some(1721729177000));
    let unknown = hf_to_metadata(None, Some("Some Model".into()), None, None, None, Some("yesterday".into()));
    assert_eq!(unknown.repo_id, "Some Model");
    assert_eq!(unknown.id, "some-model");
    assert_eq!(unknown.last_modified_ms, None);
    let nothing = hf_to_metadata(None, None, None, None, None, None);
    assert_eq!(nothing.repo_id, "unknown-model");
    assert_eq!(nothing.params_tenths, 0);
    assert_eq!(nothing.category, ModelCategory::General);
}

#[test]
fn hub_status_codes_are_judged() {
    assert!(hf_search_status(200).is_ok());
    assert!(matches!(hf_search_status(429), Err(RegistryError::HuggingFaceError(m)) if m == "Rate limited by HuggingFace API. Set HF_TOKEN for higher limits."));
    assert!(matches!(hf_search_status(502), Err(RegistryError::HuggingFaceError(m)) if m == "HTTP 502 Bad Gateway"));
    assert_eq!(hf_get_status(404).unwrap(), false);
    assert_eq!(hf_get_status(200).unwrap(), true);
    assert!(matches!(hf_get_status(500), Err(RegistryError::HuggingFaceError(m)) if m == "HTTP 500 Internal Server Error"));
    assert!(matches!(hf_list_status(404, "o/m"), Err(RegistryError::HuggingFaceError(m)) if m == "HTTP 404 Not Found for o/m"));
    assert!(hf_list_status(204, "o/m").is_ok());
}

#[test]
fn test_extract_param_count() {
    assert_eq!(param_count_tenths("Llama-3.1-8B-Instruct", &[]), 80);
    assert_eq!(param_count_tenths("Qwen2.5-72B-GGUF", &[]), 720);
    assert_eq!(param_count_tenths("phi-3-mini-3.8b", &[]), 38);
    assert_eq!(param_count_tenths("tiny-model-0.5b", &[]), 5);
    assert_eq!(param_count_tenths("unknown-model", &[]), 0);
}
