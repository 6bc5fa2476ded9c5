use hivebear::download::{
    absorb_read, start_integrity_check, verify_download,
    after_stream_error, backoff_secs, discard_stale_partial, download_paths, is_range_failure,
    lower_hex_string, plan_response, request_headers, retry_step, verify_checksum, PartialMeta,
    RetryStep, SendOutcome, TransferProgress, STREAM_ATTEMPTS,
};
use hivebear::registry::RegistryError;

#[test]
fn download_paths_sit_beside_each_other() {
    let p = download_paths("/models/llama", "model.gguf");
    assert_eq!(p.final_path, "/models/llama/model.gguf");
    assert_eq!(p.partial_path, "/models/llama/model.gguf.partial");
    assert_eq!(p.meta_path, "/models/llama/model.gguf.partial.meta");
}

#[test]
fn partial_meta_starts_without_total() {
    let m = PartialMeta::new("https://x/y", Some("abc"), "llama", "model.gguf", "2024-01-01T00:00:00Z".into());
    assert_eq!(m.url, "https://x/y");
    assert_eq!(m.total_bytes, None);
    assert_eq!(m.sha256_expected.as_deref(), Some("abc"));
    assert_eq!(m.model_id, "llama");
    assert_eq!(m.filename, "model.gguf");
}

#[test]
fn stale_partial_only_when_url_changed() {
    assert!(discard_stale_partial(Some("https://a"), "https://b"));
    assert!(!discard_stale_partial(Some("https://a"), "https://a"));
    assert!(!discard_stale_partial(None, "https://a"));
}

#[test]
fn headers_carry_token_and_range() {
    let h = request_headers(Some("tok"), 1024);
    assert_eq!(
        h,
        vec![
            ("Authorization".to_string(), "Bearer tok".to_string()),
            ("Range".to_string(), "bytes=1024-".to_string()),
        ]
    );
    assert!(request_headers(Some(""), 0).is_empty());
    assert_eq!(request_headers(None, 7), vec![("Range".to_string(), "bytes=7-".to_string())]);
}

#[test]
fn backoff_doubles_from_two_seconds() {
    assert_eq!(backoff_secs(0), 2);
    assert_eq!(backoff_secs(1), 4);
    assert_eq!(backoff_secs(2), 8);
    assert_eq!(backoff_secs(10), 2048);
}

#[test]
fn success_and_partial_content_are_accepted() {
    assert!(matches!(retry_step("u", 0, 3, &SendOutcome::Response(200)), RetryStep::Accept));
    assert!(matches!(retry_step("u", 3, 3, &SendOutcome::Response(206)), RetryStep::Accept));
}

#[test]
fn transient_failures_are_retried_with_backoff() {
    match retry_step("u", 1, 3, &SendOutcome::Response(503)) {
        RetryStep::Retry { delay_secs } => assert_eq!(delay_secs, 4),
        other => panic!("unexpected {other:?}"),
    }
    match retry_step("u", 0, 3, &SendOutcome::Response(429)) {
        RetryStep::Retry { delay_secs } => assert_eq!(delay_secs, 2),
        other => panic!("unexpected {other:?}"),
    }
    match retry_step("u", 2, 3, &SendOutcome::NetworkError("reset".into())) {
        RetryStep::Retry { delay_secs } => assert_eq!(delay_secs, 8),
        other => panic!("unexpected {other:?}"),
    }
}

fn failure(step: RetryStep) -> String {
    match step {
        RetryStep::Fail(RegistryError::DownloadError(m)) => m,
        other => panic!("expected a download error, got {other:?}"),
    }
}

#[test]
fn final_failures_name_their_cause() {
    assert_eq!(
        failure(retry_step("u", 0, 3, &SendOutcome::Response(403))),
        "Access denied (HTTP 403 Forbidden). You may need to set HF_TOKEN for gated models."
    );
    assert_eq!(
        failure(retry_step("u", 0, 3, &SendOutcome::Response(404))),
        "File not found (HTTP 404). The model file may have been moved or renamed."
    );
    assert_eq!(
        failure(retry_step("u", 0, 3, &SendOutcome::Response(416))),
        "Requested range not satisfiable (HTTP 416)."
    );
    assert_eq!(
        failure(retry_step("u", 3, 3, &SendOutcome::Response(429))),
        "Rate limited (HTTP 429). Try again in a few minutes, or set HF_TOKEN for higher limits."
    );
    assert_eq!(
        failure(retry_step("https://h/f", 3, 3, &SendOutcome::Response(500))),
        "HTTP 500 Internal Server Error for https://h/f"
    );
    assert_eq!(
        failure(retry_step("u", 3, 3, &SendOutcome::NetworkError("timed out".into()))),
        "Download failed after 4 attempts: timed out"
    );
}

#[test]
fn refused_range_restarts_only_a_resumed_download() {
    assert!(is_range_failure("Requested range not satisfiable (HTTP 416).", 10));
    assert!(!is_range_failure("Requested range not satisfiable (HTTP 416).", 0));
    assert!(!is_range_failure("File not found (HTTP 404).", 10));
}

#[test]
fn responses_are_planned_by_status() {
    let p = plan_response(206, Some(100), 50);
    assert_eq!(p.offset, 50);
    assert_eq!(p.total_bytes, Some(150));
    assert!(p.append);
    let p = plan_response(200, Some(100), 50);
    assert_eq!(p.offset, 0);
    assert_eq!(p.total_bytes, Some(100));
    assert!(!p.append);
    let p = plan_response(206, None, 0);
    assert_eq!(p.total_bytes, None);
    assert!(!p.append);
}

#[test]
fn progress_reports_are_throttled() {
    let mut t = TransferProgress::start(plan_response(206, Some(60), 40));
    t.record_chunk(30);
    assert_eq!(t.bytes_downloaded, 70);
    assert_eq!(t.session_bytes(), 30);
    assert!(!t.is_finished());
    assert!(!t.should_emit(50));
    assert!(t.should_emit(100));
    t.record_chunk(30);
    assert!(t.is_finished());
    assert!(t.should_emit(0));
}

#[test]
fn broken_streams_are_resumed_a_bounded_number_of_times() {
    let mut left = STREAM_ATTEMPTS;
    let mut resumed = 0;
    loop {
        match after_stream_error(left) {
            Ok(n) => {
                left = n;
                resumed += 1;
            }
            Err(RegistryError::DownloadError(m)) => {
                assert_eq!(m, "Max stream retries exceeded");
                break;
            }
            Err(e) => panic!("unexpected {e:?}"),
        }
    }
    assert_eq!(resumed, 4);
}

#[test]
fn digests_print_as_lower_hex() {
    assert_eq!(lower_hex_string(&[0x00, 0x0f, 0xab, 0xff]), "000fabff");
    assert_eq!(lower_hex_string(&[]), "");
}

#[test]
fn checksums_compare_ignoring_case() {
    assert!(verify_checksum("/m/f.partial", "ABCDEF", "abcdef").is_ok());
    match verify_checksum("/m/f.partial", "abc", "abd") {
        Err(RegistryError::IntegrityError { path, expected, actual }) => {
            assert_eq!(path, "/m/f.partial");
            assert_eq!(expected, "abc");
            assert_eq!(actual, "abd");
        }
        other => panic!("unexpected {other:?}"),
    }
}

#[test]
fn nested_file_names_create_their_subdirectory() {
    assert_eq!(hivebear::download::download_dir_to_create("/m/llama", "Q4_K_M/model.gguf"), "/m/llama/Q4_K_M");
    assert_eq!(hivebear::download::download_dir_to_create("/m/llama", "model.gguf"), "/m/llama");
    assert_eq!(hivebear::download::download_dir_to_create("", "/"), "");
}

#[test]
fn download_integrity_check_hashes_the_file_bytes() {
    assert!(start_integrity_check(None).is_none());
    let mut h = start_integrity_check(Some("x")).unwrap();
    let buffer = *b"abcXYZ";
    assert!(!absorb_read(&mut h, &buffer, 3));
    assert!(absorb_read(&mut h, &buffer, 0));
    let digest = "BA7816BF8F01CFEA414140DE5DAE2223B00361A396177A9CB410FF61F20015AD";
    assert!(verify_download("/m/f.partial", digest, h).is_ok());

    let mut h = start_integrity_check(Some("x")).unwrap();
    assert!(!absorb_read(&mut h, b"ab", 2));
    assert!(!absorb_read(&mut h, b"c", 1));
    match verify_download("/m/f.partial", "00", h) {
        Err(RegistryError::IntegrityError { path, expected, actual }) => {
            assert_eq!(path, "/m/f.partial");
            assert_eq!(expected, "00");
            assert_eq!(actual, digest.to_lowercase());
        }
        other => panic!("unexpected {:?}", other),
    }
}
