use codex_manager::routing::{build_upstream_url, normalize_models_path, upstream_base_url, DEFAULT_UPSTREAM_BASE_URL};

#[test]
fn models_path_gets_client_version() {
    assert_eq!(normalize_models_path("/v1/models"), "/v1/models?client_version=0.98.0");
    assert_eq!(normalize_models_path("/v1/models?limit=5"), "/v1/models?limit=5&client_version=0.98.0");
    assert_eq!(normalize_models_path("/v1/models?"), "/v1/models?&client_version=0.98.0");
}

#[test]
fn models_path_with_client_version_is_kept() {
    assert_eq!(normalize_models_path("/v1/models?client_version=1.0"), "/v1/models?client_version=1.0");
    assert_eq!(normalize_models_path("/v1/models?a=1&Client_Version"), "/v1/models?a=1&Client_Version");
    assert_eq!(
        normalize_models_path("/v1/models?client_versionx=1"),
        "/v1/models?client_versionx=1&client_version=0.98.0"
    );
}

#[test]
fn other_paths_are_kept() {
    assert_eq!(normalize_models_path("/v1/responses"), "/v1/responses");
    assert_eq!(normalize_models_path("/v1/modelsx"), "/v1/modelsx");
    assert_eq!(normalize_models_path("/v1/models/gpt"), "/v1/models/gpt");
}

#[test]
fn upstream_url_under_the_codex_backend() {
    assert_eq!(
        build_upstream_url(DEFAULT_UPSTREAM_BASE_URL, "/v1/responses"),
        "https://chatgpt.com/backend-api/codex/responses"
    );
    assert_eq!(
        build_upstream_url("https://chatgpt.com/backend-api/codex/", "/v1/v1/models?x=1"),
        "https://chatgpt.com/backend-api/codex/v1/models?x=1"
    );
    assert_eq!(
        build_upstream_url("https://chatgpt.com/backend-api/codex", "/responses"),
        "https://chatgpt.com/backend-api/codex/responses"
    );
}

#[test]
fn codex_segment_counts_only_at_the_end() {
    assert_eq!(
        build_upstream_url("https://h/backend-api/codex/extra", "/v1/models"),
        "https://h/backend-api/codex/extra/v1/models"
    );
}

#[test]
fn upstream_url_with_v1_base() {
    assert_eq!(build_upstream_url("https://api.example.com/v1//", "/v1/chat"), "https://api.example.com/v1/chat");
    assert_eq!(build_upstream_url("http://host", "/foo?a=b"), "http://host/foo?a=b");
}

#[test]
fn base_url_setting() {
    assert_eq!(upstream_base_url(None), DEFAULT_UPSTREAM_BASE_URL);
    assert_eq!(upstream_base_url(Some("   ")), DEFAULT_UPSTREAM_BASE_URL);
    assert_eq!(upstream_base_url(Some("  http://x/v1 ")), "http://x/v1");
}
