use cpi_sync::auth::{basic_auth, bearer_header, needs_prompt, pick_secret};
use cpi_sync::errors::SyncError;
use cpi_sync::responses::{
    check_download_status, check_probe_status, parse_artifact_list_response,
    parse_catalog_response, parse_token_response,
};
use cpi_sync::urls::{
    artifact_list_url, artifact_payload_url, package_list_url, probe_url, token_request_url,
};

#[test]
fn urls_follow_the_api_templates() {
    assert_eq!(probe_url("h.example"), "https://h.example/api/v1/");
    assert_eq!(package_list_url("h.example"), "https://h.example/api/v1/IntegrationPackages");
    assert_eq!(
        artifact_list_url("h.example", "PKG1"),
        "https://h.example/api/v1/IntegrationPackages('PKG1')/IntegrationDesigntimeArtifacts"
    );
    assert_eq!(
        artifact_payload_url("h.example", "Art1"),
        "https://h.example/api/v1/IntegrationDesigntimeArtifacts(Id='Art1',Version='Active')/$value"
    );
    assert_eq!(
        token_request_url("https://t.example/oauth/token"),
        "https://t.example/oauth/token?grant_type=client_credentials"
    );
}

#[test]
fn basic_auth_encodes_the_credentials() {
    assert_eq!(basic_auth("user", "pass"), "Basic dXNlcjpwYXNz");
}

#[test]
fn bearer_header_prefixes_the_token() {
    assert_eq!(bearer_header("abc123"), "Bearer abc123");
}

#[test]
fn probe_status_must_be_success() {
    assert!(check_probe_status(200).is_ok());
    assert!(check_probe_status(299).is_ok());
    assert!(matches!(check_probe_status(404), Err(SyncError::ConnectivityCheckFailed)));
    assert!(matches!(check_probe_status(199), Err(SyncError::ConnectivityCheckFailed)));
    assert!(matches!(check_probe_status(300), Err(SyncError::ConnectivityCheckFailed)));
}

#[test]
fn download_status_must_be_success() {
    assert!(check_download_status(200).is_ok());
    assert!(matches!(check_download_status(500), Err(SyncError::ArtifactDownloadFailed)));
}

#[test]
fn catalog_fetch_aborts_on_non_success_status() {
    let body = "{\"d\":{\"results\":[{\"Id\":\"PKG1\",\"Name\":\"One\"}]}}";
    let r = parse_catalog_response(503, body);
    assert!(matches!(r, Err(SyncError::CatalogFetchFailed)));
}

#[test]
fn catalog_fetch_reads_the_envelope() {
    let body = "{\"d\":{\"results\":[\
        {\"Id\":\"PKG1\",\"Name\":\"One\",\"Mode\":\"EDIT_ALLOWED\"},\
        {\"Id\":\"PKG2\",\"Name\":\"Two\",\"Mode\":null},\
        {\"Id\":\"PKG3\",\"Name\":\"Three\"}]}}";
    let entries = parse_catalog_response(200, body).unwrap();
    assert_eq!(entries.len(), 3);
    assert_eq!(entries[0].id, "PKG1");
    assert_eq!(entries[0].name, "One");
    assert_eq!(entries[0].mode, Some("EDIT_ALLOWED".to_string()));
    assert_eq!(entries[1].mode, None);
    assert_eq!(entries[2].id, "PKG3");
    assert_eq!(entries[2].mode, None);
}

#[test]
fn catalog_fetch_keeps_duplicate_rows_verbatim() {
    let body = "{\"d\":{\"results\":[\
        {\"Id\":\"PKG1\",\"Name\":\"One\"},\
        {\"Id\":\"PKG1\",\"Name\":\"One\"}]}}";
    let entries = parse_catalog_response(200, body).unwrap();
    assert_eq!(entries.len(), 2);
    assert_eq!(entries[0].id, "PKG1");
    assert_eq!(entries[1].id, "PKG1");
}

#[test]
fn catalog_fetch_rejects_an_unusable_body() {
    assert!(matches!(parse_catalog_response(200, "not json"), Err(SyncError::CatalogFetchFailed)));
    assert!(matches!(parse_catalog_response(200, "{}"), Err(SyncError::CatalogFetchFailed)));
    assert!(matches!(
        parse_catalog_response(200, "{\"d\":{\"results\":[{\"Name\":\"no id\"}]}}"),
        Err(SyncError::CatalogFetchFailed)
    ));
}

#[test]
fn artifact_list_failures_carry_their_own_error() {
    assert!(matches!(
        parse_artifact_list_response(500, "{}"),
        Err(SyncError::ArtifactListFailed)
    ));
    assert!(matches!(
        parse_artifact_list_response(200, "nope"),
        Err(SyncError::ArtifactListFailed)
    ));
    let entries =
        parse_artifact_list_response(200, "{\"d\":{\"results\":[{\"Id\":\"A1\",\"Name\":\"A\"}]}}")
            .unwrap();
    assert_eq!(entries.len(), 1);
    assert_eq!(entries[0].id, "A1");
}

#[test]
fn token_response_builds_the_bearer_header() {
    let h = parse_token_response("{\"access_token\":\"tok-1\"}").unwrap();
    assert_eq!(h, "Bearer tok-1");
}

#[test]
fn token_response_failures_are_auth_exchange_failures() {
    assert!(matches!(parse_token_response("nope"), Err(SyncError::AuthExchangeFailed)));
    assert!(matches!(parse_token_response("{}"), Err(SyncError::AuthExchangeFailed)));
    assert!(matches!(
        parse_token_response("{\"access_token\":42}"),
        Err(SyncError::AuthExchangeFailed)
    ));
}

#[test]
fn secret_comes_from_the_environment_first() {
    let r = pick_secret(Some("env-secret".to_string()), Some("prompted".to_string())).unwrap();
    assert_eq!(r, "env-secret");
}

#[test]
fn empty_environment_value_falls_back_to_the_prompt() {
    let r = pick_secret(Some("".to_string()), Some("prompted".to_string())).unwrap();
    assert_eq!(r, "prompted");
    let r2 = pick_secret(None, Some("prompted".to_string())).unwrap();
    assert_eq!(r2, "prompted");
}

#[test]
fn no_secret_at_all_is_missing_credential() {
    assert!(matches!(pick_secret(None, None), Err(SyncError::MissingCredential)));
    assert!(matches!(pick_secret(Some("".to_string()), None), Err(SyncError::MissingCredential)));
}

#[test]
fn prompt_is_needed_only_without_a_usable_environment_secret() {
    assert!(needs_prompt(&None, false));
    assert!(needs_prompt(&Some("".to_string()), false));
    assert!(!needs_prompt(&Some("x".to_string()), false));
    assert!(!needs_prompt(&None, true));
}

#[test]
fn defaults_match_the_configuration_contract() {
    assert!(matches!(
        cpi_sync::config::default_package_rule_operation(),
        cpi_sync::config::OperationEnum::Include
    ));
    assert!(matches!(
        cpi_sync::config::default_extract_zip(),
        cpi_sync::config::ZipExtraction::Enabled
    ));
    assert_eq!(cpi_sync::config::default_packages_local_dir(), ".");
}
