//! The URLs of the management API, templated by the configured tenant host.

use vstd::prelude::*;

verus! {

/// The connectivity probe: the API root.
pub fn probe_url(host: &str) -> (r: String)
    ensures
        r@ == "https://"@ + host@ + "/api/v1/"@,
{
    let mut r = String::from_str("https://");
    r.append(host);
    r.append("/api/v1/");
    r
}

/// The catalog listing.
pub fn package_list_url(host: &str) -> (r: String)
    ensures
        r@ == "https://"@ + host@ + "/api/v1/IntegrationPackages"@,
{
    let mut r = String::from_str("https://");
    r.append(host);
    r.append("/api/v1/IntegrationPackages");
    r
}

/// The per-package artifact listing.
pub fn artifact_list_url(host: &str, package_id: &str) -> (r: String)
    ensures
        r@ == "https://"@ + host@ + "/api/v1/IntegrationPackages('"@ + package_id@
            + "')/IntegrationDesigntimeArtifacts"@,
{
    let mut r = String::from_str("https://");
    r.append(host);
    r.append("/api/v1/IntegrationPackages('");
    r.append(package_id);
    r.append("')/IntegrationDesigntimeArtifacts");
    r
}

/// The binary payload of one artifact.
pub fn artifact_payload_url(host: &str, artifact_id: &str) -> (r: String)
    ensures
        r@ == "https://"@ + host@ + "/api/v1/IntegrationDesigntimeArtifacts(Id='"@ + artifact_id@
            + "',Version='Active')/$value"@,
{
    let mut r = String::from_str("https://");
    r.append(host);
    r.append("/api/v1/IntegrationDesigntimeArtifacts(Id='");
    r.append(artifact_id);
    r.append("',Version='Active')/$value");
    r
}

/// The OAuth2 token request: the configured endpoint with the
/// client-credentials grant.
pub fn token_request_url(token_endpoint_url: &str) -> (r: String)
    ensures
        r@ == token_endpoint_url@ + "?grant_type=client_credentials"@,
{
    let mut r = token_endpoint_url.to_owned();
    r.append("?grant_type=client_credentials");
    r
}

} // verus!
