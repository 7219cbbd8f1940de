//! Configuration data model: credential variants, filter rules, and the
//! package-section switches that drive the sync run.
//!
//! The configuration document itself is loaded and schema-validated outside
//! the library; the library only consumes these already-validated values.

use vstd::prelude::*;

verus! {

/// The operation a filter rule performs on the running operating set.
pub enum OperationEnum {
    Include,
    Exclude,
}

/// A rule that selects or deselects a single package by its identifier.
pub struct PackageSingle {
    pub id: String,
    pub operation: OperationEnum,
}

/// A rule that selects or deselects every catalog identifier matching a
/// regular expression.
pub struct PackageRegex {
    pub operation: OperationEnum,
    pub pattern: String,
}

/// One entry of the ordered filter-rule list.
pub enum PackageRuleEnum {
    Regex(PackageRegex),
    Single(PackageSingle),
}

/// Whether downloaded artifacts are stored as raw archives or extracted.
pub enum ZipExtraction {
    Disabled,
    Enabled,
}

/// The package section of the configuration.
pub struct Packages {
    pub zip_extraction: ZipExtraction,
    pub local_dir: String,
    pub filter_rules: Vec<PackageRuleEnum>,
}

/// Basic-authentication credential: a username plus the name of the
/// environment variable holding its password, if one is configured.
pub struct CredentialSUser {
    pub username: String,
    pub password_environment_variable: Option<String>,
}

/// OAuth2 client-credentials credential.
pub struct CredentialOauthClientCredentials {
    pub client_id: String,
    pub token_endpoint_url: String,
    pub client_secret_environment_variable: Option<String>,
}

/// The two mutually exclusive authentication protocols.
pub enum CredentialInside {
    OauthClientCredentials(CredentialOauthClientCredentials),
    SUser(CredentialSUser),
}

/// The tenant to synchronize from.
pub struct Tenant {
    pub management_host: String,
    pub credential: CredentialInside,
}

/// The whole validated configuration document.
pub struct Config {
    pub cpisync: String,
    pub tenant: Tenant,
    pub packages: Packages,
}

/// Default operation for a filter rule that does not state one.
pub fn default_package_rule_operation() -> (r: OperationEnum)
    ensures
        r is Include,
{
    OperationEnum::Include
}

/// Default extraction mode when the configuration does not state one.
pub fn default_extract_zip() -> (r: ZipExtraction)
    ensures
        r is Enabled,
{
    ZipExtraction::Enabled
}

/// Default local directory when the configuration does not state one.
pub fn default_packages_local_dir() -> (r: String)
    ensures
        r@ == "."@,
{
    String::from_str(".")
}

} // verus!
