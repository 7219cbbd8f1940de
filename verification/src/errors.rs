//! The error taxonomy of a sync run. Every failure is fatal: it aborts the
//! run and is reported to the operator.

use vstd::prelude::*;

verus! {

/// Why a sync run stopped.
#[derive(Debug)]
pub enum SyncError {
    /// No secret could be obtained from the environment or a prompt.
    MissingCredential,
    /// The OAuth2 token request failed or its body was not understood.
    AuthExchangeFailed,
    /// The connectivity probe returned a non-success status.
    ConnectivityCheckFailed,
    /// The catalog listing returned a non-success status or an unusable body.
    CatalogFetchFailed,
    /// A per-package artifact listing returned a non-success status or an
    /// unusable body.
    ArtifactListFailed,
    /// An artifact payload request returned a non-success status.
    ArtifactDownloadFailed,
    /// A filter rule holds a malformed regular expression.
    InvalidPattern { pattern: String },
    /// A single-package rule names an identifier absent from the catalog.
    /// The suggestion holds the identifiers registered under that string as a
    /// display name, when there are any.
    UnknownPackageId { id: String, suggestion: Option<String> },
    /// A downloaded payload is not a valid archive.
    ArchiveCorrupt,
}

impl SyncError {
    /// A human-readable report of the failure. The unknown-identifier report
    /// names the identifier and carries the name-index suggestion exactly
    /// when one exists; the invalid-pattern report names the pattern.
    pub fn message(&self) -> (r: String)
        ensures
            (self is MissingCredential ==> r@ == "Could not use any password/secret"@),
            (self is AuthExchangeFailed ==> r@ == "Token exchange failed"@),
            (self is ConnectivityCheckFailed ==> r@ == "API Check Failed!"@),
            (self is CatalogFetchFailed ==> r@ == "API Package List Failed!"@),
            (self is ArtifactListFailed ==> r@ == "API Package List Artifacts Failed!"@),
            (self is ArtifactDownloadFailed ==> r@ == "API Artifact Download Failed!"@),
            (self matches SyncError::InvalidPattern { pattern } ==> r@
                == "Invalid filter pattern: "@ + pattern@),
            (self matches SyncError::UnknownPackageId { id, suggestion: Some(s) } ==> r@
                == "Package ID not found: "@ + id@
                + " Did you enter the Package name instead of this Package ID?: '"@ + s@ + "'"@),
            (self matches SyncError::UnknownPackageId { id, suggestion: None } ==> r@
                == "Package ID not found: "@ + id@),
            (self is ArchiveCorrupt ==> r@ == "Archive is corrupt"@),
    {
        match self {
            SyncError::MissingCredential => String::from_str(
                "Could not use any password/secret",
            ),
            SyncError::AuthExchangeFailed => String::from_str(
                "Token exchange failed",
            ),
            SyncError::ConnectivityCheckFailed => String::from_str("API Check Failed!"),
            SyncError::CatalogFetchFailed => String::from_str("API Package List Failed!"),
            SyncError::ArtifactListFailed => String::from_str(
                "API Package List Artifacts Failed!",
            ),
            SyncError::ArtifactDownloadFailed => String::from_str(
                "API Artifact Download Failed!",
            ),
            SyncError::InvalidPattern { pattern } => {
                let mut m = String::from_str("Invalid filter pattern: ");
                m.append(pattern.as_str());
                m
            },
            SyncError::UnknownPackageId { id, suggestion } => {
                let mut m = String::from_str("Package ID not found: ");
                m.append(id.as_str());
                match suggestion {
                    Some(s) => {
                        m.append(
                            " Did you enter the Package name instead of this Package ID?: '",
                        );
                        m.append(s.as_str());
                        m.append("'");
                    },
                    None => {},
                }
                m
            },
            SyncError::ArchiveCorrupt => String::from_str("Archive is corrupt"),
        }
    }
}

} // verus!
