//! The service's settings.
use vstd::prelude::*;

verus! {

/// `std::path::PathBuf`, carried through as an opaque value.
#[verifier::external_type_specification]
#[verifier::external_body]
pub struct ExPathBuf(std::path::PathBuf);

/// Settings of the service.
pub struct Opts {
    /// Port to listen on.
    pub port: u16,
    /// Address to listen on.
    pub addr: String,
    /// Suffix of the HTTP host; requests are read as `{repo}.{user}{host_suffix}`
    /// or `{repo}{host_suffix}`.
    pub host_suffix: String,
    /// Path to the data directory.
    pub data: std::path::PathBuf,
    /// Base URL of the git server.
    pub git_https_base_url: String,
    /// Branch to pull the static files from.
    pub git_pages_branch: String,
    /// User to look under when the host names none.
    pub git_default_repo_user: String,
    /// Token used to authenticate against the git server.
    pub git_password: String,
}

} // verus!
