use forgejo_ssp::config::Opts;
use forgejo_ssp::error::AppError;
use forgejo_ssp::repo::RequestedRepo;
use forgejo_ssp::request::touches_git_dir;
use std::path::PathBuf;

fn opts() -> Opts {
    Opts {
        port: 3000,
        addr: "0.0.0.0".to_string(),
        host_suffix: ".ssp.mydomain.tld".to_string(),
        data: PathBuf::from("/app/data"),
        git_https_base_url: "https://git.mydomain.tld".to_string(),
        git_pages_branch: "pages".to_string(),
        git_default_repo_user: "my-org".to_string(),
        git_password: "token".to_string(),
    }
}

fn parse(host: &str) -> Result<(String, String), AppError> {
    RequestedRepo::from_host(host, &opts()).map(|r| (r.user, r.repo))
}

#[test]
fn host_with_user_routes_to_that_user() {
    assert_eq!(
        parse("blog.alice.ssp.mydomain.tld"),
        Ok(("alice".to_string(), "blog".to_string()))
    );
}

#[test]
fn host_without_user_routes_to_default_user() {
    assert_eq!(
        parse("blog.ssp.mydomain.tld"),
        Ok(("my-org".to_string(), "blog".to_string()))
    );
}

#[test]
fn host_with_empty_user_routes_to_default_user() {
    assert_eq!(
        parse("blog..ssp.mydomain.tld"),
        Ok(("my-org".to_string(), "blog".to_string()))
    );
}

#[test]
fn host_with_extra_labels_keeps_first_two() {
    assert_eq!(
        parse("blog.alice.extra.ssp.mydomain.tld"),
        Ok(("alice".to_string(), "blog".to_string()))
    );
}

#[test]
fn host_equal_to_suffix_names_empty_repo() {
    assert_eq!(
        parse(".ssp.mydomain.tld"),
        Ok(("my-org".to_string(), "".to_string()))
    );
}

#[test]
fn foreign_host_is_not_found() {
    assert_eq!(parse("blog.alice.example.com"), Err(AppError::NotFound));
    assert_eq!(parse("blog.ssp.mydomain.tld:3000"), Err(AppError::NotFound));
    assert_eq!(parse("tld"), Err(AppError::NotFound));
}

#[test]
fn host_with_unicode_labels() {
    assert_eq!(
        parse("wiki.zoë.ssp.mydomain.tld"),
        Ok(("zoë".to_string(), "wiki".to_string()))
    );
}

#[test]
fn repo_display_and_derived_names() {
    let r = RequestedRepo { user: "alice".to_string(), repo: "blog".to_string() };
    assert_eq!(r.to_string(), "alice/blog");
    assert_eq!(r.clone_url("https://git.mydomain.tld"), "https://git.mydomain.tld/alice/blog.git");
    assert_eq!(r.meta_file_name(), "blog.meta.json");
    let c = r.clone();
    assert!(c.same_as(&r));
    let other = RequestedRepo { user: "bob".to_string(), repo: "blog".to_string() };
    assert!(!other.same_as(&r));
}

#[test]
fn git_directory_is_never_served() {
    assert!(touches_git_dir("/.git/config"));
    assert!(touches_git_dir("/.git"));
    assert!(touches_git_dir("/docs/.git/"));
    assert!(!touches_git_dir("/.gitignore"));
    assert!(!touches_git_dir("/index.html"));
    assert!(!touches_git_dir(""));
    assert!(!touches_git_dir("/a.git/b"));
}

#[test]
fn errors_answer_with_status_and_body() {
    assert_eq!(AppError::NotFound.status_code(), 404);
    assert_eq!(AppError::InvalidRequest.status_code(), 400);
    assert_eq!(AppError::InternalError.status_code(), 500);
    assert_eq!(AppError::NotFound.response_body(), "Not found");
    assert_eq!(AppError::InvalidRequest.response_body(), "Invalid request");
    assert_eq!(AppError::InternalError.response_body(), "Internal server error");
    assert_eq!(AppError::NotFound.to_string(), "Not Found");
    assert_eq!(AppError::InvalidRequest.to_string(), "Invalid Request");
    assert_eq!(AppError::InternalError.to_string(), "Internal Error");
}
