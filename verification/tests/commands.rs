use git_opendal::backend::Backend;
use git_opendal::commands::{
    bootstrap_branch, bootstrap_remote, clone, config_schemas, credential_warning,
    credentials_check, doctor_report, git_check, plan_register, push_args, remote_url,
    require_commits, require_helper, require_work_tree, status_remote, storage_state,
    CommandError, RegisterAction, SchemaOutput,
};
use git_opendal::error::UrlError;

#[test]
fn schema_output_contains_all_backends() {
    let schema_data = SchemaOutput::new("0.1.0");
    assert_eq!(schema_data.supported_backends.len(), 5);
    assert!(schema_data.supported_backends.contains(&"s3"));
    assert!(schema_data.supported_backends.contains(&"fs"));
    assert_eq!(schema_data.backends.len(), 5);
    assert_eq!(schema_data.version, "0.1.0");
}

#[test]
fn config_lists_one_or_all() {
    let one = config_schemas(Some(Backend::Gdrive));
    assert_eq!(one.len(), 1);
    assert_eq!(one[0].backend, "gdrive");
    let all = config_schemas(None);
    let names: Vec<&str> = all.iter().map(|s| s.backend.as_str()).collect();
    assert_eq!(names, vec!["fs", "s3", "gcs", "azblob", "gdrive"]);
}

#[test]
fn work_tree_check() {
    assert!(require_work_tree(&Ok("true".to_string())).is_ok());
    let e = require_work_tree(&Ok("false".to_string())).unwrap_err();
    assert!(matches!(e, CommandError::NotInWorkTree));
    assert_eq!(
        e.message(),
        "not inside a Git work tree; run this from the repository you want to publish"
    );
    assert!(require_work_tree(&Err("fatal".to_string())).is_err());
}

#[test]
fn remote_url_names_the_remote() {
    assert_eq!(remote_url("origin", Ok("opendal://fs/x".to_string())).unwrap(), "opendal://fs/x");
    let e = remote_url("up", Err("git remote get-url up: error: No such remote 'up'".to_string()))
        .unwrap_err();
    assert_eq!(
        e.message(),
        "remote 'up' is not configured: git remote get-url up: error: No such remote 'up'"
    );
}

#[test]
fn helper_and_commit_checks() {
    assert!(require_helper(true).is_ok());
    assert_eq!(
        require_helper(false).unwrap_err().message(),
        "git-remote-opendal is not found on PATH; install this package first"
    );
    assert!(require_commits(true).is_ok());
    assert_eq!(
        require_commits(false).unwrap_err().message(),
        "this repository has no commits yet; make an initial commit first"
    );
}

#[test]
fn bootstrap_and_status_remotes() {
    let spec = bootstrap_remote("opendal://gcs/b/r").unwrap();
    assert_eq!(spec.backend(), Backend::Gcs);
    let e = bootstrap_remote("git@github.com:a/b.git").unwrap_err();
    assert_eq!(
        e.message(),
        "bootstrap requires an opendal:// remote: 'git@github.com:a/b.git' is not an opendal URL; expected opendal://<backend>/<path>"
    );
    let e = status_remote("opendal://nope/x").unwrap_err();
    assert!(matches!(e, CommandError::NotStatusRemote(UrlError::UnsupportedBackend(_))));
    assert_eq!(
        e.message(),
        "configured remote is not an opendal:// URL: unsupported backend 'nope'; use fs, s3, gcs, azblob, or gdrive"
    );
}

#[test]
fn branch_choice() {
    assert_eq!(bootstrap_branch(Ok("main".to_string())).unwrap(), "main");
    let e = bootstrap_branch(Ok(String::new())).unwrap_err();
    assert_eq!(e.message(), "current branch is empty; pass a branch explicitly");
    let e = bootstrap_branch(Err("detached".to_string())).unwrap_err();
    assert_eq!(e.message(), "could not detect current branch; pass it explicitly: detached");
}

#[test]
fn push_arguments() {
    assert_eq!(push_args("origin", "main"), vec!["push", "-u", "origin", "main"]);
}

#[test]
fn clone_plans() {
    let p = clone(" opendal://s3/bk//repo/ ", Some("dest"), true).unwrap();
    assert_eq!(p.backend, Backend::S3);
    assert_eq!(p.args, vec!["clone", "opendal://s3/bk/repo", "dest"]);
    let p = clone("opendal://fs/srv/r", None, true).unwrap();
    assert_eq!(p.args, vec!["clone", "opendal://fs/srv/r"]);
    assert!(matches!(clone("opendal://fs/srv/r", None, false).unwrap_err(), CommandError::HelperMissing));
    assert!(matches!(clone("nope", None, true).unwrap_err(), CommandError::Url(UrlError::NotOpendalUrl(_))));
}

#[test]
fn register_plans() {
    assert_eq!(plan_register("o", "u", None, false).unwrap(), RegisterAction::Add);
    assert_eq!(plan_register("o", "u", Some("u".to_string()), false).unwrap(), RegisterAction::Keep);
    assert_eq!(plan_register("o", "u", Some("v".to_string()), true).unwrap(), RegisterAction::SetUrl);
    let e = plan_register("o", "u", Some("v".to_string()), false).unwrap_err();
    assert_eq!(e.message(), "remote 'o' already points at v; pass --force to replace it");
}

#[test]
fn storage_states() {
    assert_eq!(storage_state(false, false), "directory missing");
    assert_eq!(storage_state(false, true), "directory missing");
    assert_eq!(storage_state(true, false), "empty (nothing pushed yet)");
    assert_eq!(storage_state(true, true), "initialized");
}

#[test]
fn credential_warnings() {
    assert_eq!(
        credential_warning(Backend::Azblob, false),
        Some("warning: no azblob credentials detected; set OPENDAL_AZBLOB_ACCOUNT_NAME and OPENDAL_AZBLOB_ACCOUNT_KEY".to_string())
    );
    assert_eq!(credential_warning(Backend::Azblob, true), None);
    assert_eq!(credential_warning(Backend::Fs, false), None);
}

#[test]
fn git_checks() {
    let c = git_check(Ok("git version 2.39.2".to_string()));
    assert!(c.ok);
    assert_eq!(c.version, Some("git version 2.39.2".to_string()));
    assert_eq!(c.error, None);
    let c = git_check(Ok("git version 2.19.9".to_string()));
    assert!(!c.ok);
    assert_eq!(c.error, Some("git >= 2.20 is required".to_string()));
    let c = git_check(Err("run git".to_string()));
    assert!(!c.ok);
    assert_eq!(c.version, None);
    assert_eq!(c.error, Some("run git".to_string()));
}

#[test]
fn credentials_checks() {
    let c = credentials_check(Backend::S3, &vec![false, true]);
    assert!(c.ok);
    assert_eq!(c.variables.len(), 2);
    assert_eq!(c.variables[0].name, "OPENDAL_S3_ACCESS_KEY_ID");
    assert!(!c.variables[0].set);
    assert!(c.variables[1].set);
    assert_eq!(c.hint, None);
    let c = credentials_check(Backend::Gcs, &vec![false, false]);
    assert!(!c.ok);
    assert_eq!(c.hint, Some("set OPENDAL_GCS_CREDENTIAL_PATH (or OPENDAL_GCS_CREDENTIAL)".to_string()));
    let c = credentials_check(Backend::Fs, &vec![]);
    assert!(c.ok);
    assert!(c.variables.is_empty());
}

#[test]
fn doctor_reports() {
    let r = doctor_report(Ok("git version 2.45.0".to_string()), true, None, &vec![]);
    assert!(!r.failed);
    assert_eq!(r.status(), "ok");
    assert!(r.outcome().is_ok());
    assert!(r.credentials.is_none());

    let r = doctor_report(Ok("git version 2.45.0".to_string()), false, Some(Backend::S3), &vec![false, false]);
    assert!(r.failed);
    assert_eq!(r.status(), "fail");
    assert_eq!(r.outcome().unwrap_err().message(), "environment checks failed");
    assert!(!r.credentials.unwrap().ok);

    let r = doctor_report(Err("no git".to_string()), true, Some(Backend::Fs), &vec![]);
    assert!(r.failed);
    assert!(r.credentials.unwrap().ok);
}
