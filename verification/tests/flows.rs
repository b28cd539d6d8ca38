use git_opendal::backend::Backend;
use git_opendal::bootstrap::{Bootstrap, BootstrapDone};
use git_opendal::commands::CommandError;
use git_opendal::flow::{Progress, Reply, Request};
use git_opendal::remote::RemoteSpec;
use git_opendal::setup::{Setup, SetupDone};
use git_opendal::status::{Status, StatusReport};

fn ok(s: &str) -> Reply {
    Reply::Output(Ok(s.to_string()))
}

fn err(s: &str) -> Reply {
    Reply::Output(Err(s.to_string()))
}

fn args_of<T>(p: &Progress<T>) -> Vec<String> {
    match p {
        Progress::Next(Request::Capture(a)) | Progress::Next(Request::Run(a)) => a.clone(),
        _ => panic!("expected a git request"),
    }
}

/// Runs a bootstrap on scripted replies, collecting its requests.
fn run_bootstrap(
    branch: Option<&str>,
    json: bool,
    replies: Vec<Reply>,
) -> (Vec<String>, Result<BootstrapDone, CommandError>) {
    let (mut m, mut p) = Bootstrap::start("origin", branch, json);
    let mut log = Vec::new();
    for r in replies {
        match &p {
            Progress::Next(q) => log.push(format!("{q:?}")),
            Progress::Finished(_) => panic!("finished early"),
        }
        p = m.step(r);
    }
    match p {
        Progress::Finished(res) => (log, res),
        Progress::Next(q) => panic!("still waiting for {q:?}"),
    }
}

#[test]
fn bootstrap_pushes_the_current_branch() {
    let (log, res) = run_bootstrap(
        None,
        false,
        vec![
            ok("true"),
            ok("opendal://s3/bk/repo"),
            Reply::Found(true),
            ok("abc"),
            ok("main"),
            Reply::Flags(vec![true, false]),
            ok(""),
        ],
    );
    let done = res.unwrap();
    assert_eq!(done.branch, "main");
    assert_eq!(done.url, "opendal://s3/bk/repo");
    assert_eq!(log.len(), 7);
    assert!(log[5].contains("CredentialFlags(S3)"));
    assert!(log[6].contains("\"push\", \"-u\", \"origin\", \"main\""));
}

#[test]
fn bootstrap_warns_without_credentials() {
    let (log, res) = run_bootstrap(
        Some("dev"),
        false,
        vec![
            ok("true"),
            ok("opendal://gcs/b/r"),
            Reply::Found(true),
            ok("abc"),
            Reply::Flags(vec![false, false]),
            Reply::Done,
            ok(""),
        ],
    );
    assert_eq!(res.unwrap().branch, "dev");
    assert!(log[5].contains("warning: no gcs credentials detected"));
}

#[test]
fn bootstrap_in_json_mode_skips_the_credentials() {
    let (log, res) = run_bootstrap(
        Some("dev"),
        true,
        vec![ok("true"), ok("opendal://fs/x"), Reply::Found(true), ok("abc"), ok("")],
    );
    assert_eq!(res.unwrap().branch, "dev");
    assert!(log[4].contains("Run"));
}

#[test]
fn bootstrap_stops_at_the_first_failed_check() {
    let (_, res) = run_bootstrap(None, false, vec![ok("false")]);
    assert!(matches!(res.unwrap_err(), CommandError::NotInWorkTree));
    let (_, res) = run_bootstrap(None, false, vec![ok("true"), err("no such remote")]);
    assert_eq!(
        res.unwrap_err().message(),
        "remote 'origin' is not configured: no such remote"
    );
    let (_, res) = run_bootstrap(None, false, vec![ok("true"), ok("https://x/y")]);
    assert!(matches!(res.unwrap_err(), CommandError::NotBootstrapRemote(_)));
    let (_, res) = run_bootstrap(None, false, vec![ok("true"), ok("opendal://fs/x"), Reply::Found(false)]);
    assert!(matches!(res.unwrap_err(), CommandError::HelperMissing));
    let (_, res) = run_bootstrap(
        None,
        false,
        vec![ok("true"), ok("opendal://fs/x"), Reply::Found(true), err("")],
    );
    assert!(matches!(res.unwrap_err(), CommandError::NoCommits));
    let (_, res) = run_bootstrap(
        None,
        false,
        vec![ok("true"), ok("opendal://fs/x"), Reply::Found(true), ok("h"), ok("")],
    );
    assert!(matches!(res.unwrap_err(), CommandError::EmptyBranch));
    let (_, res) = run_bootstrap(
        Some("b"),
        true,
        vec![ok("true"), ok("opendal://fs/x"), Reply::Found(true), ok("h"), err("git push -u origin b failed with exit status: 1")],
    );
    assert_eq!(res.unwrap_err().message(), "git push -u origin b failed with exit status: 1");
}

#[test]
fn bootstrap_first_request_checks_the_work_tree() {
    let (m, p) = Bootstrap::start("origin", None, false);
    assert!(!m.is_finished());
    assert_eq!(args_of(&p), vec!["rev-parse", "--is-inside-work-tree"]);
}

fn run_setup(
    spec: RemoteSpec,
    push: bool,
    force: bool,
    json: bool,
    replies: Vec<Reply>,
) -> (Vec<String>, Result<SetupDone, CommandError>) {
    let (mut m, mut p) = Setup::start(spec, "origin", push, force, json);
    let mut log = Vec::new();
    for r in replies {
        match &p {
            Progress::Next(q) => log.push(format!("{q:?}")),
            Progress::Finished(_) => panic!("finished early"),
        }
        p = m.step(r);
    }
    match p {
        Progress::Finished(res) => (log, res),
        Progress::Next(q) => panic!("still waiting for {q:?}"),
    }
}

#[test]
fn setup_adds_a_new_filesystem_remote() {
    let spec = RemoteSpec::new(Backend::Fs, None, "/tmp/r").unwrap();
    let (log, res) = run_setup(
        spec,
        false,
        false,
        false,
        vec![ok("true"), Reply::Found(true), ok(""), err("no such remote"), ok("")],
    );
    assert!(res.unwrap().pushed.is_none());
    assert!(log[1].contains("Doctor(Fs)"));
    assert!(log[2].contains("CreateDir(\"/tmp/r\")"));
    assert!(log[4].contains("\"remote\", \"add\", \"origin\", \"opendal://fs/tmp/r\""));
}

#[test]
fn setup_keeps_or_replaces_an_existing_remote() {
    let url = "opendal://s3/b/p";
    let spec = || RemoteSpec::parse_url(url).unwrap();
    let (log, res) = run_setup(spec(), false, false, false, vec![ok("true"), Reply::Found(true), ok(url), Reply::Done]);
    assert!(res.is_ok());
    assert!(log[3].contains("remote 'origin' already points at opendal://s3/b/p"));

    let (_, res) = run_setup(spec(), false, false, true, vec![ok("true"), Reply::Found(true), ok(url)]);
    assert!(res.is_ok());

    let (_, res) = run_setup(spec(), false, false, true, vec![ok("true"), Reply::Found(true), ok("opendal://s3/c/p")]);
    assert_eq!(
        res.unwrap_err().message(),
        "remote 'origin' already points at opendal://s3/c/p; pass --force to replace it"
    );

    let (log, res) = run_setup(
        spec(),
        false,
        true,
        true,
        vec![ok("true"), Reply::Found(true), ok("opendal://s3/c/p"), ok("")],
    );
    assert!(res.is_ok());
    assert!(log[3].contains("set-url"));
}

#[test]
fn setup_fails_its_checks() {
    let spec = || RemoteSpec::parse_url("opendal://gdrive/r").unwrap();
    let (_, res) = run_setup(spec(), false, false, false, vec![err("fatal")]);
    assert!(matches!(res.unwrap_err(), CommandError::NotInWorkTree));
    let (_, res) = run_setup(spec(), false, false, false, vec![ok("true"), Reply::Found(false)]);
    assert_eq!(res.unwrap_err().message(), "environment checks failed");
    let (_, res) = run_setup(spec(), false, false, true, vec![ok("true"), Reply::Found(false)]);
    assert!(matches!(res.unwrap_err(), CommandError::HelperMissing));
}

#[test]
fn setup_then_pushes() {
    let spec = RemoteSpec::parse_url("opendal://gdrive/r").unwrap();
    let (log, res) = run_setup(
        spec,
        true,
        false,
        true,
        vec![
            ok("true"),
            Reply::Found(true),
            err("no such remote"),
            ok(""),
            ok("true"),
            ok("opendal://gdrive/r"),
            Reply::Found(true),
            ok("h"),
            ok("main"),
            ok(""),
        ],
    );
    let pushed = res.unwrap().pushed.unwrap();
    assert_eq!(pushed.branch, "main");
    assert_eq!(pushed.url, "opendal://gdrive/r");
    assert!(log[4].contains("--is-inside-work-tree"));
    assert!(log[9].contains("\"push\", \"-u\", \"origin\", \"main\""));
}

fn run_status(probe: bool, replies: Vec<Reply>) -> Result<StatusReport, CommandError> {
    let (mut m, mut p) = Status::start("origin", probe);
    for r in replies {
        assert!(matches!(p, Progress::Next(_)));
        p = m.step(r);
    }
    match p {
        Progress::Finished(res) => res,
        Progress::Next(q) => panic!("still waiting for {q:?}"),
    }
}

#[test]
fn status_of_a_filesystem_remote() {
    let rep = run_status(
        true,
        vec![ok("true"), ok("opendal://fs/srv/r"), Reply::Storage(true, false, 0), ok("abc\tHEAD")],
    )
    .unwrap();
    assert_eq!(rep.url, "opendal://fs/srv/r");
    let storage = rep.storage.unwrap();
    assert_eq!(storage.state, "empty (nothing pushed yet)");
    assert_eq!(storage.bundles, 0);
    let refs = rep.refs.unwrap();
    assert_eq!(refs.len(), 1);
    assert_eq!(refs[0].name, "HEAD");
}

#[test]
fn status_of_a_bucket_remote_without_probe() {
    let rep = run_status(false, vec![ok("true"), ok("opendal://azblob/c/p")]).unwrap();
    assert!(rep.storage.is_none());
    assert!(rep.refs.is_none());
    assert_eq!(rep.spec.path(), "p");
}

#[test]
fn status_errors() {
    let e = run_status(false, vec![ok("true"), ok("ssh://x")]).unwrap_err();
    assert!(e.message().starts_with("configured remote is not an opendal:// URL: "));
    let e = run_status(true, vec![ok("true"), ok("opendal://gcs/b/p"), err("git ls-remote origin: boom")]).unwrap_err();
    assert_eq!(e.message(), "git ls-remote origin: boom");
}
