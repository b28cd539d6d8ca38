//! The decisions of the `git opendal` commands, apart from the Git calls and
//! the file system work that they take as their inputs.
use vstd::prelude::*;

use crate::backend::{
    all_backends, opt_string, strings_view, strs_view, Backend, BackendSchema, BackendSchemaView,
};
use crate::error::{UrlError, UrlErrorView};
use crate::git::{git_version_at_least, version_at_least_spec, MIN_GIT_MAJOR, MIN_GIT_MINOR};
use crate::remote::{parse_url_spec, url_spec, RemoteSpec};
use crate::text::same_text;

verus! {

broadcast use vstd::string::group_string_axioms;

/// Why a command stops.
#[derive(Debug)]
pub enum CommandError {
    /// A remote description or URL was refused.
    Url(UrlError),
    /// `git remote get-url` failed for the remote; `cause` is Git's error.
    RemoteNotConfigured { remote: String, cause: String },
    NotInWorkTree,
    HelperMissing,
    /// The remote that `bootstrap` pushes to is no `opendal://` remote.
    NotBootstrapRemote(UrlError),
    /// The remote that `status` inspects is no `opendal://` remote.
    NotStatusRemote(UrlError),
    NoCommits,
    /// Git could not name the current branch; `cause` is Git's error.
    BranchUndetected(String),
    EmptyBranch,
    /// The remote exists with another URL and `--force` was not given.
    RemoteConflict { name: String, existing: String },
    ChecksFailed,
    /// Outside work failed (a Git command, a directory); the text says how.
    Failed(String),
}

/// The view of a [`CommandError`].
pub enum CommandErrorView {
    Url(UrlErrorView),
    RemoteNotConfigured { remote: Seq<char>, cause: Seq<char> },
    NotInWorkTree,
    HelperMissing,
    NotBootstrapRemote(UrlErrorView),
    NotStatusRemote(UrlErrorView),
    NoCommits,
    BranchUndetected(Seq<char>),
    EmptyBranch,
    RemoteConflict { name: Seq<char>, existing: Seq<char> },
    ChecksFailed,
    Failed(Seq<char>),
}

impl View for CommandError {
    type V = CommandErrorView;

    open spec fn view(&self) -> CommandErrorView {
        match self {
            CommandError::Url(e) => CommandErrorView::Url(e@),
            CommandError::RemoteNotConfigured { remote, cause } => CommandErrorView::RemoteNotConfigured {
                remote: remote@,
                cause: cause@,
            },
            CommandError::NotInWorkTree => CommandErrorView::NotInWorkTree,
            CommandError::HelperMissing => CommandErrorView::HelperMissing,
            CommandError::NotBootstrapRemote(e) => CommandErrorView::NotBootstrapRemote(e@),
            CommandError::NotStatusRemote(e) => CommandErrorView::NotStatusRemote(e@),
            CommandError::NoCommits => CommandErrorView::NoCommits,
            CommandError::BranchUndetected(c) => CommandErrorView::BranchUndetected(c@),
            CommandError::EmptyBranch => CommandErrorView::EmptyBranch,
            CommandError::RemoteConflict { name, existing } => CommandErrorView::RemoteConflict {
                name: name@,
                existing: existing@,
            },
            CommandError::ChecksFailed => CommandErrorView::ChecksFailed,
            CommandError::Failed(t) => CommandErrorView::Failed(t@),
        }
    }
}

impl CommandError {
    /// The text shown to the user: the error, after its context where it has one.
    pub open spec fn message_spec(&self) -> Seq<char> {
        match self {
            CommandError::Url(e) => e@.message(),
            CommandError::RemoteNotConfigured { remote, cause } => "remote '"@ + remote@
                + "' is not configured: "@ + cause@,
            CommandError::NotInWorkTree => "not inside a Git work tree; run this from the repository you want to publish"@,
            CommandError::HelperMissing => "git-remote-opendal is not found on PATH; install this package first"@,
            CommandError::NotBootstrapRemote(e) => "bootstrap requires an opendal:// remote: "@
                + e@.message(),
            CommandError::NotStatusRemote(e) => "configured remote is not an opendal:// URL: "@
                + e@.message(),
            CommandError::NoCommits => "this repository has no commits yet; make an initial commit first"@,
            CommandError::BranchUndetected(cause) => "could not detect current branch; pass it explicitly: "@
                + cause@,
            CommandError::EmptyBranch => "current branch is empty; pass a branch explicitly"@,
            CommandError::RemoteConflict { name, existing } => "remote '"@ + name@
                + "' already points at "@ + existing@ + "; pass --force to replace it"@,
            CommandError::ChecksFailed => "environment checks failed"@,
            CommandError::Failed(t) => t@,
        }
    }

    /// The text shown to the user.
    pub fn message(&self) -> (r: String)
        ensures
            r@ == self.message_spec(),
    {
        match self {
            CommandError::Url(e) => e.message(),
            CommandError::RemoteNotConfigured { remote, cause } => {
                let mut m = String::from_str("remote '");
                m.append(remote.as_str());
                m.append("' is not configured: ");
                m.append(cause.as_str());
                m
            },
            CommandError::NotInWorkTree => String::from_str(
                "not inside a Git work tree; run this from the repository you want to publish",
            ),
            CommandError::HelperMissing => String::from_str(
                "git-remote-opendal is not found on PATH; install this package first",
            ),
            CommandError::NotBootstrapRemote(e) => {
                let mut m = String::from_str("bootstrap requires an opendal:// remote: ");
                let inner = e.message();
                m.append(inner.as_str());
                m
            },
            CommandError::NotStatusRemote(e) => {
                let mut m = String::from_str("configured remote is not an opendal:// URL: ");
                let inner = e.message();
                m.append(inner.as_str());
                m
            },
            CommandError::NoCommits => String::from_str(
                "this repository has no commits yet; make an initial commit first",
            ),
            CommandError::BranchUndetected(cause) => {
                let mut m = String::from_str(
                    "could not detect current branch; pass it explicitly: ",
                );
                m.append(cause.as_str());
                m
            },
            CommandError::EmptyBranch => String::from_str(
                "current branch is empty; pass a branch explicitly",
            ),
            CommandError::RemoteConflict { name, existing } => {
                let mut m = String::from_str("remote '");
                m.append(name.as_str());
                m.append("' already points at ");
                m.append(existing.as_str());
                m.append("; pass --force to replace it");
                m
            },
            CommandError::ChecksFailed => String::from_str("environment checks failed"),
            CommandError::Failed(t) => t.clone(),
        }
    }
}

/// Passes when `git rev-parse --is-inside-work-tree` answered `true`.
pub fn require_work_tree(capture: &Result<String, String>) -> (r: Result<(), CommandError>)
    ensures
        r is Ok <==> (capture matches Ok(v) && v@ == "true"@),
        r matches Err(e) ==> e is NotInWorkTree,
{
    match capture {
        Ok(v) => {
            if same_text(v.as_str(), "true") {
                Ok(())
            } else {
                Err(CommandError::NotInWorkTree)
            }
        },
        Err(_) => Err(CommandError::NotInWorkTree),
    }
}

/// The URL of a remote from what `git remote get-url <remote>` gave back;
/// when Git failed, an error that names the remote and carries Git's.
pub fn remote_url(remote: &str, capture: Result<String, String>) -> (r: Result<
    String,
    CommandError,
>)
    ensures
        match capture {
            Ok(u) => r == Ok::<String, CommandError>(u),
            Err(c) => match r {
                Err(CommandError::RemoteNotConfigured { remote: x, cause: y }) => x@ == remote@
                    && y@ == c@,
                _ => false,
            },
        },
{
    match capture {
        Ok(u) => Ok(u),
        Err(c) => Err(CommandError::RemoteNotConfigured { remote: String::from_str(remote), cause: c }),
    }
}

/// Passes when `git-remote-opendal` was found on `PATH`.
pub fn require_helper(installed: bool) -> (r: Result<(), CommandError>)
    ensures
        r is Ok <==> installed,
        r matches Err(e) ==> e is HelperMissing,
{
    if installed {
        Ok(())
    } else {
        Err(CommandError::HelperMissing)
    }
}

/// Passes when the repository has a `HEAD` commit.
pub fn require_commits(has_head: bool) -> (r: Result<(), CommandError>)
    ensures
        r is Ok <==> has_head,
        r matches Err(e) ==> e is NoCommits,
{
    if has_head {
        Ok(())
    } else {
        Err(CommandError::NoCommits)
    }
}

/// The remote that `bootstrap` pushes to, read from its configured URL.
pub fn bootstrap_remote(url: &str) -> (r: Result<RemoteSpec, CommandError>)
    ensures
        match parse_url_spec(url@) {
            Ok(s) => r matches Ok(x) && x@ == s,
            Err(e) => r matches Err(CommandError::NotBootstrapRemote(x)) && x@ == e,
        },
{
    match RemoteSpec::parse_url(url) {
        Ok(s) => Ok(s),
        Err(e) => Err(CommandError::NotBootstrapRemote(e)),
    }
}

/// The remote that `status` inspects, read from its configured URL.
pub fn status_remote(url: &str) -> (r: Result<RemoteSpec, CommandError>)
    ensures
        match parse_url_spec(url@) {
            Ok(s) => r matches Ok(x) && x@ == s,
            Err(e) => r matches Err(CommandError::NotStatusRemote(x)) && x@ == e,
        },
{
    match RemoteSpec::parse_url(url) {
        Ok(s) => Ok(s),
        Err(e) => Err(CommandError::NotStatusRemote(e)),
    }
}

/// The branch that `bootstrap` pushes: the one given, or else what
/// `git branch --show-current` answered; it must not be empty.
pub fn bootstrap_branch(chosen: Result<String, String>) -> (r: Result<String, CommandError>)
    ensures
        match chosen {
            Ok(b) => if b@.len() == 0 {
                r matches Err(e) && e is EmptyBranch
            } else {
                r == Ok::<String, CommandError>(b)
            },
            Err(c) => r matches Err(CommandError::BranchUndetected(x)) && x@ == c@,
        },
{
    match chosen {
        Ok(b) => {
            if b.as_str().is_empty() {
                Err(CommandError::EmptyBranch)
            } else {
                Ok(b)
            }
        },
        Err(c) => Err(CommandError::BranchUndetected(c)),
    }
}

/// The arguments of the `git push` that publishes `branch` to `remote`.
pub fn push_args(remote: &str, branch: &str) -> (r: Vec<String>)
    ensures
        strings_view(r@) == seq!["push"@, "-u"@, remote@, branch@],
{
    let r = vec![
        String::from_str("push"),
        String::from_str("-u"),
        String::from_str(remote),
        String::from_str(branch),
    ];
    assert(strings_view(r@) =~= seq!["push"@, "-u"@, remote@, branch@]);
    r
}

/// What `git opendal clone` runs: the remote's backend, for the credentials
/// warning, and the arguments of `git clone`.
#[derive(Debug)]
pub struct ClonePlan {
    pub backend: Backend,
    pub args: Vec<String>,
}

/// The `git clone` of an `opendal://` URL: the URL is read and written back
/// in its normal form, and the helper must be installed.
pub fn clone(url: &str, directory: Option<&str>, helper_installed: bool) -> (r: Result<
    ClonePlan,
    CommandError,
>)
    ensures
        match parse_url_spec(url@) {
            Err(e) => r matches Err(CommandError::Url(x)) && x@ == e,
            Ok(s) => if !helper_installed {
                r matches Err(e) && e is HelperMissing
            } else {
                r matches Ok(p) && p.backend == s.backend && strings_view(p.args@) == match directory {
                    Some(d) => seq!["clone"@, url_spec(s), d@],
                    None => seq!["clone"@, url_spec(s)],
                }
            },
        },
{
    let spec = match RemoteSpec::parse_url(url) {
        Ok(s) => s,
        Err(e) => {
            return Err(CommandError::Url(e));
        },
    };
    if !helper_installed {
        return Err(CommandError::HelperMissing);
    }
    let mut args: Vec<String> = Vec::new();
    args.push(String::from_str("clone"));
    args.push(spec.url());
    match directory {
        Some(d) => {
            args.push(String::from_str(d));
        },
        None => {},
    }
    let ghost expected = match directory {
        Some(d) => seq!["clone"@, url_spec(spec@), d@],
        None => seq!["clone"@, url_spec(spec@)],
    };
    assert(strings_view(args@) =~= expected);
    Ok(ClonePlan { backend: spec.backend(), args })
}

/// What registering a remote does to the repository's configuration.
#[derive(Clone, Copy, PartialEq, Eq, Structural, Debug)]
pub enum RegisterAction {
    /// The remote already points at the URL.
    Keep,
    /// The remote is pointed at the URL (`git remote set-url`).
    SetUrl,
    /// The remote is added (`git remote add`).
    Add,
}

/// How to register `name` for `url`, given the URL the remote has now
/// (`None` when `git remote get-url` failed): an existing remote with
/// another URL is replaced only with `force`.
pub fn plan_register(name: &str, url: &str, existing: Option<String>, force: bool) -> (r: Result<
    RegisterAction,
    CommandError,
>)
    ensures
        match existing {
            None => r == Ok::<RegisterAction, CommandError>(RegisterAction::Add),
            Some(e) => if e@ == url@ {
                r == Ok::<RegisterAction, CommandError>(RegisterAction::Keep)
            } else if force {
                r == Ok::<RegisterAction, CommandError>(RegisterAction::SetUrl)
            } else {
                match r {
                    Err(CommandError::RemoteConflict { name: n, existing: x }) => n@ == name@
                        && x@ == e@,
                    _ => false,
                }
            },
        },
{
    match existing {
        None => Ok(RegisterAction::Add),
        Some(e) => {
            if same_text(e.as_str(), url) {
                Ok(RegisterAction::Keep)
            } else if force {
                Ok(RegisterAction::SetUrl)
            } else {
                Err(CommandError::RemoteConflict { name: String::from_str(name), existing: e })
            }
        },
    }
}

/// The state of a filesystem remote's storage directory: missing, empty
/// until its ref list exists, and initialized after.
pub open spec fn storage_state_spec(root_is_dir: bool, refs_is_file: bool) -> Seq<char> {
    if !root_is_dir {
        "directory missing"@
    } else if !refs_is_file {
        "empty (nothing pushed yet)"@
    } else {
        "initialized"@
    }
}

/// The state of a filesystem remote's storage directory.
pub fn storage_state(root_is_dir: bool, refs_is_file: bool) -> (r: &'static str)
    ensures
        r@ == storage_state_spec(root_is_dir, refs_is_file),
{
    if !root_is_dir {
        "directory missing"
    } else if !refs_is_file {
        "empty (nothing pushed yet)"
    } else {
        "initialized"
    }
}

/// The warning printed before pushing or cloning without credentials.
pub open spec fn credential_warning_spec(backend: Backend, present: bool) -> Option<Seq<char>> {
    if !present && backend.hint() is Some {
        Some("warning: no "@ + backend.name() + " credentials detected; "@ + backend.hint()->0)
    } else {
        None
    }
}

/// The warning to print when the backend's credentials are missing.
pub fn credential_warning(backend: Backend, present: bool) -> (r: Option<String>)
    ensures
        opt_string(r) == credential_warning_spec(backend, present),
{
    if !present {
        if let Some(hint) = backend.credential_hint() {
            let mut m = String::from_str("warning: no ");
            m.append(backend.as_str());
            m.append(" credentials detected; ");
            m.append(hint);
            return Some(m);
        }
    }
    None
}

/// The outcome of the Git check of `doctor`.
#[derive(Debug)]
pub struct GitCheck {
    pub ok: bool,
    pub version: Option<String>,
    pub error: Option<String>,
}

/// What the Git check holds: whether it passed, the version line and the error.
pub type GitCheckView = (bool, Option<Seq<char>>, Option<Seq<char>>);

impl View for GitCheck {
    type V = GitCheckView;

    open spec fn view(&self) -> GitCheckView {
        (self.ok, opt_string(self.version), opt_string(self.error))
    }
}

/// What `git --version` gave back, by view.
pub open spec fn capture_view(c: Result<String, String>) -> Result<Seq<char>, Seq<char>> {
    match c {
        Ok(v) => Ok(v@),
        Err(e) => Err(e@),
    }
}

/// The Git check: a version line passes when it names Git 2.20 or newer; a
/// failure to run Git is reported with Git's error.
pub open spec fn git_check_spec(capture: Result<Seq<char>, Seq<char>>) -> GitCheckView {
    match capture {
        Ok(v) => if version_at_least_spec(v, (MIN_GIT_MAJOR, MIN_GIT_MINOR)) {
            (true, Some(v), None)
        } else {
            (false, Some(v), Some("git >= 2.20 is required"@))
        },
        Err(e) => (false, None, Some(e)),
    }
}

/// Judges what `git --version` gave back against the oldest supported Git.
pub fn git_check(capture: Result<String, String>) -> (r: GitCheck)
    ensures
        r@ == git_check_spec(capture_view(capture)),
{
    match capture {
        Ok(v) => {
            if git_version_at_least(v.as_str(), (MIN_GIT_MAJOR, MIN_GIT_MINOR)) {
                GitCheck { ok: true, version: Some(v), error: None }
            } else {
                GitCheck {
                    ok: false,
                    version: Some(v),
                    error: Some(String::from_str("git >= 2.20 is required")),
                }
            }
        },
        Err(e) => GitCheck { ok: false, version: None, error: Some(e) },
    }
}

/// Whether one credential variable is set.
#[derive(Debug)]
pub struct EnvVarStatus {
    pub name: String,
    pub set: bool,
}

/// The outcome of the credentials check of `doctor`.
#[derive(Debug)]
pub struct CredentialsCheck {
    pub ok: bool,
    pub variables: Vec<EnvVarStatus>,
    pub hint: Option<String>,
}

pub open spec fn var_status_view(v: Seq<EnvVarStatus>) -> Seq<(Seq<char>, bool)> {
    v.map_values(|s: EnvVarStatus| (s.name@, s.set))
}

/// The `k`-th credential variable is set exactly where `set[k]` is true.
pub open spec fn flag_at(set: Seq<bool>, k: int) -> bool {
    k < set.len() && set[k]
}

/// What the credentials check holds: whether it passed, each variable with
/// whether it is set, and the hint.
pub type CredentialsCheckView = (bool, Seq<(Seq<char>, bool)>, Option<Seq<char>>);

impl View for CredentialsCheck {
    type V = CredentialsCheckView;

    open spec fn view(&self) -> CredentialsCheckView {
        (self.ok, var_status_view(self.variables@), opt_string(self.hint))
    }
}

/// The credentials check of `backend`, where `set[k]` tells whether its
/// `k`-th credential variable is set: the hint is given only when the
/// credentials do not count as present.
pub open spec fn credentials_check_spec(backend: Backend, set: Seq<bool>) -> CredentialsCheckView {
    let ok = backend.credentials_present_spec(set);
    (
        ok,
        Seq::new(
            backend.credential_names().len(),
            |k: int| (backend.credential_names()[k], flag_at(set, k)),
        ),
        if ok {
            None
        } else {
            backend.hint()
        },
    )
}

/// Checks the backend's credential variables, where `set[k]` tells whether
/// the `k`-th one is set.
pub fn credentials_check(backend: Backend, set: &Vec<bool>) -> (r: CredentialsCheck)
    ensures
        r@ == credentials_check_spec(backend, set@),
{
    let vars = backend.credential_vars();
    let mut variables: Vec<EnvVarStatus> = Vec::new();
    for k in 0..vars.len()
        invariant
            strs_view(vars@) == backend.credential_names(),
            variables@.len() == k,
            forall|q: int|
                0 <= q < k ==> #[trigger] var_status_view(variables@)[q] == (
                    backend.credential_names()[q],
                    flag_at(set@, q),
                ),
    {
        let flag = k < set.len() && set[k];
        let ghost before = variables@;
        variables.push(EnvVarStatus { name: String::from_str(vars[k]), set: flag });
        proof {
            assert forall|q: int| 0 <= q < k + 1 implies #[trigger] var_status_view(
                variables@,
            )[q] == (backend.credential_names()[q], flag_at(set@, q)) by {
                if q < k {
                    assert(variables@[q] == before[q]);
                    assert(var_status_view(before)[q] == (before[q].name@, before[q].set));
                } else {
                    assert(variables@[q].name@ == vars@[q]@);
                    assert(variables@[q].set == flag_at(set@, q));
                }
                assert(strs_view(vars@)[q] == vars@[q]@);
                assert(var_status_view(variables@)[q] == (variables@[q].name@, variables@[q].set));
            }
        }
    }
    let ok = backend.credentials_present(set);
    let hint = if !ok {
        match backend.credential_hint() {
            Some(h) => Some(String::from_str(h)),
            None => None,
        }
    } else {
        None
    };
    let r = CredentialsCheck { ok, variables, hint };
    assert(r@.1 =~= credentials_check_spec(backend, set@).1);
    r
}

/// Everything that `doctor` found.
#[derive(Debug)]
pub struct DoctorReport {
    pub failed: bool,
    pub git: GitCheck,
    pub helper_ok: bool,
    pub backend: Option<Backend>,
    pub credentials: Option<CredentialsCheck>,
}

/// Puts the checks of `doctor` together: it fails when Git or the helper
/// does; credentials are checked only for a given backend, and never fail it.
pub fn doctor_report(
    git_capture: Result<String, String>,
    helper_ok: bool,
    backend: Option<Backend>,
    set: &Vec<bool>,
) -> (r: DoctorReport)
    ensures
        r.git@ == git_check_spec(capture_view(git_capture)),
        r.failed == (!r.git.ok || !helper_ok),
        r.helper_ok == helper_ok,
        r.backend == backend,
        match backend {
            Some(b) => r.credentials matches Some(c) && c@ == credentials_check_spec(b, set@),
            None => r.credentials is None,
        },
{
    let git = git_check(git_capture);
    let credentials = match backend {
        Some(b) => Some(credentials_check(b, set)),
        None => None,
    };
    DoctorReport { failed: !git.ok || !helper_ok, git, helper_ok, backend, credentials }
}

impl DoctorReport {
    /// `"fail"` or `"ok"`.
    pub fn status(&self) -> (r: &'static str)
        ensures
            r@ == (if self.failed {
                "fail"@
            } else {
                "ok"@
            }),
    {
        if self.failed {
            "fail"
        } else {
            "ok"
        }
    }

    /// How `doctor` ends: an error exactly when a check failed.
    pub fn outcome(&self) -> (r: Result<(), CommandError>)
        ensures
            r is Ok <==> !self.failed,
            r matches Err(e) ==> e is ChecksFailed,
    {
        if self.failed {
            Err(CommandError::ChecksFailed)
        } else {
            Ok(())
        }
    }
}

pub open spec fn schemas_view(v: Seq<BackendSchema>) -> Seq<BackendSchemaView> {
    v.map_values(|s: BackendSchema| s@)
}

/// The schemas of the given backends, in order.
pub fn schemas_of(backends: &Vec<Backend>) -> (r: Vec<BackendSchema>)
    ensures
        schemas_view(r@) == backends@.map_values(|b: Backend| b.schema_spec()),
{
    let mut r: Vec<BackendSchema> = Vec::new();
    for k in 0..backends.len()
        invariant
            schemas_view(r@) == backends@.take(k as int).map_values(|b: Backend| b.schema_spec()),
    {
        let ghost before = r@;
        r.push(backends[k].schema());
        assert(schemas_view(r@) =~= schemas_view(before).push(backends@[k as int].schema_spec()));
        assert(backends@.take(k + 1).map_values(|b: Backend| b.schema_spec()) =~= backends@.take(
            k as int,
        ).map_values(|b: Backend| b.schema_spec()).push(backends@[k as int].schema_spec()));
    }
    assert(backends@.take(backends.len() as int) =~= backends@);
    r
}

/// The schemas that `config` shows: of the given backend, or of all.
pub fn config_schemas(backend: Option<Backend>) -> (r: Vec<BackendSchema>)
    ensures
        schemas_view(r@) == match backend {
            Some(b) => seq![b.schema_spec()],
            None => all_backends().map_values(|b: Backend| b.schema_spec()),
        },
{
    let backends = match backend {
        Some(b) => vec![b],
        None => Backend::all(),
    };
    let r = schemas_of(&backends);
    proof {
        if let Some(b) = backend {
            assert(backends@.map_values(|b: Backend| b.schema_spec()) =~= seq![b.schema_spec()]);
        }
    }
    r
}

/// What `schema` prints: the version, the backend names and every schema.
#[derive(Debug)]
pub struct SchemaOutput {
    pub version: String,
    pub supported_backends: Vec<&'static str>,
    pub backends: Vec<BackendSchema>,
}

impl SchemaOutput {
    pub fn new(version: &str) -> (r: SchemaOutput)
        ensures
            r.version@ == version@,
            strs_view(r.supported_backends@) == all_backends().map_values(|b: Backend| b.name()),
            schemas_view(r.backends@) == all_backends().map_values(|b: Backend| b.schema_spec()),
    {
        let all = Backend::all();
        let mut names: Vec<&'static str> = Vec::new();
        for k in 0..all.len()
            invariant
                all@ == all_backends(),
                strs_view(names@) == all@.take(k as int).map_values(|b: Backend| b.name()),
        {
            let ghost before = names@;
            names.push(all[k].as_str());
            assert(strs_view(names@) =~= strs_view(before).push(all@[k as int].name()));
            assert(all@.take(k + 1).map_values(|b: Backend| b.name()) =~= all@.take(
                k as int,
            ).map_values(|b: Backend| b.name()).push(all@[k as int].name()));
        }
        assert(all@.take(all.len() as int) =~= all@);
        SchemaOutput {
            version: String::from_str(version),
            supported_backends: names,
            backends: schemas_of(&all),
        }
    }
}

} // verus!
