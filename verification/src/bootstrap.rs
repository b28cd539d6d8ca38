//! `git opendal bootstrap`: the first push to an OpenDAL remote.
//!
//! The command checks, in order, that it runs inside a work tree, that the
//! remote is configured with an `opendal://` URL, that the helper is
//! installed, that the repository has a commit and that the branch to push
//! is known; then it warns about missing credentials (not in JSON mode) and
//! pushes with `git push -u <remote> <branch>`.
use vstd::prelude::*;

use crate::backend::{opt_string, opt_text, strings_view, Backend};
use crate::commands::{
    bootstrap_branch, bootstrap_remote, credential_warning, credential_warning_spec, push_args,
    remote_url, require_commits, require_helper, require_work_tree, CommandError,
    CommandErrorView,
};
use crate::flow::{
    flags_of, found_of, output_of, Progress, ProgressView, Reply, ReplyView, Request,
    RequestView,
};
use crate::remote::parse_url_spec;

verus! {

broadcast use vstd::string::group_string_axioms;

/// What a finished bootstrap pushed: the branch, and the remote's URL.
#[derive(Debug)]
pub struct BootstrapDone {
    pub branch: String,
    pub url: String,
}

impl View for BootstrapDone {
    type V = (Seq<char>, Seq<char>);

    open spec fn view(&self) -> (Seq<char>, Seq<char>) {
        (self.branch@, self.url@)
    }
}

/// The step that a bootstrap waits at.
#[derive(Clone, Copy, PartialEq, Eq, Structural, Debug)]
pub enum BootStage {
    WorkTree,
    RemoteUrl,
    Helper,
    Head,
    Branch,
    Credentials,
    Warned,
    Push,
    Done,
}

/// The state of a bootstrap: its step, the remote's URL and backend once
/// read, and the branch once chosen.
pub struct BootState {
    pub stage: BootStage,
    pub url: Seq<char>,
    pub backend: Backend,
    pub chosen: Seq<char>,
}

pub type BootProgress = ProgressView<(Seq<char>, Seq<char>)>;

pub open spec fn work_tree_args() -> Seq<Seq<char>> {
    seq!["rev-parse"@, "--is-inside-work-tree"@]
}

pub open spec fn get_url_args(remote: Seq<char>) -> Seq<Seq<char>> {
    seq!["remote"@, "get-url"@, remote]
}

pub open spec fn head_args() -> Seq<Seq<char>> {
    seq!["rev-parse"@, "--verify"@, "-q"@, "HEAD"@]
}

pub open spec fn branch_args() -> Seq<Seq<char>> {
    seq!["branch"@, "--show-current"@]
}

pub open spec fn push_seq(remote: Seq<char>, branch: Seq<char>) -> Seq<Seq<char>> {
    seq!["push"@, "-u"@, remote, branch]
}

pub open spec fn boot_initial() -> BootState {
    BootState {
        stage: BootStage::WorkTree,
        url: Seq::empty(),
        backend: Backend::Fs,
        chosen: Seq::empty(),
    }
}

pub open spec fn boot_at(s: BootState, stage: BootStage) -> BootState {
    BootState { stage, url: s.url, backend: s.backend, chosen: s.chosen }
}

pub open spec fn boot_fail(s: BootState, e: CommandErrorView) -> (BootState, BootProgress) {
    (boot_at(s, BootStage::Done), ProgressView::Finished(Err(e)))
}

/// The step once the branch is known (or known to be unknown).
pub open spec fn boot_after_branch(
    remote: Seq<char>,
    json: bool,
    s: BootState,
    chosen: Result<Seq<char>, Seq<char>>,
) -> (BootState, BootProgress) {
    match chosen {
        Err(c) => boot_fail(s, CommandErrorView::BranchUndetected(c)),
        Ok(b) => if b.len() == 0 {
            boot_fail(s, CommandErrorView::EmptyBranch)
        } else if json {
            (
                BootState { stage: BootStage::Push, url: s.url, backend: s.backend, chosen: b },
                ProgressView::Next(RequestView::Run(push_seq(remote, b))),
            )
        } else {
            (
                BootState {
                    stage: BootStage::Credentials,
                    url: s.url,
                    backend: s.backend,
                    chosen: b,
                },
                ProgressView::Next(RequestView::CredentialFlags(s.backend)),
            )
        },
    }
}

/// One step of a bootstrap: from its state and the reply to its last
/// request, to its next state and what it does next.
pub open spec fn boot_next(
    remote: Seq<char>,
    branch: Option<Seq<char>>,
    json: bool,
    s: BootState,
    r: ReplyView,
) -> (BootState, BootProgress) {
    match s.stage {
        BootStage::WorkTree => if output_of(r) == Ok::<Seq<char>, Seq<char>>("true"@) {
            (
                boot_at(s, BootStage::RemoteUrl),
                ProgressView::Next(RequestView::Capture(get_url_args(remote))),
            )
        } else {
            boot_fail(s, CommandErrorView::NotInWorkTree)
        },
        BootStage::RemoteUrl => match output_of(r) {
            Err(c) => boot_fail(s, CommandErrorView::RemoteNotConfigured { remote, cause: c }),
            Ok(u) => match parse_url_spec(u) {
                Err(e) => boot_fail(s, CommandErrorView::NotBootstrapRemote(e)),
                Ok(spec) => (
                    BootState {
                        stage: BootStage::Helper,
                        url: u,
                        backend: spec.backend,
                        chosen: s.chosen,
                    },
                    ProgressView::Next(RequestView::FindHelper),
                ),
            },
        },
        BootStage::Helper => if found_of(r) {
            (
                boot_at(s, BootStage::Head),
                ProgressView::Next(RequestView::Capture(head_args())),
            )
        } else {
            boot_fail(s, CommandErrorView::HelperMissing)
        },
        BootStage::Head => if output_of(r) is Err {
            boot_fail(s, CommandErrorView::NoCommits)
        } else {
            match branch {
                Some(b) => boot_after_branch(remote, json, s, Ok(b)),
                None => (
                    boot_at(s, BootStage::Branch),
                    ProgressView::Next(RequestView::Capture(branch_args())),
                ),
            }
        },
        BootStage::Branch => boot_after_branch(remote, json, s, output_of(r)),
        BootStage::Credentials => {
            let present = s.backend.credentials_present_spec(flags_of(r));
            match credential_warning_spec(s.backend, present) {
                Some(w) => (boot_at(s, BootStage::Warned), ProgressView::Next(RequestView::Warn(w))),
                None => (
                    boot_at(s, BootStage::Push),
                    ProgressView::Next(RequestView::Run(push_seq(remote, s.chosen))),
                ),
            }
        },
        BootStage::Warned => (
            boot_at(s, BootStage::Push),
            ProgressView::Next(RequestView::Run(push_seq(remote, s.chosen))),
        ),
        BootStage::Push => match output_of(r) {
            Err(t) => boot_fail(s, CommandErrorView::Failed(t)),
            Ok(_) => (boot_at(s, BootStage::Done), ProgressView::Finished(Ok((s.chosen, s.url)))),
        },
        BootStage::Done => boot_fail(s, CommandErrorView::Failed(Seq::empty())),
    }
}

/// A bootstrap after the replies `replies`: its state and what it does next.
pub open spec fn boot_run(
    remote: Seq<char>,
    branch: Option<Seq<char>>,
    json: bool,
    replies: Seq<ReplyView>,
) -> (BootState, BootProgress)
    decreases replies.len(),
{
    if replies.len() == 0 {
        (boot_initial(), ProgressView::Next(RequestView::Capture(work_tree_args())))
    } else {
        boot_next(
            remote,
            branch,
            json,
            boot_run(remote, branch, json, replies.drop_last()).0,
            replies.last(),
        )
    }
}

/// What a bootstrap of `branch` (or the current branch) to `remote` does
/// after the replies `replies`.
pub open spec fn bootstrap_protocol(
    remote: Seq<char>,
    branch: Option<Seq<char>>,
    json: bool,
    replies: Seq<ReplyView>,
) -> BootProgress {
    boot_run(remote, branch, json, replies).1
}

/// The replies of the checks that come before a push: a work tree, an
/// `opendal://` URL for the remote, the helper found, and a `HEAD` commit.
pub open spec fn boot_checks_passed(replies: Seq<ReplyView>) -> bool {
    &&& replies.len() >= 4
    &&& output_of(replies[0]) == Ok::<Seq<char>, Seq<char>>("true"@)
    &&& output_of(replies[1]) matches Ok(u) && parse_url_spec(u) is Ok
    &&& found_of(replies[2])
    &&& output_of(replies[3]) is Ok
}

/// The branch that a bootstrap pushes: the one given, or else the one that
/// Git named in the fifth reply.
pub open spec fn boot_branch(branch: Option<Seq<char>>, replies: Seq<ReplyView>) -> Seq<char> {
    match branch {
        Some(b) => b,
        None => match output_of(replies[4]) {
            Ok(b) => b,
            Err(_) => Seq::empty(),
        },
    }
}

/// What every reachable bootstrap state keeps.
pub open spec fn boot_shape(
    remote: Seq<char>,
    branch: Option<Seq<char>>,
    json: bool,
    replies: Seq<ReplyView>,
) -> bool {
    let (s, p) = boot_run(remote, branch, json, replies);
    &&& s.stage == BootStage::WorkTree ==> replies.len() == 0
    &&& s.stage == BootStage::RemoteUrl ==> replies.len() == 1 && output_of(replies[0]) == Ok::<
        Seq<char>,
        Seq<char>,
    >("true"@)
    &&& (s.stage == BootStage::Helper || s.stage == BootStage::Head) ==> {
        &&& replies.len() == (if s.stage == BootStage::Helper {
            2int
        } else {
            3int
        })
        &&& output_of(replies[0]) == Ok::<Seq<char>, Seq<char>>("true"@)
        &&& output_of(replies[1]) == Ok::<Seq<char>, Seq<char>>(s.url)
        &&& parse_url_spec(s.url) is Ok
        &&& s.stage == BootStage::Head ==> found_of(replies[2])
    }
    &&& s.stage == BootStage::Branch ==> replies.len() == 4 && boot_checks_passed(replies)
        && branch is None && output_of(replies[1]) == Ok::<Seq<char>, Seq<char>>(s.url)
    &&& (s.stage == BootStage::Credentials || s.stage == BootStage::Warned || s.stage
        == BootStage::Push) ==> {
        &&& boot_checks_passed(replies)
        &&& output_of(replies[1]) == Ok::<Seq<char>, Seq<char>>(s.url)
        &&& branch is None ==> replies.len() >= 5
        &&& s.chosen == boot_branch(branch, replies)
        &&& s.chosen.len() > 0
        &&& json ==> s.stage == BootStage::Push
    }
    &&& s.stage == BootStage::Push ==> p == ProgressView::<(Seq<char>, Seq<char>)>::Next(
        RequestView::Run(push_seq(remote, s.chosen)),
    )
    &&& s.stage == BootStage::Credentials ==> p == ProgressView::<(Seq<char>, Seq<char>)>::Next(
        RequestView::CredentialFlags(s.backend),
    )
    &&& s.stage == BootStage::Warned ==> (p matches ProgressView::Next(RequestView::Warn(_)))
    &&& (s.stage == BootStage::Done <==> p is Finished)
    &&& (p matches ProgressView::Next(RequestView::Run(_))) ==> s.stage == BootStage::Push
    &&& ((p matches ProgressView::Next(RequestView::CredentialFlags(_))) || (p matches ProgressView::Next(
        RequestView::Warn(_),
    ))) ==> !json
    &&& match p {
        ProgressView::Next(RequestView::Capture(a)) => a == work_tree_args() || a == get_url_args(
            remote,
        ) || a == head_args() || a == branch_args(),
        _ => true,
    }
    &&& match p {
        ProgressView::Finished(Ok(d)) => {
            let prev = boot_run(remote, branch, json, replies.drop_last()).0;
            &&& replies.len() >= 5
            &&& prev.stage == BootStage::Push
            &&& d == (prev.chosen, prev.url)
            &&& output_of(replies.last()) is Ok
        },
        _ => true,
    }
}

pub proof fn lemma_boot_shape(
    remote: Seq<char>,
    branch: Option<Seq<char>>,
    json: bool,
    replies: Seq<ReplyView>,
)
    ensures
        boot_shape(remote, branch, json, replies),
    decreases replies.len(),
{
    reveal_strlit("true");
    if replies.len() > 0 {
        let prev = replies.drop_last();
        lemma_boot_shape(remote, branch, json, prev);
        let s0 = boot_run(remote, branch, json, prev).0;
        let p0 = boot_run(remote, branch, json, prev).1;
        assert forall|i: int| 0 <= i < prev.len() implies prev[i] == replies[i] by {}
        if prev.len() >= 4 {
            assert(prev[0] == replies[0] && prev[1] == replies[1] && prev[2] == replies[2]
                && prev[3] == replies[3]);
        }
        if prev.len() >= 5 {
            assert(prev[4] == replies[4]);
        }
        if prev.len() >= 1 {
            assert(prev[0] == replies[0]);
        }
        if prev.len() >= 2 {
            assert(prev[1] == replies[1]);
        }
        if prev.len() >= 3 {
            assert(prev[2] == replies[2]);
        }
    }
}

/// A bootstrap asks to push only once every check has passed, and then it
/// pushes the chosen, non-empty branch with `git push -u <remote> <branch>`.
pub proof fn lemma_bootstrap_pushes_after_checks(
    remote: Seq<char>,
    branch: Option<Seq<char>>,
    json: bool,
    replies: Seq<ReplyView>,
    args: Seq<Seq<char>>,
)
    requires
        bootstrap_protocol(remote, branch, json, replies) == ProgressView::<
            (Seq<char>, Seq<char>),
        >::Next(RequestView::Run(args)),
    ensures
        boot_checks_passed(replies),
        boot_branch(branch, replies).len() > 0,
        args == push_seq(remote, boot_branch(branch, replies)),
{
    lemma_boot_shape(remote, branch, json, replies);
}

/// A bootstrap succeeds only right after its push succeeded, and it reports
/// the branch that it pushed and the remote's URL.
pub proof fn lemma_bootstrap_succeeds_after_push(
    remote: Seq<char>,
    branch: Option<Seq<char>>,
    json: bool,
    replies: Seq<ReplyView>,
    done: (Seq<char>, Seq<char>),
)
    requires
        bootstrap_protocol(remote, branch, json, replies) == ProgressView::<
            (Seq<char>, Seq<char>),
        >::Finished(Ok(done)),
    ensures
        replies.len() >= 5,
        bootstrap_protocol(remote, branch, json, replies.drop_last()) == ProgressView::<
            (Seq<char>, Seq<char>),
        >::Next(RequestView::Run(push_seq(remote, done.0))),
        output_of(replies.last()) is Ok,
        output_of(replies[1]) == Ok::<Seq<char>, Seq<char>>(done.1),
{
    lemma_boot_shape(remote, branch, json, replies);
    lemma_boot_shape(remote, branch, json, replies.drop_last());
    assert(replies.drop_last()[1] == replies[1]);
}

/// In JSON mode a bootstrap neither reads credential variables nor warns.
pub proof fn lemma_bootstrap_json_is_quiet(
    remote: Seq<char>,
    branch: Option<Seq<char>>,
    replies: Seq<ReplyView>,
)
    ensures
        !(bootstrap_protocol(remote, branch, true, replies) matches ProgressView::Next(
            RequestView::CredentialFlags(_),
        )),
        !(bootstrap_protocol(remote, branch, true, replies) matches ProgressView::Next(
            RequestView::Warn(_),
        )),
{
    lemma_boot_shape(remote, branch, true, replies);
}

/// Where a bootstrap stands once its four checks have passed.
proof fn lemma_boot_checked(
    remote: Seq<char>,
    branch: Option<Seq<char>>,
    json: bool,
    url: Seq<char>,
    head: Seq<char>,
)
    requires
        parse_url_spec(url) is Ok,
    ensures
        ({
            let s = boot_run(
                remote,
                branch,
                json,
                seq![
                    ReplyView::Output(Ok("true"@)),
                    ReplyView::Output(Ok(url)),
                    ReplyView::Found(true),
                    ReplyView::Output(Ok(head)),
                ],
            ).0;
            &&& s.backend == parse_url_spec(url)->Ok_0.backend
            &&& s.url == url
            &&& branch is None ==> s.stage == BootStage::Branch
            &&& branch matches Some(b) ==> s == boot_after_branch(
                remote,
                json,
                BootState { stage: BootStage::Head, url, backend: s.backend, chosen: Seq::empty() },
                Ok(b),
            ).0
        }),
{
    let b1 = seq![ReplyView::Output(Ok("true"@))];
    let b2 = b1.push(ReplyView::Output(Ok(url)));
    let b3 = b2.push(ReplyView::Found(true));
    let base = b3.push(ReplyView::Output(Ok(head)));
    assert(base =~= seq![
        ReplyView::Output(Ok("true"@)),
        ReplyView::Output(Ok(url)),
        ReplyView::Found(true),
        ReplyView::Output(Ok(head)),
    ]);
    assert(b1.drop_last() =~= Seq::<ReplyView>::empty());
    assert(b2.drop_last() =~= b1);
    assert(b3.drop_last() =~= b2);
    assert(base.drop_last() =~= b3);
    assert(boot_run(remote, branch, json, Seq::empty()).0 == boot_initial());
    assert(boot_run(remote, branch, json, b1).0.stage == BootStage::RemoteUrl);
    assert(boot_run(remote, branch, json, b2).0.stage == BootStage::Helper);
    assert(boot_run(remote, branch, json, b2).0.url == url);
    assert(boot_run(remote, branch, json, b2).0.chosen == Seq::<char>::empty());
    assert(boot_run(remote, branch, json, b3).0.stage == BootStage::Head);
}

/// Once a bootstrap has passed its checks (a work tree, an `opendal://` URL
/// for the remote, the helper, a commit) and knows a non-empty branch, it
/// pushes with `git push -u <remote> <branch>`: in JSON mode at once; in
/// text mode it first reads the backend's credential flags and, whatever
/// they are, asks to push next or after one warning, with no warning when
/// the credentials count as present, such as for a backend that reads no
/// credential variable.
pub proof fn lemma_bootstrap_pushes_once_checked(
    remote: Seq<char>,
    branch: Option<Seq<char>>,
    url: Seq<char>,
    head: Seq<char>,
    current: Seq<char>,
    flags: ReplyView,
    ack: ReplyView,
)
    requires
        parse_url_spec(url) is Ok,
        (match branch {
            Some(b) => b,
            None => current,
        }).len() > 0,
    ensures
        ({
            let backend = parse_url_spec(url)->Ok_0.backend;
            let chosen = match branch {
                Some(b) => b,
                None => current,
            };
            let base = seq![
                ReplyView::Output(Ok("true"@)),
                ReplyView::Output(Ok(url)),
                ReplyView::Found(true),
                ReplyView::Output(Ok(head)),
            ];
            let checked = if branch is None {
                base.push(ReplyView::Output(Ok(current)))
            } else {
                base
            };
            let push = ProgressView::<(Seq<char>, Seq<char>)>::Next(
                RequestView::Run(push_seq(remote, chosen)),
            );
            let told = checked.push(flags);
            &&& bootstrap_protocol(remote, branch, true, checked) == push
            &&& bootstrap_protocol(remote, branch, false, checked) == ProgressView::<
                (Seq<char>, Seq<char>),
            >::Next(RequestView::CredentialFlags(backend))
            &&& bootstrap_protocol(remote, branch, false, told) == push || (bootstrap_protocol(
                remote,
                branch,
                false,
                told,
            ) matches ProgressView::Next(RequestView::Warn(_)) && bootstrap_protocol(
                remote,
                branch,
                false,
                told.push(ack),
            ) == push)
            &&& backend.credentials_present_spec(flags_of(flags)) ==> bootstrap_protocol(
                remote,
                branch,
                false,
                told,
            ) == push
            &&& backend.credential_names().len() == 0 ==> bootstrap_protocol(
                remote,
                branch,
                false,
                told,
            ) == push
        }),
{
    let base = seq![
        ReplyView::Output(Ok("true"@)),
        ReplyView::Output(Ok(url)),
        ReplyView::Found(true),
        ReplyView::Output(Ok(head)),
    ];
    let checked = if branch is None {
        base.push(ReplyView::Output(Ok(current)))
    } else {
        base
    };
    let backend = parse_url_spec(url)->Ok_0.backend;
    backend.lemma_credentials_present(flags_of(flags));
    lemma_boot_checked(remote, branch, true, url, head);
    lemma_boot_checked(remote, branch, false, url, head);
    if branch is None {
        assert(checked.drop_last() =~= base);
    }
    let told = checked.push(flags);
    assert(told.drop_last() =~= checked);
    assert(told.push(ack).drop_last() =~= told);
}

/// A bootstrap under way.
pub struct Bootstrap {
    remote: String,
    branch: Option<String>,
    json: bool,
    stage: BootStage,
    url: String,
    backend: Backend,
    chosen: String,
    replies: Ghost<Seq<ReplyView>>,
}

fn capture_work_tree() -> (r: Request)
    ensures
        r@ == RequestView::Capture(work_tree_args()),
{
    let a = vec![String::from_str("rev-parse"), String::from_str("--is-inside-work-tree")];
    assert(strings_view(a@) =~= work_tree_args());
    Request::Capture(a)
}

fn capture_get_url(remote: &str) -> (r: Request)
    ensures
        r@ == RequestView::Capture(get_url_args(remote@)),
{
    let a = vec![String::from_str("remote"), String::from_str("get-url"), String::from_str(remote)];
    assert(strings_view(a@) =~= get_url_args(remote@));
    Request::Capture(a)
}

fn capture_head() -> (r: Request)
    ensures
        r@ == RequestView::Capture(head_args()),
{
    let a = vec![
        String::from_str("rev-parse"),
        String::from_str("--verify"),
        String::from_str("-q"),
        String::from_str("HEAD"),
    ];
    assert(strings_view(a@) =~= head_args());
    Request::Capture(a)
}

fn capture_branch() -> (r: Request)
    ensures
        r@ == RequestView::Capture(branch_args()),
{
    let a = vec![String::from_str("branch"), String::from_str("--show-current")];
    assert(strings_view(a@) =~= branch_args());
    Request::Capture(a)
}

impl Bootstrap {
    pub closed spec fn remote_view(&self) -> Seq<char> {
        self.remote@
    }

    pub closed spec fn branch_view(&self) -> Option<Seq<char>> {
        opt_string(self.branch)
    }

    pub closed spec fn json_view(&self) -> bool {
        self.json
    }

    /// The replies handed to the bootstrap so far.
    pub closed spec fn replies(&self) -> Seq<ReplyView> {
        self.replies@
    }

    pub closed spec fn state(&self) -> BootState {
        BootState { stage: self.stage, url: self.url@, backend: self.backend, chosen: self.chosen@ }
    }

    /// The bootstrap stands where its replies lead.
    pub closed spec fn wf(&self) -> bool {
        self.state() == boot_run(self.remote@, opt_string(self.branch), self.json, self.replies@).0
    }

    pub open spec fn finished(&self) -> bool {
        self.state().stage == BootStage::Done
    }

    /// Starts a bootstrap of `branch` (the current branch when `None`) to
    /// `remote`.
    pub fn start(remote: &str, branch: Option<&str>, json: bool) -> (r: (Bootstrap, Progress<
        BootstrapDone,
    >))
        ensures
            r.0.wf(),
            r.0.remote_view() == remote@,
            r.0.branch_view() == opt_text(branch),
            r.0.json_view() == json,
            r.0.replies() == Seq::<ReplyView>::empty(),
            r.1@ == bootstrap_protocol(remote@, opt_text(branch), json, Seq::empty()),
            !r.0.finished(),
    {
        let b = Bootstrap {
            remote: String::from_str(remote),
            branch: match branch {
                Some(b) => Some(String::from_str(b)),
                None => None,
            },
            json,
            stage: BootStage::WorkTree,
            url: String::new(),
            backend: Backend::Fs,
            chosen: String::new(),
            replies: Ghost(Seq::empty()),
        };
        assert(b.state() == boot_initial());
        (b, Progress::Next(capture_work_tree()))
    }

    pub fn is_finished(&self) -> (r: bool)
        ensures
            r == self.finished(),
    {
        self.stage == BootStage::Done
    }

    fn fail(&mut self, e: CommandError) -> (r: Progress<BootstrapDone>)
        ensures
            final(self).state() == boot_at(old(self).state(), BootStage::Done),
            final(self).remote == old(self).remote,
            final(self).branch == old(self).branch,
            final(self).json == old(self).json,
            final(self).replies == old(self).replies,
            r@ == ProgressView::<(Seq<char>, Seq<char>)>::Finished(Err(e@)),
    {
        self.stage = BootStage::Done;
        Progress::Finished(Err(e))
    }

    fn after_branch(&mut self, chosen: Result<String, String>) -> (r: Progress<BootstrapDone>)
        ensures
            (final(self).state(), r@) == boot_after_branch(
                old(self).remote@,
                old(self).json,
                old(self).state(),
                match chosen {
                    Ok(b) => Ok(b@),
                    Err(c) => Err(c@),
                },
            ),
            final(self).remote == old(self).remote,
            final(self).branch == old(self).branch,
            final(self).json == old(self).json,
            final(self).replies == old(self).replies,
    {
        match bootstrap_branch(chosen) {
            Err(e) => self.fail(e),
            Ok(b) => {
                if self.json {
                    let args = push_args(self.remote.as_str(), b.as_str());
                    self.chosen = b;
                    self.stage = BootStage::Push;
                    Progress::Next(Request::Run(args))
                } else {
                    self.chosen = b;
                    self.stage = BootStage::Credentials;
                    Progress::Next(Request::CredentialFlags(self.backend))
                }
            },
        }
    }

    /// Hands the reply to the last request to the bootstrap, and gives what
    /// it does next.
    pub fn step(&mut self, reply: Reply) -> (r: Progress<BootstrapDone>)
        requires
            old(self).wf(),
            !old(self).finished(),
        ensures
            final(self).wf(),
            final(self).remote_view() == old(self).remote_view(),
            final(self).branch_view() == old(self).branch_view(),
            final(self).json_view() == old(self).json_view(),
            final(self).replies() == old(self).replies().push(reply@),
            r@ == bootstrap_protocol(
                final(self).remote_view(),
                final(self).branch_view(),
                final(self).json_view(),
                final(self).replies(),
            ),
            final(self).finished() <==> r is Finished,
    {
        let ghost before = self.replies@;
        let ghost s0 = self.state();
        let ghost rv = reply@;
        let ghost expected = boot_next(self.remote@, opt_string(self.branch), self.json, s0, rv);
        self.replies = Ghost(self.replies@.push(reply@));
        assert(self.replies@.drop_last() =~= before);
        let r = match self.stage {
            BootStage::WorkTree => {
                match require_work_tree(&reply.into_output()) {
                    Ok(()) => {
                        self.stage = BootStage::RemoteUrl;
                        Progress::Next(capture_get_url(self.remote.as_str()))
                    },
                    Err(e) => self.fail(e),
                }
            },
            BootStage::RemoteUrl => {
                match remote_url(self.remote.as_str(), reply.into_output()) {
                    Err(e) => self.fail(e),
                    Ok(u) => {
                        match bootstrap_remote(u.as_str()) {
                            Err(e) => self.fail(e),
                            Ok(spec) => {
                                self.backend = spec.backend();
                                self.url = u;
                                self.stage = BootStage::Helper;
                                Progress::Next(Request::FindHelper)
                            },
                        }
                    },
                }
            },
            BootStage::Helper => {
                match require_helper(reply.found()) {
                    Ok(()) => {
                        self.stage = BootStage::Head;
                        Progress::Next(capture_head())
                    },
                    Err(e) => self.fail(e),
                }
            },
            BootStage::Head => {
                let out = reply.into_output();
                if let Err(e) = require_commits(out.is_ok()) {
                    self.fail(e)
                } else {
                    match &self.branch {
                        Some(b) => {
                            let b = b.clone();
                            self.after_branch(Ok(b))
                        },
                        None => {
                            self.stage = BootStage::Branch;
                            Progress::Next(capture_branch())
                        },
                    }
                }
            },
            BootStage::Branch => {
                let out = reply.into_output();
                self.after_branch(out)
            },
            BootStage::Credentials => {
                let flags = reply.into_flags();
                let present = self.backend.credentials_present(&flags);
                match credential_warning(self.backend, present) {
                    Some(w) => {
                        self.stage = BootStage::Warned;
                        Progress::Next(Request::Warn(w))
                    },
                    None => {
                        self.stage = BootStage::Push;
                        Progress::Next(
                            Request::Run(push_args(self.remote.as_str(), self.chosen.as_str())),
                        )
                    },
                }
            },
            BootStage::Warned => {
                self.stage = BootStage::Push;
                Progress::Next(Request::Run(push_args(self.remote.as_str(), self.chosen.as_str())))
            },
            BootStage::Push => {
                match reply.into_output() {
                    Err(t) => self.fail(CommandError::Failed(t)),
                    Ok(_) => {
                        self.stage = BootStage::Done;
                        Progress::Finished(
                            Ok(BootstrapDone { branch: self.chosen.clone(), url: self.url.clone() }),
                        )
                    },
                }
            },
            BootStage::Done => self.fail(CommandError::Failed(String::new())),
        };
        assert(self.state() == expected.0);
        assert(r@ == expected.1);
        r
    }
}

} // verus!
