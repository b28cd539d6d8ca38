//! `git opendal setup`: registering an OpenDAL remote, and optionally
//! publishing the current branch to it.
//!
//! The command checks the work tree, then runs the `doctor` checks (or, in
//! JSON mode, only looks for the helper), creates a filesystem remote's
//! storage directory, registers the remote's URL, and bootstraps it when
//! asked to push.
use vstd::prelude::*;

use crate::backend::strings_view;
use crate::bootstrap::{
    bootstrap_protocol, get_url_args, work_tree_args, BootProgress, Bootstrap, BootstrapDone,
};
use crate::commands::{
    plan_register, require_helper, require_work_tree, CommandError, CommandErrorView,
    RegisterAction,
};
use crate::flow::{found_of, output_of, Progress, ProgressView, Reply, ReplyView, Request, RequestView};
use crate::remote::{local_fs_path_spec, url_spec, RemoteSpec, RemoteSpecView};

verus! {

broadcast use vstd::string::group_string_axioms;

/// What a finished setup did: what it pushed, when it was asked to push.
#[derive(Debug)]
pub struct SetupDone {
    pub pushed: Option<BootstrapDone>,
}

impl View for SetupDone {
    type V = Option<(Seq<char>, Seq<char>)>;

    open spec fn view(&self) -> Option<(Seq<char>, Seq<char>)> {
        match self.pushed {
            Some(d) => Some(d@),
            None => None,
        }
    }
}

/// The step that a setup waits at.
#[derive(Clone, Copy, PartialEq, Eq, Structural, Debug)]
pub enum SetupStage {
    WorkTree,
    Doctor,
    Helper,
    MakeDir,
    ReadRemote,
    Announced,
    Register,
    Pushing,
    Done,
}

/// The state of a setup: its step, and the replies handed to the bootstrap
/// that it runs to push.
pub struct SetupState {
    pub stage: SetupStage,
    pub boot_replies: Seq<ReplyView>,
}

pub type SetupProgress = ProgressView<Option<(Seq<char>, Seq<char>)>>;

/// What a setup configures: the remote, its name, and the three switches.
pub struct SetupParams {
    pub spec: RemoteSpecView,
    pub remote: Seq<char>,
    pub push: bool,
    pub force: bool,
    pub json: bool,
}

pub open spec fn add_args(remote: Seq<char>, url: Seq<char>) -> Seq<Seq<char>> {
    seq!["remote"@, "add"@, remote, url]
}

pub open spec fn set_url_args(remote: Seq<char>, url: Seq<char>) -> Seq<Seq<char>> {
    seq!["remote"@, "set-url"@, remote, url]
}

pub open spec fn already_there(remote: Seq<char>, url: Seq<char>) -> Seq<char> {
    "remote '"@ + remote + "' already points at "@ + url
}

pub open spec fn setup_at(stage: SetupStage) -> SetupState {
    SetupState { stage, boot_replies: Seq::empty() }
}

pub open spec fn setup_fail(e: CommandErrorView) -> (SetupState, SetupProgress) {
    (setup_at(SetupStage::Done), ProgressView::Finished(Err(e)))
}

/// A bootstrap's progress as the setup's.
pub open spec fn lift(p: BootProgress) -> SetupProgress {
    match p {
        ProgressView::Next(q) => ProgressView::Next(q),
        ProgressView::Finished(Ok(d)) => ProgressView::Finished(Ok(Some(d))),
        ProgressView::Finished(Err(e)) => ProgressView::Finished(Err(e)),
    }
}

/// The bootstrap of a setup after the replies `replies`.
pub open spec fn setup_boot(p: SetupParams, replies: Seq<ReplyView>) -> (SetupState, SetupProgress) {
    let q = bootstrap_protocol(p.remote, None, p.json, replies);
    (
        SetupState {
            stage: if q is Finished {
                SetupStage::Done
            } else {
                SetupStage::Pushing
            },
            boot_replies: replies,
        },
        lift(q),
    )
}

/// The step once the remote is registered: push, or finish.
pub open spec fn setup_after_register(p: SetupParams) -> (SetupState, SetupProgress) {
    if p.push {
        setup_boot(p, Seq::empty())
    } else {
        (setup_at(SetupStage::Done), ProgressView::Finished(Ok(None)))
    }
}

/// The step once the checks have passed: make the storage directory of a
/// filesystem remote, then read the remote's current URL.
pub open spec fn setup_after_checks(p: SetupParams) -> (SetupState, SetupProgress) {
    match local_fs_path_spec(p.spec) {
        Some(d) => (setup_at(SetupStage::MakeDir), ProgressView::Next(RequestView::CreateDir(d))),
        None => (
            setup_at(SetupStage::ReadRemote),
            ProgressView::Next(RequestView::Capture(get_url_args(p.remote))),
        ),
    }
}

/// One step of a setup.
pub open spec fn setup_next(p: SetupParams, s: SetupState, r: ReplyView) -> (
    SetupState,
    SetupProgress,
) {
    let url = url_spec(p.spec);
    match s.stage {
        SetupStage::WorkTree => if output_of(r) == Ok::<Seq<char>, Seq<char>>("true"@) {
            if p.json {
                (setup_at(SetupStage::Helper), ProgressView::Next(RequestView::FindHelper))
            } else {
                (
                    setup_at(SetupStage::Doctor),
                    ProgressView::Next(RequestView::Doctor(p.spec.backend)),
                )
            }
        } else {
            setup_fail(CommandErrorView::NotInWorkTree)
        },
        SetupStage::Doctor => if found_of(r) {
            setup_after_checks(p)
        } else {
            setup_fail(CommandErrorView::ChecksFailed)
        },
        SetupStage::Helper => if found_of(r) {
            setup_after_checks(p)
        } else {
            setup_fail(CommandErrorView::HelperMissing)
        },
        SetupStage::MakeDir => match output_of(r) {
            Err(t) => setup_fail(CommandErrorView::Failed(t)),
            Ok(_) => (
                setup_at(SetupStage::ReadRemote),
                ProgressView::Next(RequestView::Capture(get_url_args(p.remote))),
            ),
        },
        SetupStage::ReadRemote => match output_of(r) {
            Err(_) => (
                setup_at(SetupStage::Register),
                ProgressView::Next(RequestView::Capture(add_args(p.remote, url))),
            ),
            Ok(existing) => if existing == url {
                if p.json {
                    setup_after_register(p)
                } else {
                    (
                        setup_at(SetupStage::Announced),
                        ProgressView::Next(RequestView::Say(already_there(p.remote, url))),
                    )
                }
            } else if p.force {
                (
                    setup_at(SetupStage::Register),
                    ProgressView::Next(RequestView::Capture(set_url_args(p.remote, url))),
                )
            } else {
                setup_fail(CommandErrorView::RemoteConflict { name: p.remote, existing })
            },
        },
        SetupStage::Announced => setup_after_register(p),
        SetupStage::Register => match output_of(r) {
            Err(t) => setup_fail(CommandErrorView::Failed(t)),
            Ok(_) => setup_after_register(p),
        },
        SetupStage::Pushing => setup_boot(p, s.boot_replies.push(r)),
        SetupStage::Done => setup_fail(CommandErrorView::Failed(Seq::empty())),
    }
}

/// A setup after the replies `replies`: its state and what it does next.
pub open spec fn setup_run(p: SetupParams, replies: Seq<ReplyView>) -> (SetupState, SetupProgress)
    decreases replies.len(),
{
    if replies.len() == 0 {
        (setup_at(SetupStage::WorkTree), ProgressView::Next(RequestView::Capture(work_tree_args())))
    } else {
        setup_next(p, setup_run(p, replies.drop_last()).0, replies.last())
    }
}

/// What a setup does after the replies `replies`.
pub open spec fn setup_protocol(p: SetupParams, replies: Seq<ReplyView>) -> SetupProgress {
    setup_run(p, replies).1
}

/// The replies of the checks that come before registering: a work tree,
/// and passing `doctor` checks (the helper found, in JSON mode).
pub open spec fn setup_checks_passed(replies: Seq<ReplyView>) -> bool {
    &&& replies.len() >= 2
    &&& output_of(replies[0]) == Ok::<Seq<char>, Seq<char>>("true"@)
    &&& found_of(replies[1])
}

/// What every reachable setup state keeps.
pub open spec fn setup_shape(p: SetupParams, replies: Seq<ReplyView>) -> bool {
    let (s, q) = setup_run(p, replies);
    let url = url_spec(p.spec);
    &&& s.stage == SetupStage::WorkTree ==> replies.len() == 0
    &&& (s.stage == SetupStage::Doctor || s.stage == SetupStage::Helper) ==> replies.len() == 1
        && output_of(replies[0]) == Ok::<Seq<char>, Seq<char>>("true"@)
    &&& (s.stage == SetupStage::MakeDir || s.stage == SetupStage::ReadRemote || s.stage
        == SetupStage::Announced || s.stage == SetupStage::Register || s.stage
        == SetupStage::Pushing) ==> setup_checks_passed(replies)
    &&& s.stage == SetupStage::Register ==> (q == ProgressView::<
        Option<(Seq<char>, Seq<char>)>,
    >::Next(RequestView::Capture(add_args(p.remote, url))) || (p.force && q == ProgressView::<
        Option<(Seq<char>, Seq<char>)>,
    >::Next(RequestView::Capture(set_url_args(p.remote, url)))))
    &&& s.stage == SetupStage::Pushing ==> p.push && q == lift(
        bootstrap_protocol(p.remote, None, p.json, s.boot_replies),
    ) && q is Next
    &&& (s.stage == SetupStage::Done <==> q is Finished)
    &&& (q matches ProgressView::Next(RequestView::Run(_))) ==> s.stage == SetupStage::Pushing
    &&& match q {
        ProgressView::Next(RequestView::Capture(a)) => (a == add_args(p.remote, url) || a
            == set_url_args(p.remote, url)) ==> s.stage == SetupStage::Register,
        ProgressView::Finished(Ok(Some(_))) => p.push,
        ProgressView::Finished(Ok(None)) => !p.push,
        _ => true,
    }
}

/// No request of a bootstrap registers a remote.
pub proof fn lemma_boot_never_registers(
    remote: Seq<char>,
    json: bool,
    replies: Seq<ReplyView>,
    url: Seq<char>,
)
    ensures
        bootstrap_protocol(remote, None, json, replies) != ProgressView::<
            (Seq<char>, Seq<char>),
        >::Next(RequestView::Capture(add_args(remote, url))),
        bootstrap_protocol(remote, None, json, replies) != ProgressView::<
            (Seq<char>, Seq<char>),
        >::Next(RequestView::Capture(set_url_args(remote, url))),
{
    crate::bootstrap::lemma_boot_shape(remote, None, json, replies);
    reveal_strlit("rev-parse");
    reveal_strlit("remote");
    assert("rev-parse"@.len() != "remote"@.len());
    let a = add_args(remote, url);
    let b = set_url_args(remote, url);
    assert(a.len() == 4 && b.len() == 4);
    assert(work_tree_args().len() == 2);
    assert(get_url_args(remote).len() == 3);
    assert(crate::bootstrap::branch_args().len() == 2);
    assert(crate::bootstrap::head_args()[0] != a[0]);
    assert(crate::bootstrap::head_args()[0] != b[0]);
    assert(a != work_tree_args() && a != get_url_args(remote) && a != crate::bootstrap::head_args()
        && a != crate::bootstrap::branch_args());
    assert(b != work_tree_args() && b != get_url_args(remote) && b != crate::bootstrap::head_args()
        && b != crate::bootstrap::branch_args());
}

pub proof fn lemma_setup_shape(p: SetupParams, replies: Seq<ReplyView>)
    ensures
        setup_shape(p, replies),
    decreases replies.len(),
{
    if replies.len() > 0 {
        let prev = replies.drop_last();
        lemma_setup_shape(p, prev);
        let s0 = setup_run(p, prev).0;
        if prev.len() >= 1 {
            assert(prev[0] == replies[0]);
        }
        if prev.len() >= 2 {
            assert(prev[1] == replies[1]);
        }
        let (s, q) = setup_run(p, replies);
        if s.stage == SetupStage::Pushing || (s0.stage == SetupStage::Pushing) {
            crate::bootstrap::lemma_boot_shape(p.remote, None, p.json, s.boot_replies);
            lemma_boot_never_registers(p.remote, p.json, s.boot_replies, url_spec(p.spec));
        }
        if p.push && s0.stage != SetupStage::Pushing {
            crate::bootstrap::lemma_boot_shape(p.remote, None, p.json, Seq::empty());
            lemma_boot_never_registers(p.remote, p.json, Seq::empty(), url_spec(p.spec));
        }
        let url = url_spec(p.spec);
        match q {
            ProgressView::Next(RequestView::Capture(a)) => {
                assert(get_url_args(p.remote).len() == 3);
                assert(add_args(p.remote, url).len() == 4);
                let url = url_spec(p.spec);
                let reg = a == add_args(p.remote, url) || a == set_url_args(p.remote, url);
                assert(s0.stage == SetupStage::MakeDir ==> (reg ==> s.stage == SetupStage::Register));
                assert(s0.stage == SetupStage::Doctor ==> (reg ==> s.stage == SetupStage::Register));
                assert(s0.stage == SetupStage::Helper ==> (reg ==> s.stage == SetupStage::Register));
                assert(s0.stage == SetupStage::WorkTree ==> (reg ==> s.stage == SetupStage::Register));
                assert(s0.stage == SetupStage::Announced ==> (reg ==> s.stage == SetupStage::Register));
                assert(s0.stage == SetupStage::Pushing ==> (reg ==> s.stage == SetupStage::Register));
                assert(s0.stage == SetupStage::ReadRemote ==> (reg ==> s.stage == SetupStage::Register));
                assert(s0.stage == SetupStage::Register ==> (reg ==> s.stage == SetupStage::Register));
            },
            _ => {},
        }
    } else {
        assert(work_tree_args().len() == 2);
    }
}

/// A setup registers the remote (`git remote add` or `set-url`) only after
/// the work tree and the `doctor` (or helper) checks passed.
pub proof fn lemma_setup_registers_after_checks(
    p: SetupParams,
    replies: Seq<ReplyView>,
    args: Seq<Seq<char>>,
)
    requires
        setup_protocol(p, replies) == ProgressView::<Option<(Seq<char>, Seq<char>)>>::Next(
            RequestView::Capture(args),
        ),
        args == add_args(p.remote, url_spec(p.spec)) || args == set_url_args(
            p.remote,
            url_spec(p.spec),
        ),
    ensures
        setup_checks_passed(replies),
{
    lemma_setup_shape(p, replies);
}

/// A setup points an existing remote at another URL only when forced.
pub proof fn lemma_setup_replaces_only_with_force(p: SetupParams, replies: Seq<ReplyView>)
    requires
        setup_protocol(p, replies) == ProgressView::<Option<(Seq<char>, Seq<char>)>>::Next(
            RequestView::Capture(set_url_args(p.remote, url_spec(p.spec))),
        ),
    ensures
        p.force,
{
    lemma_setup_shape(p, replies);
    reveal_strlit("add");
    reveal_strlit("set-url");
    assert("add"@ != "set-url"@) by {
        assert("add"@.len() != "set-url"@.len());
    }
    assert(add_args(p.remote, url_spec(p.spec)) != set_url_args(p.remote, url_spec(p.spec))) by {
        assert(add_args(p.remote, url_spec(p.spec))[1] != set_url_args(p.remote, url_spec(p.spec))[1]);
    }
}

/// A setup pushes only when asked to, and reports a push exactly then.
pub proof fn lemma_setup_pushes_only_when_asked(p: SetupParams, replies: Seq<ReplyView>)
    ensures
        (setup_protocol(p, replies) matches ProgressView::Next(RequestView::Run(_))) ==> p.push,
        (setup_protocol(p, replies) matches ProgressView::Finished(Ok(Some(_)))) ==> p.push,
        (setup_protocol(p, replies) matches ProgressView::Finished(Ok(None))) ==> !p.push,
{
    lemma_setup_shape(p, replies);
}

/// Once its checks have passed (and a filesystem remote's storage directory
/// is made), a setup reads the remote's URL; it then asks Git to add the
/// remote when none is configured, and, when forced, to point a remote
/// that names another URL at the new one with `git remote set-url`, in
/// text and JSON mode alike; once Git has done so, a setup that is not
/// asked to push finishes successfully.
pub proof fn lemma_setup_registers(
    p: SetupParams,
    made: Seq<char>,
    existing: Seq<char>,
    cause: Seq<char>,
    out: Seq<char>,
)
    ensures
        ({
            let url = url_spec(p.spec);
            let checked = seq![ReplyView::Output(Ok("true"@)), ReplyView::Found(true)];
            let ready = if p.spec.backend == crate::backend::Backend::Fs {
                checked.push(ReplyView::Output(Ok(made)))
            } else {
                checked
            };
            let replaced = ready.push(ReplyView::Output(Ok(existing)));
            let added = ready.push(ReplyView::Output(Err(cause)));
            &&& setup_protocol(p, ready) == ProgressView::<Option<(Seq<char>, Seq<char>)>>::Next(
                RequestView::Capture(get_url_args(p.remote)),
            )
            &&& setup_protocol(p, added) == ProgressView::<Option<(Seq<char>, Seq<char>)>>::Next(
                RequestView::Capture(add_args(p.remote, url)),
            )
            &&& p.force && existing != url ==> setup_protocol(p, replaced) == ProgressView::<
                Option<(Seq<char>, Seq<char>)>,
            >::Next(RequestView::Capture(set_url_args(p.remote, url)))
            &&& p.force && existing != url && !p.push ==> setup_protocol(
                p,
                replaced.push(ReplyView::Output(Ok(out))),
            ) == ProgressView::<Option<(Seq<char>, Seq<char>)>>::Finished(Ok(None))
            &&& !p.push ==> setup_protocol(p, added.push(ReplyView::Output(Ok(out))))
                == ProgressView::<Option<(Seq<char>, Seq<char>)>>::Finished(Ok(None))
            &&& !p.force && existing != url ==> setup_protocol(p, replaced) == ProgressView::<
                Option<(Seq<char>, Seq<char>)>,
            >::Finished(Err(CommandErrorView::RemoteConflict { name: p.remote, existing }))
            &&& existing == url && !p.json ==> setup_protocol(p, replaced) == ProgressView::<
                Option<(Seq<char>, Seq<char>)>,
            >::Next(RequestView::Say("remote '"@ + p.remote + "' already points at "@ + url))
            &&& existing == url && !p.push && p.json ==> setup_protocol(p, replaced)
                == ProgressView::<Option<(Seq<char>, Seq<char>)>>::Finished(Ok(None))
        }),
{
    let url = url_spec(p.spec);
    let one = seq![ReplyView::Output(Ok("true"@))];
    let checked = seq![ReplyView::Output(Ok("true"@)), ReplyView::Found(true)];
    assert(one.drop_last() =~= Seq::<ReplyView>::empty());
    assert(checked.drop_last() =~= one);
    assert(setup_run(p, Seq::empty()).0.stage == SetupStage::WorkTree);
    assert(setup_run(p, one).0.stage == SetupStage::Doctor || setup_run(p, one).0.stage
        == SetupStage::Helper);
    assert(setup_run(p, checked).0 == setup_after_checks(p).0);
    let ready = if p.spec.backend == crate::backend::Backend::Fs {
        let r = checked.push(ReplyView::Output(Ok(made)));
        assert(r.drop_last() =~= checked);
        assert(setup_run(p, checked).0.stage == SetupStage::MakeDir);
        r
    } else {
        assert(setup_run(p, checked).0.stage == SetupStage::ReadRemote);
        checked
    };
    assert(setup_run(p, ready).0.stage == SetupStage::ReadRemote);
    let replaced = ready.push(ReplyView::Output(Ok(existing)));
    let added = ready.push(ReplyView::Output(Err(cause)));
    assert(replaced.drop_last() =~= ready);
    assert(added.drop_last() =~= ready);
    assert(setup_run(p, added).0.stage == SetupStage::Register);
    assert(added.push(ReplyView::Output(Ok(out))).drop_last() =~= added);
    if p.force && existing != url {
        assert(setup_run(p, replaced).0.stage == SetupStage::Register);
        assert(replaced.push(ReplyView::Output(Ok(out))).drop_last() =~= replaced);
    }
}

/// A setup under way.
pub struct Setup {
    spec: RemoteSpec,
    remote: String,
    push: bool,
    force: bool,
    json: bool,
    url: String,
    stage: SetupStage,
    boot: Option<Bootstrap>,
    boot_replies: Ghost<Seq<ReplyView>>,
    replies: Ghost<Seq<ReplyView>>,
}

fn lift_progress(p: Progress<BootstrapDone>) -> (r: Progress<SetupDone>)
    ensures
        r@ == lift(p@),
{
    match p {
        Progress::Next(q) => Progress::Next(q),
        Progress::Finished(Ok(d)) => Progress::Finished(Ok(SetupDone { pushed: Some(d) })),
        Progress::Finished(Err(e)) => Progress::Finished(Err(e)),
    }
}

fn remote_args(verb: &str, remote: &str, url: &str) -> (r: Vec<String>)
    ensures
        strings_view(r@) == seq!["remote"@, verb@, remote@, url@],
{
    let a = vec![
        String::from_str("remote"),
        String::from_str(verb),
        String::from_str(remote),
        String::from_str(url),
    ];
    assert(strings_view(a@) =~= seq!["remote"@, verb@, remote@, url@]);
    a
}

impl Setup {
    pub closed spec fn params(&self) -> SetupParams {
        SetupParams {
            spec: self.spec@,
            remote: self.remote@,
            push: self.push,
            force: self.force,
            json: self.json,
        }
    }

    /// The replies handed to the setup so far.
    pub closed spec fn replies(&self) -> Seq<ReplyView> {
        self.replies@
    }

    pub closed spec fn state(&self) -> SetupState {
        SetupState { stage: self.stage, boot_replies: self.boot_replies@ }
    }

    /// The setup stands where its replies lead, and so does its bootstrap.
    pub closed spec fn wf(&self) -> bool {
        &&& self.state() == setup_run(self.params(), self.replies@).0
        &&& self.url@ == url_spec(self.spec@)
        &&& self.stage == SetupStage::Pushing ==> match self.boot {
            Some(b) => {
                &&& b.wf()
                &&& b.remote_view() == self.remote@
                &&& b.branch_view() is None
                &&& b.json_view() == self.json
                &&& b.replies() == self.boot_replies@
                &&& !b.finished()
            },
            None => false,
        }
    }

    pub open spec fn finished(&self) -> bool {
        self.state().stage == SetupStage::Done
    }

    /// Starts registering `spec` as the remote `remote`.
    pub fn start(spec: RemoteSpec, remote: &str, push: bool, force: bool, json: bool) -> (r: (
        Setup,
        Progress<SetupDone>,
    ))
        ensures
            r.0.wf(),
            r.0.params() == (SetupParams { spec: spec@, remote: remote@, push, force, json }),
            r.0.replies() == Seq::<ReplyView>::empty(),
            r.1@ == setup_protocol(r.0.params(), Seq::empty()),
            !r.0.finished(),
    {
        let url = spec.url();
        let s = Setup {
            spec,
            remote: String::from_str(remote),
            push,
            force,
            json,
            url,
            stage: SetupStage::WorkTree,
            boot: None,
            boot_replies: Ghost(Seq::empty()),
            replies: Ghost(Seq::empty()),
        };
        let a = vec![String::from_str("rev-parse"), String::from_str("--is-inside-work-tree")];
        assert(strings_view(a@) =~= work_tree_args());
        (s, Progress::Next(Request::Capture(a)))
    }

    pub fn is_finished(&self) -> (r: bool)
        ensures
            r == self.finished(),
    {
        self.stage == SetupStage::Done
    }

    /// The remote being set up.
    pub fn spec(&self) -> (r: &RemoteSpec)
        ensures
            r@ == self.params().spec,
    {
        &self.spec
    }

    fn fail(&mut self, e: CommandError) -> (r: Progress<SetupDone>)
        ensures
            final(self).state() == setup_at(SetupStage::Done),
            final(self).params() == old(self).params(),
            final(self).url == old(self).url,
            final(self).replies == old(self).replies,
            r@ == ProgressView::<Option<(Seq<char>, Seq<char>)>>::Finished(Err(e@)),
    {
        self.stage = SetupStage::Done;
        self.boot_replies = Ghost(Seq::empty());
        Progress::Finished(Err(e))
    }

    fn after_register(&mut self) -> (r: Progress<SetupDone>)
        requires
            old(self).url@ == url_spec(old(self).spec@),
        ensures
            (final(self).state(), r@) == setup_after_register(old(self).params()),
            final(self).params() == old(self).params(),
            final(self).url == old(self).url,
            final(self).replies == old(self).replies,
            final(self).stage == SetupStage::Pushing ==> match final(self).boot {
                Some(b) => {
                    &&& b.wf()
                    &&& b.remote_view() == final(self).remote@
                    &&& b.branch_view() is None
                    &&& b.json_view() == final(self).json
                    &&& b.replies() == final(self).boot_replies@
                    &&& !b.finished()
                },
                None => false,
            },
    {
        if self.push {
            let (b, p) = Bootstrap::start(self.remote.as_str(), None, self.json);
            self.boot = Some(b);
            self.boot_replies = Ghost(Seq::empty());
            self.stage = SetupStage::Pushing;
            lift_progress(p)
        } else {
            self.stage = SetupStage::Done;
            self.boot_replies = Ghost(Seq::empty());
            Progress::Finished(Ok(SetupDone { pushed: None }))
        }
    }

    fn after_checks(&mut self) -> (r: Progress<SetupDone>)
        ensures
            (final(self).state(), r@) == setup_after_checks(old(self).params()),
            final(self).params() == old(self).params(),
            final(self).url == old(self).url,
            final(self).replies == old(self).replies,
    {
        self.boot_replies = Ghost(Seq::empty());
        match self.spec.local_fs_path() {
            Some(d) => {
                self.stage = SetupStage::MakeDir;
                Progress::Next(Request::CreateDir(d))
            },
            None => {
                self.stage = SetupStage::ReadRemote;
                let a = vec![
                    String::from_str("remote"),
                    String::from_str("get-url"),
                    String::from_str(self.remote.as_str()),
                ];
                assert(strings_view(a@) =~= get_url_args(self.remote@));
                Progress::Next(Request::Capture(a))
            },
        }
    }

    /// Hands the reply to the last request to the setup, and gives what it
    /// does next.
    pub fn step(&mut self, reply: Reply) -> (r: Progress<SetupDone>)
        requires
            old(self).wf(),
            !old(self).finished(),
        ensures
            final(self).wf(),
            final(self).params() == old(self).params(),
            final(self).replies() == old(self).replies().push(reply@),
            r@ == setup_protocol(final(self).params(), final(self).replies()),
            final(self).finished() <==> r is Finished,
    {
        let ghost before = self.replies@;
        let ghost expected = setup_next(self.params(), self.state(), reply@);
        let ghost rv = reply@;
        self.replies = Ghost(self.replies@.push(reply@));
        assert(self.replies@.drop_last() =~= before);
        let r = match self.stage {
            SetupStage::WorkTree => {
                if let Err(e) = require_work_tree(&reply.into_output()) {
                    self.fail(e)
                } else if self.json {
                    self.stage = SetupStage::Helper;
                    Progress::Next(Request::FindHelper)
                } else {
                    self.stage = SetupStage::Doctor;
                    Progress::Next(Request::Doctor(self.spec.backend()))
                }
            },
            SetupStage::Doctor => {
                if reply.found() {
                    self.after_checks()
                } else {
                    self.fail(CommandError::ChecksFailed)
                }
            },
            SetupStage::Helper => {
                match require_helper(reply.found()) {
                    Ok(()) => self.after_checks(),
                    Err(e) => self.fail(e),
                }
            },
            SetupStage::MakeDir => {
                match reply.into_output() {
                    Err(t) => self.fail(CommandError::Failed(t)),
                    Ok(_) => {
                        self.stage = SetupStage::ReadRemote;
                        let a = vec![
                            String::from_str("remote"),
                            String::from_str("get-url"),
                            String::from_str(self.remote.as_str()),
                        ];
                        assert(strings_view(a@) =~= get_url_args(self.remote@));
                        Progress::Next(Request::Capture(a))
                    },
                }
            },
            SetupStage::ReadRemote => {
                let existing = match reply.into_output() {
                    Ok(u) => Some(u),
                    Err(_) => None,
                };
                match plan_register(self.remote.as_str(), self.url.as_str(), existing, self.force) {
                    Err(e) => self.fail(e),
                    Ok(RegisterAction::Add) => {
                        self.stage = SetupStage::Register;
                        Progress::Next(
                            Request::Capture(
                                remote_args("add", self.remote.as_str(), self.url.as_str()),
                            ),
                        )
                    },
                    Ok(RegisterAction::SetUrl) => {
                        self.stage = SetupStage::Register;
                        Progress::Next(
                            Request::Capture(
                                remote_args("set-url", self.remote.as_str(), self.url.as_str()),
                            ),
                        )
                    },
                    Ok(RegisterAction::Keep) => {
                        if self.json {
                            self.after_register()
                        } else {
                            let mut m = String::from_str("remote '");
                            m.append(self.remote.as_str());
                            m.append("' already points at ");
                            m.append(self.url.as_str());
                            self.stage = SetupStage::Announced;
                            Progress::Next(Request::Say(m))
                        }
                    },
                }
            },
            SetupStage::Announced => self.after_register(),
            SetupStage::Register => {
                match reply.into_output() {
                    Err(t) => self.fail(CommandError::Failed(t)),
                    Ok(_) => self.after_register(),
                }
            },
            SetupStage::Pushing => {
                let mut boot: Option<Bootstrap> = None;
                std::mem::swap(&mut boot, &mut self.boot);
                match boot {
                    Some(mut b) => {
                        let p = b.step(reply);
                        let finished = b.is_finished();
                        self.boot_replies = Ghost(b.replies());
                        self.boot = Some(b);
                        if finished {
                            self.stage = SetupStage::Done;
                        }
                        lift_progress(p)
                    },
                    None => self.fail(CommandError::Failed(String::new())),
                }
            },
            SetupStage::Done => self.fail(CommandError::Failed(String::new())),
        };
        assert(self.state() == expected.0);
        assert(r@ == expected.1);
        r
    }
}

} // verus!
