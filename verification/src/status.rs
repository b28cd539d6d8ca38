//! `git opendal status`: what an OpenDAL remote is and holds.
//!
//! The command checks the work tree, reads the remote's URL, looks at a
//! filesystem remote's storage directory, and, when asked to probe, lists
//! the remote's refs through the helper.
use vstd::prelude::*;

use crate::backend::{strings_view, Backend};
use crate::bootstrap::{get_url_args, work_tree_args};
use crate::commands::{
    remote_url, require_work_tree, status_remote, storage_state, storage_state_spec, CommandError,
    CommandErrorView,
};
use crate::flow::{output_of, storage_of, Progress, ProgressView, Reply, ReplyView, Request, RequestView};
use crate::git::{parse_ls_remote, refs_of_lines, refs_view, RefEntry};
use crate::remote::{local_fs_path_spec, parse_url_spec, RemoteSpec, RemoteSpecView};
use crate::text::lines;

verus! {

broadcast use vstd::string::group_string_axioms;

/// A filesystem remote's storage: its state, and how many bundles it holds.
#[derive(Debug)]
pub struct StorageStatus {
    pub state: String,
    pub bundles: usize,
}

/// What `status` found: the remote's URL, the remote it names, a
/// filesystem remote's storage, and the probed refs.
#[derive(Debug)]
pub struct StatusReport {
    pub url: String,
    pub spec: RemoteSpec,
    pub storage: Option<StorageStatus>,
    pub refs: Option<Vec<RefEntry>>,
}

pub type StatusReportView = (
    Seq<char>,
    RemoteSpecView,
    Option<(Seq<char>, usize)>,
    Option<Seq<(Seq<char>, Seq<char>)>>,
);

impl View for StatusReport {
    type V = StatusReportView;

    open spec fn view(&self) -> StatusReportView {
        (
            self.url@,
            self.spec@,
            match self.storage {
                Some(s) => Some((s.state@, s.bundles)),
                None => None,
            },
            match self.refs {
                Some(r) => Some(refs_view(r@)),
                None => None,
            },
        )
    }
}

/// The step that a status waits at.
#[derive(Clone, Copy, PartialEq, Eq, Structural, Debug)]
pub enum StatusStage {
    WorkTree,
    ReadUrl,
    Inspect,
    Probe,
    Done,
}

/// The state of a status: its step, and what it has found so far.
pub struct StatusState {
    pub stage: StatusStage,
    pub url: Seq<char>,
    pub spec: Option<RemoteSpecView>,
    pub storage: Option<(Seq<char>, usize)>,
}

pub type StatusProgress = ProgressView<StatusReportView>;

pub open spec fn ls_remote_args(remote: Seq<char>) -> Seq<Seq<char>> {
    seq!["ls-remote"@, remote]
}

pub open spec fn status_done() -> StatusState {
    StatusState { stage: StatusStage::Done, url: Seq::empty(), spec: None, storage: None }
}

pub open spec fn status_fail(e: CommandErrorView) -> (StatusState, StatusProgress) {
    (status_done(), ProgressView::Finished(Err(e)))
}

/// The step once the storage is known: probe, or report.
pub open spec fn status_after_storage(
    remote: Seq<char>,
    probe: bool,
    url: Seq<char>,
    spec: RemoteSpecView,
    storage: Option<(Seq<char>, usize)>,
) -> (StatusState, StatusProgress) {
    if probe {
        (
            StatusState { stage: StatusStage::Probe, url, spec: Some(spec), storage },
            ProgressView::Next(RequestView::Capture(ls_remote_args(remote))),
        )
    } else {
        (status_done(), ProgressView::Finished(Ok((url, spec, storage, None))))
    }
}

/// One step of a status.
pub open spec fn status_next(remote: Seq<char>, probe: bool, s: StatusState, r: ReplyView) -> (
    StatusState,
    StatusProgress,
) {
    match s.stage {
        StatusStage::WorkTree => if output_of(r) == Ok::<Seq<char>, Seq<char>>("true"@) {
            (
                StatusState { stage: StatusStage::ReadUrl, url: s.url, spec: s.spec, storage: s.storage },
                ProgressView::Next(RequestView::Capture(get_url_args(remote))),
            )
        } else {
            status_fail(CommandErrorView::NotInWorkTree)
        },
        StatusStage::ReadUrl => match output_of(r) {
            Err(c) => status_fail(CommandErrorView::RemoteNotConfigured { remote, cause: c }),
            Ok(u) => match parse_url_spec(u) {
                Err(e) => status_fail(CommandErrorView::NotStatusRemote(e)),
                Ok(spec) => match local_fs_path_spec(spec) {
                    Some(root) => (
                        StatusState { stage: StatusStage::Inspect, url: u, spec: Some(spec), storage: None },
                        ProgressView::Next(RequestView::Inspect(root)),
                    ),
                    None => status_after_storage(remote, probe, u, spec, None),
                },
            },
        },
        StatusStage::Inspect => {
            let (d, f, n) = storage_of(r);
            status_after_storage(
                remote,
                probe,
                s.url,
                s.spec->0,
                Some((storage_state_spec(d, f), n)),
            )
        },
        StatusStage::Probe => match output_of(r) {
            Err(t) => status_fail(CommandErrorView::Failed(t)),
            Ok(raw) => (
                status_done(),
                ProgressView::Finished(Ok((s.url, s.spec->0, s.storage, Some(refs_of_lines(lines(raw)))))),
            ),
        },
        StatusStage::Done => status_fail(CommandErrorView::Failed(Seq::empty())),
    }
}

/// A status after the replies `replies`: its state and what it does next.
pub open spec fn status_run(remote: Seq<char>, probe: bool, replies: Seq<ReplyView>) -> (
    StatusState,
    StatusProgress,
)
    decreases replies.len(),
{
    if replies.len() == 0 {
        (
            StatusState { stage: StatusStage::WorkTree, url: Seq::empty(), spec: None, storage: None },
            ProgressView::Next(RequestView::Capture(work_tree_args())),
        )
    } else {
        status_next(remote, probe, status_run(remote, probe, replies.drop_last()).0, replies.last())
    }
}

/// What a status of `remote` does after the replies `replies`.
pub open spec fn status_protocol(remote: Seq<char>, probe: bool, replies: Seq<ReplyView>) -> StatusProgress {
    status_run(remote, probe, replies).1
}

/// What a status reports of a filesystem remote's storage, given the
/// inspection's reply: the state that its two facts name, and its bundle
/// count.
pub open spec fn inspected(r: ReplyView) -> (Seq<char>, usize) {
    let (d, f, n) = storage_of(r);
    (storage_state_spec(d, f), n)
}

/// What every reachable status state keeps.
pub open spec fn status_shape(remote: Seq<char>, probe: bool, replies: Seq<ReplyView>) -> bool {
    let (s, q) = status_run(remote, probe, replies);
    &&& s.stage == StatusStage::WorkTree ==> replies.len() == 0
    &&& s.stage == StatusStage::ReadUrl ==> replies.len() == 1 && output_of(replies[0]) == Ok::<
        Seq<char>,
        Seq<char>,
    >("true"@)
    &&& (s.stage == StatusStage::Inspect || s.stage == StatusStage::Probe) ==> {
        &&& replies.len() >= 2
        &&& output_of(replies[0]) == Ok::<Seq<char>, Seq<char>>("true"@)
        &&& output_of(replies[1]) == Ok::<Seq<char>, Seq<char>>(s.url)
        &&& s.spec is Some
        &&& parse_url_spec(s.url) == Ok::<RemoteSpecView, crate::error::UrlErrorView>(s.spec->0)
        &&& s.stage == StatusStage::Probe ==> (s.storage is Some <==> s.spec->0.backend
            == Backend::Fs)
        &&& s.stage == StatusStage::Probe && s.spec->0.backend == Backend::Fs ==> replies.len()
            >= 3 && s.storage == Some(inspected(replies[2]))
        &&& s.stage == StatusStage::Inspect ==> s.spec->0.backend == Backend::Fs && s.storage is None
            && replies.len() == 2
        &&& s.stage == StatusStage::Probe ==> probe && q == ProgressView::<StatusReportView>::Next(
            RequestView::Capture(ls_remote_args(remote)),
        )
    }
    &&& (s.stage == StatusStage::Done <==> q is Finished)
    &&& match q {
        ProgressView::Next(RequestView::Capture(a)) => a == ls_remote_args(remote) ==> s.stage
            == StatusStage::Probe,
        ProgressView::Finished(Ok(rep)) => {
            &&& replies.len() >= 2
            &&& output_of(replies[0]) == Ok::<Seq<char>, Seq<char>>("true"@)
            &&& output_of(replies[1]) == Ok::<Seq<char>, Seq<char>>(rep.0)
            &&& parse_url_spec(rep.0) == Ok::<RemoteSpecView, crate::error::UrlErrorView>(rep.1)
            &&& (rep.2 is Some <==> rep.1.backend == Backend::Fs)
            &&& rep.1.backend == Backend::Fs ==> replies.len() >= 3 && rep.2 == Some(
                inspected(replies[2]),
            )
            &&& (rep.3 is Some <==> probe)
        },
        _ => true,
    }
}

pub proof fn lemma_status_shape(remote: Seq<char>, probe: bool, replies: Seq<ReplyView>)
    ensures
        status_shape(remote, probe, replies),
    decreases replies.len(),
{
    reveal_strlit("ls-remote");
    reveal_strlit("rev-parse");
    reveal_strlit("remote");
    assert("ls-remote"@[0] != "rev-parse"@[0]);
    assert("ls-remote"@.len() != "remote"@.len());
    assert(work_tree_args()[0] != ls_remote_args(remote)[0]);
    assert(get_url_args(remote).len() != ls_remote_args(remote).len());
    if replies.len() > 0 {
        let prev = replies.drop_last();
        lemma_status_shape(remote, probe, prev);
        if prev.len() >= 1 {
            assert(prev[0] == replies[0]);
        }
        if prev.len() >= 2 {
            assert(prev[1] == replies[1]);
        }
        if prev.len() >= 3 {
            assert(prev[2] == replies[2]);
        }
    }
}

/// A status lists the remote's refs only when asked to probe.
pub proof fn lemma_status_probes_only_when_asked(
    remote: Seq<char>,
    probe: bool,
    replies: Seq<ReplyView>,
)
    requires
        status_protocol(remote, probe, replies) == ProgressView::<StatusReportView>::Next(
            RequestView::Capture(ls_remote_args(remote)),
        ),
    ensures
        probe,
{
    lemma_status_shape(remote, probe, replies);
}

/// A finished status reports the remote that its configured URL names, the
/// storage exactly for a filesystem remote, and refs exactly when probing.
pub proof fn lemma_status_report(
    remote: Seq<char>,
    probe: bool,
    replies: Seq<ReplyView>,
    rep: StatusReportView,
)
    requires
        status_protocol(remote, probe, replies) == ProgressView::<StatusReportView>::Finished(
            Ok(rep),
        ),
    ensures
        output_of(replies[1]) == Ok::<Seq<char>, Seq<char>>(rep.0),
        parse_url_spec(rep.0) == Ok::<RemoteSpecView, crate::error::UrlErrorView>(rep.1),
        rep.2 is Some <==> rep.1.backend == Backend::Fs,
        rep.1.backend == Backend::Fs ==> replies.len() >= 3 && rep.2 == Some(
            inspected(replies[2]),
        ),
        rep.3 is Some <==> probe,
{
    lemma_status_shape(remote, probe, replies);
}

/// The status of a filesystem remote looks at its storage directory, and
/// reports the storage that the inspection found: the bundle count that it
/// gave back, and the state that its two facts name (`directory missing`,
/// `empty (nothing pushed yet)` or `initialized`), whether it then probes the
/// refs or not.
pub proof fn lemma_status_reports_storage(
    remote: Seq<char>,
    probe: bool,
    url: Seq<char>,
    root_is_dir: bool,
    refs_is_file: bool,
    bundles: usize,
    listing: Seq<char>,
)
    requires
        parse_url_spec(url) matches Ok(spec) && spec.backend == Backend::Fs,
    ensures
        ({
            let spec = parse_url_spec(url)->Ok_0;
            let checked = seq![
                ReplyView::Output(Ok("true"@)),
                ReplyView::Output(Ok(url)),
            ];
            let inspected = checked.push(ReplyView::Storage(root_is_dir, refs_is_file, bundles));
            let state = if !root_is_dir {
                "directory missing"@
            } else if !refs_is_file {
                "empty (nothing pushed yet)"@
            } else {
                "initialized"@
            };
            let found = if probe {
                inspected.push(ReplyView::Output(Ok(listing)))
            } else {
                inspected
            };
            &&& status_protocol(remote, probe, checked) == ProgressView::<StatusReportView>::Next(
                RequestView::Inspect(seq!['/'] + spec.path),
            )
            &&& status_protocol(remote, probe, found) matches ProgressView::Finished(Ok(rep)) && rep.0
                == url && rep.1 == spec && rep.2 == Some((state, bundles))
        }),
{
    let checked = seq![ReplyView::Output(Ok("true"@)), ReplyView::Output(Ok(url))];
    let inspected = checked.push(ReplyView::Storage(root_is_dir, refs_is_file, bundles));
    assert(checked.drop_last() =~= seq![ReplyView::Output(Ok("true"@))]);
    assert(seq![ReplyView::Output(Ok("true"@))].drop_last() =~= Seq::<ReplyView>::empty());
    assert(inspected.drop_last() =~= checked);
    let spec = parse_url_spec(url)->Ok_0;
    let one = seq![ReplyView::Output(Ok("true"@))];
    assert(status_run(remote, probe, Seq::empty()).0.stage == StatusStage::WorkTree);
    assert(one.drop_last() =~= Seq::<ReplyView>::empty());
    assert(status_run(remote, probe, one).0.stage == StatusStage::ReadUrl);
    assert(status_run(remote, probe, checked).0.stage == StatusStage::Inspect);
    assert(status_run(remote, probe, checked).0.spec == Some(spec));
    assert(status_run(remote, probe, checked).0.url == url);
    assert(inspected.last() == ReplyView::Storage(root_is_dir, refs_is_file, bundles));
    let storage = Some((storage_state_spec(root_is_dir, refs_is_file), bundles));
    if probe {
        assert(status_run(remote, probe, inspected).0.storage == storage);
        assert(status_run(remote, probe, inspected).0.stage == StatusStage::Probe);
        let found = inspected.push(ReplyView::Output(Ok(listing)));
        assert(found.drop_last() =~= inspected);
        assert(found.last() == ReplyView::Output(Ok(listing)));
    } else {
        assert(status_protocol(remote, probe, inspected) == ProgressView::<StatusReportView>::Finished(
            Ok((url, spec, storage, None)),
        ));
    }
}

/// A status under way.
pub struct Status {
    remote: String,
    probe: bool,
    stage: StatusStage,
    url: String,
    spec: Option<RemoteSpec>,
    storage: Option<StorageStatus>,
    replies: Ghost<Seq<ReplyView>>,
}

impl Status {
    pub closed spec fn remote_view(&self) -> Seq<char> {
        self.remote@
    }

    pub closed spec fn probe_view(&self) -> bool {
        self.probe
    }

    /// The replies handed to the status so far.
    pub closed spec fn replies(&self) -> Seq<ReplyView> {
        self.replies@
    }

    pub closed spec fn state(&self) -> StatusState {
        StatusState {
            stage: self.stage,
            url: self.url@,
            spec: match self.spec {
                Some(s) => Some(s@),
                None => None,
            },
            storage: match self.storage {
                Some(s) => Some((s.state@, s.bundles)),
                None => None,
            },
        }
    }

    /// The status stands where its replies lead.
    pub closed spec fn wf(&self) -> bool {
        self.state() == status_run(self.remote@, self.probe, self.replies@).0
    }

    pub open spec fn finished(&self) -> bool {
        self.state().stage == StatusStage::Done
    }

    /// Starts the status of `remote`, probing its refs when `probe`.
    pub fn start(remote: &str, probe: bool) -> (r: (Status, Progress<StatusReport>))
        ensures
            r.0.wf(),
            r.0.remote_view() == remote@,
            r.0.probe_view() == probe,
            r.0.replies() == Seq::<ReplyView>::empty(),
            r.1@ == status_protocol(remote@, probe, Seq::empty()),
            !r.0.finished(),
    {
        let s = Status {
            remote: String::from_str(remote),
            probe,
            stage: StatusStage::WorkTree,
            url: String::new(),
            spec: None,
            storage: None,
            replies: Ghost(Seq::empty()),
        };
        let a = vec![String::from_str("rev-parse"), String::from_str("--is-inside-work-tree")];
        assert(strings_view(a@) =~= work_tree_args());
        (s, Progress::Next(Request::Capture(a)))
    }

    pub fn is_finished(&self) -> (r: bool)
        ensures
            r == self.finished(),
    {
        self.stage == StatusStage::Done
    }

    fn reset(&mut self)
        ensures
            final(self).state() == status_done(),
            final(self).remote == old(self).remote,
            final(self).probe == old(self).probe,
            final(self).replies == old(self).replies,
    {
        self.stage = StatusStage::Done;
        self.url = String::new();
        self.spec = None;
        self.storage = None;
    }

    fn fail(&mut self, e: CommandError) -> (r: Progress<StatusReport>)
        ensures
            final(self).state() == status_done(),
            final(self).remote == old(self).remote,
            final(self).probe == old(self).probe,
            final(self).replies == old(self).replies,
            r@ == ProgressView::<StatusReportView>::Finished(Err(e@)),
    {
        self.reset();
        Progress::Finished(Err(e))
    }

    fn after_storage(&mut self, url: String, spec: RemoteSpec, storage: Option<StorageStatus>) -> (r: Progress<StatusReport>)
        ensures
            (final(self).state(), r@) == status_after_storage(
                old(self).remote@,
                old(self).probe,
                url@,
                spec@,
                match storage {
                    Some(s) => Some((s.state@, s.bundles)),
                    None => None,
                },
            ),
            final(self).remote == old(self).remote,
            final(self).probe == old(self).probe,
            final(self).replies == old(self).replies,
    {
        if self.probe {
            self.stage = StatusStage::Probe;
            self.url = url;
            self.spec = Some(spec);
            self.storage = storage;
            let a = vec![String::from_str("ls-remote"), String::from_str(self.remote.as_str())];
            assert(strings_view(a@) =~= ls_remote_args(self.remote@));
            Progress::Next(Request::Capture(a))
        } else {
            self.reset();
            Progress::Finished(Ok(StatusReport { url, spec, storage, refs: None }))
        }
    }

    /// Hands the reply to the last request to the status, and gives what it
    /// does next.
    pub fn step(&mut self, reply: Reply) -> (r: Progress<StatusReport>)
        requires
            old(self).wf(),
            !old(self).finished(),
        ensures
            final(self).wf(),
            final(self).remote_view() == old(self).remote_view(),
            final(self).probe_view() == old(self).probe_view(),
            final(self).replies() == old(self).replies().push(reply@),
            r@ == status_protocol(final(self).remote_view(), final(self).probe_view(), final(self).replies()),
            final(self).finished() <==> r is Finished,
    {
        let ghost before = self.replies@;
        let ghost expected = status_next(self.remote@, self.probe, self.state(), reply@);
        self.replies = Ghost(self.replies@.push(reply@));
        assert(self.replies@.drop_last() =~= before);
        let r = match self.stage {
            StatusStage::WorkTree => {
                if require_work_tree(&reply.into_output()).is_ok() {
                    self.stage = StatusStage::ReadUrl;
                    let a = vec![
                        String::from_str("remote"),
                        String::from_str("get-url"),
                        String::from_str(self.remote.as_str()),
                    ];
                    assert(strings_view(a@) =~= get_url_args(self.remote@));
                    Progress::Next(Request::Capture(a))
                } else {
                    self.fail(CommandError::NotInWorkTree)
                }
            },
            StatusStage::ReadUrl => {
                match remote_url(self.remote.as_str(), reply.into_output()) {
                    Err(e) => self.fail(e),
                    Ok(u) => {
                        match status_remote(u.as_str()) {
                            Err(e) => self.fail(e),
                            Ok(spec) => {
                                match spec.local_fs_path() {
                                    Some(root) => {
                                        self.stage = StatusStage::Inspect;
                                        self.url = u;
                                        self.spec = Some(spec);
                                        self.storage = None;
                                        Progress::Next(Request::Inspect(root))
                                    },
                                    None => self.after_storage(u, spec, None),
                                }
                            },
                        }
                    },
                }
            },
            StatusStage::Inspect => {
                let (d, f, n) = reply.storage();
                let mut url = String::new();
                std::mem::swap(&mut url, &mut self.url);
                let spec = self.spec.take();
                match spec {
                    Some(spec) => {
                        let state = String::from_str(storage_state(d, f));
                        self.after_storage(url, spec, Some(StorageStatus { state, bundles: n }))
                    },
                    None => self.fail(CommandError::Failed(String::new())),
                }
            },
            StatusStage::Probe => {
                match reply.into_output() {
                    Err(t) => self.fail(CommandError::Failed(t)),
                    Ok(raw) => {
                        let mut url = String::new();
                        std::mem::swap(&mut url, &mut self.url);
                        let spec = self.spec.take();
                        let storage = self.storage.take();
                        self.reset();
                        match spec {
                            Some(spec) => {
                                let refs = parse_ls_remote(raw.as_str());
                                Progress::Finished(Ok(StatusReport { url, spec, storage, refs: Some(refs) }))
                            },
                            None => Progress::Finished(Err(CommandError::Failed(String::new()))),
                        }
                    },
                }
            },
            StatusStage::Done => self.fail(CommandError::Failed(String::new())),
        };
        assert(self.state() == expected.0);
        assert(r@ == expected.1);
        r
    }
}

} // verus!
