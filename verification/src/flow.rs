//! What the commands ask of the outside world, and what they are told back.
//!
//! A command is a state machine: it hands out one [`Request`] at a time, the
//! caller performs it and hands back the [`Reply`], until the command is
//! [`Progress::Finished`].
use vstd::prelude::*;

use crate::backend::{strings_view, Backend};
use crate::commands::{CommandError, CommandErrorView};

verus! {

broadcast use vstd::string::group_string_axioms;

/// Outside work that a command asks for.
#[derive(Debug)]
pub enum Request {
    /// Run Git with these arguments and reply with `Output`: its trimmed
    /// standard output, or the text of its failure.
    Capture(Vec<String>),
    /// Run Git with these arguments on the terminal and reply with `Output`:
    /// `Ok` when it succeeded, or the text of its failure.
    Run(Vec<String>),
    /// Reply with `Found`: whether `git-remote-opendal` is on `PATH`.
    FindHelper,
    /// Reply with `Flags`: which of the backend's credential variables are
    /// set, in the order of `Backend::credential_vars`.
    CredentialFlags(Backend),
    /// Print the text on standard error, then reply with `Done`.
    Warn(String),
    /// Print the text on standard output, then reply with `Done`.
    Say(String),
    /// Run and print the `doctor` checks for the backend, then reply with
    /// `Found`: whether they passed.
    Doctor(Backend),
    /// Create the directory and its parents, then reply with `Output`.
    CreateDir(String),
    /// Look at a filesystem remote's storage directory and reply with
    /// `Storage`.
    Inspect(String),
}

/// The view of a [`Request`].
pub enum RequestView {
    Capture(Seq<Seq<char>>),
    Run(Seq<Seq<char>>),
    FindHelper,
    CredentialFlags(Backend),
    Warn(Seq<char>),
    Say(Seq<char>),
    Doctor(Backend),
    CreateDir(Seq<char>),
    Inspect(Seq<char>),
}

impl View for Request {
    type V = RequestView;

    open spec fn view(&self) -> RequestView {
        match self {
            Request::Capture(a) => RequestView::Capture(strings_view(a@)),
            Request::Run(a) => RequestView::Run(strings_view(a@)),
            Request::FindHelper => RequestView::FindHelper,
            Request::CredentialFlags(b) => RequestView::CredentialFlags(*b),
            Request::Warn(t) => RequestView::Warn(t@),
            Request::Say(t) => RequestView::Say(t@),
            Request::Doctor(b) => RequestView::Doctor(*b),
            Request::CreateDir(p) => RequestView::CreateDir(p@),
            Request::Inspect(p) => RequestView::Inspect(p@),
        }
    }
}

/// What the outside work gave back.
#[derive(Debug)]
pub enum Reply {
    Output(Result<String, String>),
    Found(bool),
    Flags(Vec<bool>),
    /// Whether the storage root is a directory, whether its ref list is a
    /// file, and how many bundles it holds.
    Storage(bool, bool, usize),
    Done,
}

/// The view of a [`Reply`].
pub enum ReplyView {
    Output(Result<Seq<char>, Seq<char>>),
    Found(bool),
    Flags(Seq<bool>),
    Storage(bool, bool, usize),
    Done,
}

impl View for Reply {
    type V = ReplyView;

    open spec fn view(&self) -> ReplyView {
        match self {
            Reply::Output(Ok(t)) => ReplyView::Output(Ok(t@)),
            Reply::Output(Err(t)) => ReplyView::Output(Err(t@)),
            Reply::Found(b) => ReplyView::Found(*b),
            Reply::Flags(f) => ReplyView::Flags(f@),
            Reply::Storage(d, f, n) => ReplyView::Storage(*d, *f, *n),
            Reply::Done => ReplyView::Done,
        }
    }
}

/// The output in a reply; any other reply counts as a failure without text.
pub open spec fn output_of(r: ReplyView) -> Result<Seq<char>, Seq<char>> {
    match r {
        ReplyView::Output(o) => o,
        _ => Err(Seq::empty()),
    }
}

/// The answer in a reply; any other reply counts as `false`.
pub open spec fn found_of(r: ReplyView) -> bool {
    match r {
        ReplyView::Found(b) => b,
        _ => false,
    }
}

/// The flags in a reply; any other reply counts as no flags.
pub open spec fn flags_of(r: ReplyView) -> Seq<bool> {
    match r {
        ReplyView::Flags(f) => f,
        _ => Seq::empty(),
    }
}

/// The storage facts in a reply; any other reply counts as a missing
/// directory.
pub open spec fn storage_of(r: ReplyView) -> (bool, bool, usize) {
    match r {
        ReplyView::Storage(d, f, n) => (d, f, n),
        _ => (false, false, 0),
    }
}

impl Reply {
    /// The output in the reply (see [`output_of`]).
    pub fn into_output(self) -> (r: Result<String, String>)
        ensures
            match output_of(self@) {
                Ok(t) => r matches Ok(x) && x@ == t,
                Err(t) => r matches Err(x) && x@ == t,
            },
    {
        match self {
            Reply::Output(o) => o,
            _ => Err(String::new()),
        }
    }

    /// The answer in the reply (see [`found_of`]).
    pub fn found(&self) -> (r: bool)
        ensures
            r == found_of(self@),
    {
        match self {
            Reply::Found(b) => *b,
            _ => false,
        }
    }

    /// The flags in the reply (see [`flags_of`]).
    pub fn into_flags(self) -> (r: Vec<bool>)
        ensures
            r@ == flags_of(self@),
    {
        match self {
            Reply::Flags(f) => f,
            _ => Vec::new(),
        }
    }

    /// The storage facts in the reply (see [`storage_of`]).
    pub fn storage(&self) -> (r: (bool, bool, usize))
        ensures
            r == storage_of(self@),
    {
        match self {
            Reply::Storage(d, f, n) => (*d, *f, *n),
            _ => (false, false, 0),
        }
    }
}

/// Where a command stands: it asks for outside work, or it is finished.
#[derive(Debug)]
pub enum Progress<T> {
    Next(Request),
    Finished(Result<T, CommandError>),
}

/// The view of a [`Progress`].
pub enum ProgressView<V> {
    Next(RequestView),
    Finished(Result<V, CommandErrorView>),
}

impl<T: View> View for Progress<T> {
    type V = ProgressView<T::V>;

    open spec fn view(&self) -> ProgressView<T::V> {
        match self {
            Progress::Next(r) => ProgressView::Next(r@),
            Progress::Finished(Ok(t)) => ProgressView::Finished(Ok(t@)),
            Progress::Finished(Err(e)) => ProgressView::Finished(Err(e@)),
        }
    }
}

} // verus!
