//! Why a remote description or an `opendal://` URL is refused.
use vstd::prelude::*;

use crate::backend::Backend;

verus! {

broadcast use vstd::string::group_string_axioms;

/// Why a remote description or an `opendal://` URL is refused.
#[derive(Debug, PartialEq, Eq)]
pub enum UrlError {
    /// The text does not name a known backend.
    UnsupportedBackend(String),
    /// The repository path is empty once cleaned.
    EmptyPath,
    /// A bucketed backend was given no bucket.
    MissingBucket(Backend),
    /// A backend without buckets was given one.
    UnexpectedBucket(Backend),
    /// The (trimmed) URL does not start with `opendal://`.
    NotOpendalUrl(String),
    /// Nothing follows the backend in the (trimmed) URL.
    MissingBackendPath(String),
    /// No repository path follows the bucket in the (trimmed) URL.
    MissingRepositoryPath(String),
}

/// The view of a [`UrlError`].
pub enum UrlErrorView {
    UnsupportedBackend(Seq<char>),
    EmptyPath,
    MissingBucket(Backend),
    UnexpectedBucket(Backend),
    NotOpendalUrl(Seq<char>),
    MissingBackendPath(Seq<char>),
    MissingRepositoryPath(Seq<char>),
}

impl View for UrlError {
    type V = UrlErrorView;

    open spec fn view(&self) -> UrlErrorView {
        match self {
            UrlError::UnsupportedBackend(s) => UrlErrorView::UnsupportedBackend(s@),
            UrlError::EmptyPath => UrlErrorView::EmptyPath,
            UrlError::MissingBucket(b) => UrlErrorView::MissingBucket(*b),
            UrlError::UnexpectedBucket(b) => UrlErrorView::UnexpectedBucket(*b),
            UrlError::NotOpendalUrl(s) => UrlErrorView::NotOpendalUrl(s@),
            UrlError::MissingBackendPath(s) => UrlErrorView::MissingBackendPath(s@),
            UrlError::MissingRepositoryPath(s) => UrlErrorView::MissingRepositoryPath(s@),
        }
    }
}

/// The label text of a backend, empty for the backends without a bucket.
pub open spec fn label_text(b: Backend) -> Seq<char> {
    match b.label() {
        Some(l) => l,
        None => Seq::empty(),
    }
}

impl UrlErrorView {
    /// The text shown to the user.
    pub open spec fn message(self) -> Seq<char> {
        match self {
            UrlErrorView::UnsupportedBackend(v) => "unsupported backend '"@ + v
                + "'; use fs, s3, gcs, azblob, or gdrive"@,
            UrlErrorView::EmptyPath => "--path must not be empty"@,
            UrlErrorView::MissingBucket(b) => "backend '"@ + b.name() + "' needs --bucket <"@
                + label_text(b) + ">"@,
            UrlErrorView::UnexpectedBucket(b) => "--bucket is not used with backend '"@ + b.name()
                + "'"@,
            UrlErrorView::NotOpendalUrl(o) => "'"@ + o
                + "' is not an opendal URL; expected opendal://<backend>/<path>"@,
            UrlErrorView::MissingBackendPath(o) => "'"@ + o
                + "' is missing a path after the backend"@,
            UrlErrorView::MissingRepositoryPath(o) => "'"@ + o
                + "' is missing a repository path after its bucket or container"@,
        }
    }
}

impl UrlError {
    /// The text shown to the user.
    pub fn message(&self) -> (r: String)
        ensures
            r@ == self@.message(),
    {
        match self {
            UrlError::UnsupportedBackend(v) => {
                let mut m = String::from_str("unsupported backend '");
                m.append(v.as_str());
                m.append("'; use fs, s3, gcs, azblob, or gdrive");
                m
            },
            UrlError::EmptyPath => String::from_str("--path must not be empty"),
            UrlError::MissingBucket(b) => {
                let mut m = String::from_str("backend '");
                m.append(b.as_str());
                m.append("' needs --bucket <");
                match b.bucket_label() {
                    Some(l) => m.append(l),
                    None => {
                        assert(m@ + Seq::<char>::empty() =~= m@);
                    },
                }
                m.append(">");
                m
            },
            UrlError::UnexpectedBucket(b) => {
                let mut m = String::from_str("--bucket is not used with backend '");
                m.append(b.as_str());
                m.append("'");
                m
            },
            UrlError::NotOpendalUrl(o) => {
                let mut m = String::from_str("'");
                m.append(o.as_str());
                m.append("' is not an opendal URL; expected opendal://<backend>/<path>");
                m
            },
            UrlError::MissingBackendPath(o) => {
                let mut m = String::from_str("'");
                m.append(o.as_str());
                m.append("' is missing a path after the backend");
                m
            },
            UrlError::MissingRepositoryPath(o) => {
                let mut m = String::from_str("'");
                m.append(o.as_str());
                m.append("' is missing a repository path after its bucket or container");
                m
            },
        }
    }
}

} // verus!
