//! `opendal://` remotes: building them from a backend, bucket and path,
//! writing their URLs and reading URLs back.
use vstd::prelude::*;

use crate::backend::{backend_named, opt_string, parse_backend_spec, Backend};
use crate::error::{UrlError, UrlErrorView};
use crate::text::{
    chars_of, clean_chars, clean_spec, find, has_prefix, in_class, lemma_find, lemma_find_at, lemma_strip_end_shape,
    lemma_strip_start_shape, split_once_chars, split_once_spec, string_of, strip, strip_chars,
    strip_end, strip_prefix_chars, strip_prefix_spec, strip_start, trim_spec, Edge,
};

verus! {

broadcast use vstd::string::group_string_axioms;

/// The view of a [`RemoteSpec`].
pub struct RemoteSpecView {
    pub backend: Backend,
    pub bucket: Option<Seq<char>>,
    pub path: Seq<char>,
}

/// Neither end of `s` is a character of class `e`.
pub open spec fn clean_edges(s: Seq<char>, e: Edge) -> bool {
    s.len() > 0 ==> !in_class(e, s[0]) && !in_class(e, s.last())
}

impl RemoteSpecView {
    /// What every remote that [`RemoteSpec::new`] accepts looks like: a
    /// non-empty path and, exactly for the bucketed backends, a non-empty
    /// bucket, neither with a `/` at either end.
    pub open spec fn wf(self) -> bool {
        &&& self.path.len() > 0
        &&& clean_edges(self.path, Edge::Slash)
        &&& (self.bucket is Some <==> self.backend.needs_bucket())
        &&& match self.bucket {
            Some(b) => b.len() > 0 && clean_edges(b, Edge::Slash),
            None => true,
        }
    }

    /// A remote whose URL reads back as itself: neither path nor bucket has
    /// white space at either end, and the bucket holds no `/`.
    pub open spec fn url_stable(self) -> bool {
        &&& clean_edges(self.path, Edge::Space)
        &&& match self.bucket {
            Some(b) => clean_edges(b, Edge::Space) && !b.contains('/'),
            None => true,
        }
    }
}

/// A bucket as [`RemoteSpec::new`] keeps it: cleaned, and dropped when empty.
pub open spec fn clean_bucket(bucket: Option<Seq<char>>) -> Option<Seq<char>> {
    match bucket {
        Some(b) => if clean_spec(b).len() > 0 {
            Some(clean_spec(b))
        } else {
            None
        },
        None => None,
    }
}

/// What [`RemoteSpec::new`] gives back.
pub open spec fn new_spec(backend: Backend, bucket: Option<Seq<char>>, path: Seq<char>) -> Result<
    RemoteSpecView,
    UrlErrorView,
> {
    let p = clean_spec(path);
    let b = clean_bucket(bucket);
    if p.len() == 0 {
        Err(UrlErrorView::EmptyPath)
    } else if backend.needs_bucket() && b is None {
        Err(UrlErrorView::MissingBucket(backend))
    } else if !backend.needs_bucket() && b is Some {
        Err(UrlErrorView::UnexpectedBucket(backend))
    } else {
        Ok(RemoteSpecView { backend, bucket: b, path: p })
    }
}

/// The scheme that starts every remote URL.
pub open spec fn url_prefix() -> Seq<char> {
    "opendal://"@
}

/// What [`RemoteSpec::parse_url`] gives back.
pub open spec fn parse_url_spec(url: Seq<char>) -> Result<RemoteSpecView, UrlErrorView> {
    let trimmed = trim_spec(url);
    match strip_prefix_spec(trimmed, url_prefix()) {
        None => Err(UrlErrorView::NotOpendalUrl(trimmed)),
        Some(rest) => match split_once_spec(rest, '/') {
            None => Err(UrlErrorView::MissingBackendPath(trimmed)),
            Some((scheme, remainder)) => match parse_backend_spec(scheme) {
                Err(e) => Err(e),
                Ok(backend) => if backend.needs_bucket() {
                    match split_once_spec(remainder, '/') {
                        None => Err(UrlErrorView::MissingRepositoryPath(trimmed)),
                        Some((bucket, path)) => new_spec(backend, Some(bucket), path),
                    }
                } else {
                    new_spec(backend, None, remainder)
                },
            },
        },
    }
}

/// The URL of a remote.
pub open spec fn url_spec(s: RemoteSpecView) -> Seq<char> {
    match s.bucket {
        Some(b) => url_prefix() + s.backend.name() + seq!['/'] + b + seq!['/'] + s.path,
        None => url_prefix() + s.backend.name() + seq!['/'] + s.path,
    }
}

/// Where a filesystem remote keeps its data.
pub open spec fn local_fs_path_spec(s: RemoteSpecView) -> Option<Seq<char>> {
    if s.backend == Backend::Fs {
        Some(seq!['/'] + s.path)
    } else {
        None
    }
}

/// The view of a result of remote construction.
pub open spec fn spec_result(r: Result<RemoteSpec, UrlError>) -> Result<
    RemoteSpecView,
    UrlErrorView,
> {
    match r {
        Ok(s) => Ok(s@),
        Err(e) => Err(e@),
    }
}

/// What the command line says about the remote to build.
#[derive(Debug)]
pub struct Target {
    pub backend: Backend,
    pub path: String,
    pub bucket: Option<String>,
}

/// An `opendal://` remote: a backend, a bucket for the bucketed backends,
/// and the repository's path inside it.
#[derive(Debug, PartialEq, Eq)]
pub struct RemoteSpec {
    backend: Backend,
    bucket: Option<String>,
    path: String,
}

impl View for RemoteSpec {
    type V = RemoteSpecView;

    closed spec fn view(&self) -> RemoteSpecView {
        RemoteSpecView { backend: self.backend, bucket: opt_string(self.bucket), path: self.path@ }
    }
}

// ---------------------------------------------------------------------------
// Lemmas
/// Stripping the characters of a class leaves neither end in that class.
pub proof fn lemma_strip_edges(s: Seq<char>, e: Edge)
    ensures
        clean_edges(strip(s, e), e),
{
    let t = strip_start(s, e);
    lemma_strip_start_shape(s, e);
    lemma_strip_end_shape(t, e);
    let u = strip_end(t, e);
    if u.len() > 0 {
        let k = choose|k: int| 0 <= k <= t.len() && u == t.take(k);
        assert(u[0] == t[0]);
    }
}

/// A text with clean ends is left as it is.
pub proof fn lemma_strip_noop(s: Seq<char>, e: Edge)
    requires
        clean_edges(s, e),
    ensures
        strip(s, e) == s,
{
    assert(strip_start(s, e) == s);
    assert(strip_end(s, e) == s);
}

/// Every remote that `new_spec` accepts is well formed.
pub proof fn lemma_new_wf(backend: Backend, bucket: Option<Seq<char>>, path: Seq<char>)
    ensures
        new_spec(backend, bucket, path) matches Ok(s) ==> s.wf(),
{
    lemma_strip_edges(trim_spec(path), Edge::Slash);
    if let Some(b) = bucket {
        lemma_strip_edges(trim_spec(b), Edge::Slash);
    }
}

/// Each backend is found again by its name.
pub proof fn lemma_backend_named(b: Backend)
    ensures
        backend_named(b.name()) == Some(b),
        parse_backend_spec(b.name()) == Ok::<Backend, UrlErrorView>(b),
{
    Backend::lemma_names_distinct(b, Backend::Fs);
    Backend::lemma_names_distinct(b, Backend::S3);
    Backend::lemma_names_distinct(b, Backend::Gcs);
    Backend::lemma_names_distinct(b, Backend::Azblob);
    Backend::lemma_names_distinct(b, Backend::Gdrive);
}

/// Splitting `a + "/" + b` at its first `/`, where `a` holds none, gives `a` and `b`.
pub proof fn lemma_split_at_slash(a: Seq<char>, b: Seq<char>)
    requires
        !a.contains('/'),
    ensures
        split_once_spec(a + seq!['/'] + b, '/') == Some((a, b)),
{
    let s = a + seq!['/'] + b;
    assert forall|k: int| 0 <= k < a.len() implies s[k] != '/' by {
        assert(s[k] == a[k]);
        if a[k] == '/' {
            assert(a.contains('/'));
        }
    }
    assert(s[a.len() as int] == '/');
    lemma_find_at(s, '/', a.len() as int);
    assert(s.take(a.len() as int) =~= a);
    assert(s.skip(a.len() as int + 1) =~= b);
}

/// No backend name holds a `/`.
pub proof fn lemma_name_has_no_slash(b: Backend)
    ensures
        !b.name().contains('/'),
{
    let n = b.name();
    assert forall|k: int| 0 <= k < n.len() implies n[k] != '/' by {}
}

/// The URL of every well formed, stable remote reads back as that remote.
pub proof fn lemma_url_round_trip(s: RemoteSpecView)
    requires
        s.wf(),
        s.url_stable(),
    ensures
        parse_url_spec(url_spec(s)) == Ok::<RemoteSpecView, UrlErrorView>(s),
{
    reveal_strlit("opendal://");
    let p = url_prefix();
    let name = s.backend.name();
    let url = url_spec(s);
    let rest = match s.bucket {
        Some(b) => name + seq!['/'] + (b + seq!['/'] + s.path),
        None => name + seq!['/'] + s.path,
    };
    assert(url =~= p + rest);
    // The URL has no white space at its ends.
    assert(url[0] == 'o');
    assert(url.last() == s.path.last());
    lemma_strip_noop(url, Edge::Space);
    // It starts with the scheme.
    assert(url.take(p.len() as int) =~= p);
    assert(url.skip(p.len() as int) =~= rest);
    assert(strip_prefix_spec(trim_spec(url), p) == Some(rest));
    // The backend name runs up to the first `/`.
    lemma_name_has_no_slash(s.backend);
    lemma_backend_named(s.backend);
    lemma_strip_noop(s.path, Edge::Space);
    lemma_strip_noop(s.path, Edge::Slash);
    match s.bucket {
        Some(b) => {
            lemma_split_at_slash(name, b + seq!['/'] + s.path);
            lemma_split_at_slash(b, s.path);
            lemma_strip_noop(b, Edge::Space);
            lemma_strip_noop(b, Edge::Slash);
            assert(clean_bucket(Some(b)) == Some(b));
        },
        None => {
            lemma_split_at_slash(name, s.path);
        },
    }
}

/// Building a well formed, stable remote again from its own backend,
/// bucket and path gives the same remote.
pub proof fn lemma_new_idempotent(s: RemoteSpecView)
    requires
        s.wf(),
        s.url_stable(),
    ensures
        new_spec(s.backend, s.bucket, s.path) == Ok::<RemoteSpecView, UrlErrorView>(s),
{
    lemma_strip_noop(s.path, Edge::Space);
    lemma_strip_noop(s.path, Edge::Slash);
    if let Some(b) = s.bucket {
        lemma_strip_noop(b, Edge::Space);
        lemma_strip_noop(b, Edge::Slash);
    }
}

/// A character that a text lacks is not in it once the characters of a
/// class are stripped from its ends.
pub proof fn lemma_strip_keeps_out(s: Seq<char>, e: Edge, c: char)
    requires
        !s.contains(c),
    ensures
        !strip(s, e).contains(c),
{
    let t = strip_start(s, e);
    lemma_strip_start_shape(s, e);
    let k = choose|k: int| 0 <= k <= s.len() && t == s.skip(k);
    lemma_strip_end_shape(t, e);
    let u = strip_end(t, e);
    let m = choose|m: int| 0 <= m <= t.len() && u == t.take(m);
    if u.contains(c) {
        let i = choose|i: int| 0 <= i < u.len() && u[i] == c;
        assert(u[i] == s[k + i]);
    }
}

/// Every remote read from a URL is well formed, its bucket holds no `/`,
/// and the URL, trimmed of white space, starts with
/// `opendal://<backend>/`.
pub proof fn lemma_parse_url_shape(url: Seq<char>)
    ensures
        parse_url_spec(url) matches Ok(s) ==> {
            &&& has_prefix(trim_spec(url), url_prefix() + s.backend.name() + seq!['/'])
            &&& s.wf()
            &&& s.bucket matches Some(b) ==> !b.contains('/')
        },
{
    let trimmed = trim_spec(url);
    let p = url_prefix();
    if let Some(rest) = strip_prefix_spec(trimmed, p) {
        lemma_find(rest, '/');
        if let Some((scheme, remainder)) = split_once_spec(rest, '/') {
            if let Ok(backend) = parse_backend_spec(scheme) {
                let i = find(rest, '/')->0;
                let head = p + scheme + seq!['/'];
                assert(scheme == backend.name());
                assert forall|k: int| 0 <= k < head.len() implies trimmed[k] == head[k] by {
                    if k < p.len() {
                        assert(trimmed.take(p.len() as int)[k] == p[k]);
                    } else {
                        assert(trimmed[k] == rest[k - p.len()]);
                        if k < p.len() + i {
                            assert(rest.take(i)[k - p.len()] == scheme[k - p.len()]);
                        }
                    }
                }
                assert(trimmed.take(head.len() as int) =~= head);
                if backend.needs_bucket() {
                    lemma_find(remainder, '/');
                    if let Some((bucket, path)) = split_once_spec(remainder, '/') {
                        lemma_new_wf(backend, Some(bucket), path);
                        let j = find(remainder, '/')->0;
                        assert forall|k: int| 0 <= k < bucket.len() implies bucket[k] != '/' by {
                            assert(bucket[k] == remainder[k]);
                        }
                        lemma_strip_keeps_out(bucket, Edge::Space, '/');
                        lemma_strip_keeps_out(trim_spec(bucket), Edge::Slash, '/');
                    }
                } else {
                    lemma_new_wf(backend, None, remainder);
                }
            }
        }
    }
}

impl RemoteSpec {
    #[verifier::type_invariant]
    pub closed spec fn inv(self) -> bool {
        self@.wf()
    }

    pub fn backend(&self) -> (r: Backend)
        ensures
            r == self@.backend,
            self@.wf(),
    {
        proof {
            use_type_invariant(self);
        }
        self.backend
    }

    pub fn bucket(&self) -> (r: &Option<String>)
        ensures
            opt_string(*r) == self@.bucket,
    {
        &self.bucket
    }

    pub fn path(&self) -> (r: &String)
        ensures
            r@ == self@.path,
    {
        &self.path
    }

    /// Builds a remote: the path and bucket are trimmed of white space and
    /// then of `/` at both ends; an empty bucket counts as none; the path must
    /// not be empty, and the bucket must be there exactly for the bucketed
    /// backends.
    pub fn new(backend: Backend, bucket: Option<String>, path: &str) -> (r: Result<
        RemoteSpec,
        UrlError,
    >)
        ensures
            spec_result(r) == new_spec(backend, opt_string(bucket), path@),
    {
        proof {
            lemma_new_wf(backend, opt_string(bucket), path@);
        }
        let p = clean_chars(&chars_of(path));
        if p.len() == 0 {
            return Err(UrlError::EmptyPath);
        }
        let b: Option<Vec<char>> = match bucket {
            Some(v) => {
                let c = clean_chars(&chars_of(v.as_str()));
                if c.len() > 0 {
                    Some(c)
                } else {
                    None
                }
            },
            None => None,
        };
        match (backend.bucket_label(), b) {
            (Some(_), None) => Err(UrlError::MissingBucket(backend)),
            (None, Some(_)) => Err(UrlError::UnexpectedBucket(backend)),
            (_, b) => {
                let bucket = match b {
                    Some(c) => Some(string_of(&c)),
                    None => None,
                };
                Ok(RemoteSpec { backend, bucket, path: string_of(&p) })
            },
        }
    }

    /// Builds the remote that the command line describes.
    pub fn from_target(target: &Target) -> (r: Result<RemoteSpec, UrlError>)
        ensures
            spec_result(r) == new_spec(target.backend, opt_string(target.bucket), target.path@),
    {
        let bucket = match &target.bucket {
            Some(b) => Some(b.clone()),
            None => None,
        };
        Self::new(target.backend, bucket, target.path.as_str())
    }

    /// Reads an `opendal://<backend>/[<bucket>/]<path>` URL, trimmed of white
    /// space first; the bucket is the segment after the backend for the
    /// bucketed backends.
    pub fn parse_url(url: &str) -> (r: Result<RemoteSpec, UrlError>)
        ensures
            spec_result(r) == parse_url_spec(url@),
            r matches Ok(s) ==> {
                &&& has_prefix(trim_spec(url@), url_prefix() + s@.backend.name() + seq!['/'])
                &&& s@.wf()
                &&& s@.bucket matches Some(b) ==> !b.contains('/')
            },
    {
        proof {
            reveal_strlit("opendal://");
            lemma_parse_url_shape(url@);
        }
        let trimmed = strip_chars(&chars_of(url), Edge::Space);
        let prefix = chars_of("opendal://");
        let rest = match strip_prefix_chars(&trimmed, &prefix) {
            Some(rest) => rest,
            None => {
                return Err(UrlError::NotOpendalUrl(string_of(&trimmed)));
            },
        };
        let (scheme, remainder) = match split_once_chars(&rest, '/') {
            Some(parts) => parts,
            None => {
                return Err(UrlError::MissingBackendPath(string_of(&trimmed)));
            },
        };
        let scheme_text = string_of(&scheme);
        let backend = match Backend::parse(scheme_text.as_str()) {
            Ok(b) => b,
            Err(e) => {
                return Err(e);
            },
        };
        if backend.bucket_label().is_some() {
            match split_once_chars(&remainder, '/') {
                Some((bucket, path)) => {
                    let path_text = string_of(&path);
                    Self::new(backend, Some(string_of(&bucket)), path_text.as_str())
                },
                None => Err(UrlError::MissingRepositoryPath(string_of(&trimmed))),
            }
        } else {
            let path_text = string_of(&remainder);
            Self::new(backend, None, path_text.as_str())
        }
    }

    /// The remote's URL: `opendal://<backend>/[<bucket>/]<path>`.
    pub fn url(&self) -> (r: String)
        ensures
            r@ == url_spec(self@),
    {
        proof {
            reveal_strlit("opendal://");
            reveal_strlit("/");
        }
        let mut r = String::from_str("opendal://");
        r.append(self.backend.as_str());
        r.append("/");
        match &self.bucket {
            Some(b) => {
                r.append(b.as_str());
                r.append("/");
            },
            None => {},
        }
        r.append(self.path.as_str());
        assert(r@ =~= url_spec(self@));
        r
    }

    /// Where a filesystem remote keeps its data: its path under the root
    /// directory; `None` for the other backends.
    pub fn local_fs_path(&self) -> (r: Option<String>)
        ensures
            opt_string(r) == local_fs_path_spec(self@),
    {
        proof {
            reveal_strlit("/");
        }
        if self.backend == Backend::Fs {
            let mut p = String::from_str("/");
            p.append(self.path.as_str());
            Some(p)
        } else {
            None
        }
    }
}

} // verus!
