//! Storage backends: their names, URL shapes and credential variables.
use vstd::prelude::*;

use crate::error::{UrlError, UrlErrorView};
use crate::text::{chars_of, same_chars};

verus! {

broadcast use vstd::string::group_string_axioms;

/// A storage backend that an `opendal://` remote can name.
#[derive(Clone, Copy, PartialEq, Eq, Structural, Debug)]
pub enum Backend {
    Fs,
    S3,
    Gcs,
    Azblob,
    Gdrive,
}

impl View for Backend {
    type V = Backend;

    open spec fn view(&self) -> Backend {
        *self
    }
}

/// The view of an optional text.
pub open spec fn opt_text(o: Option<&str>) -> Option<Seq<char>> {
    match o {
        Some(s) => Some(s@),
        None => None,
    }
}

/// The views of a list of texts.
pub open spec fn strs_view(v: Seq<&str>) -> Seq<Seq<char>> {
    v.map_values(|s: &str| s@)
}

/// The views of a list of strings.
pub open spec fn strings_view(v: Seq<String>) -> Seq<Seq<char>> {
    v.map_values(|s: String| s@)
}

/// The view of an optional string.
pub open spec fn opt_string(o: Option<String>) -> Option<Seq<char>> {
    match o {
        Some(s) => Some(s@),
        None => None,
    }
}

/// Every backend, in the order that listings show them.
pub open spec fn all_backends() -> Seq<Backend> {
    seq![Backend::Fs, Backend::S3, Backend::Gcs, Backend::Azblob, Backend::Gdrive]
}

/// The backend that a URL names with `s`.
pub open spec fn backend_named(s: Seq<char>) -> Option<Backend> {
    if s == Backend::Fs.name() {
        Some(Backend::Fs)
    } else if s == Backend::S3.name() {
        Some(Backend::S3)
    } else if s == Backend::Gcs.name() {
        Some(Backend::Gcs)
    } else if s == Backend::Azblob.name() {
        Some(Backend::Azblob)
    } else if s == Backend::Gdrive.name() {
        Some(Backend::Gdrive)
    } else {
        None
    }
}

/// What `Backend::parse` gives back for the text `s`.
pub open spec fn parse_backend_spec(s: Seq<char>) -> Result<Backend, UrlErrorView> {
    match backend_named(s) {
        Some(b) => Ok(b),
        None => Err(UrlErrorView::UnsupportedBackend(s)),
    }
}

/// The view of a schema entry.
pub struct BackendSchemaView {
    pub backend: Seq<char>,
    pub url_format: Seq<char>,
    pub bucket_label: Option<Seq<char>>,
    pub credential_variables: Seq<Seq<char>>,
    pub credential_hint: Option<Seq<char>>,
}

/// How one backend's URLs look and which credentials it reads.
#[derive(Debug)]
pub struct BackendSchema {
    pub backend: String,
    pub url_format: String,
    pub bucket_label: Option<String>,
    pub credential_variables: Vec<String>,
    pub credential_hint: Option<String>,
}

impl View for BackendSchema {
    type V = BackendSchemaView;

    open spec fn view(&self) -> BackendSchemaView {
        BackendSchemaView {
            backend: self.backend@,
            url_format: self.url_format@,
            bucket_label: opt_string(self.bucket_label),
            credential_variables: strings_view(self.credential_variables@),
            credential_hint: opt_string(self.credential_hint),
        }
    }
}

impl Backend {
    /// The name of the backend in URLs and on the command line.
    pub open spec fn name(self) -> Seq<char> {
        match self {
            Backend::Fs => seq!['f', 's'],
            Backend::S3 => seq!['s', '3'],
            Backend::Gcs => seq!['g', 'c', 's'],
            Backend::Azblob => seq!['a', 'z', 'b', 'l', 'o', 'b'],
            Backend::Gdrive => seq!['g', 'd', 'r', 'i', 'v', 'e'],
        }
    }

    /// What the bucket of a bucketed backend is called; `None` for the
    /// backends without one.
    pub open spec fn label(self) -> Option<Seq<char>> {
        match self {
            Backend::S3 | Backend::Gcs => Some("bucket"@),
            Backend::Azblob => Some("container"@),
            Backend::Fs | Backend::Gdrive => None,
        }
    }

    pub open spec fn needs_bucket(self) -> bool {
        self.label() is Some
    }

    /// The environment variables that carry the backend's credentials.
    pub open spec fn credential_names(self) -> Seq<Seq<char>> {
        match self {
            Backend::Fs => seq![],
            Backend::S3 => seq!["OPENDAL_S3_ACCESS_KEY_ID"@, "OPENDAL_S3_SECRET_ACCESS_KEY"@],
            Backend::Gcs => seq!["OPENDAL_GCS_CREDENTIAL_PATH"@, "OPENDAL_GCS_CREDENTIAL"@],
            Backend::Azblob => seq!["OPENDAL_AZBLOB_ACCOUNT_NAME"@, "OPENDAL_AZBLOB_ACCOUNT_KEY"@],
            Backend::Gdrive => seq![
                "OPENDAL_GDRIVE_CLIENT_ID"@,
                "OPENDAL_GDRIVE_CLIENT_SECRET"@,
                "OPENDAL_GDRIVE_REFRESH_TOKEN"@,
                "OPENDAL_GDRIVE_ACCESS_TOKEN"@,
            ],
        }
    }

    /// What to tell a user whose credentials are missing.
    pub open spec fn hint(self) -> Option<Seq<char>> {
        match self {
            Backend::Fs => None,
            Backend::S3 => Some(
                "set OPENDAL_S3_ACCESS_KEY_ID, OPENDAL_S3_SECRET_ACCESS_KEY, and usually OPENDAL_S3_REGION"@,
            ),
            Backend::Gcs => Some("set OPENDAL_GCS_CREDENTIAL_PATH (or OPENDAL_GCS_CREDENTIAL)"@),
            Backend::Azblob => Some(
                "set OPENDAL_AZBLOB_ACCOUNT_NAME and OPENDAL_AZBLOB_ACCOUNT_KEY"@,
            ),
            Backend::Gdrive => Some(
                "set Google Drive OAuth variables, such as OPENDAL_GDRIVE_ACCESS_TOKEN"@,
            ),
        }
    }

    /// The shape of the backend's URLs.
    pub open spec fn url_format(self) -> Seq<char> {
        match self.label() {
            Some(label) => "opendal://"@ + self.name() + "/<"@ + label + ">/<path>"@,
            None => "opendal://"@ + self.name() + "/<path>"@,
        }
    }

    /// Whether credentials count as present when the `k`-th credential
    /// variable is set exactly where `set[k]` is true.
    pub open spec fn credentials_present_spec(self, set: Seq<bool>) -> bool {
        self.credential_names().len() == 0 || exists|k: int|
            0 <= k < self.credential_names().len() && k < set.len() && #[trigger] set[k]
    }

    /// Credentials count as present when the backend reads no variable, or
    /// when any one of its credential variables is set, whatever its
    /// position; they count as missing when the backend reads some variable
    /// and none is set.
    pub proof fn lemma_credentials_present(self, set: Seq<bool>)
        ensures
            self.credential_names().len() == 0 ==> self.credentials_present_spec(set),
            forall|k: int|
                0 <= k < self.credential_names().len() && k < set.len() && #[trigger] set[k]
                    ==> self.credentials_present_spec(set),
            self.credential_names().len() > 0 && (forall|k: int| 0 <= k < set.len() ==> !#[trigger] set[k])
                ==> !self.credentials_present_spec(set),
    {
    }

    pub open spec fn schema_spec(self) -> BackendSchemaView {
        BackendSchemaView {
            backend: self.name(),
            url_format: self.url_format(),
            bucket_label: self.label(),
            credential_variables: self.credential_names(),
            credential_hint: self.hint(),
        }
    }

    /// Every backend, in the order that listings show them.
    pub fn all() -> (r: Vec<Backend>)
        ensures
            r@ == all_backends(),
    {
        let r = vec![Backend::Fs, Backend::S3, Backend::Gcs, Backend::Azblob, Backend::Gdrive];
        assert(r@ =~= all_backends());
        r
    }

    /// The name of the backend in URLs and on the command line.
    pub fn as_str(self) -> (r: &'static str)
        ensures
            r@ == self.name(),
    {
        match self {
            Backend::Fs => {
                proof {
                    reveal_strlit("fs");
                }
                assert("fs"@ =~= self.name());
                "fs"
            },
            Backend::S3 => {
                proof {
                    reveal_strlit("s3");
                }
                assert("s3"@ =~= self.name());
                "s3"
            },
            Backend::Gcs => {
                proof {
                    reveal_strlit("gcs");
                }
                assert("gcs"@ =~= self.name());
                "gcs"
            },
            Backend::Azblob => {
                proof {
                    reveal_strlit("azblob");
                }
                assert("azblob"@ =~= self.name());
                "azblob"
            },
            Backend::Gdrive => {
                proof {
                    reveal_strlit("gdrive");
                }
                assert("gdrive"@ =~= self.name());
                "gdrive"
            },
        }
    }

    /// The backend named by `value`, or an error naming the accepted names.
    pub fn parse(value: &str) -> (r: Result<Backend, UrlError>)
        ensures
            match r {
                Ok(b) => parse_backend_spec(value@) == Ok::<Backend, UrlErrorView>(b),
                Err(e) => parse_backend_spec(value@) == Err::<Backend, UrlErrorView>(e@),
            },
    {
        let v = chars_of(value);
        let all = Backend::all();
        let mut i: usize = 0;
        while i < all.len()
            invariant
                all@ == all_backends(),
                i <= all.len(),
                v@ == value@,
                forall|k: int| 0 <= k < i ==> v@ != (#[trigger] all@[k]).name(),
            decreases all.len() - i,
        {
            let b = all[i];
            if same_chars(&v, &chars_of(b.as_str())) {
                proof {
                    assert forall|k: int| 0 <= k < i implies all@[k].name() != b.name() by {
                        Backend::lemma_names_distinct(all@[k], b);
                    }
                }
                return Ok(b);
            }
            i = i + 1;
        }
        assert(v@ != all@[0].name() && v@ != all@[1].name() && v@ != all@[2].name() && v@
            != all@[3].name() && v@ != all@[4].name());
        Err(UrlError::UnsupportedBackend(crate::text::string_of(&v)))
    }

    /// Distinct backends have distinct names.
    pub proof fn lemma_names_distinct(a: Backend, b: Backend)
        ensures
            a != b ==> a.name() != b.name(),
    {
        if a != b {
            assert(a.name().len() != b.name().len() || a.name()[0] != b.name()[0] || a.name()[1]
                != b.name()[1]);
        }
    }

    /// What the bucket is called, for the backends that have one.
    pub fn bucket_label(self) -> (r: Option<&'static str>)
        ensures
            opt_text(r) == self.label(),
    {
        match self {
            Backend::S3 | Backend::Gcs => Some("bucket"),
            Backend::Azblob => Some("container"),
            Backend::Fs | Backend::Gdrive => None,
        }
    }

    /// The environment variables that carry the backend's credentials.
    pub fn credential_vars(self) -> (r: &'static [&'static str])
        ensures
            strs_view(r@) == self.credential_names(),
    {
        let r: &'static [&'static str] = match self {
            Backend::Fs => &[],
            Backend::S3 => &["OPENDAL_S3_ACCESS_KEY_ID", "OPENDAL_S3_SECRET_ACCESS_KEY"],
            Backend::Gcs => &["OPENDAL_GCS_CREDENTIAL_PATH", "OPENDAL_GCS_CREDENTIAL"],
            Backend::Azblob => &["OPENDAL_AZBLOB_ACCOUNT_NAME", "OPENDAL_AZBLOB_ACCOUNT_KEY"],
            Backend::Gdrive => &[
                "OPENDAL_GDRIVE_CLIENT_ID",
                "OPENDAL_GDRIVE_CLIENT_SECRET",
                "OPENDAL_GDRIVE_REFRESH_TOKEN",
                "OPENDAL_GDRIVE_ACCESS_TOKEN",
            ],
        };
        assert(strs_view(r@) =~= self.credential_names());
        r
    }

    /// What to tell a user whose credentials are missing.
    pub fn credential_hint(self) -> (r: Option<&'static str>)
        ensures
            opt_text(r) == self.hint(),
    {
        match self {
            Backend::Fs => None,
            Backend::S3 => Some(
                "set OPENDAL_S3_ACCESS_KEY_ID, OPENDAL_S3_SECRET_ACCESS_KEY, and usually OPENDAL_S3_REGION",
            ),
            Backend::Gcs => Some("set OPENDAL_GCS_CREDENTIAL_PATH (or OPENDAL_GCS_CREDENTIAL)"),
            Backend::Azblob => Some("set OPENDAL_AZBLOB_ACCOUNT_NAME and OPENDAL_AZBLOB_ACCOUNT_KEY"),
            Backend::Gdrive => Some(
                "set Google Drive OAuth variables, such as OPENDAL_GDRIVE_ACCESS_TOKEN",
            ),
        }
    }

    /// Whether the backend's credentials count as present, where `set[k]`
    /// tells whether the `k`-th variable of `credential_vars` is set: either
    /// the backend reads none, or at least one of them is set.
    pub fn credentials_present(self, set: &Vec<bool>) -> (r: bool)
        ensures
            r == self.credentials_present_spec(set@),
            self.credential_names().len() == 0 ==> r,
            forall|k: int|
                0 <= k < self.credential_names().len() && k < set@.len() && #[trigger] set@[k] ==> r,
            self.credential_names().len() > 0 && (forall|k: int| 0 <= k < set@.len() ==> !#[trigger] set@[k])
                ==> !r,
    {
        proof {
            self.lemma_credentials_present(set@);
        }
        let vars = self.credential_vars();
        if vars.len() == 0 {
            return true;
        }
        let mut k: usize = 0;
        while k < vars.len() && k < set.len()
            invariant
                vars@.len() == self.credential_names().len(),
                k <= vars.len(),
                forall|q: int| 0 <= q < k && q < set@.len() ==> !set@[q],
            decreases vars.len() - k,
        {
            if set[k] {
                return true;
            }
            k = k + 1;
        }
        false
    }

    /// How the backend's URLs look and which credentials it reads.
    pub fn schema(self) -> (r: BackendSchema)
        ensures
            r@ == self.schema_spec(),
    {
        let name = self.as_str();
        let mut url_format = String::from_str("opendal://");
        url_format.append(name);
        match self.bucket_label() {
            Some(label) => {
                url_format.append("/<");
                url_format.append(label);
                url_format.append(">/<path>");
            },
            None => {
                url_format.append("/<path>");
            },
        }
        let vars = self.credential_vars();
        let mut credential_variables: Vec<String> = Vec::new();
        for k in 0..vars.len()
            invariant
                strs_view(vars@) == self.credential_names(),
                strings_view(credential_variables@) == strs_view(vars@).take(k as int),
        {
            let ghost before = credential_variables@;
            credential_variables.push(String::from_str(vars[k]));
            assert(strings_view(credential_variables@) =~= strings_view(before).push(vars@[k as int]@));
            assert(strs_view(vars@).take(k + 1) =~= strs_view(vars@).take(k as int).push(vars@[k as int]@));
        }
        assert(strs_view(vars@).take(vars.len() as int) =~= strs_view(vars@));
        let bucket_label = match self.bucket_label() {
            Some(l) => Some(String::from_str(l)),
            None => None,
        };
        let credential_hint = match self.credential_hint() {
            Some(h) => Some(String::from_str(h)),
            None => None,
        };
        let r = BackendSchema {
            backend: String::from_str(name),
            url_format,
            bucket_label,
            credential_variables,
            credential_hint,
        };
        assert(r@.url_format =~= self.url_format());
        r
    }
}

} // verus!
