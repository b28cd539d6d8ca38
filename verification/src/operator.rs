//! Building OpenDAL operators for the Backblaze B2, S3 and WebDAV services
//! from a remote's configuration.  Each OpenDAL builder travels with a ghost
//! model of the settings it holds, so that a built operator is known to have
//! been made from the configuration's settings.
use vstd::prelude::*;

use opendal::services::{Webdav, B2, S3};
use opendal::Operator;

use crate::backend::opt_string;
use crate::params::RemoteConfig;
use crate::text::{has_suffix, strip_end, Edge};

verus! {

broadcast use vstd::string::group_string_axioms;

#[verifier::external_type_specification]
#[verifier::external_body]
pub struct ExOperator(opendal::Operator);

#[verifier::external_type_specification]
#[verifier::external_body]
pub struct ExOpendalError(opendal::Error);

#[verifier::external_type_specification]
#[verifier::external_body]
pub struct ExB2Builder(opendal::services::B2);

#[verifier::external_type_specification]
#[verifier::external_body]
pub struct ExS3Builder(opendal::services::S3);

#[verifier::external_type_specification]
#[verifier::external_body]
pub struct ExWebdavBuilder(opendal::services::Webdav);

// ---------------------------------------------------------------------------
/// `s` as an optional setting: absent when empty.
pub open spec fn nonempty(s: Seq<char>) -> Option<Seq<char>> {
    if s.len() == 0 {
        None
    } else {
        Some(s)
    }
}

/// An optional setting whose empty value counts as absent.
pub open spec fn nonempty_opt(o: Option<Seq<char>>) -> Option<Seq<char>> {
    match o {
        Some(s) => nonempty(s),
        None => None,
    }
}

/// An OpenDAL operator together with the settings that its service was
/// built from.
pub struct ServiceOperator<M> {
    operator: Operator,
    settings: Ghost<M>,
}

impl<M> ServiceOperator<M> {
    /// The settings that the service was built from.
    pub closed spec fn settings(&self) -> M {
        self.settings@
    }

    /// The operator itself.
    pub closed spec fn inner(&self) -> Operator {
        self.operator
    }

    /// The operator, to run storage operations with.
    pub fn operator(&self) -> (r: &Operator)
        ensures
            *r == self.inner(),
    {
        &self.operator
    }

    /// The operator, giving up the record of its settings.
    pub fn into_operator(self) -> (r: Operator)
        ensures
            r == self.inner(),
    {
        self.operator
    }
}

/// What OpenDAL's Backblaze B2 builder holds: bucket, bucket ID, root,
/// application key ID and application key.
#[verifier::ext_equal]
pub struct B2Model {
    pub bucket: Seq<char>,
    pub bucket_id: Seq<char>,
    pub root: Option<Seq<char>>,
    pub application_key_id: Option<Seq<char>>,
    pub application_key: Option<Seq<char>>,
}

/// A B2 builder with nothing set.
pub open spec fn b2_unset() -> B2Model {
    B2Model {
        bucket: Seq::empty(),
        bucket_id: Seq::empty(),
        root: None,
        application_key_id: None,
        application_key: None,
    }
}

/// An OpenDAL B2 builder and the model of what it holds.
struct B2Build {
    builder: B2,
    model: Ghost<B2Model>,
}

impl B2Build {
    spec fn model(&self) -> B2Model {
        self.model@
    }
}

// Calls into OpenDAL's B2 service.  Each setter's contract states what the
// setter does to the builder's configuration, as its source shows.
/// `B2::default()`: bucket and bucket ID empty, everything else absent.
#[verifier::external_body]
fn b2_builder() -> (r: B2Build)
    ensures
        r.model() == b2_unset(),
{
    B2Build { builder: B2::default(), model: Ghost(b2_unset()) }
}

/// `B2::bucket`: sets the bucket name.
#[verifier::external_body]
fn b2_bucket(b: B2Build, bucket: &str) -> (r: B2Build)
    ensures
        r.model() == (B2Model { bucket: bucket@, ..b.model() }),
{
    B2Build { builder: b.builder.bucket(bucket), model: b.model }
}

/// `B2::bucket_id`: sets the bucket ID.
#[verifier::external_body]
fn b2_bucket_id(b: B2Build, bucket_id: &str) -> (r: B2Build)
    ensures
        r.model() == (B2Model { bucket_id: bucket_id@, ..b.model() }),
{
    B2Build { builder: b.builder.bucket_id(bucket_id), model: b.model }
}

/// `B2::root`: sets the root inside the bucket; an empty root unsets it.
#[verifier::external_body]
fn b2_root(b: B2Build, root: &str) -> (r: B2Build)
    ensures
        r.model() == (B2Model { root: nonempty(root@), ..b.model() }),
{
    B2Build { builder: b.builder.root(root), model: b.model }
}

/// `B2::application_key_id`: sets the application key ID; an empty one
/// unsets it.
#[verifier::external_body]
fn b2_application_key_id(b: B2Build, id: &str) -> (r: B2Build)
    ensures
        r.model() == (B2Model { application_key_id: nonempty(id@), ..b.model() }),
{
    B2Build { builder: b.builder.application_key_id(id), model: b.model }
}

/// `B2::application_key`: sets the application key; an empty one unsets it.
#[verifier::external_body]
fn b2_application_key(b: B2Build, key: &str) -> (r: B2Build)
    ensures
        r.model() == (B2Model { application_key: nonempty(key@), ..b.model() }),
{
    B2Build { builder: b.builder.application_key(key), model: b.model }
}

/// `Operator::new` on a B2 builder.  OpenDAL's B2 build refuses the
/// configuration exactly when the bucket or the bucket ID is empty or the
/// application key ID or key is absent; the operator it gives is built from
/// the builder's settings.
#[verifier::external_body]
fn open_b2(b: B2Build) -> (r: Result<ServiceOperator<B2Model>, ServiceRefusal>)
    ensures
        r is Ok <==> {
            &&& b.model().bucket.len() > 0
            &&& b.model().bucket_id.len() > 0
            &&& b.model().application_key_id is Some
            &&& b.model().application_key is Some
        },
        r matches Ok(o) ==> o.settings() == b.model(),
        r matches Err(x) ==> x.settings() == ServiceModel::B2(b.model()),
{
    match Operator::new(b.builder) {
        Ok(operator) => Ok(ServiceOperator { operator, settings: b.model }),
        Err(error) => Err(ServiceRefusal { error, settings: Ghost(ServiceModel::B2(b.model@)) }),
    }
}

/// What OpenDAL's S3 builder holds of the settings given here: bucket,
/// root, region, endpoint, access key ID and secret access key.
#[verifier::ext_equal]
pub struct S3Model {
    pub bucket: Seq<char>,
    pub root: Option<Seq<char>>,
    pub region: Option<Seq<char>>,
    pub endpoint: Option<Seq<char>>,
    pub access_key_id: Option<Seq<char>>,
    pub secret_access_key: Option<Seq<char>>,
}

/// An S3 builder with nothing set.
pub open spec fn s3_unset() -> S3Model {
    S3Model {
        bucket: Seq::empty(),
        root: None,
        region: None,
        endpoint: None,
        access_key_id: None,
        secret_access_key: None,
    }
}

/// `v` as a new value of a setting that an empty value leaves as it was.
pub open spec fn set_if_given(old: Option<Seq<char>>, v: Seq<char>) -> Option<Seq<char>> {
    if v.len() == 0 {
        old
    } else {
        Some(v)
    }
}

/// An OpenDAL S3 builder and the model of what it holds.
struct S3Build {
    builder: S3,
    model: Ghost<S3Model>,
}

impl S3Build {
    spec fn model(&self) -> S3Model {
        self.model@
    }
}

// Calls into OpenDAL's S3 service.
/// `S3::default()`: bucket empty, the other settings absent.
#[verifier::external_body]
fn s3_builder() -> (r: S3Build)
    ensures
        r.model() == s3_unset(),
{
    S3Build { builder: S3::default(), model: Ghost(s3_unset()) }
}

/// `S3::bucket`: sets the bucket.
#[verifier::external_body]
fn s3_bucket(b: S3Build, bucket: &str) -> (r: S3Build)
    ensures
        r.model() == (S3Model { bucket: bucket@, ..b.model() }),
{
    S3Build { builder: b.builder.bucket(bucket), model: b.model }
}

/// `S3::root`: sets the root inside the bucket; an empty root unsets it.
#[verifier::external_body]
fn s3_root(b: S3Build, root: &str) -> (r: S3Build)
    ensures
        r.model() == (S3Model { root: nonempty(root@), ..b.model() }),
{
    S3Build { builder: b.builder.root(root), model: b.model }
}

/// `S3::region`: sets the region; an empty one changes nothing.
#[verifier::external_body]
fn s3_region(b: S3Build, region: &str) -> (r: S3Build)
    ensures
        r.model() == (S3Model { region: set_if_given(b.model().region, region@), ..b.model() }),
{
    S3Build { builder: b.builder.region(region), model: b.model }
}

/// `S3::endpoint`: sets the endpoint without its trailing slashes; an empty
/// one changes nothing.
#[verifier::external_body]
fn s3_endpoint(b: S3Build, endpoint: &str) -> (r: S3Build)
    ensures
        r.model() == (S3Model {
            endpoint: if endpoint@.len() == 0 {
                b.model().endpoint
            } else {
                Some(strip_end(endpoint@, Edge::Slash))
            },
            ..b.model()
        }),
{
    S3Build { builder: b.builder.endpoint(endpoint), model: b.model }
}

/// `S3::access_key_id`: sets the access key ID; an empty one changes
/// nothing.
#[verifier::external_body]
fn s3_access_key_id(b: S3Build, id: &str) -> (r: S3Build)
    ensures
        r.model() == (S3Model {
            access_key_id: set_if_given(b.model().access_key_id, id@),
            ..b.model()
        }),
{
    S3Build { builder: b.builder.access_key_id(id), model: b.model }
}

/// `S3::secret_access_key`: sets the secret access key; an empty one changes
/// nothing.
#[verifier::external_body]
fn s3_secret_access_key(b: S3Build, key: &str) -> (r: S3Build)
    ensures
        r.model() == (S3Model {
            secret_access_key: set_if_given(b.model().secret_access_key, key@),
            ..b.model()
        }),
{
    S3Build { builder: b.builder.secret_access_key(key), model: b.model }
}

/// The suffix that marks an S3 Express One Zone directory bucket, whose
/// configuration OpenDAL checks further.
pub open spec fn s3_express_suffix() -> Seq<char> {
    "--x-s3"@
}

/// `Operator::new` on an S3 builder.  OpenDAL's S3 build refuses an empty
/// bucket before anything else.  With a non-empty bucket that is not an S3
/// Express directory bucket and a region given, nothing else it checks can
/// fail, so it builds.  Without a region it reads the region from the
/// process environment, and a directory bucket's endpoint is checked
/// further; of those cases nothing more is stated.  The operator it gives is
/// built from the builder's settings.
#[verifier::external_body]
fn open_s3(b: S3Build) -> (r: Result<ServiceOperator<S3Model>, ServiceRefusal>)
    ensures
        b.model().bucket.len() == 0 ==> r is Err,
        b.model().bucket.len() > 0 && b.model().region is Some && !has_suffix(
            b.model().bucket,
            s3_express_suffix(),
        ) ==> r is Ok,
        r matches Ok(o) ==> o.settings() == b.model(),
        r matches Err(x) ==> x.settings() == ServiceModel::S3(b.model()),
{
    match Operator::new(b.builder) {
        Ok(operator) => Ok(ServiceOperator { operator, settings: b.model }),
        Err(error) => Err(ServiceRefusal { error, settings: Ghost(ServiceModel::S3(b.model@)) }),
    }
}

/// What OpenDAL's WebDAV builder holds of the settings given here:
/// endpoint, root, user name and password.
#[verifier::ext_equal]
pub struct WebdavModel {
    pub endpoint: Option<Seq<char>>,
    pub root: Option<Seq<char>>,
    pub username: Option<Seq<char>>,
    pub password: Option<Seq<char>>,
}

/// A WebDAV builder with nothing set.
pub open spec fn webdav_unset() -> WebdavModel {
    WebdavModel { endpoint: None, root: None, username: None, password: None }
}

/// Whether OpenDAL's WebDAV build accepts a present endpoint with the given
/// user name and password: the endpoint must parse as an `http::Uri`, and
/// the credentials must make a basic-auth header.
pub uninterp spec fn webdav_accepts(
    endpoint: Seq<char>,
    username: Option<Seq<char>>,
    password: Option<Seq<char>>,
) -> bool;

/// An OpenDAL WebDAV builder and the model of what it holds.
struct WebdavBuild {
    builder: Webdav,
    model: Ghost<WebdavModel>,
}

impl WebdavBuild {
    spec fn model(&self) -> WebdavModel {
        self.model@
    }
}

// Calls into OpenDAL's WebDAV service.
/// `Webdav::default()`: every setting absent.
#[verifier::external_body]
fn webdav_builder() -> (r: WebdavBuild)
    ensures
        r.model() == webdav_unset(),
{
    WebdavBuild { builder: Webdav::default(), model: Ghost(webdav_unset()) }
}

/// `Webdav::endpoint`: sets the server's endpoint; an empty one unsets it.
#[verifier::external_body]
fn webdav_endpoint(b: WebdavBuild, endpoint: &str) -> (r: WebdavBuild)
    ensures
        r.model() == (WebdavModel { endpoint: nonempty(endpoint@), ..b.model() }),
{
    WebdavBuild { builder: b.builder.endpoint(endpoint), model: b.model }
}

/// `Webdav::root`: sets the root on the server; an empty one unsets it.
#[verifier::external_body]
fn webdav_root(b: WebdavBuild, root: &str) -> (r: WebdavBuild)
    ensures
        r.model() == (WebdavModel { root: nonempty(root@), ..b.model() }),
{
    WebdavBuild { builder: b.builder.root(root), model: b.model }
}

/// `Webdav::username`: sets the user name of HTTP basic auth; an empty one
/// changes nothing.
#[verifier::external_body]
fn webdav_username(b: WebdavBuild, username: &str) -> (r: WebdavBuild)
    ensures
        r.model() == (WebdavModel {
            username: set_if_given(b.model().username, username@),
            ..b.model()
        }),
{
    WebdavBuild { builder: b.builder.username(username), model: b.model }
}

/// `Webdav::password`: sets the password of HTTP basic auth; an empty one
/// changes nothing.
#[verifier::external_body]
fn webdav_password(b: WebdavBuild, password: &str) -> (r: WebdavBuild)
    ensures
        r.model() == (WebdavModel {
            password: set_if_given(b.model().password, password@),
            ..b.model()
        }),
{
    WebdavBuild { builder: b.builder.password(password), model: b.model }
}

/// `Operator::new` on a WebDAV builder.  OpenDAL's WebDAV build refuses an
/// absent endpoint, and otherwise accepts the configuration exactly when
/// [`webdav_accepts`] holds of its endpoint, user name and password; the
/// operator it gives is built from the builder's settings.
#[verifier::external_body]
fn open_webdav(b: WebdavBuild) -> (r: Result<ServiceOperator<WebdavModel>, ServiceRefusal>)
    ensures
        r is Ok <==> (b.model().endpoint matches Some(e) && webdav_accepts(
            e,
            b.model().username,
            b.model().password,
        )),
        r matches Ok(o) ==> o.settings() == b.model(),
        r matches Err(x) ==> x.settings() == ServiceModel::Webdav(b.model()),
{
    match Operator::new(b.builder) {
        Ok(operator) => Ok(ServiceOperator { operator, settings: b.model }),
        Err(error) => Err(ServiceRefusal { error, settings: Ghost(ServiceModel::Webdav(b.model@)) }),
    }
}

/// `opendal::Error`'s `Display` text.
#[verifier::external_body]
fn opendal_error_text(e: &opendal::Error) -> String {
    e.to_string()
}

// ---------------------------------------------------------------------------
/// A parameter that a service needs and the configuration lacks.
#[derive(Clone, Copy, PartialEq, Eq, Structural, Debug)]
pub enum MissingParam {
    B2Bucket,
    B2BucketId,
    B2ApplicationKeyId,
    B2ApplicationKey,
    S3Bucket,
    WebdavEndpoint,
}

impl MissingParam {
    /// The text shown to the user.
    pub open spec fn message_spec(self) -> Seq<char> {
        match self {
            MissingParam::B2Bucket => "B2 requires a bucket name, e.g. opendal://b2/my-bucket/path or OPENDAL_B2_BUCKET.\nExample: export OPENDAL_B2_BUCKET=my-git-bucket"@,
            MissingParam::B2BucketId => "B2 requires a bucket ID (OPENDAL_B2_BUCKET_ID).\nFind it in the Backblaze console under Buckets \u{2192} your bucket \u{2192} Bucket ID.\nExample: export OPENDAL_B2_BUCKET_ID=e73ede9969c64867a77587cb"@,
            MissingParam::B2ApplicationKeyId => "B2 requires an Application Key ID (OPENDAL_B2_APPLICATION_KEY_ID).\nGenerate one in the Backblaze console under App Keys.\nExample: export OPENDAL_B2_APPLICATION_KEY_ID=000abc123..."@,
            MissingParam::B2ApplicationKey => "B2 requires an Application Key (OPENDAL_B2_APPLICATION_KEY).\nGenerate one in the Backblaze console under App Keys.\nExample: export OPENDAL_B2_APPLICATION_KEY=K0007xyz..."@,
            MissingParam::S3Bucket => "S3 requires a bucket, e.g. opendal://s3/my-bucket/path or OPENDAL_S3_BUCKET.\nExample: export OPENDAL_S3_BUCKET=my-git-bucket"@,
            MissingParam::WebdavEndpoint => "WebDAV requires an endpoint, e.g. OPENDAL_WEBDAV_ENDPOINT=https://cloud.example.com\nThe repository path comes from the URL: opendal://webdav/remote.php/dav/files/<user>/repos/myrepo"@,
        }
    }

    /// The text shown to the user.
    pub fn message(self) -> (r: String)
        ensures
            r@ == self.message_spec(),
    {
        match self {
            MissingParam::B2Bucket => String::from_str(
                "B2 requires a bucket name, e.g. opendal://b2/my-bucket/path or OPENDAL_B2_BUCKET.\nExample: export OPENDAL_B2_BUCKET=my-git-bucket",
            ),
            MissingParam::B2BucketId => String::from_str(
                "B2 requires a bucket ID (OPENDAL_B2_BUCKET_ID).\nFind it in the Backblaze console under Buckets \u{2192} your bucket \u{2192} Bucket ID.\nExample: export OPENDAL_B2_BUCKET_ID=e73ede9969c64867a77587cb",
            ),
            MissingParam::B2ApplicationKeyId => String::from_str(
                "B2 requires an Application Key ID (OPENDAL_B2_APPLICATION_KEY_ID).\nGenerate one in the Backblaze console under App Keys.\nExample: export OPENDAL_B2_APPLICATION_KEY_ID=000abc123...",
            ),
            MissingParam::B2ApplicationKey => String::from_str(
                "B2 requires an Application Key (OPENDAL_B2_APPLICATION_KEY).\nGenerate one in the Backblaze console under App Keys.\nExample: export OPENDAL_B2_APPLICATION_KEY=K0007xyz...",
            ),
            MissingParam::S3Bucket => String::from_str(
                "S3 requires a bucket, e.g. opendal://s3/my-bucket/path or OPENDAL_S3_BUCKET.\nExample: export OPENDAL_S3_BUCKET=my-git-bucket",
            ),
            MissingParam::WebdavEndpoint => String::from_str(
                "WebDAV requires an endpoint, e.g. OPENDAL_WEBDAV_ENDPOINT=https://cloud.example.com\nThe repository path comes from the URL: opendal://webdav/remote.php/dav/files/<user>/repos/myrepo",
            ),
        }
    }
}

/// The settings of a builder of one of the services.
pub enum ServiceModel {
    B2(B2Model),
    S3(S3Model),
    Webdav(WebdavModel),
}

/// OpenDAL's refusal of a builder, together with the settings of the
/// builder that it refused.
pub struct ServiceRefusal {
    error: opendal::Error,
    settings: Ghost<ServiceModel>,
}

impl ServiceRefusal {
    /// The settings of the refused builder.
    pub closed spec fn settings(&self) -> ServiceModel {
        self.settings@
    }
}

/// Why an operator could not be built.
pub enum BuildError {
    /// The configuration lacks a parameter that the service needs.
    Missing(MissingParam),
    /// OpenDAL refused the configuration.
    Service(ServiceRefusal),
}

impl BuildError {
    /// The text shown to the user; for a refusal by OpenDAL, its own text.
    pub fn message(&self) -> (r: String)
        ensures
            self matches BuildError::Missing(m) ==> r@ == m.message_spec(),
    {
        match self {
            BuildError::Missing(m) => m.message(),
            BuildError::Service(x) => opendal_error_text(&x.error),
        }
    }
}

/// The value of an optional parameter.
pub open spec fn param(cfg: RemoteConfig, key: Seq<char>) -> Option<Seq<char>> {
    if cfg.params@.contains_key(key) {
        Some(cfg.params@[key])
    } else {
        None
    }
}

/// What a Backblaze B2 operator is built from.
#[derive(Debug)]
pub struct B2Settings {
    pub bucket: String,
    pub bucket_id: String,
    pub root: String,
    pub application_key_id: String,
    pub application_key: String,
}

/// The view of [`B2Settings`]: bucket, bucket ID, root, key ID and key.
pub type B2SettingsView = (Seq<char>, Seq<char>, Seq<char>, Seq<char>, Seq<char>);

impl View for B2Settings {
    type V = B2SettingsView;

    open spec fn view(&self) -> B2SettingsView {
        (self.bucket@, self.bucket_id@, self.root@, self.application_key_id@, self.application_key@)
    }
}

/// The B2 settings of a configuration: the parameters `bucket`,
/// `bucket-id`, `application-key-id` and `application-key`, all required and
/// asked for in that order, and the configuration's root.
pub open spec fn b2_settings_spec(cfg: RemoteConfig) -> Result<B2SettingsView, MissingParam> {
    match (
        param(cfg, "bucket"@),
        param(cfg, "bucket-id"@),
        param(cfg, "application-key-id"@),
        param(cfg, "application-key"@),
    ) {
        (None, _, _, _) => Err(MissingParam::B2Bucket),
        (Some(_), None, _, _) => Err(MissingParam::B2BucketId),
        (Some(_), Some(_), None, _) => Err(MissingParam::B2ApplicationKeyId),
        (Some(_), Some(_), Some(_), None) => Err(MissingParam::B2ApplicationKey),
        (Some(b), Some(i), Some(k), Some(s)) => Ok((b, i, cfg.root@, k, s)),
    }
}

/// Looks up the parameter `key` as an owned string.
fn lookup(cfg: &RemoteConfig, key: &str) -> (r: Option<String>)
    ensures
        opt_string(r) == param(*cfg, key@),
{
    match cfg.params.get(key) {
        Some(v) => Some(v.clone()),
        None => None,
    }
}

/// The settings of a Backblaze B2 operator for the configuration.
pub fn b2_settings(cfg: &RemoteConfig) -> (r: Result<B2Settings, MissingParam>)
    ensures
        match b2_settings_spec(*cfg) {
            Ok(v) => r matches Ok(s) && s@ == v,
            Err(m) => r == Err::<B2Settings, MissingParam>(m),
        },
{
    let bucket = match lookup(cfg, "bucket") {
        Some(v) => v,
        None => {
            return Err(MissingParam::B2Bucket);
        },
    };
    let bucket_id = match lookup(cfg, "bucket-id") {
        Some(v) => v,
        None => {
            return Err(MissingParam::B2BucketId);
        },
    };
    let application_key_id = match lookup(cfg, "application-key-id") {
        Some(v) => v,
        None => {
            return Err(MissingParam::B2ApplicationKeyId);
        },
    };
    let application_key = match lookup(cfg, "application-key") {
        Some(v) => v,
        None => {
            return Err(MissingParam::B2ApplicationKey);
        },
    };
    Ok(B2Settings { bucket, bucket_id, root: cfg.root.clone(), application_key_id, application_key })
}

/// What an S3 operator is built from.
#[derive(Debug)]
pub struct S3Settings {
    pub bucket: String,
    pub root: String,
    pub region: Option<String>,
    pub endpoint: Option<String>,
    pub access_key_id: Option<String>,
    pub secret_access_key: Option<String>,
}

/// The view of [`S3Settings`]: bucket, root, region, endpoint, access key ID
/// and secret access key.
pub type S3SettingsView = (
    Seq<char>,
    Seq<char>,
    Option<Seq<char>>,
    Option<Seq<char>>,
    Option<Seq<char>>,
    Option<Seq<char>>,
);

impl View for S3Settings {
    type V = S3SettingsView;

    open spec fn view(&self) -> S3SettingsView {
        (
            self.bucket@,
            self.root@,
            opt_string(self.region),
            opt_string(self.endpoint),
            opt_string(self.access_key_id),
            opt_string(self.secret_access_key),
        )
    }
}

/// The S3 settings of a configuration: the required parameter `bucket`, the
/// optional `region`, `endpoint`, `access-key-id` and `secret-access-key`,
/// and the configuration's root.
pub open spec fn s3_settings_spec(cfg: RemoteConfig) -> Result<S3SettingsView, MissingParam> {
    match param(cfg, "bucket"@) {
        None => Err(MissingParam::S3Bucket),
        Some(b) => Ok(
            (
                b,
                cfg.root@,
                param(cfg, "region"@),
                param(cfg, "endpoint"@),
                param(cfg, "access-key-id"@),
                param(cfg, "secret-access-key"@),
            ),
        ),
    }
}

/// The settings of an S3 operator for the configuration.
pub fn s3_settings(cfg: &RemoteConfig) -> (r: Result<S3Settings, MissingParam>)
    ensures
        match s3_settings_spec(*cfg) {
            Ok(v) => r matches Ok(s) && s@ == v,
            Err(m) => r == Err::<S3Settings, MissingParam>(m),
        },
{
    let bucket = match lookup(cfg, "bucket") {
        Some(v) => v,
        None => {
            return Err(MissingParam::S3Bucket);
        },
    };
    Ok(
        S3Settings {
            bucket,
            root: cfg.root.clone(),
            region: lookup(cfg, "region"),
            endpoint: lookup(cfg, "endpoint"),
            access_key_id: lookup(cfg, "access-key-id"),
            secret_access_key: lookup(cfg, "secret-access-key"),
        },
    )
}

/// What a WebDAV operator is built from.
#[derive(Debug)]
pub struct WebdavSettings {
    pub endpoint: String,
    pub root: String,
    pub username: Option<String>,
    pub password: Option<String>,
}

/// The view of [`WebdavSettings`]: endpoint, root, user name and password.
pub type WebdavSettingsView = (Seq<char>, Seq<char>, Option<Seq<char>>, Option<Seq<char>>);

impl View for WebdavSettings {
    type V = WebdavSettingsView;

    open spec fn view(&self) -> WebdavSettingsView {
        (self.endpoint@, self.root@, opt_string(self.username), opt_string(self.password))
    }
}

/// The WebDAV settings of a configuration: the required parameter
/// `endpoint`, the optional `username` and `password`, and the
/// configuration's root.
pub open spec fn webdav_settings_spec(cfg: RemoteConfig) -> Result<WebdavSettingsView, MissingParam> {
    match param(cfg, "endpoint"@) {
        None => Err(MissingParam::WebdavEndpoint),
        Some(e) => Ok((e, cfg.root@, param(cfg, "username"@), param(cfg, "password"@))),
    }
}

/// The settings of a WebDAV operator for the configuration.
pub fn webdav_settings(cfg: &RemoteConfig) -> (r: Result<WebdavSettings, MissingParam>)
    ensures
        match webdav_settings_spec(*cfg) {
            Ok(v) => r matches Ok(s) && s@ == v,
            Err(m) => r == Err::<WebdavSettings, MissingParam>(m),
        },
{
    let endpoint = match lookup(cfg, "endpoint") {
        Some(v) => v,
        None => {
            return Err(MissingParam::WebdavEndpoint);
        },
    };
    Ok(
        WebdavSettings {
            endpoint,
            root: cfg.root.clone(),
            username: lookup(cfg, "username"),
            password: lookup(cfg, "password"),
        },
    )
}

/// The outcome of a build, given what OpenDAL answered: its operator, or
/// its refusal as a [`BuildError::Service`].
pub fn finish_build<M>(opened: Result<ServiceOperator<M>, ServiceRefusal>) -> (r: Result<
    ServiceOperator<M>,
    BuildError,
>)
    ensures
        match opened {
            Ok(o) => r == Ok::<ServiceOperator<M>, BuildError>(o),
            Err(e) => r == Err::<ServiceOperator<M>, BuildError>(BuildError::Service(e)),
        },
{
    match opened {
        Ok(op) => Ok(op),
        Err(e) => Err(BuildError::Service(e)),
    }
}

/// What the B2 builder holds once the settings `s` are given to it.
pub open spec fn b2_model_of(s: B2SettingsView) -> B2Model {
    B2Model {
        bucket: s.0,
        bucket_id: s.1,
        root: nonempty(s.2),
        application_key_id: nonempty(s.3),
        application_key: nonempty(s.4),
    }
}

/// Builds a Backblaze B2 operator: bucket, bucket ID, root, application key
/// ID and application key, in that order, from [`b2_settings`].  OpenDAL
/// accepts the settings exactly when none of the bucket, bucket ID, key ID
/// and key is empty.
pub fn build_b2(cfg: &RemoteConfig) -> (r: Result<ServiceOperator<B2Model>, BuildError>)
    ensures
        match b2_settings_spec(*cfg) {
            Err(m) => r matches Err(BuildError::Missing(x)) && x == m,
            Ok(s) => {
                &&& r is Ok <==> (s.0.len() > 0 && s.1.len() > 0 && s.3.len() > 0 && s.4.len() > 0)
                &&& r matches Ok(o) ==> o.settings() == b2_model_of(s)
                &&& r matches Err(BuildError::Service(x)) ==> x.settings() == ServiceModel::B2(
                    b2_model_of(s),
                )
                &&& r is Ok || r matches Err(BuildError::Service(_))
            },
        },
{
    let s = match b2_settings(cfg) {
        Ok(s) => s,
        Err(m) => {
            return Err(BuildError::Missing(m));
        },
    };
    let mut b = b2_builder();
    b = b2_bucket(b, s.bucket.as_str());
    b = b2_bucket_id(b, s.bucket_id.as_str());
    b = b2_root(b, s.root.as_str());
    b = b2_application_key_id(b, s.application_key_id.as_str());
    b = b2_application_key(b, s.application_key.as_str());
    finish_build(open_b2(b))
}

/// The endpoint that the S3 builder keeps of an optional setting: absent
/// when empty, else without its trailing slashes.
pub open spec fn s3_endpoint_of(o: Option<Seq<char>>) -> Option<Seq<char>> {
    match o {
        Some(e) => if e.len() == 0 {
            None
        } else {
            Some(strip_end(e, Edge::Slash))
        },
        None => None,
    }
}

/// What the S3 builder holds once the settings `s` are given to it.
pub open spec fn s3_model_of(s: S3SettingsView) -> S3Model {
    S3Model {
        bucket: s.0,
        root: nonempty(s.1),
        region: nonempty_opt(s.2),
        endpoint: s3_endpoint_of(s.3),
        access_key_id: nonempty_opt(s.4),
        secret_access_key: nonempty_opt(s.5),
    }
}

/// Builds an S3 operator: bucket and root, then region, endpoint, access key
/// ID and secret access key where given, from [`s3_settings`].  OpenDAL
/// refuses an empty bucket, and builds from a non-empty bucket that is not
/// an S3 Express directory bucket together with a non-empty region; in the
/// other cases its answer depends on the process environment.
pub fn build_s3(cfg: &RemoteConfig) -> (r: Result<ServiceOperator<S3Model>, BuildError>)
    ensures
        match s3_settings_spec(*cfg) {
            Err(m) => r matches Err(BuildError::Missing(x)) && x == m,
            Ok(s) => {
                &&& s.0.len() == 0 ==> r is Err
                &&& s.0.len() > 0 && nonempty_opt(s.2) is Some && !has_suffix(
                    s.0,
                    s3_express_suffix(),
                ) ==> r is Ok
                &&& r matches Ok(o) ==> o.settings() == s3_model_of(s)
                &&& r matches Err(BuildError::Service(x)) ==> x.settings() == ServiceModel::S3(
                    s3_model_of(s),
                )
                &&& r is Ok || r matches Err(BuildError::Service(_))
            },
        },
{
    let s = match s3_settings(cfg) {
        Ok(s) => s,
        Err(m) => {
            return Err(BuildError::Missing(m));
        },
    };
    let mut b = s3_builder();
    b = s3_bucket(b, s.bucket.as_str());
    b = s3_root(b, s.root.as_str());
    if let Some(v) = &s.region {
        b = s3_region(b, v.as_str());
    }
    if let Some(v) = &s.endpoint {
        b = s3_endpoint(b, v.as_str());
    }
    if let Some(v) = &s.access_key_id {
        b = s3_access_key_id(b, v.as_str());
    }
    if let Some(v) = &s.secret_access_key {
        b = s3_secret_access_key(b, v.as_str());
    }
    finish_build(open_s3(b))
}

/// What the WebDAV builder holds once the settings `s` are given to it.
pub open spec fn webdav_model_of(s: WebdavSettingsView) -> WebdavModel {
    WebdavModel {
        endpoint: nonempty(s.0),
        root: nonempty(s.1),
        username: nonempty_opt(s.2),
        password: nonempty_opt(s.3),
    }
}

/// Builds a WebDAV operator: endpoint and root, then user name and password
/// where given, from [`webdav_settings`].  OpenDAL accepts the settings
/// exactly when the endpoint is not empty and [`webdav_accepts`] holds of
/// it and of the user name and password that are not empty.
pub fn build_webdav(cfg: &RemoteConfig) -> (r: Result<ServiceOperator<WebdavModel>, BuildError>)
    ensures
        match webdav_settings_spec(*cfg) {
            Err(m) => r matches Err(BuildError::Missing(x)) && x == m,
            Ok(s) => {
                &&& r is Ok <==> (s.0.len() > 0 && webdav_accepts(
                    s.0,
                    nonempty_opt(s.2),
                    nonempty_opt(s.3),
                ))
                &&& r matches Ok(o) ==> o.settings() == webdav_model_of(s)
                &&& r matches Err(BuildError::Service(x)) ==> x.settings() == ServiceModel::Webdav(
                    webdav_model_of(s),
                )
                &&& r is Ok || r matches Err(BuildError::Service(_))
            },
        },
{
    let s = match webdav_settings(cfg) {
        Ok(s) => s,
        Err(m) => {
            return Err(BuildError::Missing(m));
        },
    };
    let mut b = webdav_builder();
    b = webdav_endpoint(b, s.endpoint.as_str());
    b = webdav_root(b, s.root.as_str());
    if let Some(v) = &s.username {
        b = webdav_username(b, v.as_str());
    }
    if let Some(v) = &s.password {
        b = webdav_password(b, v.as_str());
    }
    finish_build(open_webdav(b))
}

} // verus!
