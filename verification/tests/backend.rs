use git_opendal::backend::Backend;
use git_opendal::error::UrlError;

#[test]
fn names_parse_back() {
    for b in Backend::all() {
        assert_eq!(Backend::parse(b.as_str()).unwrap(), b);
    }
    assert_eq!(Backend::all().len(), 5);
}

#[test]
fn parse_refuses_unknown_names() {
    let e = Backend::parse("s3 ").unwrap_err();
    assert_eq!(e, UrlError::UnsupportedBackend("s3 ".to_string()));
    assert!(Backend::parse("").is_err());
}

#[test]
fn labels_and_hints() {
    assert_eq!(Backend::S3.bucket_label(), Some("bucket"));
    assert_eq!(Backend::Gcs.bucket_label(), Some("bucket"));
    assert_eq!(Backend::Azblob.bucket_label(), Some("container"));
    assert_eq!(Backend::Fs.bucket_label(), None);
    assert_eq!(Backend::Gdrive.bucket_label(), None);
    assert_eq!(Backend::Fs.credential_hint(), None);
    assert_eq!(
        Backend::Gcs.credential_hint(),
        Some("set OPENDAL_GCS_CREDENTIAL_PATH (or OPENDAL_GCS_CREDENTIAL)")
    );
}

#[test]
fn credential_variables() {
    assert!(Backend::Fs.credential_vars().is_empty());
    assert_eq!(
        Backend::S3.credential_vars(),
        vec!["OPENDAL_S3_ACCESS_KEY_ID", "OPENDAL_S3_SECRET_ACCESS_KEY"]
    );
    assert_eq!(Backend::Gdrive.credential_vars().len(), 4);
}

#[test]
fn credentials_presence() {
    assert!(Backend::Fs.credentials_present(&vec![]));
    assert!(!Backend::S3.credentials_present(&vec![false, false]));
    assert!(Backend::S3.credentials_present(&vec![false, true]));
    assert!(!Backend::S3.credentials_present(&vec![]));
}

#[test]
fn schema_shapes() {
    let s = Backend::S3.schema();
    assert_eq!(s.backend, "s3");
    assert_eq!(s.url_format, "opendal://s3/<bucket>/<path>");
    assert_eq!(s.bucket_label, Some("bucket".to_string()));
    assert_eq!(s.credential_variables.len(), 2);
    let s = Backend::Fs.schema();
    assert_eq!(s.url_format, "opendal://fs/<path>");
    assert_eq!(s.bucket_label, None);
    assert!(s.credential_variables.is_empty());
    assert_eq!(s.credential_hint, None);
    assert_eq!(Backend::Azblob.schema().url_format, "opendal://azblob/<container>/<path>");
}
