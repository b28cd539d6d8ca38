use git_opendal::backend::Backend;
use git_opendal::error::UrlError;
use git_opendal::remote::{RemoteSpec, Target};

#[test]
fn builds_and_parses_bucketed_urls() {
    let spec = RemoteSpec::new(Backend::S3, Some("bucket".into()), "repos/example").unwrap();
    assert_eq!(spec.url(), "opendal://s3/bucket/repos/example");
    assert_eq!(RemoteSpec::parse_url(&spec.url()).unwrap(), spec);
}

#[test]
fn fs_urls_keep_absolute_paths() {
    let spec = RemoteSpec::new(Backend::Fs, None, "/tmp/repos/example").unwrap();
    assert_eq!(spec.url(), "opendal://fs/tmp/repos/example");
    assert_eq!(spec.local_fs_path(), Some("/tmp/repos/example".to_string()));
}

#[test]
fn bucketed_backends_require_a_bucket() {
    assert!(RemoteSpec::new(Backend::Gcs, None, "repos/example").is_err());
}

#[test]
fn new_cleans_path_and_bucket() {
    let spec = RemoteSpec::new(Backend::Azblob, Some("  /box/ ".into()), " //a/b// ").unwrap();
    assert_eq!(spec.path(), "a/b");
    assert_eq!(spec.bucket(), &Some("box".to_string()));
    assert_eq!(spec.url(), "opendal://azblob/box/a/b");
    assert_eq!(spec.local_fs_path(), None);
}

#[test]
fn new_reports_each_error() {
    let e = RemoteSpec::new(Backend::Fs, None, " // ").unwrap_err();
    assert_eq!(e, UrlError::EmptyPath);
    assert_eq!(e.message(), "--path must not be empty");

    let e = RemoteSpec::new(Backend::S3, Some(" / ".into()), "x").unwrap_err();
    assert_eq!(e, UrlError::MissingBucket(Backend::S3));
    assert_eq!(e.message(), "backend 's3' needs --bucket <bucket>");

    let e = RemoteSpec::new(Backend::Azblob, None, "x").unwrap_err();
    assert_eq!(e.message(), "backend 'azblob' needs --bucket <container>");

    let e = RemoteSpec::new(Backend::Gdrive, Some("b".into()), "x").unwrap_err();
    assert_eq!(e, UrlError::UnexpectedBucket(Backend::Gdrive));
    assert_eq!(e.message(), "--bucket is not used with backend 'gdrive'");
}

#[test]
fn empty_path_is_checked_before_the_bucket() {
    let e = RemoteSpec::new(Backend::S3, None, "/").unwrap_err();
    assert_eq!(e, UrlError::EmptyPath);
}

#[test]
fn from_target_matches_new() {
    let t = Target { backend: Backend::Gcs, path: "/r/".to_string(), bucket: Some("b".to_string()) };
    let spec = RemoteSpec::from_target(&t).unwrap();
    assert_eq!(spec.url(), "opendal://gcs/b/r");
}

#[test]
fn parse_url_reads_each_backend() {
    let spec = RemoteSpec::parse_url("  opendal://fs/tmp/x  ").unwrap();
    assert_eq!(spec.backend(), Backend::Fs);
    assert_eq!(spec.bucket(), &None);
    assert_eq!(spec.path(), "tmp/x");

    let spec = RemoteSpec::parse_url("opendal://gdrive/My Drive/repo").unwrap();
    assert_eq!(spec.backend(), Backend::Gdrive);
    assert_eq!(spec.path(), "My Drive/repo");

    let spec = RemoteSpec::parse_url("opendal://azblob/cont/deep/path/").unwrap();
    assert_eq!(spec.bucket(), &Some("cont".to_string()));
    assert_eq!(spec.path(), "deep/path");
}

#[test]
fn parse_url_reports_each_error() {
    let e = RemoteSpec::parse_url(" https://example.com/x ").unwrap_err();
    assert_eq!(e, UrlError::NotOpendalUrl("https://example.com/x".to_string()));
    assert_eq!(
        e.message(),
        "'https://example.com/x' is not an opendal URL; expected opendal://<backend>/<path>"
    );

    let e = RemoteSpec::parse_url("opendal://s3").unwrap_err();
    assert_eq!(e.message(), "'opendal://s3' is missing a path after the backend");

    let e = RemoteSpec::parse_url("opendal://ftp/x").unwrap_err();
    assert_eq!(e, UrlError::UnsupportedBackend("ftp".to_string()));
    assert_eq!(e.message(), "unsupported backend 'ftp'; use fs, s3, gcs, azblob, or gdrive");

    let e = RemoteSpec::parse_url("opendal://s3/bucket").unwrap_err();
    assert_eq!(
        e.message(),
        "'opendal://s3/bucket' is missing a repository path after its bucket or container"
    );

    let e = RemoteSpec::parse_url("opendal://s3/bucket/").unwrap_err();
    assert_eq!(e, UrlError::EmptyPath);

    let e = RemoteSpec::parse_url("opendal://S3/bucket/x").unwrap_err();
    assert_eq!(e, UrlError::UnsupportedBackend("S3".to_string()));
}

#[test]
fn url_round_trip_on_every_backend() {
    for b in Backend::all() {
        let bucket = if b.bucket_label().is_some() { Some("bk".to_string()) } else { None };
        let spec = RemoteSpec::new(b, bucket, "team/repo.git").unwrap();
        assert_eq!(RemoteSpec::parse_url(&spec.url()).unwrap(), spec);
    }
}

#[test]
fn url_round_trip_fails_for_a_bucket_with_a_slash() {
    let spec = RemoteSpec::new(Backend::S3, Some("a/b".into()), "p").unwrap();
    assert_eq!(spec.url(), "opendal://s3/a/b/p");
    let back = RemoteSpec::parse_url(&spec.url()).unwrap();
    assert_eq!(back.bucket(), &Some("a".to_string()));
    assert_eq!(back.path(), "b/p");
}

#[test]
fn new_again_from_its_own_output_is_the_same() {
    let spec = RemoteSpec::new(Backend::Gcs, Some(" /b/ ".into()), "//r/x//").unwrap();
    let again = RemoteSpec::new(spec.backend(), spec.bucket().clone(), spec.path()).unwrap();
    assert_eq!(again, spec);
}

#[test]
fn parsed_remotes_have_the_url_shape() {
    for url in ["  opendal://s3/my-bucket//repos/a/  ", "opendal://fs/srv/git/r", "opendal://gcs/b/ x /"] {
        let s = RemoteSpec::parse_url(url).unwrap();
        let head = format!("opendal://{}/", s.backend().as_str());
        assert!(url.trim().starts_with(&head));
        assert_eq!(s.bucket().is_some(), s.backend().bucket_label().is_some());
        if let Some(b) = s.bucket() {
            assert!(!b.is_empty() && !b.contains('/'));
        }
        assert!(!s.path().is_empty() && !s.path().starts_with('/') && !s.path().ends_with('/'));
    }
}
