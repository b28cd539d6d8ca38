use git_opendal::operator::{
    b2_settings, build_b2, build_s3, build_webdav, s3_settings, webdav_settings, BuildError,
    MissingParam,
};
use git_opendal::params::{Params, RemoteConfig};

fn base_params() -> Params {
    let mut p = Params::new();
    p.insert("bucket".to_string(), "my-bucket".to_string());
    p.insert("bucket-id".to_string(), "e73ede9969c64867a77587cb".to_string());
    p.insert("application-key-id".to_string(), "000abc".to_string());
    p.insert("application-key".to_string(), "K0007xyz".to_string());
    p
}

#[test]
fn test_build_b2_missing_bucket() {
    let cfg = RemoteConfig {
        scheme: "b2".to_string(),
        root: "/".to_string(),
        params: Params::new(),
    };
    let res = build_b2(&cfg);
    assert!(res.is_err());
    assert!(res.err().unwrap().message().contains("bucket name"));
}

#[test]
fn test_build_b2_missing_bucket_id() {
    let mut params = Params::new();
    params.insert("bucket".to_string(), "my-bucket".to_string());
    let cfg = RemoteConfig {
        scheme: "b2".to_string(),
        root: "/".to_string(),
        params,
    };
    let res = build_b2(&cfg);
    assert!(res.is_err());
    assert!(res.err().unwrap().message().contains("bucket ID"));
}

#[test]
fn test_build_b2_missing_application_key_id() {
    let mut params = Params::new();
    params.insert("bucket".to_string(), "my-bucket".to_string());
    params.insert("bucket-id".to_string(), "e73ede9969c64867a77587cb".to_string());
    let cfg = RemoteConfig {
        scheme: "b2".to_string(),
        root: "/".to_string(),
        params,
    };
    let res = build_b2(&cfg);
    assert!(res.is_err());
    assert!(res.err().unwrap().message().contains("Application Key ID"));
}

#[test]
fn test_build_b2_missing_application_key() {
    let mut params = Params::new();
    params.insert("bucket".to_string(), "my-bucket".to_string());
    params.insert("bucket-id".to_string(), "e73ede9969c64867a77587cb".to_string());
    params.insert("application-key-id".to_string(), "000abc".to_string());
    let cfg = RemoteConfig {
        scheme: "b2".to_string(),
        root: "/".to_string(),
        params,
    };
    let res = build_b2(&cfg);
    assert!(res.is_err());
    assert!(res.err().unwrap().message().contains("Application Key"));
}

#[test]
fn test_build_b2_all_params() {
    let cfg = RemoteConfig {
        scheme: "b2".to_string(),
        root: "/repos".to_string(),
        params: base_params(),
    };
    assert!(build_b2(&cfg).is_ok());
}

#[test]
fn test_build_s3_missing_bucket() {
    let cfg = RemoteConfig {
        scheme: "s3".to_string(),
        root: "/path".to_string(),
        params: Params::new(),
    };

    let res = build_s3(&cfg);
    assert!(res.is_err());
    let err_msg = res.err().unwrap().message();
    assert!(
        err_msg.contains("S3 requires a bucket"),
        "Expected error message to contain 'S3 requires a bucket', got: {}",
        err_msg
    );
}

#[test]
fn test_build_s3_minimal() {
    let mut params = Params::new();
    params.insert("bucket".to_string(), "my-bucket".to_string());
    params.insert("region".to_string(), "us-east-1".to_string());

    let cfg = RemoteConfig {
        scheme: "s3".to_string(),
        root: "/path".to_string(),
        params,
    };

    let op = build_s3(&cfg);
    assert!(
        op.is_ok(),
        "Expected build_s3 to succeed with bucket and region provided"
    );
}

#[test]
fn test_build_s3_with_all_params() {
    let mut params = Params::new();
    params.insert("bucket".to_string(), "my-bucket".to_string());
    params.insert("region".to_string(), "us-west-2".to_string());
    params.insert(
        "endpoint".to_string(),
        "https://s3.us-west-2.amazonaws.com".to_string(),
    );
    params.insert("access-key-id".to_string(), "test-key-id".to_string());
    params.insert(
        "secret-access-key".to_string(),
        "test-secret-key".to_string(),
    );

    let cfg = RemoteConfig {
        scheme: "s3".to_string(),
        root: "/path".to_string(),
        params,
    };

    let op = build_s3(&cfg);
    assert!(
        op.is_ok(),
        "Expected build_s3 to succeed with all parameters provided"
    );
}

#[test]
fn test_build_webdav_missing_endpoint() {
    let cfg = RemoteConfig {
        scheme: "webdav".to_string(),
        root: "/remote.php/dav/files/user/repo".to_string(),
        params: Params::new(),
    };

    let res = build_webdav(&cfg);
    assert!(res.is_err());
    let err_msg = res.err().unwrap().message();
    assert!(err_msg.contains("WebDAV requires an endpoint"));
}

#[test]
fn test_build_webdav_minimal() {
    let mut params = Params::new();
    params.insert(
        "endpoint".to_string(),
        "https://cloud.example.com".to_string(),
    );

    let cfg = RemoteConfig {
        scheme: "webdav".to_string(),
        root: "/remote.php/dav/files/user/repo".to_string(),
        params,
    };

    let op = build_webdav(&cfg);
    assert!(op.is_ok());
}

#[test]
fn test_build_webdav_with_all_params() {
    let mut params = Params::new();
    params.insert(
        "endpoint".to_string(),
        "https://cloud.example.com".to_string(),
    );
    params.insert("username".to_string(), "testuser".to_string());
    params.insert("password".to_string(), "testpass".to_string());

    let cfg = RemoteConfig {
        scheme: "webdav".to_string(),
        root: "/remote.php/dav/files/user/repo".to_string(),
        params,
    };

    let op = build_webdav(&cfg);
    assert!(op.is_ok());
}

#[test]
fn b2_refused_by_the_service_for_an_empty_bucket() {
    let mut params = base_params();
    params.insert("bucket".to_string(), String::new());
    let cfg = RemoteConfig { scheme: "b2".to_string(), root: "/".to_string(), params };
    assert!(matches!(build_b2(&cfg), Err(BuildError::Service(_))));
}

#[test]
fn settings_are_read_from_the_parameters() {
    let cfg = RemoteConfig { scheme: "b2".to_string(), root: "/repos".to_string(), params: base_params() };
    let s = b2_settings(&cfg).unwrap();
    assert_eq!(s.bucket, "my-bucket");
    assert_eq!(s.bucket_id, "e73ede9969c64867a77587cb");
    assert_eq!(s.root, "/repos");
    assert_eq!(s.application_key_id, "000abc");
    assert_eq!(s.application_key, "K0007xyz");

    let mut p = Params::new();
    p.insert("bucket".to_string(), "b".to_string());
    p.insert("endpoint".to_string(), "http://minio:9000".to_string());
    let cfg = RemoteConfig { scheme: "s3".to_string(), root: "/r".to_string(), params: p };
    let s = s3_settings(&cfg).unwrap();
    assert_eq!(s.bucket, "b");
    assert_eq!(s.endpoint, Some("http://minio:9000".to_string()));
    assert_eq!(s.region, None);
    let w = webdav_settings(&cfg).unwrap();
    assert_eq!(w.endpoint, "http://minio:9000");
    assert_eq!(w.username, None);
    let cfg = RemoteConfig { scheme: "webdav".to_string(), root: "/r".to_string(), params: Params::new() };
    assert!(matches!(webdav_settings(&cfg), Err(MissingParam::WebdavEndpoint)));
}

#[test]
fn missing_parameter_messages() {
    assert_eq!(
        MissingParam::S3Bucket.message(),
        "S3 requires a bucket, e.g. opendal://s3/my-bucket/path or OPENDAL_S3_BUCKET.\nExample: export OPENDAL_S3_BUCKET=my-git-bucket"
    );
    assert!(MissingParam::B2BucketId.message().contains("Buckets \u{2192} your bucket"));
}

#[test]
fn params_read_back_what_was_written() {
    let mut p = Params::new();
    assert_eq!(p.insert("k".to_string(), "1".to_string()), None);
    assert_eq!(p.insert("j".to_string(), "2".to_string()), None);
    assert_eq!(p.insert("k".to_string(), "3".to_string()), Some("1".to_string()));
    assert_eq!(p.get("k"), Some(&"3".to_string()));
    assert_eq!(p.get("j"), Some(&"2".to_string()));
    assert_eq!(p.get("x"), None);
    assert_eq!(p.len(), 2);
}

#[test]
fn b2_refusals_name_what_is_empty() {
    for (key, text) in [
        ("bucket-id", "bucket_id is empty"),
        ("application-key-id", "application_key_id is empty"),
        ("application-key", "application_key is empty"),
    ] {
        let mut params = base_params();
        params.insert(key.to_string(), String::new());
        let cfg = RemoteConfig { scheme: "b2".to_string(), root: "/".to_string(), params };
        let e = build_b2(&cfg).err().unwrap();
        assert!(matches!(e, BuildError::Service(_)));
        assert!(e.message().contains(text), "{}", e.message());
    }
}

#[test]
fn built_operators_carry_the_root_and_bucket() {
    let cfg = RemoteConfig { scheme: "b2".to_string(), root: "repos/x".to_string(), params: base_params() };
    let op = build_b2(&cfg).ok().unwrap().into_operator();
    assert_eq!(op.info().root(), "/repos/x/");

    let mut params = Params::new();
    params.insert("bucket".to_string(), "my-bucket".to_string());
    params.insert("region".to_string(), "us-east-1".to_string());
    let cfg = RemoteConfig { scheme: "s3".to_string(), root: "/path".to_string(), params };
    let built = build_s3(&cfg).ok().unwrap();
    assert_eq!(built.operator().info().name(), "my-bucket");
    assert_eq!(built.operator().info().root(), "/path/");

    let mut params = Params::new();
    params.insert("endpoint".to_string(), "https://cloud.example.com".to_string());
    let cfg = RemoteConfig { scheme: "webdav".to_string(), root: "/dav/repo".to_string(), params };
    let op = build_webdav(&cfg).ok().unwrap().into_operator();
    assert_eq!(op.info().root(), "/dav/repo/");
}

#[test]
fn s3_empty_bucket_is_refused_by_the_service() {
    let mut params = Params::new();
    params.insert("bucket".to_string(), String::new());
    params.insert("region".to_string(), "us-east-1".to_string());
    let cfg = RemoteConfig { scheme: "s3".to_string(), root: "/".to_string(), params };
    let e = build_s3(&cfg).err().unwrap();
    assert!(matches!(e, BuildError::Service(_)));
    assert!(e.message().contains("bucket is misconfigured"), "{}", e.message());
}

#[test]
fn webdav_endpoint_must_parse_and_empty_credentials_are_ignored() {
    let mut params = Params::new();
    params.insert("endpoint".to_string(), "http://exa mple.com".to_string());
    let cfg = RemoteConfig { scheme: "webdav".to_string(), root: "/".to_string(), params };
    let e = build_webdav(&cfg).err().unwrap();
    assert!(matches!(e, BuildError::Service(_)));
    assert!(e.message().contains("endpoint is invalid"), "{}", e.message());

    let mut params = Params::new();
    params.insert("endpoint".to_string(), String::new());
    let cfg = RemoteConfig { scheme: "webdav".to_string(), root: "/".to_string(), params };
    let e = build_webdav(&cfg).err().unwrap();
    assert!(e.message().contains("endpoint is empty"), "{}", e.message());

    let mut params = Params::new();
    params.insert("endpoint".to_string(), "https://cloud.example.com".to_string());
    params.insert("username".to_string(), String::new());
    params.insert("password".to_string(), "p".to_string());
    let cfg = RemoteConfig { scheme: "webdav".to_string(), root: "/".to_string(), params };
    assert!(build_webdav(&cfg).is_ok());
}
