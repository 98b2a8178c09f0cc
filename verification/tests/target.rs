use s3_undelete::target::{prefix_filter, Target, TargetError, UriParts};

fn target(bucket: &str, prefix: Option<&str>) -> Target {
    Target { bucket: bucket.to_string(), prefix: prefix.map(|p| p.to_string()) }
}

#[test]
fn a_bare_separator_means_the_whole_bucket() {
    assert_eq!(Target::parse("s3://mybucket/"), Ok(target("mybucket", None)));
}

#[test]
fn a_prefix_keeps_its_trailing_separator() {
    assert_eq!(Target::parse("s3://mybucket/foo/"), Ok(target("mybucket", Some("foo/"))));
}

#[test]
fn a_uri_without_a_path_means_the_whole_bucket() {
    assert_eq!(Target::parse("s3://mybucket"), Ok(target("mybucket", None)));
}

#[test]
fn a_nested_prefix_is_kept_whole() {
    assert_eq!(
        Target::parse("s3://mybucket/logs/2024/app"),
        Ok(target("mybucket", Some("logs/2024/app")))
    );
}

#[test]
fn the_scheme_does_not_matter() {
    assert_eq!(Target::parse("gs://other/x"), Ok(target("other", Some("x"))));
}

#[test]
fn only_the_leading_separator_is_stripped() {
    assert_eq!(Target::parse("s3://mybucket//foo"), Ok(target("mybucket", Some("/foo"))));
}

#[test]
fn text_that_is_no_uri_is_malformed() {
    assert_eq!(
        Target::parse("mybucket/foo"),
        Err(TargetError::Malformed(url::ParseError::RelativeUrlWithoutBase))
    );
    assert_eq!(
        Target::parse(""),
        Err(TargetError::Malformed(url::ParseError::RelativeUrlWithoutBase))
    );
}

#[test]
fn a_uri_without_a_host_names_no_bucket() {
    assert_eq!(Target::parse("unix:/run/foo.socket"), Err(TargetError::MissingBucket));
    assert_eq!(Target::parse("data:text/plain,Stuff"), Err(TargetError::MissingBucket));
}

#[test]
fn the_query_is_no_part_of_the_prefix() {
    assert_eq!(Target::parse("s3://mybucket/foo?versions"), Ok(target("mybucket", Some("foo"))));
}

#[test]
fn prefix_filter_strips_one_separator() {
    assert_eq!(prefix_filter("/foo/"), Some("foo/".to_string()));
    assert_eq!(prefix_filter("/foo"), Some("foo".to_string()));
    assert_eq!(prefix_filter("//foo"), Some("/foo".to_string()));
    assert_eq!(prefix_filter("foo"), Some("foo".to_string()));
    assert_eq!(prefix_filter("/\u{e9}t\u{e9}/"), Some("\u{e9}t\u{e9}/".to_string()));
}

#[test]
fn prefix_filter_gives_none_where_nothing_is_left() {
    assert_eq!(prefix_filter(""), None);
    assert_eq!(prefix_filter("/"), None);
}

#[test]
fn from_parts_takes_the_host_as_the_bucket() {
    let parts = UriParts { host: Some("mybucket".to_string()), path: "/a/b".to_string() };
    assert_eq!(Target::from_parts(parts), Ok(target("mybucket", Some("a/b"))));
    let parts = UriParts { host: Some("mybucket".to_string()), path: String::new() };
    assert_eq!(Target::from_parts(parts), Ok(target("mybucket", None)));
}

#[test]
fn from_parts_without_a_host_is_an_error() {
    let parts = UriParts { host: None, path: "/a/b".to_string() };
    assert_eq!(Target::from_parts(parts), Err(TargetError::MissingBucket));
}
