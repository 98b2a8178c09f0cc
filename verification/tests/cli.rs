use s3_undelete::cli::{invocation, usage, Invocation};

fn args(words: &[&str]) -> Vec<String> {
    words.iter().map(|w| w.to_string()).collect()
}

#[test]
fn one_argument_is_the_uri_to_work_on() {
    assert_eq!(
        invocation(&args(&["undelete", "s3://bucket/prefix/"])),
        Invocation::Run { uri: "s3://bucket/prefix/".to_string() }
    );
}

#[test]
fn no_argument_gives_the_usage_line() {
    assert_eq!(
        invocation(&args(&["undelete"])),
        Invocation::Usage {
            message: "Usage: undelete <s3_uri, e.g.s3://bucket/prefix/> ".to_string(),
        }
    );
}

#[test]
fn two_arguments_give_the_usage_line() {
    assert_eq!(
        invocation(&args(&["/usr/bin/undelete", "s3://a/", "s3://b/"])),
        Invocation::Usage {
            message: "Usage: /usr/bin/undelete <s3_uri, e.g.s3://bucket/prefix/> ".to_string(),
        }
    );
}

#[test]
fn an_empty_command_line_gives_the_usage_line_without_a_name() {
    assert_eq!(
        invocation(&Vec::new()),
        Invocation::Usage { message: "Usage:  <s3_uri, e.g.s3://bucket/prefix/> ".to_string() }
    );
}

#[test]
fn the_usage_line_names_the_program() {
    assert_eq!(usage("tool"), "Usage: tool <s3_uri, e.g.s3://bucket/prefix/> ");
}
