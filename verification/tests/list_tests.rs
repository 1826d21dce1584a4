use tama::context::Context;
use tama::context::ContextStatus;
use tama::context::parse_context_line;
use tama::error::OperationError;
use tama::list::parse_context_list;

fn ctx(
    path: &str,
    status: ContextStatus,
    sessions: u32,
    dir: &str,
    version: Option<&str>,
) -> Context {
    Context::new(
        path.to_string(),
        status,
        sessions,
        dir.to_string(),
        version.map(|v| v.to_string()),
    )
}

#[test]
fn three_valid_lines_give_three_contexts_in_order() {
    let body = "OK - Listed applications for virtual host localhost\r\n\
                /sample:running:0:sample\r\n\
                /host-manager:stopped:42:host-manager##00002\r\n\
                /:running:7:ROOT\r\n";
    let cs = parse_context_list(body).unwrap();
    assert_eq!(cs.len(), 3);
    assert_eq!(cs[0], ctx("/sample", ContextStatus::Running, 0, "sample", None));
    assert_eq!(
        cs[1],
        ctx("/host-manager", ContextStatus::Stopped, 42, "host-manager", Some("00002"))
    );
    assert_eq!(cs[2], ctx("/", ContextStatus::Running, 7, "ROOT", None));
}

#[test]
fn line_without_version_suffix_has_no_version() {
    let c = parse_context_line("/sample:running:3:sample").unwrap();
    assert_eq!(c.context_version, None);
}

#[test]
fn line_with_version_suffix_carries_it() {
    let c = parse_context_line("/sample:running:3:sample##00007").unwrap();
    assert_eq!(c.context_version, Some("00007".to_string()));
    assert_eq!(c.context_path, "/sample");
    assert_eq!(c.status, ContextStatus::Running);
    assert_eq!(c.alive_session, 3);
    assert_eq!(c.context_directory, "sample");
}

#[test]
fn bare_carriage_return_separates_lines_too() {
    let body = "header\r/a:running:1:a\r/b:stopped:2:b";
    let cs = parse_context_list(body).unwrap();
    assert_eq!(cs.len(), 2);
    assert_eq!(cs[0].context_path, "/a");
    assert_eq!(cs[1].context_path, "/b");
}

#[test]
fn empty_lines_are_skipped() {
    let body = "header\r\n\r\n/a:running:1:a\r\n\r\n";
    let cs = parse_context_list(body).unwrap();
    assert_eq!(cs.len(), 1);
    assert_eq!(cs[0].context_path, "/a");
}

#[test]
fn body_with_header_only_gives_no_contexts() {
    assert_eq!(parse_context_list("OK - Listed applications\r\n").unwrap(), vec![]);
    assert_eq!(parse_context_list("").unwrap(), vec![]);
}

#[test]
fn percent_dash_and_underscore_are_path_characters() {
    let c = parse_context_line("/my-app_2%20x:stopped:0:my-app_2%20x").unwrap();
    assert_eq!(c.context_path, "/my-app_2%20x");
    assert_eq!(c.context_directory, "my-app_2%20x");
}

#[test]
fn root_path_is_a_lone_slash() {
    let c = parse_context_line("/:running:0:ROOT").unwrap();
    assert_eq!(c.context_path, "/");
}

#[test]
fn missing_leading_slash_is_reported() {
    assert_eq!(
        parse_context_line("sample:running:0:sample"),
        Err(OperationError::MalformedContextLine)
    );
}

#[test]
fn unknown_status_word_is_reported() {
    assert_eq!(
        parse_context_line("/sample:paused:0:sample"),
        Err(OperationError::MalformedContextLine)
    );
}

#[test]
fn non_numeric_session_count_is_reported() {
    assert_eq!(
        parse_context_line("/sample:running:many:sample"),
        Err(OperationError::MalformedContextLine)
    );
    assert_eq!(
        parse_context_line("/sample:running::sample"),
        Err(OperationError::MalformedContextLine)
    );
}

#[test]
fn session_count_beyond_32_bits_is_reported() {
    let c = parse_context_line("/sample:running:4294967295:sample").unwrap();
    assert_eq!(c.alive_session, 4294967295);
    assert_eq!(
        parse_context_line("/sample:running:4294967296:sample"),
        Err(OperationError::MalformedContextLine)
    );
}

#[test]
fn empty_directory_is_reported() {
    assert_eq!(
        parse_context_line("/sample:running:0:"),
        Err(OperationError::MalformedContextLine)
    );
}

#[test]
fn broken_version_suffixes_are_reported() {
    assert_eq!(
        parse_context_line("/sample:running:0:sample##"),
        Err(OperationError::MalformedContextLine)
    );
    assert_eq!(
        parse_context_line("/sample:running:0:sample#1"),
        Err(OperationError::MalformedContextLine)
    );
    assert_eq!(
        parse_context_line("/sample:running:0:sample##00_1"),
        Err(OperationError::MalformedContextLine)
    );
}

#[test]
fn extra_fields_are_reported() {
    assert_eq!(
        parse_context_line("/sample:running:0:sample:extra"),
        Err(OperationError::MalformedContextLine)
    );
}

#[test]
fn one_bad_line_fails_the_whole_body() {
    let body = "header\r\n/good:running:0:good\r\nbad line\r\n";
    assert_eq!(parse_context_list(body), Err(OperationError::MalformedContextLine));
}
