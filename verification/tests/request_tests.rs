use tama::context::Context;
use tama::context::ContextStatus;
use tama::request::ManagerCommand;
use tama::request::command_path;
use tama::request::command_query;
use tama::table::format_context_row;
use tama::table::format_context_table;
use tama::table::table_header;

#[test]
fn each_command_has_its_endpoint() {
    assert_eq!(command_path(ManagerCommand::List), "/manager/text/list");
    assert_eq!(command_path(ManagerCommand::Deploy), "/manager/text/deploy");
    assert_eq!(command_path(ManagerCommand::Undeploy), "/manager/text/undeploy");
    assert_eq!(command_path(ManagerCommand::Reload), "/manager/text/reload");
    assert_eq!(command_path(ManagerCommand::Start), "/manager/text/start");
    assert_eq!(command_path(ManagerCommand::Stop), "/manager/text/stop");
}

#[test]
fn query_without_version_names_only_the_path() {
    let q = command_query("/sample", None);
    assert_eq!(q, vec![("path".to_string(), "/sample".to_string())]);
}

#[test]
fn query_with_version_appends_it() {
    let q = command_query("/sample", Some("00002"));
    assert_eq!(
        q,
        vec![
            ("path".to_string(), "/sample".to_string()),
            ("version".to_string(), "00002".to_string()),
        ]
    );
}

fn sample_context() -> Context {
    Context::new(
        "/sample".to_string(),
        ContextStatus::Running,
        3,
        "sample".to_string(),
        None,
    )
}

#[test]
fn rows_format_like_the_console_table() {
    let row = format_context_row(&sample_context());
    assert_eq!(
        row,
        format!(
            "{0: <20} | {1: <7} | {2: >7} | {3: <20} | {4: <10}",
            "/sample", "running", 3, "sample", "N/A"
        )
    );
    let versioned = Context::new(
        "/host-manager".to_string(),
        ContextStatus::Stopped,
        12345678,
        "host-manager".to_string(),
        Some("00002".to_string()),
    );
    assert_eq!(
        format_context_row(&versioned),
        format!(
            "{0: <20} | {1: <7} | {2: >7} | {3: <20} | {4: <10}",
            "/host-manager", "stopped", 12345678, "host-manager", "00002"
        )
    );
}

#[test]
fn header_row_formats_like_the_console_table() {
    assert_eq!(
        table_header(),
        format!(
            "{0: <20} | {1: <7} | {2: <7} | {3: <20} | {4: <10}",
            "context path", "status", "session", "directory", "version"
        )
    );
}

#[test]
fn table_holds_header_then_one_row_per_context() {
    let contexts = vec![sample_context(), sample_context()];
    let t = format_context_table(&contexts);
    assert_eq!(t.len(), 3);
    assert_eq!(t[0], table_header());
    assert_eq!(t[1], format_context_row(&contexts[0]));
    assert_eq!(t[2], format_context_row(&contexts[1]));
}

#[test]
fn columns_wider_than_their_field_are_not_cut() {
    let wide = Context::new(
        "/a-context-path-longer-than-twenty".to_string(),
        ContextStatus::Running,
        0,
        "d".to_string(),
        None,
    );
    let row = format_context_row(&wide);
    assert!(row.starts_with("/a-context-path-longer-than-twenty | "));
}
