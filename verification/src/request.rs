//! Building the Manager API requests: the endpoint path of each
//! operation and the query parameters it carries.

use vstd::prelude::*;

verus! {

/// The Manager operations this client issues, one HTTP round trip
/// each.
#[derive(Debug, Clone, Copy, PartialEq, Eq, Structural)]
pub enum ManagerCommand {
    List,
    Deploy,
    Undeploy,
    Reload,
    Start,
    Stop,
}

pub open spec fn spec_command_path(cmd: ManagerCommand) -> Seq<char> {
    match cmd {
        ManagerCommand::List => "/manager/text/list"@,
        ManagerCommand::Deploy => "/manager/text/deploy"@,
        ManagerCommand::Undeploy => "/manager/text/undeploy"@,
        ManagerCommand::Reload => "/manager/text/reload"@,
        ManagerCommand::Start => "/manager/text/start"@,
        ManagerCommand::Stop => "/manager/text/stop"@,
    }
}

/// The endpoint path of one Manager operation, relative to the host.
pub fn command_path(cmd: ManagerCommand) -> (r: &'static str)
    ensures
        r@ == spec_command_path(cmd),
{
    match cmd {
        ManagerCommand::List => "/manager/text/list",
        ManagerCommand::Deploy => "/manager/text/deploy",
        ManagerCommand::Undeploy => "/manager/text/undeploy",
        ManagerCommand::Reload => "/manager/text/reload",
        ManagerCommand::Start => "/manager/text/start",
        ManagerCommand::Stop => "/manager/text/stop",
    }
}

/// The query parameters of a context-scoped command: the context path,
/// and the version tag when the deploy decision assigned one.
pub fn command_query(context_path: &str, version: Option<&str>) -> (r: Vec<(String, String)>)
    ensures
        r@.len() == (if version is Some {
            2int
        } else {
            1int
        }),
        r@[0].0@ == "path"@,
        r@[0].1@ == context_path@,
        version matches Some(v) ==> r@[1].0@ == "version"@ && r@[1].1@ == v@,
{
    let mut q: Vec<(String, String)> = Vec::new();
    q.push((String::from_str("path"), String::from_str(context_path)));
    match version {
        Some(v) => {
            q.push((String::from_str("version"), String::from_str(v)));
        },
        None => {},
    }
    q
}

} // verus!
