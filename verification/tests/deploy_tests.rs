use tama::context::Context;
use tama::context::ContextStatus;
use tama::deploy::find_context;
use tama::deploy::format_version;
use tama::deploy::plan_deploy_version;
use tama::error::OperationError;

fn deployed(path: &str, version: Option<&str>) -> Context {
    Context::new(
        path.to_string(),
        ContextStatus::Running,
        0,
        "dir".to_string(),
        version.map(|v| v.to_string()),
    )
}

#[test]
fn fresh_path_parallel_requests_first_version() {
    let contexts = vec![];
    let r = plan_deploy_version(&contexts, "/sample", true);
    assert_eq!(r, Ok(Some("00001".to_string())));
}

#[test]
fn fresh_path_plain_requests_no_version() {
    let contexts = vec![deployed("/other", None)];
    let r = plan_deploy_version(&contexts, "/sample", false);
    assert_eq!(r, Ok(None));
}

#[test]
fn parallel_over_versioned_context_steps_the_version() {
    let contexts = vec![deployed("/sample", Some("00001"))];
    let r = plan_deploy_version(&contexts, "/sample", true);
    assert_eq!(r, Ok(Some("00002".to_string())));
}

#[test]
fn plain_deploy_over_versioned_context_is_a_mismatch() {
    let contexts = vec![deployed("/sample", Some("00001"))];
    let r = plan_deploy_version(&contexts, "/sample", false);
    assert_eq!(r, Err(OperationError::DeploymentTypeMismatch));
}

#[test]
fn parallel_deploy_over_unversioned_context_is_a_mismatch() {
    let contexts = vec![deployed("/sample", None)];
    let r = plan_deploy_version(&contexts, "/sample", true);
    assert_eq!(r, Err(OperationError::DeploymentTypeMismatch));
}

#[test]
fn plain_deploy_over_unversioned_context_requests_no_version() {
    let contexts = vec![deployed("/sample", None)];
    let r = plan_deploy_version(&contexts, "/sample", false);
    assert_eq!(r, Ok(None));
}

#[test]
fn version_steps_carry_into_wider_numbers() {
    let contexts = vec![deployed("/a", Some("00099"))];
    assert_eq!(plan_deploy_version(&contexts, "/a", true), Ok(Some("00100".to_string())));
    let contexts = vec![deployed("/a", Some("99999"))];
    assert_eq!(plan_deploy_version(&contexts, "/a", true), Ok(Some("100000".to_string())));
}

#[test]
fn non_numeric_version_cannot_be_stepped() {
    let contexts = vec![deployed("/a", Some("v2"))];
    assert_eq!(
        plan_deploy_version(&contexts, "/a", true),
        Err(OperationError::MalformedContextVersion)
    );
    let contexts = vec![deployed("/a", Some(""))];
    assert_eq!(
        plan_deploy_version(&contexts, "/a", true),
        Err(OperationError::MalformedContextVersion)
    );
}

#[test]
fn version_at_the_signed_limit_cannot_be_stepped() {
    let contexts = vec![deployed("/a", Some("2147483647"))];
    assert_eq!(
        plan_deploy_version(&contexts, "/a", true),
        Err(OperationError::MalformedContextVersion)
    );
    let contexts = vec![deployed("/a", Some("2147483646"))];
    assert_eq!(
        plan_deploy_version(&contexts, "/a", true),
        Ok(Some("2147483647".to_string()))
    );
}

#[test]
fn later_entry_at_the_same_path_wins() {
    let contexts = vec![deployed("/a", Some("00001")), deployed("/a", Some("00005"))];
    assert_eq!(plan_deploy_version(&contexts, "/a", true), Ok(Some("00006".to_string())));
}

#[test]
fn find_context_picks_the_matching_path() {
    let contexts = vec![deployed("/a", None), deployed("/b", Some("00003"))];
    let found = find_context(&contexts, "/b").unwrap();
    assert_eq!(found.context_version, Some("00003".to_string()));
    assert!(find_context(&contexts, "/c").is_none());
}

#[test]
fn versions_format_zero_padded_to_five_digits() {
    assert_eq!(format_version(1), "00001");
    assert_eq!(format_version(99999), "99999");
    assert_eq!(format_version(100000), "100000");
    assert_eq!(format_version(0), "00000");
}
