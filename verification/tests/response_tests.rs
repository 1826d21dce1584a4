use tama::error::OperationError;
use tama::error::check_status_code;
use tama::response::Response;
use tama::response::handle_response;
use tama::response::parse_response;
use tama::response::response_line;

#[test]
fn ok_body_with_message_parses() {
    let r = parse_response("OK - Deployed application at context path /sample\r\n").unwrap();
    assert_eq!(
        r,
        Response::Success(Some("Deployed application at context path /sample".to_string()))
    );
}

#[test]
fn fail_body_with_message_parses() {
    let r = parse_response("FAIL - Application already exists at path /sample\r\n").unwrap();
    assert_eq!(
        r,
        Response::Fail(Some("Application already exists at path /sample".to_string()))
    );
}

#[test]
fn empty_message_is_distinct_from_no_message() {
    let r = parse_response("OK - \r\n").unwrap();
    assert_eq!(r, Response::Success(Some(String::new())));
}

#[test]
fn bare_ok_yields_no_message() {
    assert_eq!(parse_response("OK").unwrap(), Response::Success(None));
    assert_eq!(parse_response("OK\r\n").unwrap(), Response::Success(None));
}

#[test]
fn bare_fail_yields_no_message() {
    assert_eq!(parse_response("FAIL").unwrap(), Response::Fail(None));
    assert_eq!(parse_response("FAIL\r\n").unwrap(), Response::Fail(None));
}

#[test]
fn trimmed_body_without_crlf_yields_no_message() {
    assert_eq!(parse_response("OK - message").unwrap(), Response::Success(None));
    assert_eq!(parse_response("FAIL - message").unwrap(), Response::Fail(None));
}

#[test]
fn only_trailing_crlf_is_stripped() {
    let r = parse_response("OK - first\r\nsecond\r\n").unwrap();
    assert_eq!(r, Response::Success(Some("first\r\nsecond".to_string())));
}

#[test]
fn malformed_status_line_is_reported() {
    let r = parse_response("HTTP Status 404 - Not Found");
    assert_eq!(r, Err(OperationError::MalformedResponseBody));
    assert_eq!(parse_response(""), Err(OperationError::MalformedResponseBody));
    assert_eq!(parse_response("OK -missing space"), Err(OperationError::MalformedResponseBody));
}

#[test]
fn response_line_round_trips_ok() {
    let original = Response::Success(Some("Deployed".to_string()));
    let line = response_line(&original);
    assert_eq!(line, "OK - Deployed\r\n");
    assert_eq!(parse_response(&line).unwrap(), original);
}

#[test]
fn response_line_round_trips_fail() {
    let original = Response::Fail(Some("No context exists".to_string()));
    let line = response_line(&original);
    assert_eq!(line, "FAIL - No context exists\r\n");
    assert_eq!(parse_response(&line).unwrap(), original);
}

#[test]
fn response_line_round_trips_without_message() {
    let ok = Response::Success(None);
    assert_eq!(response_line(&ok), "OK\r\n");
    assert_eq!(parse_response(&response_line(&ok)).unwrap(), ok);
    let fail = Response::Fail(None);
    assert_eq!(response_line(&fail), "FAIL\r\n");
    assert_eq!(parse_response(&response_line(&fail)).unwrap(), fail);
}

#[test]
fn status_codes_classify_into_2xx_range() {
    assert!(check_status_code(200).is_ok());
    assert!(check_status_code(204).is_ok());
    assert!(check_status_code(299).is_ok());
    assert_eq!(check_status_code(199), Err(OperationError::HttpStatusNotSuccess(199)));
    assert_eq!(check_status_code(300), Err(OperationError::HttpStatusNotSuccess(300)));
    assert_eq!(check_status_code(401), Err(OperationError::HttpStatusNotSuccess(401)));
    assert_eq!(check_status_code(0), Err(OperationError::HttpStatusNotSuccess(0)));
}

#[test]
fn non_2xx_status_never_reaches_the_parser() {
    let r = handle_response(401, "OK - this body must be ignored\r\n");
    assert_eq!(r, Err(OperationError::HttpStatusNotSuccess(401)));
    let r = handle_response(500, "complete nonsense");
    assert_eq!(r, Err(OperationError::HttpStatusNotSuccess(500)));
}

#[test]
fn successful_status_hands_the_body_to_the_parser() {
    let r = handle_response(200, "OK - Stopped application at context path /sample\r\n");
    assert_eq!(
        r,
        Ok(Response::Success(Some("Stopped application at context path /sample".to_string())))
    );
    let r = handle_response(200, "garbage");
    assert_eq!(r, Err(OperationError::MalformedResponseBody));
}

#[test]
fn error_messages_name_the_condition() {
    assert_eq!(
        OperationError::DeploymentTypeMismatch.message(),
        "Deployment type mismatch."
    );
    assert_eq!(
        OperationError::HttpStatusNotSuccess(404).message(),
        "HTTP status not success: 404"
    );
    assert_eq!(
        OperationError::MalformedResponseBody.message(),
        "Malformed manager response body."
    );
    assert_eq!(
        OperationError::MalformedContextLine.message(),
        "Malformed context list line."
    );
    assert_eq!(
        OperationError::MalformedContextVersion.message(),
        "Malformed context version tag."
    );
}
