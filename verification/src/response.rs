//! The Manager response parser: decoding the plain-text body of one
//! Manager command into a structured `Ok`/`Fail` outcome with an
//! optional message, and building such a body back from the outcome.

use vstd::prelude::*;

use crate::error::OperationError;
use crate::error::check_status_code;
use crate::error::spec_status_success;
use crate::text::crlf;
use crate::text::starts_with;
use crate::text::str_eq;
use crate::text::str_starts_with;

verus! {

/// Outcome of one Manager command: Tomcat reports success or failure,
/// optionally with a message. No message is distinct from an empty
/// message: a bare success line carries none.
#[derive(Debug, PartialEq, Eq)]
pub enum Response {
    Success(Option<String>),
    Fail(Option<String>),
}

/// Mathematical model of a `Response`: the success tag and the message
/// as a character sequence.
#[verifier::ext_equal]
pub ghost struct ResponseView {
    pub ok: bool,
    pub message: Option<Seq<char>>,
}

impl View for Response {
    type V = ResponseView;

    open spec fn view(&self) -> ResponseView {
        match self {
            Response::Success(m) => ResponseView { ok: true, message: m.deep_view() },
            Response::Fail(m) => ResponseView { ok: false, message: m.deep_view() },
        }
    }
}

pub open spec fn ok_prefix() -> Seq<char> {
    "OK - "@
}

pub open spec fn fail_prefix() -> Seq<char> {
    "FAIL - "@
}

pub open spec fn ok_word() -> Seq<char> {
    "OK"@
}

pub open spec fn fail_word() -> Seq<char> {
    "FAIL"@
}

/// The message carried after a status prefix: the remainder without
/// its trailing CRLF, or no message at all when the remainder is not
/// CRLF-terminated.
pub open spec fn strip_crlf(rest: Seq<char>) -> Option<Seq<char>> {
    if rest.len() >= 2 && rest.subrange(rest.len() - 2, rest.len() as int) == crlf() {
        Some(rest.subrange(0, rest.len() - 2))
    } else {
        None
    }
}

/// How a Manager response body decodes: a body whose status line starts
/// with `OK - ` or `FAIL - ` carries the remainder as its message; a
/// bare `OK` or `FAIL`, CRLF-terminated or not, carries none; anything
/// else is malformed.
pub open spec fn spec_parse_response(body: Seq<char>) -> Option<ResponseView> {
    if starts_with(body, ok_prefix()) {
        Some(ResponseView { ok: true, message: strip_crlf(body.skip(ok_prefix().len() as int)) })
    } else if body == ok_word() || body == ok_word() + crlf() {
        Some(ResponseView { ok: true, message: None })
    } else if starts_with(body, fail_prefix()) {
        Some(
            ResponseView { ok: false, message: strip_crlf(body.skip(fail_prefix().len() as int)) },
        )
    } else if body == fail_word() || body == fail_word() + crlf() {
        Some(ResponseView { ok: false, message: None })
    } else {
        None
    }
}

/// Take the remainder of `body` after a prefix of length `plen` and
/// strip its trailing CRLF, yielding the optional message.
fn extract_message(body: &str, plen: usize) -> (m: Option<String>)
    requires
        plen <= body@.len(),
    ensures
        m.deep_view() == strip_crlf(body@.skip(plen as int)),
{
    proof {
        reveal_strlit("\r\n");
    }
    let n = body.unicode_len();
    let ghost rest = body@.skip(plen as int);
    if n >= 2 && n - 2 >= plen && body.get_char(n - 2) == '\r' && body.get_char(n - 1) == '\n' {
        let msg = body.substring_char(plen, n - 2);
        proof {
            assert(rest.subrange(rest.len() - 2, rest.len() as int) =~= crlf());
            assert(msg@ =~= rest.subrange(0, rest.len() - 2));
        }
        Some(String::from_str(msg))
    } else {
        proof {
            if rest.len() >= 2 && rest.subrange(rest.len() - 2, rest.len() as int) == crlf() {
                assert(rest[rest.len() - 2] == body@[n - 2]);
                assert(rest[rest.len() - 1] == body@[n - 1]);
                assert(crlf()[0] == '\r' && crlf()[1] == '\n');
                assert(false);
            }
        }
        None
    }
}

/// Decode a Manager response body, reporting a malformed status line
/// as an error instead of guessing at its meaning.
pub fn parse_response(body: &str) -> (r: Result<Response, OperationError>)
    ensures
        match spec_parse_response(body@) {
            Some(v) => r matches Ok(resp) && resp@ == v,
            None => r matches Err(e) && e == OperationError::MalformedResponseBody,
        },
{
    proof {
        reveal_strlit("OK - ");
        reveal_strlit("FAIL - ");
        reveal_strlit("OK");
        reveal_strlit("FAIL");
        reveal_strlit("OK\r\n");
        reveal_strlit("FAIL\r\n");
        reveal_strlit("\r\n");
        assert("OK\r\n"@ =~= ok_word() + crlf());
        assert("FAIL\r\n"@ =~= fail_word() + crlf());
    }
    if str_starts_with(body, "OK - ") {
        Ok(Response::Success(extract_message(body, 5)))
    } else if str_eq(body, "OK") || str_eq(body, "OK\r\n") {
        Ok(Response::Success(None))
    } else if str_starts_with(body, "FAIL - ") {
        Ok(Response::Fail(extract_message(body, 7)))
    } else if str_eq(body, "FAIL") || str_eq(body, "FAIL\r\n") {
        Ok(Response::Fail(None))
    } else {
        Err(OperationError::MalformedResponseBody)
    }
}

/// The CRLF-terminated wire line that reports a given outcome.
pub open spec fn spec_response_line(v: ResponseView) -> Seq<char> {
    let status_part = if v.ok {
        match v.message {
            Some(m) => ok_prefix() + m,
            None => ok_word(),
        }
    } else {
        match v.message {
            Some(m) => fail_prefix() + m,
            None => fail_word(),
        }
    };
    status_part + crlf()
}

/// Build the CRLF-terminated response line that reports `r`.
pub fn response_line(r: &Response) -> (out: String)
    ensures
        out@ == spec_response_line(r@),
{
    proof {
        reveal_strlit("OK - ");
        reveal_strlit("FAIL - ");
        reveal_strlit("OK");
        reveal_strlit("FAIL");
        reveal_strlit("\r\n");
    }
    let mut s = match r {
        Response::Success(Some(m)) => {
            let mut t = String::from_str("OK - ");
            t.append(m.as_str());
            t
        },
        Response::Success(None) => String::from_str("OK"),
        Response::Fail(Some(m)) => {
            let mut t = String::from_str("FAIL - ");
            t.append(m.as_str());
            t
        },
        Response::Fail(None) => String::from_str("FAIL"),
    };
    s.append("\r\n");
    s
}

/// Round trip: the line built from an outcome decodes back to exactly
/// that outcome, whether or not it carries a message.
pub proof fn lemma_response_round_trip(v: ResponseView)
    ensures
        spec_parse_response(spec_response_line(v)) == Some(v),
{
    reveal_strlit("OK - ");
    reveal_strlit("FAIL - ");
    reveal_strlit("OK");
    reveal_strlit("FAIL");
    reveal_strlit("\r\n");
    let line = spec_response_line(v);
    if v.ok {
        match v.message {
            Some(m) => {
                assert(line =~= ok_prefix() + m + crlf());
                assert(line.subrange(0, 5) =~= ok_prefix());
                let rest = line.skip(5);
                assert(rest =~= m + crlf());
                assert(rest.subrange(rest.len() - 2, rest.len() as int) =~= crlf());
                assert(rest.subrange(0, rest.len() - 2) =~= m);
            },
            None => {
                assert(line =~= ok_word() + crlf());
                assert(line.len() == 4);
                assert(!starts_with(line, ok_prefix()));
            },
        }
    } else {
        match v.message {
            Some(m) => {
                assert(line =~= fail_prefix() + m + crlf());
                if starts_with(line, ok_prefix()) {
                    assert(line.subrange(0, 5)[0] == 'O');
                    assert(line[0] == 'F');
                    assert(false);
                }
                assert(line.len() >= 9);
                assert(line != ok_word());
                if line == ok_word() + crlf() {
                    assert(line[0] == 'O');
                    assert(false);
                }
                assert(line.subrange(0, 7) =~= fail_prefix());
                let rest = line.skip(7);
                assert(rest =~= m + crlf());
                assert(rest.subrange(rest.len() - 2, rest.len() as int) =~= crlf());
                assert(rest.subrange(0, rest.len() - 2) =~= m);
            },
            None => {
                assert(line =~= fail_word() + crlf());
                assert(line.len() == 6);
                if starts_with(line, ok_prefix()) {
                    assert(line.subrange(0, 5)[0] == 'O');
                    assert(line[0] == 'F');
                    assert(false);
                }
                if line == ok_word() + crlf() {
                    assert(line[0] == 'O');
                    assert(line[0] == 'F');
                    assert(false);
                }
                assert(!starts_with(line, fail_prefix()));
                assert(line =~= fail_word() + crlf());
            },
        }
    }
}

/// Every well-formed body `OK - msg` or `FAIL - msg` with a trailing
/// CRLF decodes to the corresponding tag carrying exactly `msg`.
pub proof fn lemma_prefixed_body_parses(ok: bool, m: Seq<char>)
    ensures
        spec_parse_response((if ok {
            ok_prefix()
        } else {
            fail_prefix()
        }) + m + crlf()) == Some(ResponseView { ok: ok, message: Some(m) }),
{
    let v = ResponseView { ok: ok, message: Some(m) };
    lemma_response_round_trip(v);
    assert(spec_response_line(v) =~= (if ok {
        ok_prefix()
    } else {
        fail_prefix()
    }) + m + crlf());
}

/// Classify one finished HTTP round trip: a non-2xx status is rejected
/// before the body is looked at; a 2xx body is decoded as a response.
pub fn handle_response(status: u16, body: &str) -> (r: Result<Response, OperationError>)
    ensures
        !spec_status_success(status) ==> (r matches Err(e)
            && e == OperationError::HttpStatusNotSuccess(status)),
        spec_status_success(status) ==> match spec_parse_response(body@) {
            Some(v) => r matches Ok(resp) && resp@ == v,
            None => r matches Err(e) && e == OperationError::MalformedResponseBody,
        },
{
    match check_status_code(status) {
        Err(e) => Err(e),
        Ok(()) => parse_response(body),
    }
}

} // verus!
