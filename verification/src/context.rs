//! The context model: one deployed web application as reported by a
//! `list` body, and the fixed grammar of one data line,
//! `<path>:<running|stopped>:<sessions>:<directory>[##<version>]`.

use vstd::prelude::*;

use crate::error::OperationError;
use crate::text::CharClass;
use crate::text::digits_val;
use crate::text::find_char_from;
use crate::text::find_from;
use crate::text::is_alnum_char;
use crate::text::is_name_char;
use crate::text::parse_u32_range;
use crate::text::range_all;
use crate::text::range_matches;
use crate::text::valid_digits;

verus! {

/// Whether the application is currently serving requests.
#[derive(Debug, Clone, Copy, PartialEq, Eq, Structural)]
pub enum ContextStatus {
    Running,
    Stopped,
}

pub open spec fn running_text() -> Seq<char> {
    "running"@
}

pub open spec fn stopped_text() -> Seq<char> {
    "stopped"@
}

pub open spec fn status_text(st: ContextStatus) -> Seq<char> {
    match st {
        ContextStatus::Running => running_text(),
        ContextStatus::Stopped => stopped_text(),
    }
}

/// The word Tomcat prints for a status.
pub fn status_str(st: ContextStatus) -> (r: &'static str)
    ensures
        r@ == status_text(st),
{
    match st {
        ContextStatus::Running => "running",
        ContextStatus::Stopped => "stopped",
    }
}

/// One deployed web application: its context path, status, live
/// session count, docBase directory, and, for parallel deployments
/// only, a version tag.
#[derive(Debug, PartialEq, Eq)]
pub struct Context {
    pub context_path: String,
    pub status: ContextStatus,
    pub alive_session: u32,
    pub context_directory: String,
    pub context_version: Option<String>,
}

/// Mathematical model of a `Context`, over character sequences.
#[verifier::ext_equal]
pub ghost struct ContextView {
    pub context_path: Seq<char>,
    pub status: ContextStatus,
    pub alive_session: u32,
    pub context_directory: Seq<char>,
    pub context_version: Option<Seq<char>>,
}

impl View for Context {
    type V = ContextView;

    open spec fn view(&self) -> ContextView {
        ContextView {
            context_path: self.context_path@,
            status: self.status,
            alive_session: self.alive_session,
            context_directory: self.context_directory@,
            context_version: self.context_version.deep_view(),
        }
    }
}

impl DeepView for Context {
    type V = ContextView;

    open spec fn deep_view(&self) -> ContextView {
        self.view()
    }
}

impl Context {
    pub fn new(
        context_path: String,
        status: ContextStatus,
        alive_session: u32,
        context_directory: String,
        context_version: Option<String>,
    ) -> (r: Self)
        ensures
            r@ == (ContextView {
                context_path: context_path@,
                status: status,
                alive_session: alive_session,
                context_directory: context_directory@,
                context_version: context_version.deep_view(),
            }),
    {
        Self { context_path, status, alive_session, context_directory, context_version }
    }
}

// ---------------------------------------------------------------------
// The grammar of one data line.
// ---------------------------------------------------------------------

/// A context path: a slash followed by name characters.
pub open spec fn valid_path(s: Seq<char>) -> bool {
    s.len() >= 1 && s[0] == '/' && forall|j: int| 1 <= j < s.len() ==> is_name_char(s[j])
}

/// A docBase directory: one or more name characters.
pub open spec fn valid_directory(s: Seq<char>) -> bool {
    s.len() >= 1 && forall|j: int| 0 <= j < s.len() ==> is_name_char(s[j])
}

/// A version tag: one or more alphanumeric characters.
pub open spec fn valid_version(s: Seq<char>) -> bool {
    s.len() >= 1 && forall|j: int| 0 <= j < s.len() ==> is_alnum_char(s[j])
}

/// The fields cut out of a line once its three colons are fixed at
/// `c1 < c2 < c3`: path, status and sessions between them, then the
/// directory, optionally split from a version tag by `##`.
pub open spec fn spec_parse_fields(line: Seq<char>, c1: int, c2: int, c3: int) -> Option<
    ContextView,
> {
    let path = line.subrange(0, c1);
    let status_part = line.subrange(c1 + 1, c2);
    let sess = line.subrange(c2 + 1, c3);
    if !valid_path(path) {
        None
    } else if !(status_part == running_text() || status_part == stopped_text()) {
        None
    } else if !(valid_digits(sess) && digits_val(sess) <= u32::MAX) {
        None
    } else {
        let status = if status_part == running_text() {
            ContextStatus::Running
        } else {
            ContextStatus::Stopped
        };
        let sessions = digits_val(sess) as u32;
        match find_from(line, '#', c3 + 1) {
            None => {
                let dir = line.subrange(c3 + 1, line.len() as int);
                if valid_directory(dir) {
                    Some(
                        ContextView {
                            context_path: path,
                            status: status,
                            alive_session: sessions,
                            context_directory: dir,
                            context_version: None,
                        },
                    )
                } else {
                    None
                }
            },
            Some(h) => {
                if h + 1 < line.len() && line[h + 1] == '#' {
                    let dir = line.subrange(c3 + 1, h);
                    let ver = line.subrange(h + 2, line.len() as int);
                    if valid_directory(dir) && valid_version(ver) {
                        Some(
                            ContextView {
                                context_path: path,
                                status: status,
                                alive_session: sessions,
                                context_directory: dir,
                                context_version: Some(ver),
                            },
                        )
                    } else {
                        None
                    }
                } else {
                    None
                }
            },
        }
    }
}

/// How one data line decodes: the first three colons separate path,
/// status and session count; the rest is the directory, with an
/// optional `##`-separated version tag. A line that does not fit this
/// shape decodes to nothing.
pub open spec fn spec_parse_line(line: Seq<char>) -> Option<ContextView> {
    match find_from(line, ':', 0) {
        None => None,
        Some(c1) => match find_from(line, ':', c1 + 1) {
            None => None,
            Some(c2) => match find_from(line, ':', c2 + 1) {
                None => None,
                Some(c3) => spec_parse_fields(line, c1, c2, c3),
            },
        },
    }
}

/// A line that decodes as a context record holds no carriage return:
/// every character of it is in one of the grammar's classes, and none
/// of those admits a separator character.
pub proof fn lemma_parse_line_no_cr(line: Seq<char>)
    requires
        spec_parse_line(line) is Some,
    ensures
        forall|j: int| 0 <= j < line.len() ==> line[j] != '\r',
{
    reveal_strlit("running");
    reveal_strlit("stopped");
    let c1 = find_from(line, ':', 0)->0;
    let c2 = find_from(line, ':', c1 + 1)->0;
    let c3 = find_from(line, ':', c2 + 1)->0;
    crate::text::lemma_find_from(line, ':', 0);
    crate::text::lemma_find_from(line, ':', c1 + 1);
    crate::text::lemma_find_from(line, ':', c2 + 1);
    let path = line.subrange(0, c1);
    let status_part = line.subrange(c1 + 1, c2);
    let sess = line.subrange(c2 + 1, c3);
    assert(valid_path(path));
    assert(status_part == running_text() || status_part == stopped_text());
    assert(valid_digits(sess));
    assert forall|t: int| 0 <= t < status_part.len() implies status_part[t] != '\r' by {
        assert(running_text().len() == 7);
        assert(stopped_text().len() == 7);
        if t == 0 {
        } else if t == 1 {
        } else if t == 2 {
        } else if t == 3 {
        } else if t == 4 {
        } else if t == 5 {
        } else {
            assert(t == 6);
        }
    }
    match find_from(line, '#', c3 + 1) {
        None => {
            let dir = line.subrange(c3 + 1, line.len() as int);
            assert(valid_directory(dir));
            assert forall|j: int| 0 <= j < line.len() implies line[j] != '\r' by {
                if j < c1 {
                    assert(line[j] == path[j]);
                } else if c1 < j < c2 {
                    assert(line[j] == status_part[j - c1 - 1]);
                } else if c2 < j < c3 {
                    assert(line[j] == sess[j - c2 - 1]);
                } else if c3 < j {
                    assert(line[j] == dir[j - c3 - 1]);
                }
            }
        },
        Some(h) => {
            crate::text::lemma_find_from(line, '#', c3 + 1);
            let dir = line.subrange(c3 + 1, h);
            let ver = line.subrange(h + 2, line.len() as int);
            assert(valid_directory(dir));
            assert(valid_version(ver));
            assert forall|j: int| 0 <= j < line.len() implies line[j] != '\r' by {
                if j < c1 {
                    assert(line[j] == path[j]);
                } else if c1 < j < c2 {
                    assert(line[j] == status_part[j - c1 - 1]);
                } else if c2 < j < c3 {
                    assert(line[j] == sess[j - c2 - 1]);
                } else if c3 < j < h {
                    assert(line[j] == dir[j - c3 - 1]);
                } else if j == h || j == h + 1 {
                    assert(line[h + 1] == '#');
                } else if j > h + 1 {
                    assert(line[j] == ver[j - h - 2]);
                }
            }
        },
    }
}

/// Decode one non-empty data line of a `list` body, reporting a line
/// that violates the grammar (or a session count beyond 32 bits) as a
/// malformed-line error.
pub fn parse_context_line(line: &str) -> (r: Result<Context, OperationError>)
    ensures
        match spec_parse_line(line@) {
            Some(v) => r matches Ok(c) && c@ == v,
            None => r matches Err(e) && e == OperationError::MalformedContextLine,
        },
{
    let n = line.unicode_len();
    let c1 = match find_char_from(line, ':', 0) {
        Some(i) => i,
        None => {
            return Err(OperationError::MalformedContextLine);
        },
    };
    let c2 = match find_char_from(line, ':', c1 + 1) {
        Some(i) => i,
        None => {
            return Err(OperationError::MalformedContextLine);
        },
    };
    let c3 = match find_char_from(line, ':', c2 + 1) {
        Some(i) => i,
        None => {
            return Err(OperationError::MalformedContextLine);
        },
    };
    let ghost path = line@.subrange(0, c1 as int);
    if c1 == 0 || line.get_char(0) != '/' || !range_all(line, 1, c1, CharClass::Name) {
        proof {
            if valid_path(path) {
                assert(path[0] == line@[0]);
                assert forall|j: int| 1 <= j < c1 implies is_name_char(line@[j]) by {
                    assert(path[j] == line@[j]);
                }
            }
        }
        return Err(OperationError::MalformedContextLine);
    }
    proof {
        assert(path[0] == line@[0]);
        assert forall|j: int| 1 <= j < path.len() implies is_name_char(path[j]) by {
            assert(path[j] == line@[j]);
        }
        assert(valid_path(path));
    }
    let is_running = range_matches(line, c1 + 1, c2, "running");
    let is_stopped = range_matches(line, c1 + 1, c2, "stopped");
    if !is_running && !is_stopped {
        return Err(OperationError::MalformedContextLine);
    }
    let status = if is_running {
        ContextStatus::Running
    } else {
        ContextStatus::Stopped
    };
    let sessions = match parse_u32_range(line, c2 + 1, c3) {
        Some(v) => v,
        None => {
            return Err(OperationError::MalformedContextLine);
        },
    };
    let path_string = String::from_str(line.substring_char(0, c1));
    match find_char_from(line, '#', c3 + 1) {
        None => {
            let ghost dir = line@.subrange(c3 as int + 1, line@.len() as int);
            if c3 + 1 == n || !range_all(line, c3 + 1, n, CharClass::Name) {
                proof {
                    if valid_directory(dir) {
                        assert(dir.len() >= 1);
                        assert forall|j: int| c3 + 1 <= j < n implies is_name_char(line@[j]) by {
                            assert(dir[j - (c3 + 1)] == line@[j]);
                        }
                    }
                }
                return Err(OperationError::MalformedContextLine);
            }
            proof {
                assert forall|j: int| 0 <= j < dir.len() implies is_name_char(dir[j]) by {
                    assert(dir[j] == line@[j + c3 + 1]);
                }
                assert(valid_directory(dir));
            }
            let dir_string = String::from_str(line.substring_char(c3 + 1, n));
            let c = Context::new(path_string, status, sessions, dir_string, None);
            proof {
                assert(spec_parse_fields(line@, c1 as int, c2 as int, c3 as int) == Some(c@));
            }
            Ok(c)
        },
        Some(h) => {
            if h + 1 >= n || line.get_char(h + 1) != '#' {
                return Err(OperationError::MalformedContextLine);
            }
            let ghost dir = line@.subrange(c3 as int + 1, h as int);
            let ghost ver = line@.subrange(h as int + 2, line@.len() as int);
            if c3 + 1 == h || !range_all(line, c3 + 1, h, CharClass::Name) {
                proof {
                    if valid_directory(dir) {
                        assert(dir.len() >= 1);
                        assert forall|j: int| c3 + 1 <= j < h implies is_name_char(line@[j]) by {
                            assert(dir[j - (c3 + 1)] == line@[j]);
                        }
                    }
                }
                return Err(OperationError::MalformedContextLine);
            }
            if h + 2 > n || !range_all(line, h + 2, n, CharClass::Alnum) {
                proof {
                    if valid_version(ver) {
                        assert(ver.len() >= 1);
                        assert forall|j: int| h + 2 <= j < n implies is_alnum_char(line@[j]) by {
                            assert(ver[j - (h + 2)] == line@[j]);
                        }
                    }
                }
                return Err(OperationError::MalformedContextLine);
            }
            if h + 2 == n {
                proof {
                    assert(!valid_version(ver));
                }
                return Err(OperationError::MalformedContextLine);
            }
            proof {
                assert forall|j: int| 0 <= j < dir.len() implies is_name_char(dir[j]) by {
                    assert(dir[j] == line@[j + c3 + 1]);
                }
                assert(valid_directory(dir));
                assert forall|j: int| 0 <= j < ver.len() implies is_alnum_char(ver[j]) by {
                    assert(ver[j] == line@[j + h + 2]);
                }
                assert(valid_version(ver));
            }
            let dir_string = String::from_str(line.substring_char(c3 + 1, h));
            let ver_string = String::from_str(line.substring_char(h + 2, n));
            let c = Context::new(path_string, status, sessions, dir_string, Some(ver_string));
            proof {
                assert(spec_parse_fields(line@, c1 as int, c2 as int, c3 as int) == Some(c@));
            }
            Ok(c)
        },
    }
}
} // verus!
