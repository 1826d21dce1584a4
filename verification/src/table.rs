//! The console table for `list`: a header row and one row per
//! context, in the tool's fixed column widths.

use vstd::prelude::*;

use crate::context::Context;
use crate::context::ContextView;
use crate::context::status_str;
use crate::context::status_text;
use crate::text::dec_digits;
use crate::text::dec_string;
use crate::text::pad_left_spaces;
use crate::text::pad_right_spaces;
use crate::text::spec_pad_left;
use crate::text::spec_pad_right;

verus! {

pub open spec fn spec_table_sep() -> Seq<char> {
    " | "@
}

/// What the version column shows: the tag, or `N/A` for a context
/// deployed without one.
pub open spec fn spec_version_cell(v: Option<Seq<char>>) -> Seq<char> {
    match v {
        Some(t) => t,
        None => "N/A"@,
    }
}

/// One table row: path, status, session count, directory and version,
/// each padded to its column, the count right-aligned.
pub open spec fn spec_context_row(c: ContextView) -> Seq<char> {
    spec_pad_right(c.context_path, 20, ' ') + spec_table_sep() + spec_pad_right(
        status_text(c.status),
        7,
        ' ',
    ) + spec_table_sep() + spec_pad_left(dec_digits(c.alive_session as int), 7, ' ')
        + spec_table_sep() + spec_pad_right(c.context_directory, 20, ' ') + spec_table_sep()
        + spec_pad_right(spec_version_cell(c.context_version), 10, ' ')
}

pub open spec fn spec_table_header() -> Seq<char> {
    spec_pad_right("context path"@, 20, ' ') + spec_table_sep() + spec_pad_right("status"@, 7, ' ')
        + spec_table_sep() + spec_pad_right("session"@, 7, ' ') + spec_table_sep()
        + spec_pad_right("directory"@, 20, ' ') + spec_table_sep() + spec_pad_right(
        "version"@,
        10,
        ' ',
    )
}

/// Format the table row of one context.
pub fn format_context_row(c: &Context) -> (r: String)
    ensures
        r@ == spec_context_row(c@),
{
    let mut out = pad_right_spaces(c.context_path.as_str(), 20);
    out.append(" | ");
    let st = pad_right_spaces(status_str(c.status), 7);
    out.append(st.as_str());
    out.append(" | ");
    let sess = dec_string(c.alive_session);
    let sess = pad_left_spaces(sess.as_str(), 7);
    out.append(sess.as_str());
    out.append(" | ");
    let dir = pad_right_spaces(c.context_directory.as_str(), 20);
    out.append(dir.as_str());
    out.append(" | ");
    let ver = match &c.context_version {
        Some(v) => pad_right_spaces(v.as_str(), 10),
        None => pad_right_spaces("N/A", 10),
    };
    out.append(ver.as_str());
    out
}

/// Format the table header row.
pub fn table_header() -> (r: String)
    ensures
        r@ == spec_table_header(),
{
    let mut out = pad_right_spaces("context path", 20);
    out.append(" | ");
    let st = pad_right_spaces("status", 7);
    out.append(st.as_str());
    out.append(" | ");
    let sess = pad_right_spaces("session", 7);
    out.append(sess.as_str());
    out.append(" | ");
    let dir = pad_right_spaces("directory", 20);
    out.append(dir.as_str());
    out.append(" | ");
    let ver = pad_right_spaces("version", 10);
    out.append(ver.as_str());
    out
}

/// Format the whole table: the header, then one row per context, in
/// list order.
pub fn format_context_table(contexts: &Vec<Context>) -> (r: Vec<String>)
    ensures
        r.deep_view().len() == contexts.deep_view().len() + 1,
        r.deep_view()[0] == spec_table_header(),
        forall|i: int|
            0 <= i < contexts.deep_view().len() ==> r.deep_view()[i + 1] == spec_context_row(
                contexts.deep_view()[i],
            ),
{
    let mut out: Vec<String> = Vec::new();
    out.push(table_header());
    let mut i: usize = 0;
    while i < contexts.len()
        invariant
            out@.len() == i + 1,
            i <= contexts.len(),
            out.deep_view()[0] == spec_table_header(),
            forall|j: int|
                0 <= j < i ==> out.deep_view()[j + 1] == spec_context_row(
                    contexts.deep_view()[j],
                ),
        decreases contexts.len() - i,
    {
        let row = format_context_row(&contexts[i]);
        out.push(row);
        i += 1;
    }
    out
}

} // verus!
