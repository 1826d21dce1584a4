//! The context list parser: splitting a `list` body into lines on
//! `\r\n` or a bare `\r`, discarding the header line, and decoding
//! every remaining non-empty line as a context record.

use vstd::prelude::*;

use crate::context::Context;
use crate::context::ContextView;
use crate::context::lemma_parse_line_no_cr;
use crate::context::spec_parse_line;
use crate::error::OperationError;
use crate::text::crlf;

verus! {

// ---------------------------------------------------------------------
// Splitting a body into lines.
// ---------------------------------------------------------------------

/// The pieces of `s` between line separators, in order, where a
/// separator is `\r\n` or a bare `\r`. Splitting the empty body gives
/// one empty piece, as splitting on separators always gives one more
/// piece than there are separators.
pub open spec fn spec_split_lines(s: Seq<char>) -> Seq<Seq<char>>
    decreases s.len(),
{
    if s.len() == 0 {
        seq![Seq::<char>::empty()]
    } else if s[0] == '\r' {
        if s.len() >= 2 && s[1] == '\n' {
            seq![Seq::<char>::empty()] + spec_split_lines(s.skip(2))
        } else {
            seq![Seq::<char>::empty()] + spec_split_lines(s.skip(1))
        }
    } else {
        let rest = spec_split_lines(s.skip(1));
        seq![seq![s[0]] + rest[0]] + rest.skip(1)
    }
}

pub proof fn lemma_split_nonempty(s: Seq<char>)
    ensures
        spec_split_lines(s).len() >= 1,
    decreases s.len(),
{
    if s.len() == 0 {
    } else if s[0] == '\r' {
    } else {
        lemma_split_nonempty(s.skip(1));
    }
}

/// A piece without carriage returns splits into itself alone.
pub proof fn lemma_split_no_cr(s: Seq<char>)
    requires
        forall|j: int| 0 <= j < s.len() ==> s[j] != '\r',
    ensures
        spec_split_lines(s) == seq![s],
    decreases s.len(),
{
    if s.len() == 0 {
        assert(spec_split_lines(s) =~~= seq![s]);
    } else {
        lemma_split_no_cr(s.skip(1));
        assert(spec_split_lines(s) =~~= seq![s]);
    }
}

/// Prepending a separator-free prefix to a body extends the body's
/// first line and leaves the remaining lines alone.
pub proof fn lemma_split_prefix_no_cr(a: Seq<char>, rest: Seq<char>)
    requires
        forall|j: int| 0 <= j < a.len() ==> a[j] != '\r',
    ensures
        spec_split_lines(a + rest) == seq![a + spec_split_lines(rest)[0]] + spec_split_lines(
            rest,
        ).skip(1),
    decreases a.len(),
{
    lemma_split_nonempty(rest);
    if a.len() == 0 {
        assert(a + rest =~= rest);
        assert(spec_split_lines(a + rest) =~~= seq![a + spec_split_lines(rest)[0]]
            + spec_split_lines(rest).skip(1));
    } else {
        let s = a + rest;
        assert(s[0] == a[0]);
        assert(s.skip(1) =~= a.skip(1) + rest);
        lemma_split_prefix_no_cr(a.skip(1), rest);
        lemma_split_nonempty(a.skip(1) + rest);
        assert(spec_split_lines(s) =~~= seq![a + spec_split_lines(rest)[0]] + spec_split_lines(
            rest,
        ).skip(1));
    }
}

/// Appending a separator and a separator-free line to a body appends
/// exactly that one line to the split.
pub proof fn lemma_split_append_line(a: Seq<char>, b: Seq<char>)
    requires
        forall|j: int| 0 <= j < b.len() ==> b[j] != '\r',
    ensures
        spec_split_lines(a + crlf() + b) == spec_split_lines(a) + seq![b],
    decreases a.len(),
{
    let s = a + crlf() + b;
    if a.len() == 0 {
        assert(s[0] == '\r' && s.len() >= 2 && s[1] == '\n');
        assert(s.skip(2) =~= b);
        lemma_split_no_cr(b);
        assert(spec_split_lines(s) =~~= spec_split_lines(a) + seq![b]);
    } else if a[0] == '\r' {
        if a.len() >= 2 && a[1] == '\n' {
            assert(s[0] == '\r' && s[1] == '\n');
            assert(s.skip(2) =~= a.skip(2) + crlf() + b);
            lemma_split_append_line(a.skip(2), b);
            assert(spec_split_lines(s) =~~= spec_split_lines(a) + seq![b]);
        } else {
            assert(s[0] == '\r');
            assert(s.len() >= 2);
            if a.len() == 1 {
                assert(s[1] == crlf()[0]);
                assert(s[1] != '\n');
            } else {
                assert(s[1] == a[1]);
                assert(s[1] != '\n');
            }
            assert(s.skip(1) =~= a.skip(1) + crlf() + b);
            lemma_split_append_line(a.skip(1), b);
            assert(spec_split_lines(s) =~~= spec_split_lines(a) + seq![b]);
        }
    } else {
        assert(s[0] == a[0] && a[0] != '\r');
        assert(s.skip(1) =~= a.skip(1) + crlf() + b);
        lemma_split_append_line(a.skip(1), b);
        lemma_split_nonempty(a.skip(1));
        let ra = spec_split_lines(a.skip(1));
        assert(spec_split_lines(s.skip(1)) == ra + seq![b]);
        assert((ra + seq![b])[0] == ra[0]);
        assert((ra + seq![b]).skip(1) =~= ra.skip(1) + seq![b]);
        assert(spec_split_lines(s) =~~= spec_split_lines(a) + seq![b]);
    }
}

/// Split `body` into its lines.
pub fn split_lines(body: &str) -> (r: Vec<String>)
    ensures
        r.deep_view() == spec_split_lines(body@),
{
    let n = body.unicode_len();
    let mut acc: Vec<String> = Vec::new();
    let mut start: usize = 0;
    let mut i: usize = 0;
    proof {
        assert(acc.deep_view() =~= Seq::<Seq<char>>::empty());
        assert(body@.skip(0) =~= body@);
    }
    while i < n
        invariant
            start <= i <= n,
            n == body@.len(),
            forall|j: int| start <= j < i ==> body@[j] != '\r',
            spec_split_lines(body@) == acc.deep_view() + spec_split_lines(
                body@.skip(start as int),
            ),
        decreases n - i,
    {
        if body.get_char(i) == '\r' {
            let ghost old_acc = acc.deep_view();
            let line = body.substring_char(start, i);
            acc.push(String::from_str(line));
            let sep2 = i + 1 < n && body.get_char(i + 1) == '\n';
            let newstart = if sep2 {
                i + 2
            } else {
                i + 1
            };
            proof {
                let tail = body@.skip(i as int);
                assert(body@.skip(start as int) =~= line@ + tail);
                lemma_split_prefix_no_cr(line@, tail);
                assert(tail[0] == '\r');
                if sep2 {
                    assert(tail.len() >= 2 && tail[1] == '\n');
                    assert(tail.skip(2) =~= body@.skip(newstart as int));
                } else {
                    if i + 1 < n {
                        assert(tail[1] == body@[i + 1]);
                    }
                    assert(!(tail.len() >= 2 && tail[1] == '\n'));
                    assert(tail.skip(1) =~= body@.skip(newstart as int));
                }
                lemma_split_nonempty(body@.skip(newstart as int));
                assert(spec_split_lines(tail) == seq![Seq::<char>::empty()] + spec_split_lines(
                    body@.skip(newstart as int),
                ));
                assert(spec_split_lines(body@.skip(start as int)) =~= seq![line@]
                    + spec_split_lines(body@.skip(newstart as int)));
                assert(acc.deep_view() =~= old_acc + seq![line@]);
                assert(spec_split_lines(body@) =~= acc.deep_view() + spec_split_lines(
                    body@.skip(newstart as int),
                ));
            }
            start = newstart;
            i = newstart;
        } else {
            i += 1;
        }
    }
    let ghost old_acc = acc.deep_view();
    let line = body.substring_char(start, n);
    acc.push(String::from_str(line));
    proof {
        assert(line@ =~= body@.skip(start as int));
        lemma_split_no_cr(line@);
        assert(acc.deep_view() =~= old_acc + seq![line@]);
        assert(acc.deep_view() =~= spec_split_lines(body@));
    }
    acc
}

// ---------------------------------------------------------------------
// Parsing the data lines.
// ---------------------------------------------------------------------

/// Decode a sequence of data lines: empty lines are skipped, every
/// other line must decode as a context record, in order.
pub open spec fn spec_parse_lines(ls: Seq<Seq<char>>) -> Option<Seq<ContextView>>
    decreases ls.len(),
{
    if ls.len() == 0 {
        Some(Seq::<ContextView>::empty())
    } else if ls[0].len() == 0 {
        spec_parse_lines(ls.drop_first())
    } else {
        match (spec_parse_line(ls[0]), spec_parse_lines(ls.drop_first())) {
            (Some(c), Some(cs)) => Some(seq![c] + cs),
            _ => None,
        }
    }
}

/// Decoding distributes over concatenation of line sequences.
pub proof fn lemma_parse_lines_append(a: Seq<Seq<char>>, b: Seq<Seq<char>>)
    ensures
        spec_parse_lines(a + b) == match (spec_parse_lines(a), spec_parse_lines(b)) {
            (Some(x), Some(y)) => Some(x + y),
            _ => None::<Seq<ContextView>>,
        },
    decreases a.len(),
{
    if a.len() == 0 {
        assert(a + b =~= b);
        match spec_parse_lines(b) {
            Some(y) => {
                assert(Seq::<ContextView>::empty() + y =~= y);
            },
            None => {},
        }
    } else {
        assert((a + b)[0] == a[0]);
        assert((a + b).drop_first() =~= a.drop_first() + b);
        lemma_parse_lines_append(a.drop_first(), b);
        match (spec_parse_line(a[0]), spec_parse_lines(a.drop_first()), spec_parse_lines(b)) {
            (Some(c), Some(x), Some(y)) => {
                if a[0].len() != 0 {
                    assert(seq![c] + (x + y) =~= (seq![c] + x) + y);
                }
            },
            _ => {},
        }
    }
}

/// How a whole `list` body decodes: its first line is discarded as the
/// header, and the remaining lines are decoded in order.
pub open spec fn spec_parse_list(body: Seq<char>) -> Option<Seq<ContextView>> {
    spec_parse_lines(spec_split_lines(body).drop_first())
}

/// Decode the body of `/manager/text/list` into the reported context
/// records, in the body's own order. A line that violates the grammar
/// makes the whole body malformed; the error is reported, never thrown.
pub fn parse_context_list(body: &str) -> (r: Result<Vec<Context>, OperationError>)
    ensures
        match spec_parse_list(body@) {
            Some(vs) => r matches Ok(cs) && cs.deep_view() == vs,
            None => r matches Err(e) && e == OperationError::MalformedContextLine,
        },
{
    let lines = split_lines(body);
    proof {
        lemma_split_nonempty(body@);
    }
    let ghost data = spec_split_lines(body@).drop_first();
    let mut cs: Vec<Context> = Vec::new();
    let mut k: usize = 1;
    proof {
        assert(cs.deep_view() =~= Seq::<ContextView>::empty());
        assert(data.subrange(0, 0) =~= Seq::<Seq<char>>::empty());
    }
    while k < lines.len()
        invariant
            1 <= k <= lines.len(),
            lines.deep_view() == spec_split_lines(body@),
            data == spec_split_lines(body@).drop_first(),
            spec_parse_lines(data.subrange(0, k - 1)) == Some(cs.deep_view()),
        decreases lines.len() - k,
    {
        let ghost done = data.subrange(0, k - 1);
        let ghost old_cs = cs.deep_view();
        proof {
            assert(data[k - 1] == lines.deep_view()[k as int]);
            assert(data.subrange(0, k as int) =~= done + seq![data[k - 1]]);
            assert(spec_parse_lines(Seq::<Seq<char>>::empty()) == Some(
                Seq::<ContextView>::empty(),
            ));
        }
        let line: &String = &lines[k];
        proof {
            assert(line@ == data[k - 1]);
        }
        if line.as_str().unicode_len() != 0 {
            match crate::context::parse_context_line(line.as_str()) {
                Ok(c) => {
                    cs.push(c);
                    proof {
                        lemma_parse_lines_append(done, seq![line@]);
                        assert(seq![line@].drop_first() =~= Seq::<Seq<char>>::empty());
                        assert(cs.deep_view() =~= old_cs + seq![c@]);
                        assert(old_cs + (seq![c@] + Seq::<ContextView>::empty()) =~= cs.deep_view());
                    }
                },
                Err(e) => {
                    proof {
                        lemma_parse_lines_append(done, data.skip(k - 1));
                        assert(data.skip(k - 1)[0] == data[k - 1]);
                        assert(done + data.skip(k - 1) =~= data);
                        assert(spec_parse_lines(data.skip(k - 1)) is None);
                    }
                    return Err(e);
                },
            }
        } else {
            proof {
                lemma_parse_lines_append(done, seq![line@]);
                assert(seq![line@].drop_first() =~= Seq::<Seq<char>>::empty());
                assert(old_cs + Seq::<ContextView>::empty() =~= old_cs);
            }
        }
        k += 1;
    }
    proof {
        assert(data.subrange(0, k - 1) =~= data);
    }
    Ok(cs)
}

// ---------------------------------------------------------------------
// Laws of the list parser.
// ---------------------------------------------------------------------

/// A `list` body assembled from a header line and data lines, one
/// CRLF separator before each data line.
pub open spec fn spec_list_body(header: Seq<char>, lines: Seq<Seq<char>>) -> Seq<char>
    decreases lines.len(),
{
    if lines.len() == 0 {
        header
    } else {
        spec_list_body(header, lines.drop_last()) + crlf() + lines.last()
    }
}

/// A body made of a header line and N lines that each decode as a
/// context record decodes as exactly those N records, in order.
pub proof fn lemma_list_parse(header: Seq<char>, lines: Seq<Seq<char>>, views: Seq<ContextView>)
    requires
        forall|j: int| 0 <= j < header.len() ==> header[j] != '\r',
        views.len() == lines.len(),
        forall|i: int| 0 <= i < lines.len() ==> lines[i].len() > 0,
        forall|i: int| 0 <= i < lines.len() ==> spec_parse_line(lines[i]) == Some(views[i]),
    ensures
        spec_parse_list(spec_list_body(header, lines)) == Some(views),
    decreases lines.len(),
{
    if lines.len() == 0 {
        lemma_split_no_cr(header);
        assert(spec_split_lines(header).drop_first() =~= Seq::<Seq<char>>::empty());
        assert(views =~= Seq::<ContextView>::empty());
    } else {
        let front = spec_list_body(header, lines.drop_last());
        let last = lines.last();
        lemma_list_parse(header, lines.drop_last(), views.drop_last());
        assert(spec_parse_line(last) == Some(views.last()));
        lemma_parse_line_no_cr(last);
        lemma_split_append_line(front, last);
        lemma_split_nonempty(front);
        let front_data = spec_split_lines(front).drop_first();
        assert(spec_split_lines(front + crlf() + last).drop_first() =~= front_data + seq![last]);
        lemma_parse_lines_append(front_data, seq![last]);
        assert(seq![last].drop_first() =~= Seq::<Seq<char>>::empty());
        assert(spec_parse_lines(Seq::<Seq<char>>::empty()) == Some(Seq::<ContextView>::empty()));
        assert(spec_parse_lines(seq![last]) == Some(seq![views.last()] + Seq::<
            ContextView,
        >::empty()));
        assert(views.drop_last() + (seq![views.last()] + Seq::<ContextView>::empty()) =~= views);
    }
}

/// A single line that violates the grammar poisons the whole sequence.
pub proof fn lemma_parse_lines_rejects(ls: Seq<Seq<char>>, i: int)
    requires
        0 <= i < ls.len(),
        ls[i].len() > 0,
        spec_parse_line(ls[i]) is None,
    ensures
        spec_parse_lines(ls) is None,
    decreases ls.len(),
{
    if i > 0 {
        assert(ls.drop_first()[i - 1] == ls[i]);
        lemma_parse_lines_rejects(ls.drop_first(), i - 1);
    }
}

/// A body one of whose non-empty data lines violates the grammar
/// decodes to nothing, so the parser reports it as an error rather
/// than inventing records.
pub proof fn lemma_list_parse_rejects(body: Seq<char>, i: int)
    requires
        ({
            let data = spec_split_lines(body).drop_first();
            0 <= i < data.len() && data[i].len() > 0 && spec_parse_line(data[i]) is None
        }),
    ensures
        spec_parse_list(body) is None,
{
    lemma_parse_lines_rejects(spec_split_lines(body).drop_first(), i);
}

} // verus!
