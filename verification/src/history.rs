//! The command history: a list of entered lines, appended after every
//! non-empty line, replaced wholesale by `history -r`, and printed as a
//! numbered listing.
//!
//! The list is a plain value threaded through the callers; the driver owns
//! one for the lifetime of the process.

use vstd::prelude::*;
use vstd::string::*;
use crate::text::{decimal_string, pad_left, push_char, spec_decimal, spec_pad_left};

verus! {

/// Appends one command line to the history list.
pub fn add_to_history(history: &mut Vec<String>, command: &str)
    ensures
        final(history).deep_view() == old(history).deep_view().push(command@),
{
    let entry = command.to_owned();
    history.push(entry);
    proof {
        assert(history.deep_view() =~= old(history).deep_view().push(command@));
    }
}

/// A copy of the whole history list, oldest entry first.
pub fn get_history(history: &Vec<String>) -> (r: Vec<String>)
    ensures
        r.deep_view() == history.deep_view(),
{
    let mut out: Vec<String> = Vec::new();
    let mut i: usize = 0;
    proof {
        assert(out.deep_view() =~= history.deep_view().take(0));
    }
    while i < history.len()
        invariant
            i <= history@.len(),
            out.deep_view() == history.deep_view().take(i as int),
            history.deep_view().len() == history@.len(),
        decreases history@.len() - i,
    {
        let ghost pre_out = out.deep_view();
        out.push(history[i].clone());
        proof {
            assert(history.deep_view()[i as int] == history@[i as int]@);
            assert(out.deep_view() =~~= pre_out.push(history.deep_view()[i as int]));
            assert(history.deep_view().take(i + 1) =~~= pre_out.push(
                history.deep_view()[i as int],
            ));
        }
        i = i + 1;
    }
    proof {
        assert(history.deep_view().take(history@.len() as int) =~= history.deep_view());
    }
    out
}

/// State of the line scan over a file's contents.
pub struct LineState {
    pub cur: Seq<char>,
    pub lines: Seq<Seq<char>>,
}

/// One step of the line scan: a newline ends the current line, which is kept
/// only when non-empty.
pub open spec fn line_step(st: LineState, c: char) -> LineState {
    if c == '\n' {
        LineState {
            cur: Seq::empty(),
            lines: if st.cur.len() > 0 {
                st.lines.push(st.cur)
            } else {
                st.lines
            },
        }
    } else {
        LineState { cur: st.cur.push(c), lines: st.lines }
    }
}

/// The line scan over all of `s`.
pub open spec fn line_fold(st: LineState, s: Seq<char>) -> LineState
    decreases s.len(),
{
    if s.len() == 0 {
        st
    } else {
        line_step(line_fold(st, s.drop_last()), s.last())
    }
}

/// The non-empty lines of `s`, in order.
pub open spec fn nonblank_lines(s: Seq<char>) -> Seq<Seq<char>> {
    let st = line_fold(LineState { cur: Seq::empty(), lines: Seq::empty() }, s);
    if st.cur.len() > 0 {
        st.lines.push(st.cur)
    } else {
        st.lines
    }
}

/// Replaces the history list with the non-empty lines of `content`, as
/// `history -r` does once the driver has read the file.
pub fn load_history_from_content(history: &mut Vec<String>, content: &str)
    ensures
        final(history).deep_view() == nonblank_lines(content@),
{
    let len = content.unicode_len();
    let mut cur = String::new();
    let mut lines: Vec<String> = Vec::new();
    proof {
        assert(content@.take(0) =~= Seq::<char>::empty());
        assert(lines.deep_view() =~= Seq::<Seq<char>>::empty());
    }
    let mut i: usize = 0;
    while i < len
        invariant
            len == content@.len(),
            i <= len,
            line_fold(
                LineState { cur: Seq::empty(), lines: Seq::empty() },
                content@.take(i as int),
            ) == (LineState { cur: cur@, lines: lines.deep_view() }),
        decreases len - i,
    {
        let c = content.get_char(i);
        proof {
            assert(content@.take(i + 1).drop_last() =~= content@.take(i as int));
            assert(content@.take(i + 1).last() == content@[i as int]);
        }
        let ghost pre = LineState { cur: cur@, lines: lines.deep_view() };
        if c == '\n' {
            if cur.as_str().unicode_len() > 0 {
                let done = cur;
                cur = String::new();
                lines.push(done);
                proof {
                    assert(lines.deep_view() =~= pre.lines.push(pre.cur));
                }
            } else {
                cur = String::new();
            }
        } else {
            push_char(&mut cur, c);
        }
        i = i + 1;
    }
    proof {
        assert(content@.take(len as int) =~= content@);
    }
    if cur.as_str().unicode_len() > 0 {
        let ghost pre = lines.deep_view();
        lines.push(cur);
        proof {
            assert(lines.deep_view() =~= pre.push(
                line_fold(
                    LineState { cur: Seq::empty(), lines: Seq::empty() },
                    content@,
                ).cur,
            ));
        }
    }
    *history = lines;
}

/// One row of the history listing: the 1-based index right-aligned in five
/// columns, two spaces, the entry, a newline.
pub open spec fn history_line(index: nat, entry: Seq<char>) -> Seq<char> {
    spec_pad_left(spec_decimal(index), 5) + "  "@ + entry + "\n"@
}

/// The whole history listing, oldest entry first.
pub open spec fn spec_history_listing(entries: Seq<Seq<char>>) -> Seq<char>
    decreases entries.len(),
{
    if entries.len() == 0 {
        Seq::empty()
    } else {
        spec_history_listing(entries.drop_last()) + history_line(
            entries.len() as nat,
            entries.last(),
        )
    }
}

/// Renders the history listing that the `history` builtin prints.
pub fn format_history(entries: &Vec<String>) -> (r: String)
    ensures
        r@ == spec_history_listing(entries.deep_view()),
{
    let ghost dv = entries.deep_view();
    let mut out = String::new();
    proof {
        assert(out@ =~= spec_history_listing(dv.take(0)));
    }
    let mut i: usize = 0;
    while i < entries.len()
        invariant
            dv == entries.deep_view(),
            dv.len() == entries@.len(),
            i <= entries@.len(),
            out@ == spec_history_listing(dv.take(i as int)),
        decreases entries@.len() - i,
    {
        let number = decimal_string((i as u64) + 1);
        let padded = pad_left(number.as_str(), 5);
        out.append(padded.as_str());
        out.append("  ");
        out.append(entries[i].as_str());
        out.append("\n");
        proof {
            assert(dv.take(i + 1).drop_last() =~= dv.take(i as int));
            assert(dv.take(i + 1).last() == dv[i as int]);
            assert(dv[i as int] == entries@[i as int]@);
            assert(out@ =~= spec_history_listing(dv.take(i as int)) + history_line(
                (i + 1) as nat,
                dv[i as int],
            ));
        }
        i = i + 1;
    }
    proof {
        assert(dv.take(entries@.len() as int) =~= dv);
    }
    out
}

} // verus!
