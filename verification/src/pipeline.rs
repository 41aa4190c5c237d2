//! The pipeline splitter: partitions a raw input line on the pipe character
//! where it stands outside any quoting context.
//!
//! The splitter tracks the same quoting state as the lexer, so a pipe inside
//! quotes or behind a backslash is ordinary text.  Fragments are trimmed of
//! surrounding blanks; an empty fragment — a leading or trailing pipe, or
//! two pipes in a row — is a parse error.

use vstd::prelude::*;
use vstd::string::*;
use crate::errors::{ShellError, ShellResult};
use crate::lexer::{mode_step, mode_step_exec, LexMode, LexModeExec};
use crate::text::{push_char, spec_trim, trim};

verus! {

/// State of the splitting scan: quoting context, the fragment being built,
/// and the fragments already cut off.
pub struct SplitState {
    pub mode: LexMode,
    pub cur: Seq<char>,
    pub frags: Seq<Seq<char>>,
}

/// The scan state before any character has been read.
pub open spec fn split_init() -> SplitState {
    SplitState { mode: LexMode::Normal, cur: Seq::empty(), frags: Seq::empty() }
}

/// One step of the splitting scan: an unquoted pipe cuts the current
/// fragment off; every other character joins it.
pub open spec fn split_step(st: SplitState, c: char) -> SplitState {
    if st.mode is Normal && c == '|' {
        SplitState { mode: LexMode::Normal, cur: Seq::empty(), frags: st.frags.push(st.cur) }
    } else {
        SplitState { mode: mode_step(st.mode, c), cur: st.cur.push(c), frags: st.frags }
    }
}

/// The scan state after reading all of `s`, starting from `st`.
pub open spec fn split_fold(st: SplitState, s: Seq<char>) -> SplitState
    decreases s.len(),
{
    if s.len() == 0 {
        st
    } else {
        split_step(split_fold(st, s.drop_last()), s.last())
    }
}

/// The raw (untrimmed) fragments of `s`: what stands between unquoted pipes.
/// A line without an unquoted pipe is one fragment.
pub open spec fn raw_fragments(s: Seq<char>) -> Seq<Seq<char>> {
    let st = split_fold(split_init(), s);
    st.frags.push(st.cur)
}

/// Every fragment trimmed of surrounding blanks.
pub open spec fn trim_all(frags: Seq<Seq<char>>) -> Seq<Seq<char>> {
    frags.map_values(|f: Seq<char>| spec_trim(f))
}

/// Whether some fragment is empty.
pub open spec fn has_blank_fragment(frags: Seq<Seq<char>>) -> bool {
    exists|i: int| 0 <= i < frags.len() && #[trigger] frags[i].len() == 0
}

/// The stage lines of `s`: the raw fragments trimmed, or nothing when any
/// fragment is blank.
pub open spec fn spec_split_pipeline(s: Seq<char>) -> Option<Seq<Seq<char>>> {
    let frags = trim_all(raw_fragments(s));
    if has_blank_fragment(frags) {
        Option::None
    } else {
        Option::Some(frags)
    }
}

/// The splitting scan of a concatenation is the scan of the parts in order.
proof fn lemma_split_fold_concat(st: SplitState, a: Seq<char>, b: Seq<char>)
    ensures
        split_fold(st, a + b) == split_fold(split_fold(st, a), b),
    decreases b.len(),
{
    if b.len() == 0 {
        assert(a + b =~= a);
    } else {
        lemma_split_fold_concat(st, a, b.drop_last());
        assert((a + b).drop_last() =~= a + b.drop_last());
        assert((a + b).last() == b.last());
    }
}

/// The scan never discards a fragment already cut off.
proof fn lemma_split_frags_monotone(st: SplitState, s: Seq<char>)
    ensures
        split_fold(st, s).frags.len() >= st.frags.len(),
    decreases s.len(),
{
    if s.len() > 0 {
        lemma_split_frags_monotone(st, s.drop_last());
    }
}

/// Whether the line holds an unquoted pipe, so that the executor must treat
/// it as a pipeline of several stages.
pub fn is_pipeline(input: &str) -> (r: bool)
    ensures
        r == (raw_fragments(input@).len() > 1),
{
    let len = input.unicode_len();
    let mut mode = LexModeExec::Normal;
    proof {
        assert(input@.take(0) =~= Seq::<char>::empty());
    }
    let mut i: usize = 0;
    while i < len
        invariant
            len == input@.len(),
            i <= len,
            split_fold(split_init(), input@.take(i as int)).mode == mode.view(),
            split_fold(split_init(), input@.take(i as int)).frags.len() == 0,
        decreases len - i,
    {
        let c = input.get_char(i);
        proof {
            assert(input@.take(i + 1).drop_last() =~= input@.take(i as int));
            assert(input@.take(i + 1).last() == input@[i as int]);
        }
        let hit = match mode {
            LexModeExec::Normal => c == '|',
            _ => false,
        };
        if hit {
            proof {
                assert(split_fold(split_init(), input@.take(i + 1)).frags.len() >= 1);
                assert(input@.take(i + 1) + input@.skip(i + 1) =~= input@);
                lemma_split_fold_concat(split_init(), input@.take(i + 1), input@.skip(i + 1));
                lemma_split_frags_monotone(
                    split_fold(split_init(), input@.take(i + 1)),
                    input@.skip(i + 1),
                );
            }
            return true;
        }
        mode = mode_step_exec(mode, c);
        i = i + 1;
    }
    proof {
        assert(input@.take(len as int) =~= input@);
    }
    false
}

/// Splits `input` into trimmed stage lines on unquoted pipes.
///
/// Returns the fragments exactly as [`spec_split_pipeline`] describes, and
/// an `InputError` exactly when some fragment is blank.
pub fn split_pipeline(input: &str) -> (r: ShellResult<Vec<String>>)
    ensures
        r is Ok <==> spec_split_pipeline(input@) is Some,
        r matches Ok(v) ==> spec_split_pipeline(input@) == Option::Some(v.deep_view()),
        r matches Err(e) ==> e matches ShellError::InputError(m) && m@ == "empty pipeline stage"@,
{
    let len = input.unicode_len();
    let mut mode = LexModeExec::Normal;
    let mut cur = String::new();
    let mut frags: Vec<String> = Vec::new();
    proof {
        assert(input@.take(0) =~= Seq::<char>::empty());
        assert(frags.deep_view() =~= Seq::<Seq<char>>::empty());
    }
    let mut i: usize = 0;
    while i < len
        invariant
            len == input@.len(),
            i <= len,
            split_fold(split_init(), input@.take(i as int)) == (SplitState {
                mode: mode.view(),
                cur: cur@,
                frags: frags.deep_view(),
            }),
        decreases len - i,
    {
        let c = input.get_char(i);
        proof {
            assert(input@.take(i + 1).drop_last() =~= input@.take(i as int));
            assert(input@.take(i + 1).last() == input@[i as int]);
        }
        let ghost pre = SplitState { mode: mode.view(), cur: cur@, frags: frags.deep_view() };
        let hit = match mode {
            LexModeExec::Normal => c == '|',
            _ => false,
        };
        if hit {
            let done = cur;
            cur = String::new();
            frags.push(done);
            proof {
                assert(frags.deep_view() =~= pre.frags.push(pre.cur));
            }
        } else {
            push_char(&mut cur, c);
            mode = mode_step_exec(mode, c);
        }
        i = i + 1;
    }
    proof {
        assert(input@.take(len as int) =~= input@);
    }
    frags.push(cur);
    proof {
        assert(frags.deep_view() =~= raw_fragments(input@));
    }
    let ghost raw = raw_fragments(input@);
    let mut out: Vec<String> = Vec::new();
    let mut k: usize = 0;
    proof {
        assert(out.deep_view() =~= Seq::<Seq<char>>::empty());
        assert(trim_all(raw).take(0) =~= Seq::<Seq<char>>::empty());
    }
    while k < frags.len()
        invariant
            raw == raw_fragments(input@),
            raw == frags.deep_view(),
            raw.len() == frags@.len(),
            k <= frags@.len(),
            out.deep_view() == trim_all(raw).take(k as int),
            forall|j: int| 0 <= j < k ==> spec_trim(#[trigger] raw[j]).len() > 0,
        decreases frags@.len() - k,
    {
        let piece = trim(frags[k].as_str());
        proof {
            assert(raw[k as int] == frags@[k as int]@);
            assert(trim_all(raw)[k as int] == spec_trim(raw[k as int]));
        }
        if piece.as_str().unicode_len() == 0 {
            proof {
                assert(trim_all(raw).len() == raw.len());
                assert(trim_all(raw)[k as int].len() == 0);
                assert(has_blank_fragment(trim_all(raw)));
                assert(spec_split_pipeline(input@) is None);
            }
            return Err(ShellError::InputError("empty pipeline stage".to_owned()));
        }
        out.push(piece);
        proof {
            assert(trim_all(raw).take(k + 1) =~= trim_all(raw).take(k as int).push(
                trim_all(raw)[k as int],
            ));
            assert(out.deep_view() =~= trim_all(raw).take(k + 1));
        }
        k = k + 1;
    }
    proof {
        assert(trim_all(raw).take(frags@.len() as int) =~= trim_all(raw));
        assert(!has_blank_fragment(trim_all(raw))) by {
            assert(forall|j: int|
                0 <= j < trim_all(raw).len() ==> #[trigger] trim_all(raw)[j].len() > 0);
        }
    }
    Ok(out)
}

} // verus!
