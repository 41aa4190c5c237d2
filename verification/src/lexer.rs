//! The word lexer: splits one line of input into argument words under the
//! shell quoting rules.
//!
//! Outside quotes, runs of blanks separate words and a backslash escapes the
//! next character.  A single-quoted region is literal throughout.  Inside a
//! double-quoted region a backslash escapes only `$`, backtick, `"`, `\` and
//! newline, and is kept literally before any other character.  Adjacent
//! quoted and unquoted fragments concatenate into a single word.
//!
//! The lexer is specified as a left fold of [`lex_step`] over the characters
//! of the line, so that the executable scanner can carry the specification
//! state through its loop invariant.

use vstd::prelude::*;
use vstd::string::*;
use crate::errors::ShellError;
use crate::text::{is_blank, push_char, spec_join};

verus! {

/// Quoting context of the scan at one point in the line.
pub enum LexMode {
    /// Outside any quote.
    Normal,
    /// Right after a backslash outside quotes.
    Escaped,
    /// Inside a single-quoted region.
    Single,
    /// Inside a double-quoted region.
    Double,
    /// Inside a double-quoted region, right after a backslash.
    DoubleEscaped,
}

/// The full state of the scan: quoting context, the word being built, whether
/// a word is in progress at all (so that `''` yields an empty word), and the
/// words already emitted.
pub struct LexState {
    pub mode: LexMode,
    pub started: bool,
    pub cur: Seq<char>,
    pub toks: Seq<Seq<char>>,
}

/// The scan state before any character has been read.
pub open spec fn lex_init() -> LexState {
    LexState { mode: LexMode::Normal, started: false, cur: Seq::empty(), toks: Seq::empty() }
}

/// The quoting context after reading `c` in context `m`.  The context never
/// depends on anything but the previous context and the character, which is
/// what lets the pipeline splitter track it on its own.
pub open spec fn mode_step(m: LexMode, c: char) -> LexMode {
    match m {
        LexMode::Normal => {
            if c == '\'' {
                LexMode::Single
            } else if c == '"' {
                LexMode::Double
            } else if c == '\\' {
                LexMode::Escaped
            } else {
                LexMode::Normal
            }
        },
        LexMode::Escaped => LexMode::Normal,
        LexMode::Single => if c == '\'' {
            LexMode::Normal
        } else {
            LexMode::Single
        },
        LexMode::Double => {
            if c == '"' {
                LexMode::Normal
            } else if c == '\\' {
                LexMode::DoubleEscaped
            } else {
                LexMode::Double
            }
        },
        LexMode::DoubleEscaped => LexMode::Double,
    }
}

/// Inside double quotes a backslash escapes exactly these characters.
pub open spec fn double_escapable(c: char) -> bool {
    c == '$' || c == '`' || c == '"' || c == '\\' || c == '\n'
}

/// One step of the scan.
pub open spec fn lex_step(st: LexState, c: char) -> LexState {
    match st.mode {
        LexMode::Normal => {
            if is_blank(c) {
                if st.started {
                    LexState {
                        mode: LexMode::Normal,
                        started: false,
                        cur: Seq::empty(),
                        toks: st.toks.push(st.cur),
                    }
                } else {
                    st
                }
            } else if c == '\'' || c == '"' || c == '\\' {
                LexState { mode: mode_step(st.mode, c), started: true, ..st }
            } else {
                LexState { mode: LexMode::Normal, started: true, cur: st.cur.push(c), ..st }
            }
        },
        LexMode::Escaped => LexState { mode: LexMode::Normal, cur: st.cur.push(c), ..st },
        LexMode::Single => {
            if c == '\'' {
                LexState { mode: LexMode::Normal, ..st }
            } else {
                LexState { mode: LexMode::Single, cur: st.cur.push(c), ..st }
            }
        },
        LexMode::Double => {
            if c == '"' {
                LexState { mode: LexMode::Normal, ..st }
            } else if c == '\\' {
                LexState { mode: LexMode::DoubleEscaped, ..st }
            } else {
                LexState { mode: LexMode::Double, cur: st.cur.push(c), ..st }
            }
        },
        LexMode::DoubleEscaped => {
            if double_escapable(c) {
                LexState { mode: LexMode::Double, cur: st.cur.push(c), ..st }
            } else {
                LexState { mode: LexMode::Double, cur: st.cur.push('\\').push(c), ..st }
            }
        },
    }
}

/// The scan state after reading all of `s`, starting from `st`.
pub open spec fn lex_fold(st: LexState, s: Seq<char>) -> LexState
    decreases s.len(),
{
    if s.len() == 0 {
        st
    } else {
        lex_step(lex_fold(st, s.drop_last()), s.last())
    }
}

/// The words of the line, read off the final scan state; none when the line
/// ends inside a quote or right after a backslash.
pub open spec fn lex_finish(st: LexState) -> Option<Seq<Seq<char>>> {
    match st.mode {
        LexMode::Normal => Some(
            if st.started {
                st.toks.push(st.cur)
            } else {
                st.toks
            },
        ),
        _ => None,
    }
}

/// What [`lex`] returns: the word-split vector of `s`, or nothing when the
/// quoting is invalid.
pub open spec fn spec_lex(s: Seq<char>) -> Option<Seq<Seq<char>>> {
    lex_finish(lex_fold(lex_init(), s))
}

/// A scan step changes the quoting context exactly as [`mode_step`] says.
pub proof fn lemma_lex_step_mode(st: LexState, c: char)
    ensures
        lex_step(st, c).mode == mode_step(st.mode, c),
{
}

/// The scan of a concatenation is the scan of the parts in order.
pub proof fn lemma_lex_fold_concat(st: LexState, a: Seq<char>, b: Seq<char>)
    ensures
        lex_fold(st, a + b) == lex_fold(lex_fold(st, a), b),
    decreases b.len(),
{
    if b.len() == 0 {
        assert(a + b =~= a);
    } else {
        lemma_lex_fold_concat(st, a, b.drop_last());
        assert((a + b).drop_last() =~= a + b.drop_last());
        assert((a + b).last() == b.last());
    }
}

/// Splits `line` into words under the shell quoting rules.
///
/// Returns the word vector exactly as [`spec_lex`] describes it, and
/// `InvalidQuoting` exactly when the line ends inside a quoted region or
/// right after a backslash.
pub fn lex(line: &str) -> (r: Result<Vec<String>, ShellError>)
    ensures
        r is Ok <==> spec_lex(line@) is Some,
        r matches Ok(toks) ==> spec_lex(line@) == Some(toks.deep_view()),
        r matches Err(e) ==> e is InvalidQuoting,
{
    let len = line.unicode_len();
    let mut mode = LexModeExec::Normal;
    let mut started = false;
    let mut cur = String::new();
    let mut toks: Vec<String> = Vec::new();
    proof {
        assert(line@.take(0) =~= Seq::<char>::empty());
        assert(toks.deep_view() =~= Seq::<Seq<char>>::empty());
    }
    let mut i: usize = 0;
    while i < len
        invariant
            len == line@.len(),
            i <= len,
            lex_fold(lex_init(), line@.take(i as int)) == (LexState {
                mode: mode.view(),
                started: started,
                cur: cur@,
                toks: toks.deep_view(),
            }),
        decreases len - i,
    {
        let c = line.get_char(i);
        proof {
            assert(line@.take(i + 1).drop_last() =~= line@.take(i as int));
            assert(line@.take(i + 1).last() == line@[i as int]);
        }
        let ghost pre = LexState {
            mode: mode.view(),
            started: started,
            cur: cur@,
            toks: toks.deep_view(),
        };
        match mode {
            LexModeExec::Normal => {
                if c == ' ' || c == '\t' {
                    if started {
                        let done = cur;
                        cur = String::new();
                        toks.push(done);
                        started = false;
                        proof {
                            assert(toks.deep_view() =~= pre.toks.push(pre.cur));
                        }
                    }
                } else if c == '\'' {
                    mode = LexModeExec::Single;
                    started = true;
                } else if c == '"' {
                    mode = LexModeExec::Double;
                    started = true;
                } else if c == '\\' {
                    mode = LexModeExec::Escaped;
                    started = true;
                } else {
                    push_char(&mut cur, c);
                    started = true;
                }
            },
            LexModeExec::Escaped => {
                push_char(&mut cur, c);
                mode = LexModeExec::Normal;
            },
            LexModeExec::Single => {
                if c == '\'' {
                    mode = LexModeExec::Normal;
                } else {
                    push_char(&mut cur, c);
                }
            },
            LexModeExec::Double => {
                if c == '"' {
                    mode = LexModeExec::Normal;
                } else if c == '\\' {
                    mode = LexModeExec::DoubleEscaped;
                } else {
                    push_char(&mut cur, c);
                }
            },
            LexModeExec::DoubleEscaped => {
                if c == '$' || c == '`' || c == '"' || c == '\\' || c == '\n' {
                    push_char(&mut cur, c);
                } else {
                    push_char(&mut cur, '\\');
                    push_char(&mut cur, c);
                }
                mode = LexModeExec::Double;
            },
        }
        proof {
            assert(lex_fold(lex_init(), line@.take(i + 1)) == lex_step(pre, line@[i as int]));
        }
        i = i + 1;
    }
    proof {
        assert(line@.take(len as int) =~= line@);
    }
    match mode {
        LexModeExec::Normal => {
            if started {
                toks.push(cur);
                proof {
                    assert(toks.deep_view() =~= lex_fold(lex_init(), line@).toks.push(
                        lex_fold(lex_init(), line@).cur,
                    ));
                }
            }
            Ok(toks)
        },
        _ => Err(ShellError::InvalidQuoting),
    }
}

/// Executable twin of [`LexMode`]; the pipeline splitter tracks it too.
#[derive(Clone, Copy)]
pub enum LexModeExec {
    Normal,
    Escaped,
    Single,
    Double,
    DoubleEscaped,
}

impl LexModeExec {
    pub open spec fn view(&self) -> LexMode {
        match self {
            LexModeExec::Normal => LexMode::Normal,
            LexModeExec::Escaped => LexMode::Escaped,
            LexModeExec::Single => LexMode::Single,
            LexModeExec::Double => LexMode::Double,
            LexModeExec::DoubleEscaped => LexMode::DoubleEscaped,
        }
    }
}

/// Steps the quoting context by one character, as [`mode_step`] says.
pub fn mode_step_exec(m: LexModeExec, c: char) -> (r: LexModeExec)
    ensures
        r.view() == mode_step(m.view(), c),
{
    match m {
        LexModeExec::Normal => {
            if c == '\'' {
                LexModeExec::Single
            } else if c == '"' {
                LexModeExec::Double
            } else if c == '\\' {
                LexModeExec::Escaped
            } else {
                LexModeExec::Normal
            }
        },
        LexModeExec::Escaped => LexModeExec::Normal,
        LexModeExec::Single => if c == '\'' {
            LexModeExec::Normal
        } else {
            LexModeExec::Single
        },
        LexModeExec::Double => {
            if c == '"' {
                LexModeExec::Normal
            } else if c == '\\' {
                LexModeExec::DoubleEscaped
            } else {
                LexModeExec::Double
            }
        },
        LexModeExec::DoubleEscaped => LexModeExec::Double,
    }
}

/// `t` wrapped in single quotes.
pub open spec fn sq_token(t: Seq<char>) -> Seq<char> {
    seq!['\''] + t + seq!['\'']
}

/// The words re-encoded under single quoting, separated by single spaces.
pub open spec fn sq_enc(toks: Seq<Seq<char>>) -> Seq<char> {
    spec_join(toks.map_values(|t: Seq<char>| sq_token(t)), ' ')
}

/// Scanning a quote-free sequence inside single quotes appends it to the
/// current word and changes nothing else.
proof fn lemma_fold_in_single(st: LexState, t: Seq<char>)
    requires
        st.mode is Single,
        forall|i: int| 0 <= i < t.len() ==> t[i] != '\'',
    ensures
        lex_fold(st, t) == (LexState { cur: st.cur + t, ..st }),
    decreases t.len(),
{
    if t.len() == 0 {
        assert(st.cur + t =~= st.cur);
        assert(lex_fold(st, t) =~= (LexState { cur: st.cur + t, ..st }));
    } else {
        lemma_fold_in_single(st, t.drop_last());
        assert(t.last() != '\'');
        assert((st.cur + t.drop_last()).push(t.last()) =~= st.cur + t);
    }
}

/// Scanning one single-quoted word from outside any quote appends it to the
/// current word and marks a word as started.
proof fn lemma_fold_sq_token(st: LexState, t: Seq<char>)
    requires
        st.mode is Normal,
        forall|i: int| 0 <= i < t.len() ==> t[i] != '\'',
    ensures
        lex_fold(st, sq_token(t)) == (LexState {
            mode: LexMode::Normal,
            started: true,
            cur: st.cur + t,
            toks: st.toks,
        }),
{
    let opened = LexState { mode: LexMode::Single, started: true, cur: st.cur, toks: st.toks };
    assert(lex_fold(st, seq!['\'']) == opened) by {
        assert(seq!['\''].len() == 1);
        assert(seq!['\''].drop_last() =~= Seq::<char>::empty());
        assert(seq!['\''].last() == '\'');
        assert(lex_fold(st, seq!['\''].drop_last()) == st);
    }
    lemma_lex_fold_concat(st, seq!['\''], t);
    assert(seq!['\''] + t =~= (seq!['\''] + t + seq!['\'']).drop_last());
    lemma_fold_in_single(opened, t);
    assert(lex_fold(st, sq_token(t)) == lex_step(lex_fold(st, seq!['\''] + t), '\'')) by {
        assert(sq_token(t).drop_last() =~= seq!['\''] + t);
        assert(sq_token(t).last() == '\'');
    }
}

/// The scan state after reading the single-quoted re-encoding of a non-empty
/// word list: the last word is still current, the others are emitted.
proof fn lemma_fold_sq_enc(toks: Seq<Seq<char>>)
    requires
        toks.len() > 0,
        forall|i: int, j: int|
            0 <= i < toks.len() && 0 <= j < toks[i].len() ==> #[trigger] toks[i][j] != '\'',
    ensures
        lex_fold(lex_init(), sq_enc(toks)) == (LexState {
            mode: LexMode::Normal,
            started: true,
            cur: toks.last(),
            toks: toks.drop_last(),
        }),
    decreases toks.len(),
{
    let parts = toks.map_values(|t: Seq<char>| sq_token(t));
    if toks.len() == 1 {
        assert(sq_enc(toks) == parts[0]);
        lemma_fold_sq_token(lex_init(), toks[0]);
        assert(lex_init().cur + toks[0] =~= toks[0]);
        assert(toks.drop_last() =~= Seq::<Seq<char>>::empty());
    } else {
        let head = toks.drop_last();
        let head_parts = head.map_values(|t: Seq<char>| sq_token(t));
        assert forall|i: int, j: int|
            0 <= i < head.len() && 0 <= j < head[i].len() implies #[trigger] head[i][j]
            != '\'' by {
            assert(head[i] == toks[i]);
            assert(toks[i][j] != '\'');
        }
        assert(parts.drop_last() =~= head_parts);
        assert(parts.last() == sq_token(toks.last()));
        assert(sq_enc(toks) == spec_join(head_parts, ' ').push(' ') + sq_token(toks.last()));
        lemma_fold_sq_enc(head);
        let after_head = LexState {
            mode: LexMode::Normal,
            started: true,
            cur: head.last(),
            toks: head.drop_last(),
        };
        assert(sq_enc(head) == spec_join(head_parts, ' '));
        lemma_lex_fold_concat(lex_init(), sq_enc(head).push(' '), sq_token(toks.last()));
        assert(sq_enc(head).push(' ') =~= sq_enc(head) + seq![' ']);
        lemma_lex_fold_concat(lex_init(), sq_enc(head), seq![' ']);
        let after_space = LexState {
            mode: LexMode::Normal,
            started: false,
            cur: Seq::empty(),
            toks: head.drop_last().push(head.last()),
        };
        assert(lex_fold(after_head, seq![' ']) == after_space) by {
            assert(seq![' '].len() == 1);
            assert(seq![' '].drop_last() =~= Seq::<char>::empty());
            assert(seq![' '].last() == ' ');
            assert(lex_fold(after_head, seq![' '].drop_last()) == after_head);
        }
        assert(head.drop_last().push(head.last()) =~= head);
        lemma_fold_sq_token(
            LexState { mode: LexMode::Normal, started: false, cur: Seq::empty(), toks: head },
            toks.last(),
        );
        assert(Seq::<char>::empty() + toks.last() =~= toks.last());
        assert(sq_enc(toks) =~= (sq_enc(head) + seq![' ']) + sq_token(toks.last()));
    }
}

/// Words that use no single quote round-trip through the lexer when each is
/// wrapped in single quotes and the words are joined with single spaces: the
/// lexer reads back exactly the original word list.  Together with the
/// postcondition of [`lex`], any successful lex of a line whose words are
/// quote-free can be re-encoded this way and lexed again to the same words.
pub proof fn lemma_lex_single_quote_round_trip(toks: Seq<Seq<char>>)
    requires
        forall|i: int, j: int|
            0 <= i < toks.len() && 0 <= j < toks[i].len() ==> #[trigger] toks[i][j] != '\'',
    ensures
        spec_lex(sq_enc(toks)) == Some(toks),
{
    if toks.len() == 0 {
        assert(toks.map_values(|t: Seq<char>| sq_token(t)).len() == 0);
        assert(sq_enc(toks) == Seq::<char>::empty());
        assert(spec_lex(sq_enc(toks)) == Some(Seq::<Seq<char>>::empty()));
        assert(Some(Seq::<Seq<char>>::empty()) == Some(toks));
    } else {
        lemma_fold_sq_enc(toks);
        assert(toks.drop_last().push(toks.last()) =~= toks);
    }
}

} // verus!
