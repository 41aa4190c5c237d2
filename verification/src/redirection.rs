//! The redirection parser: peels `>`, `>>`, `1>`, `1>>`, `2>` and `2>>`
//! operators and their target filenames out of an argument vector.
//!
//! Operators are matched on whole tokens, after the lexer has stripped
//! quoting: a token is an operator exactly when its text equals one of the
//! six operator strings.  Each operator consumes the following token as its
//! target; when the same stream is redirected twice the last occurrence
//! wins.

use vstd::prelude::*;
use vstd::string::*;
use crate::errors::{ShellError, ShellResult};
use crate::text::str_eq;

verus! {

/// Whether a redirection target is truncated or appended to on open.
#[derive(Clone, Copy, Debug, PartialEq, Eq, Structural)]
pub enum RedirectionMode {
    Overwrite,
    Append,
}

/// One redirection: the target file and how to open it.
#[derive(Clone, Debug)]
pub struct Redirection {
    pub file: String,
    pub mode: RedirectionMode,
}

/// The mathematical value of an optional redirection.
pub open spec fn redir_view(r: Option<Redirection>) -> Option<(Seq<char>, RedirectionMode)> {
    match r {
        Option::None => Option::None,
        Option::Some(x) => Option::Some((x.file@, x.mode)),
    }
}

/// The result of scanning an argument vector: the non-operator tokens in
/// order, and the surviving redirection of each stream.
pub struct ParsedRedirections {
    pub filtered: Seq<Seq<char>>,
    pub stdout_redir: Option<(Seq<char>, RedirectionMode)>,
    pub stderr_redir: Option<(Seq<char>, RedirectionMode)>,
}

pub open spec fn is_stdout_overwrite_op(t: Seq<char>) -> bool {
    t == ">"@ || t == "1>"@
}

pub open spec fn is_stdout_append_op(t: Seq<char>) -> bool {
    t == ">>"@ || t == "1>>"@
}

pub open spec fn is_stderr_overwrite_op(t: Seq<char>) -> bool {
    t == "2>"@
}

pub open spec fn is_stderr_append_op(t: Seq<char>) -> bool {
    t == "2>>"@
}

/// A token that the scan treats as a redirection operator.
pub open spec fn is_redirection_op(t: Seq<char>) -> bool {
    is_stdout_overwrite_op(t) || is_stdout_append_op(t) || is_stderr_overwrite_op(t)
        || is_stderr_append_op(t)
}

/// The scan from position `i` on, with `acc` holding what the prefix
/// produced.  An operator in last position fails with its message; any other
/// token joins the filtered vector.
pub open spec fn parse_redir_from(
    args: Seq<Seq<char>>,
    i: int,
    acc: ParsedRedirections,
) -> Result<ParsedRedirections, Seq<char>>
    decreases args.len() - i,
{
    if i < 0 || i >= args.len() {
        Result::Ok(acc)
    } else if is_stdout_overwrite_op(args[i]) {
        if i + 1 < args.len() {
            parse_redir_from(
                args,
                i + 2,
                ParsedRedirections {
                    stdout_redir: Option::Some((args[i + 1], RedirectionMode::Overwrite)),
                    ..acc
                },
            )
        } else {
            Result::Err("Expected filename after '>'"@)
        }
    } else if is_stdout_append_op(args[i]) {
        if i + 1 < args.len() {
            parse_redir_from(
                args,
                i + 2,
                ParsedRedirections {
                    stdout_redir: Option::Some((args[i + 1], RedirectionMode::Append)),
                    ..acc
                },
            )
        } else {
            Result::Err("Expected filename after '>>'"@)
        }
    } else if is_stderr_overwrite_op(args[i]) {
        if i + 1 < args.len() {
            parse_redir_from(
                args,
                i + 2,
                ParsedRedirections {
                    stderr_redir: Option::Some((args[i + 1], RedirectionMode::Overwrite)),
                    ..acc
                },
            )
        } else {
            Result::Err("Expected filename after '2>'"@)
        }
    } else if is_stderr_append_op(args[i]) {
        if i + 1 < args.len() {
            parse_redir_from(
                args,
                i + 2,
                ParsedRedirections {
                    stderr_redir: Option::Some((args[i + 1], RedirectionMode::Append)),
                    ..acc
                },
            )
        } else {
            Result::Err("Expected filename after '2>>'"@)
        }
    } else {
        parse_redir_from(
            args,
            i + 1,
            ParsedRedirections { filtered: acc.filtered.push(args[i]), ..acc },
        )
    }
}

/// The whole scan of an argument vector.
pub open spec fn spec_parse_redirection(args: Seq<Seq<char>>) -> Result<
    ParsedRedirections,
    Seq<char>,
> {
    parse_redir_from(
        args,
        0,
        ParsedRedirections {
            filtered: Seq::empty(),
            stdout_redir: Option::None,
            stderr_redir: Option::None,
        },
    )
}

/// Scans `args` for redirection operators.
///
/// Returns the remaining arguments together with the stdout and stderr
/// redirections, exactly as [`spec_parse_redirection`] describes; fails with
/// `RedirectionError` and the message of the offending operator exactly when
/// an operator stands last with no target after it.
pub fn parse_redirection(args: &Vec<String>) -> (r: ShellResult<
    (Vec<String>, Option<Redirection>, Option<Redirection>),
>)
    ensures
        r matches Ok(t) ==> spec_parse_redirection(args.deep_view()) == Result::<
            ParsedRedirections,
            Seq<char>,
        >::Ok(
            ParsedRedirections {
                filtered: t.0.deep_view(),
                stdout_redir: redir_view(t.1),
                stderr_redir: redir_view(t.2),
            },
        ),
        r matches Err(e) ==> {
            &&& spec_parse_redirection(args.deep_view()) is Err
            &&& e matches ShellError::RedirectionError(m)
            &&& m@ == spec_parse_redirection(args.deep_view())->Err_0
        },
{
    let ghost dv = args.deep_view();
    let mut filtered: Vec<String> = Vec::new();
    let mut stdout_redir: Option<Redirection> = None;
    let mut stderr_redir: Option<Redirection> = None;
    let mut i: usize = 0;
    proof {
        assert(filtered.deep_view() =~= Seq::<Seq<char>>::empty());
    }
    while i < args.len()
        invariant
            dv == args.deep_view(),
            dv.len() == args@.len(),
            i <= args@.len(),
            spec_parse_redirection(dv) == parse_redir_from(
                dv,
                i as int,
                ParsedRedirections {
                    filtered: filtered.deep_view(),
                    stdout_redir: redir_view(stdout_redir),
                    stderr_redir: redir_view(stderr_redir),
                },
            ),
        decreases args@.len() - i,
    {
        let ghost acc = ParsedRedirections {
            filtered: filtered.deep_view(),
            stdout_redir: redir_view(stdout_redir),
            stderr_redir: redir_view(stderr_redir),
        };
        let arg = &args[i];
        proof {
            assert(dv[i as int] == args@[i as int]@);
        }
        if str_eq(arg.as_str(), ">") || str_eq(arg.as_str(), "1>") {
            if i + 1 < args.len() {
                proof {
                    assert(dv[i + 1] == args@[i + 1]@);
                }
                stdout_redir = Some(
                    Redirection { file: args[i + 1].clone(), mode: RedirectionMode::Overwrite },
                );
                i = i + 2;
            } else {
                return Err(ShellError::RedirectionError("Expected filename after '>'".to_owned()));
            }
        } else if str_eq(arg.as_str(), ">>") || str_eq(arg.as_str(), "1>>") {
            if i + 1 < args.len() {
                proof {
                    assert(dv[i + 1] == args@[i + 1]@);
                }
                stdout_redir = Some(
                    Redirection { file: args[i + 1].clone(), mode: RedirectionMode::Append },
                );
                i = i + 2;
            } else {
                return Err(ShellError::RedirectionError("Expected filename after '>>'".to_owned()));
            }
        } else if str_eq(arg.as_str(), "2>") {
            if i + 1 < args.len() {
                proof {
                    assert(dv[i + 1] == args@[i + 1]@);
                }
                stderr_redir = Some(
                    Redirection { file: args[i + 1].clone(), mode: RedirectionMode::Overwrite },
                );
                i = i + 2;
            } else {
                return Err(ShellError::RedirectionError("Expected filename after '2>'".to_owned()));
            }
        } else if str_eq(arg.as_str(), "2>>") {
            if i + 1 < args.len() {
                proof {
                    assert(dv[i + 1] == args@[i + 1]@);
                }
                stderr_redir = Some(
                    Redirection { file: args[i + 1].clone(), mode: RedirectionMode::Append },
                );
                i = i + 2;
            } else {
                return Err(
                    ShellError::RedirectionError("Expected filename after '2>>'".to_owned()),
                );
            }
        } else {
            let kept = arg.clone();
            filtered.push(kept);
            proof {
                assert(filtered.deep_view() =~= acc.filtered.push(dv[i as int]));
            }
            i = i + 1;
        }
    }
    Ok((filtered, stdout_redir, stderr_redir))
}

/// `xs` appears inside `ys` in order.
pub open spec fn is_subsequence(xs: Seq<Seq<char>>, ys: Seq<Seq<char>>) -> bool
    decreases ys.len(),
{
    if xs.len() == 0 {
        true
    } else if ys.len() == 0 {
        false
    } else {
        (xs[0] == ys[0] && is_subsequence(xs.skip(1), ys.skip(1))) || is_subsequence(
            xs,
            ys.skip(1),
        )
    }
}

/// The non-operator tokens of the suffix of `args` from `i` on, in order,
/// with each operator's target skipped along with it.
pub open spec fn filtered_from(args: Seq<Seq<char>>, i: int) -> Seq<Seq<char>>
    decreases args.len() - i,
{
    if i < 0 || i >= args.len() {
        Seq::empty()
    } else if is_redirection_op(args[i]) {
        if i + 1 < args.len() {
            filtered_from(args, i + 2)
        } else {
            Seq::empty()
        }
    } else {
        seq![args[i]] + filtered_from(args, i + 1)
    }
}

/// A successful scan extends the accumulated filtered vector with exactly
/// the filtered remainder of the suffix.
proof fn lemma_parse_from_filtered(args: Seq<Seq<char>>, i: int, acc: ParsedRedirections)
    ensures
        parse_redir_from(args, i, acc) matches Ok(res) ==> res.filtered == acc.filtered
            + filtered_from(args, i),
    decreases args.len() - i,
{
    if i < 0 || i >= args.len() {
        assert(acc.filtered + filtered_from(args, i) =~= acc.filtered);
    } else if is_redirection_op(args[i]) {
        if i + 1 < args.len() {
            if is_stdout_overwrite_op(args[i]) {
                lemma_parse_from_filtered(
                    args,
                    i + 2,
                    ParsedRedirections {
                        stdout_redir: Option::Some((args[i + 1], RedirectionMode::Overwrite)),
                        ..acc
                    },
                );
            } else if is_stdout_append_op(args[i]) {
                lemma_parse_from_filtered(
                    args,
                    i + 2,
                    ParsedRedirections {
                        stdout_redir: Option::Some((args[i + 1], RedirectionMode::Append)),
                        ..acc
                    },
                );
            } else if is_stderr_overwrite_op(args[i]) {
                lemma_parse_from_filtered(
                    args,
                    i + 2,
                    ParsedRedirections {
                        stderr_redir: Option::Some((args[i + 1], RedirectionMode::Overwrite)),
                        ..acc
                    },
                );
            } else {
                lemma_parse_from_filtered(
                    args,
                    i + 2,
                    ParsedRedirections {
                        stderr_redir: Option::Some((args[i + 1], RedirectionMode::Append)),
                        ..acc
                    },
                );
            }
        }
    } else {
        lemma_parse_from_filtered(
            args,
            i + 1,
            ParsedRedirections { filtered: acc.filtered.push(args[i]), ..acc },
        );
        if parse_redir_from(args, i, acc) is Ok {
            assert(acc.filtered.push(args[i]) =~= acc.filtered + seq![args[i]]);
            assert((acc.filtered + seq![args[i]]) + filtered_from(args, i + 1) =~= acc.filtered + (
            seq![args[i]] + filtered_from(args, i + 1)));
        }
    }
}

/// Skipping the head of `ys` preserves subsequence-hood.
proof fn lemma_subsequence_cons(xs: Seq<Seq<char>>, ys: Seq<Seq<char>>)
    requires
        ys.len() > 0,
        is_subsequence(xs, ys.skip(1)),
    ensures
        is_subsequence(xs, ys),
{
}

/// The filtered remainder of a suffix is a subsequence of that suffix.
proof fn lemma_filtered_from_subsequence(args: Seq<Seq<char>>, i: int)
    requires
        0 <= i <= args.len(),
    ensures
        is_subsequence(filtered_from(args, i), args.skip(i)),
    decreases args.len() - i,
{
    if i >= args.len() {
    } else if is_redirection_op(args[i]) {
        if i + 1 < args.len() {
            lemma_filtered_from_subsequence(args, i + 2);
            assert(args.skip(i + 2) =~= args.skip(i + 1).skip(1));
            lemma_subsequence_cons(filtered_from(args, i + 2), args.skip(i + 1));
            assert(args.skip(i + 1) =~= args.skip(i).skip(1));
            lemma_subsequence_cons(filtered_from(args, i + 2), args.skip(i));
        }
    } else {
        lemma_filtered_from_subsequence(args, i + 1);
        let rest = filtered_from(args, i + 1);
        let whole = seq![args[i]] + rest;
        assert(whole[0] == args[i]);
        assert(args.skip(i)[0] == args[i]);
        assert(whole.skip(1) =~= rest);
        assert(args.skip(i).skip(1) =~= args.skip(i + 1));
        assert(is_subsequence(whole, args.skip(i)));
    }
}

/// Law: a successful scan returns a filtered vector that is a subsequence of
/// the input argument vector — the non-operator tokens in their original
/// order, with each operator and its target removed.
pub proof fn lemma_parse_redirection_subsequence(args: Seq<Seq<char>>)
    ensures
        spec_parse_redirection(args) matches Ok(res) ==> {
            &&& res.filtered == filtered_from(args, 0)
            &&& is_subsequence(res.filtered, args)
        },
{
    let init = ParsedRedirections {
        filtered: Seq::empty(),
        stdout_redir: Option::None,
        stderr_redir: Option::None,
    };
    lemma_parse_from_filtered(args, 0, init);
    lemma_filtered_from_subsequence(args, 0);
    if spec_parse_redirection(args) is Ok {
        let res = spec_parse_redirection(args)->Ok_0;
        assert(Seq::<Seq<char>>::empty() + filtered_from(args, 0) =~= filtered_from(args, 0));
        assert(args.skip(0) =~= args);
    }
}

} // verus!
