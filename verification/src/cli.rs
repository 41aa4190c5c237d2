//! Structured parsing of a builtin command line: the argument vector is
//! matched against the fixed grammar of the builtin commands, and a line
//! that fits none of them is reported as unparsable so that the caller can
//! fall back to an external command.

use vstd::prelude::*;
use vstd::string::*;
use crate::builtins::{
    contains_name, name_in_list, spec_cd_target, BuiltinStep, BuiltinStepView, ShellContext,
    ShellContextView,
};
use crate::errors::{ShellError, ShellErrorView, ShellResult};
use crate::text::{join_from, parse_i32, push_char, spec_join, spec_parse_i32, str_eq};

verus! {

/// One parsed builtin command line.
pub enum ShellCommand {
    /// Echo arguments to stdout.
    Echo { args: Vec<String> },
    /// Print the current working directory.
    Pwd,
    /// Exit the shell.
    Exit { code: i32 },
    /// Print the type of a command.
    Type { name: String },
    /// Change the current directory.
    Cd { path: Option<String> },
    /// Concatenate and print files.
    Cat { files: Vec<String> },
}

/// The mathematical value of a [`ShellCommand`].
pub enum ShellCommandView {
    Echo(Seq<Seq<char>>),
    Pwd,
    Exit(i32),
    Type(Seq<char>),
    Cd(Option<Seq<char>>),
    Cat(Seq<Seq<char>>),
}

impl View for ShellCommand {
    type V = ShellCommandView;

    open spec fn view(&self) -> ShellCommandView {
        match self {
            ShellCommand::Echo { args } => ShellCommandView::Echo(args.deep_view()),
            ShellCommand::Pwd => ShellCommandView::Pwd,
            ShellCommand::Exit { code } => ShellCommandView::Exit(*code),
            ShellCommand::Type { name } => ShellCommandView::Type(name@),
            ShellCommand::Cd { path } => ShellCommandView::Cd(
                match path {
                    Option::Some(p) => Option::Some(p@),
                    Option::None => Option::None,
                },
            ),
            ShellCommand::Cat { files } => ShellCommandView::Cat(files.deep_view()),
        }
    }
}

/// A parsed command line.
pub struct ShellArgs {
    pub command: ShellCommand,
}

/// The grammar of the builtin command lines: `echo` and `cat` take any
/// arguments, `pwd` takes none, `exit` at most one (an unparsable code
/// counts as zero), `type` exactly one, `cd` at most one.  Anything else
/// does not parse.
pub open spec fn spec_parse_shell_command(args: Seq<Seq<char>>) -> Option<ShellCommandView> {
    if args.len() == 0 {
        Option::None
    } else if args[0] == "echo"@ {
        Option::Some(ShellCommandView::Echo(args.skip(1)))
    } else if args[0] == "pwd"@ {
        if args.len() == 1 {
            Option::Some(ShellCommandView::Pwd)
        } else {
            Option::None
        }
    } else if args[0] == "exit"@ {
        if args.len() == 1 {
            Option::Some(ShellCommandView::Exit(0))
        } else if args.len() == 2 {
            Option::Some(
                ShellCommandView::Exit(
                    match spec_parse_i32(args[1]) {
                        Option::Some(v) => v,
                        Option::None => 0,
                    },
                ),
            )
        } else {
            Option::None
        }
    } else if args[0] == "type"@ {
        if args.len() == 2 {
            Option::Some(ShellCommandView::Type(args[1]))
        } else {
            Option::None
        }
    } else if args[0] == "cd"@ {
        if args.len() == 1 {
            Option::Some(ShellCommandView::Cd(Option::None))
        } else if args.len() == 2 {
            Option::Some(ShellCommandView::Cd(Option::Some(args[1])))
        } else {
            Option::None
        }
    } else if args[0] == "cat"@ {
        Option::Some(ShellCommandView::Cat(args.skip(1)))
    } else {
        Option::None
    }
}

/// A copy of `v` without its first element.
fn tail_of(v: &Vec<String>) -> (r: Vec<String>)
    requires
        v@.len() >= 1,
    ensures
        r.deep_view() == v.deep_view().skip(1),
{
    let mut out: Vec<String> = Vec::new();
    let mut i: usize = 1;
    proof {
        assert(out.deep_view() =~~= v.deep_view().skip(1).take(0));
    }
    while i < v.len()
        invariant
            1 <= i <= v@.len(),
            v.deep_view().len() == v@.len(),
            out.deep_view() == v.deep_view().skip(1).take(i - 1),
        decreases v@.len() - i,
    {
        let ghost pre = out.deep_view();
        out.push(v[i].clone());
        proof {
            assert(v.deep_view()[i as int] == v@[i as int]@);
            assert(v.deep_view().skip(1)[i - 1] == v.deep_view()[i as int]);
            assert(out.deep_view() =~~= pre.push(v.deep_view().skip(1)[i - 1]));
            assert(v.deep_view().skip(1).take(i as int) =~~= pre.push(
                v.deep_view().skip(1)[i - 1],
            ));
        }
        i = i + 1;
    }
    proof {
        assert(v.deep_view().skip(1).take(v@.len() - 1) =~~= v.deep_view().skip(1));
    }
    out
}

impl ShellArgs {
    /// Parses an argument vector against the builtin grammar.
    pub fn try_parse_from(args: &Vec<String>) -> (r: Option<ShellArgs>)
        ensures
            r is Some <==> spec_parse_shell_command(args.deep_view()) is Some,
            r matches Some(sa) ==> Option::Some(sa.command@) == spec_parse_shell_command(
                args.deep_view(),
            ),
    {
        let ghost dv = args.deep_view();
        if args.len() == 0 {
            return None;
        }
        proof {
            assert(dv[0] == args@[0]@);
            if dv.len() >= 2 {
                assert(dv[1] == args@[1]@);
            }
        }
        let name = &args[0];
        if str_eq(name.as_str(), "echo") {
            Some(ShellArgs { command: ShellCommand::Echo { args: tail_of(args) } })
        } else if str_eq(name.as_str(), "pwd") {
            if args.len() == 1 {
                Some(ShellArgs { command: ShellCommand::Pwd })
            } else {
                None
            }
        } else if str_eq(name.as_str(), "exit") {
            if args.len() == 1 {
                Some(ShellArgs { command: ShellCommand::Exit { code: 0 } })
            } else if args.len() == 2 {
                let code = match parse_i32(args[1].as_str()) {
                    Some(v) => v,
                    None => 0,
                };
                Some(ShellArgs { command: ShellCommand::Exit { code } })
            } else {
                None
            }
        } else if str_eq(name.as_str(), "type") {
            if args.len() == 2 {
                Some(ShellArgs { command: ShellCommand::Type { name: args[1].clone() } })
            } else {
                None
            }
        } else if str_eq(name.as_str(), "cd") {
            if args.len() == 1 {
                Some(ShellArgs { command: ShellCommand::Cd { path: None } })
            } else if args.len() == 2 {
                Some(ShellArgs { command: ShellCommand::Cd { path: Some(args[1].clone()) } })
            } else {
                None
            }
        } else if str_eq(name.as_str(), "cat") {
            Some(ShellArgs { command: ShellCommand::Cat { files: tail_of(args) } })
        } else {
            None
        }
    }
}

/// What dispatching a parsed builtin line decides, as a function of the
/// arguments and the context snapshot.
pub open spec fn spec_dispatch(args: Seq<Seq<char>>, ctx: ShellContextView) -> Result<
    BuiltinStepView,
    ShellErrorView,
> {
    match spec_parse_shell_command(args) {
        Option::None => Result::Err(ShellErrorView::InputError("Failed to parse command"@)),
        Option::Some(cmd) => match cmd {
            ShellCommandView::Echo(parts) => Result::Ok(
                BuiltinStepView::Output(spec_join(parts, ' ').push('\n')),
            ),
            ShellCommandView::Pwd => Result::Ok(BuiltinStepView::Output(ctx.cwd.push('\n'))),
            ShellCommandView::Exit(code) => Result::Ok(BuiltinStepView::Exit(code)),
            ShellCommandView::Type(name) => if contains_name(ctx.builtin_names, name) {
                Result::Ok(BuiltinStepView::Output(name + " is a shell builtin\n"@))
            } else {
                Result::Ok(BuiltinStepView::FindInPath(name))
            },
            ShellCommandView::Cd(path) => {
                let cd_args = match path {
                    Option::Some(p) => seq!["cd"@, p],
                    Option::None => seq!["cd"@],
                };
                match spec_cd_target(cd_args, ctx.home) {
                    Option::Some(target) => Result::Ok(BuiltinStepView::Chdir(target)),
                    Option::None => Result::Err(
                        ShellErrorView::InvalidDirectory("HOME environment variable not set"@),
                    ),
                }
            },
            ShellCommandView::Cat(files) => Result::Ok(BuiltinStepView::CatFiles(files)),
        },
    }
}

/// Parses `args` against the builtin grammar and dispatches it.
///
/// Fails with `InputError` exactly when the line fits no builtin — the
/// caller then tries it as an external command — and otherwise decides as
/// [`spec_dispatch`] says.
pub fn handle_command_with_clap(args: &Vec<String>, ctx: &ShellContext) -> (r: ShellResult<
    BuiltinStep,
>)
    ensures
        crate::builtins::step_result_view(r) == spec_dispatch(args.deep_view(), ctx@),
{
    let ghost dv = args.deep_view();
    match ShellArgs::try_parse_from(args) {
        None => Err(ShellError::InputError("Failed to parse command".to_owned())),
        Some(sa) => match sa.command {
            ShellCommand::Echo { args: parts } => {
                let mut text = join_from(&parts, 0, ' ');
                push_char(&mut text, '\n');
                proof {
                    assert(parts@.skip(0) =~= parts@);
                    assert(parts@.map_values(|p: String| p@) =~~= parts.deep_view());
                }
                Ok(BuiltinStep::Output { text })
            },
            ShellCommand::Pwd => {
                let mut text = ctx.cwd.clone();
                push_char(&mut text, '\n');
                Ok(BuiltinStep::Output { text })
            },
            ShellCommand::Exit { code } => Ok(BuiltinStep::Exit { code }),
            ShellCommand::Type { name } => {
                if name_in_list(&ctx.builtin_names, name.as_str()) {
                    let mut text = name;
                    text.append(" is a shell builtin\n");
                    Ok(BuiltinStep::Output { text })
                } else {
                    Ok(BuiltinStep::FindInPath { name })
                }
            },
            ShellCommand::Cd { path } => {
                let ghost cd_args: Seq<Seq<char>> = match &path {
                    Option::Some(p) => seq!["cd"@, p@],
                    Option::None => seq!["cd"@],
                };
                match path {
                    Some(p) => {
                        let plen = p.as_str().unicode_len();
                        if plen > 0 && p.as_str().get_char(0) == '~' {
                            match &ctx.home {
                                Some(h) => {
                                    let mut target = h.clone();
                                    let rest = p.as_str().substring_char(1, plen);
                                    target.append(rest);
                                    proof {
                                        assert(cd_args[1] == p@);
                                        assert(rest@ =~= p@.skip(1));
                                    }
                                    Ok(BuiltinStep::Chdir { target })
                                },
                                None => Err(
                                    ShellError::InvalidDirectory(
                                        "HOME environment variable not set".to_owned(),
                                    ),
                                ),
                            }
                        } else {
                            proof {
                                assert(cd_args[1] == p@);
                            }
                            Ok(BuiltinStep::Chdir { target: p })
                        }
                    },
                    None => {
                        match &ctx.home {
                            Some(h) => Ok(BuiltinStep::Chdir { target: h.clone() }),
                            None => Err(
                                ShellError::InvalidDirectory(
                                    "HOME environment variable not set".to_owned(),
                                ),
                            ),
                        }
                    },
                }
            },
            ShellCommand::Cat { files } => Ok(BuiltinStep::CatFiles { files }),
        },
    }
}

} // verus!
