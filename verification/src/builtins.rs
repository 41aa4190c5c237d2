//! The builtin commands: `echo`, `pwd`, `cd`, `type`, `exit` and `history`.
//!
//! A builtin computes, it does not touch the operating system: it reads a
//! snapshot of the shell's state and returns a [`BuiltinStep`] that says what
//! the driver should do — print a text, change directory, search `PATH`, or
//! load a history file.  The `exit` builtin is probed separately through
//! `exit_code` before anything runs.

use vstd::prelude::*;
use vstd::string::*;
use crate::errors::{ShellError, ShellErrorView, ShellResult};
use crate::history::{format_history, spec_history_listing};
use crate::text::{join_from, push_char, spec_join, spec_parse_i32, str_eq};

verus! {

/// The snapshot of shell state a builtin may read.
pub struct ShellContext {
    /// The current working directory, as `pwd` prints it.
    pub cwd: String,
    /// The `HOME` environment variable, when set.
    pub home: Option<String>,
    /// The names of the registered builtins, for `type`.
    pub builtin_names: Vec<String>,
    /// The command history, oldest entry first.
    pub history: Vec<String>,
}

/// The mathematical value of a [`ShellContext`].
pub struct ShellContextView {
    pub cwd: Seq<char>,
    pub home: Option<Seq<char>>,
    pub builtin_names: Seq<Seq<char>>,
    pub history: Seq<Seq<char>>,
}

impl View for ShellContext {
    type V = ShellContextView;

    open spec fn view(&self) -> ShellContextView {
        ShellContextView {
            cwd: self.cwd@,
            home: match self.home {
                Option::Some(h) => Option::Some(h@),
                Option::None => Option::None,
            },
            builtin_names: self.builtin_names.deep_view(),
            history: self.history.deep_view(),
        }
    }
}

/// What the driver must do after a builtin has decided.
pub enum BuiltinStep {
    /// Nothing at all (the `exit` builtin's body).
    Nothing,
    /// Write `text` to standard output.
    Output { text: String },
    /// Change the working directory to `target`; on failure print the
    /// message of [`cd_error_message`].
    Chdir { target: String },
    /// Search `PATH` for `name` and print the message of [`type_message`].
    FindInPath { name: String },
    /// Read the file at `path` and replace the history with its non-empty
    /// lines.
    LoadHistory { path: String },
    /// Terminate the shell process with `code`.
    Exit { code: i32 },
    /// Print each named file, or the message of [`cat_error_message`] for
    /// one that cannot be read.
    CatFiles { files: Vec<String> },
}

/// The mathematical value of a [`BuiltinStep`].
pub enum BuiltinStepView {
    Nothing,
    Output(Seq<char>),
    Chdir(Seq<char>),
    FindInPath(Seq<char>),
    LoadHistory(Seq<char>),
    Exit(i32),
    CatFiles(Seq<Seq<char>>),
}

impl View for BuiltinStep {
    type V = BuiltinStepView;

    open spec fn view(&self) -> BuiltinStepView {
        match self {
            BuiltinStep::Nothing => BuiltinStepView::Nothing,
            BuiltinStep::Output { text } => BuiltinStepView::Output(text@),
            BuiltinStep::Chdir { target } => BuiltinStepView::Chdir(target@),
            BuiltinStep::FindInPath { name } => BuiltinStepView::FindInPath(name@),
            BuiltinStep::LoadHistory { path } => BuiltinStepView::LoadHistory(path@),
            BuiltinStep::Exit { code } => BuiltinStepView::Exit(*code),
            BuiltinStep::CatFiles { files } => BuiltinStepView::CatFiles(files.deep_view()),
        }
    }
}

/// The mathematical value of a builtin's result.
pub open spec fn step_result_view(r: ShellResult<BuiltinStep>) -> Result<
    BuiltinStepView,
    ShellErrorView,
> {
    match r {
        Result::Ok(step) => Result::Ok(step@),
        Result::Err(e) => Result::Err(e@),
    }
}

/// Whether `name` occurs in `names`.
pub open spec fn contains_name(names: Seq<Seq<char>>, name: Seq<char>) -> bool {
    exists|i: int| 0 <= i < names.len() && names[i] == name
}

/// Scans a name list for `name`.
pub fn name_in_list(names: &Vec<String>, name: &str) -> (r: bool)
    ensures
        r == contains_name(names.deep_view(), name@),
{
    let mut i: usize = 0;
    while i < names.len()
        invariant
            i <= names@.len(),
            names.deep_view().len() == names@.len(),
            forall|j: int| 0 <= j < i ==> names.deep_view()[j] != name@,
        decreases names@.len() - i,
    {
        if str_eq(names[i].as_str(), name) {
            proof {
                assert(names.deep_view()[i as int] == names@[i as int]@);
            }
            return true;
        }
        proof {
            assert(names.deep_view()[i as int] == names@[i as int]@);
        }
        i = i + 1;
    }
    false
}

/// A command that runs inside the shell process.
pub trait BuiltinCommand: Sized {
    /// The name under which the command is registered.
    spec fn spec_name(&self) -> Seq<char>;

    /// What `execute` decides, as a function of the arguments and the
    /// context snapshot.
    spec fn spec_step(&self, args: Seq<Seq<char>>, ctx: ShellContextView) -> Result<
        BuiltinStepView,
        ShellErrorView,
    >;

    /// What `exit_code` returns.
    spec fn spec_exit_code(&self, args: Seq<Seq<char>>) -> Option<i32>;

    /// The command name; `args[0]` when the command runs.
    fn name(&self) -> (r: &'static str)
        ensures
            r@ == self.spec_name(),
    ;

    /// One line of help text.
    fn description(&self) -> (r: &'static str);

    /// Decides what the driver should do for `args`, whose first element is
    /// the command name itself.
    fn execute(&self, args: &Vec<String>, ctx: &ShellContext) -> (r: ShellResult<BuiltinStep>)
        requires
            args@.len() >= 1,
        ensures
            step_result_view(r) == self.spec_step(args.deep_view(), ctx@),
    ;

    /// When this returns a code, the shell terminates with it instead of
    /// running the command body.
    fn exit_code(&self, args: &Vec<String>) -> (r: Option<i32>)
        ensures
            r == self.spec_exit_code(args.deep_view()),
    ;
}

/// `echo`: prints its arguments joined by single spaces.
pub struct EchoCommand;

/// `pwd`: prints the current working directory.
pub struct PwdCommand;

/// `cd`: changes the working directory, expanding a leading `~` to `HOME`.
pub struct CdCommand;

/// `type`: says whether a name is a builtin or an executable on `PATH`.
pub struct TypeCommand;

/// `exit`: terminates the shell with the given code.
pub struct ExitCommand;

/// `history`: prints the history listing, or reloads it from a file.
pub struct HistoryCommand;

impl BuiltinCommand for EchoCommand {
    open spec fn spec_name(&self) -> Seq<char> {
        "echo"@
    }

    open spec fn spec_step(&self, args: Seq<Seq<char>>, ctx: ShellContextView) -> Result<
        BuiltinStepView,
        ShellErrorView,
    > {
        Result::Ok(BuiltinStepView::Output(spec_join(args.skip(1), ' ').push('\n')))
    }

    open spec fn spec_exit_code(&self, args: Seq<Seq<char>>) -> Option<i32> {
        Option::None
    }

    fn name(&self) -> (r: &'static str) {
        "echo"
    }

    fn description(&self) -> (r: &'static str) {
        "Echo arguments to stdout"
    }

    fn execute(&self, args: &Vec<String>, ctx: &ShellContext) -> (r: ShellResult<BuiltinStep>) {
        let mut text = join_from(args, 1, ' ');
        push_char(&mut text, '\n');
        proof {
            assert(args.deep_view().skip(1) =~~= args@.skip(1).map_values(|p: String| p@));
        }
        Ok(BuiltinStep::Output { text })
    }

    fn exit_code(&self, args: &Vec<String>) -> (r: Option<i32>) {
        None
    }
}

impl BuiltinCommand for PwdCommand {
    open spec fn spec_name(&self) -> Seq<char> {
        "pwd"@
    }

    open spec fn spec_step(&self, args: Seq<Seq<char>>, ctx: ShellContextView) -> Result<
        BuiltinStepView,
        ShellErrorView,
    > {
        Result::Ok(BuiltinStepView::Output(ctx.cwd.push('\n')))
    }

    open spec fn spec_exit_code(&self, args: Seq<Seq<char>>) -> Option<i32> {
        Option::None
    }

    fn name(&self) -> (r: &'static str) {
        "pwd"
    }

    fn description(&self) -> (r: &'static str) {
        "Print current working directory"
    }

    fn execute(&self, args: &Vec<String>, ctx: &ShellContext) -> (r: ShellResult<BuiltinStep>) {
        let mut text = ctx.cwd.clone();
        push_char(&mut text, '\n');
        Ok(BuiltinStep::Output { text })
    }

    fn exit_code(&self, args: &Vec<String>) -> (r: Option<i32>) {
        None
    }
}

/// The directory `cd` should move to: `HOME` when no argument is given, the
/// argument with a leading `~` replaced by `HOME`, or the argument verbatim.
/// None when `HOME` would be needed but is not set.
pub open spec fn spec_cd_target(args: Seq<Seq<char>>, home: Option<Seq<char>>) -> Option<
    Seq<char>,
> {
    if args.len() >= 2 {
        let p = args[1];
        if p.len() > 0 && p[0] == '~' {
            match home {
                Option::Some(h) => Option::Some(h + p.skip(1)),
                Option::None => Option::None,
            }
        } else {
            Option::Some(p)
        }
    } else {
        match home {
            Option::Some(h) => Option::Some(h),
            Option::None => Option::None,
        }
    }
}

impl BuiltinCommand for CdCommand {
    open spec fn spec_name(&self) -> Seq<char> {
        "cd"@
    }

    open spec fn spec_step(&self, args: Seq<Seq<char>>, ctx: ShellContextView) -> Result<
        BuiltinStepView,
        ShellErrorView,
    > {
        match spec_cd_target(args, ctx.home) {
            Option::Some(target) => Result::Ok(BuiltinStepView::Chdir(target)),
            Option::None => Result::Err(
                ShellErrorView::InvalidDirectory("HOME environment variable not set"@),
            ),
        }
    }

    open spec fn spec_exit_code(&self, args: Seq<Seq<char>>) -> Option<i32> {
        Option::None
    }

    fn name(&self) -> (r: &'static str) {
        "cd"
    }

    fn description(&self) -> (r: &'static str) {
        "Change current working directory"
    }

    fn execute(&self, args: &Vec<String>, ctx: &ShellContext) -> (r: ShellResult<BuiltinStep>) {
        let ghost dv = args.deep_view();
        proof {
            assert(dv.len() == args@.len());
            if args@.len() >= 2 {
                assert(dv[1] == args@[1]@);
            }
        }
        if args.len() >= 2 {
            let p = &args[1];
            let plen = p.as_str().unicode_len();
            if plen > 0 && p.as_str().get_char(0) == '~' {
                match &ctx.home {
                    Some(h) => {
                        let mut target = h.clone();
                        let rest = p.as_str().substring_char(1, plen);
                        target.append(rest);
                        proof {
                            assert(rest@ =~= dv[1].skip(1));
                        }
                        Ok(BuiltinStep::Chdir { target })
                    },
                    None => Err(
                        ShellError::InvalidDirectory(
                            "HOME environment variable not set".to_owned(),
                        ),
                    ),
                }
            } else {
                Ok(BuiltinStep::Chdir { target: p.clone() })
            }
        } else {
            match &ctx.home {
                Some(h) => Ok(BuiltinStep::Chdir { target: h.clone() }),
                None => Err(
                    ShellError::InvalidDirectory("HOME environment variable not set".to_owned()),
                ),
            }
        }
    }

    fn exit_code(&self, args: &Vec<String>) -> (r: Option<i32>) {
        None
    }
}

impl BuiltinCommand for TypeCommand {
    open spec fn spec_name(&self) -> Seq<char> {
        "type"@
    }

    open spec fn spec_step(&self, args: Seq<Seq<char>>, ctx: ShellContextView) -> Result<
        BuiltinStepView,
        ShellErrorView,
    > {
        let name = if args.len() >= 2 {
            args[1]
        } else {
            Seq::empty()
        };
        if contains_name(ctx.builtin_names, name) {
            Result::Ok(BuiltinStepView::Output(name + " is a shell builtin\n"@))
        } else {
            Result::Ok(BuiltinStepView::FindInPath(name))
        }
    }

    open spec fn spec_exit_code(&self, args: Seq<Seq<char>>) -> Option<i32> {
        Option::None
    }

    fn name(&self) -> (r: &'static str) {
        "type"
    }

    fn description(&self) -> (r: &'static str) {
        "Print the type of a command"
    }

    fn execute(&self, args: &Vec<String>, ctx: &ShellContext) -> (r: ShellResult<BuiltinStep>) {
        let ghost dv = args.deep_view();
        proof {
            if args@.len() >= 2 {
                assert(dv[1] == args@[1]@);
            }
        }
        let name = if args.len() >= 2 {
            args[1].clone()
        } else {
            String::new()
        };
        if name_in_list(&ctx.builtin_names, name.as_str()) {
            let mut text = name;
            text.append(" is a shell builtin\n");
            Ok(BuiltinStep::Output { text })
        } else {
            Ok(BuiltinStep::FindInPath { name })
        }
    }

    fn exit_code(&self, args: &Vec<String>) -> (r: Option<i32>) {
        None
    }
}

impl BuiltinCommand for ExitCommand {
    open spec fn spec_name(&self) -> Seq<char> {
        "exit"@
    }

    open spec fn spec_step(&self, args: Seq<Seq<char>>, ctx: ShellContextView) -> Result<
        BuiltinStepView,
        ShellErrorView,
    > {
        Result::Ok(BuiltinStepView::Nothing)
    }

    /// The requested exit code: `args[1]` parsed as an integer, zero when it
    /// is absent or unparsable.
    open spec fn spec_exit_code(&self, args: Seq<Seq<char>>) -> Option<i32> {
        Option::Some(
            if args.len() >= 2 {
                match spec_parse_i32(args[1]) {
                    Option::Some(v) => v,
                    Option::None => 0,
                }
            } else {
                0
            },
        )
    }

    fn name(&self) -> (r: &'static str) {
        "exit"
    }

    fn description(&self) -> (r: &'static str) {
        "Exit the shell"
    }

    fn execute(&self, args: &Vec<String>, ctx: &ShellContext) -> (r: ShellResult<BuiltinStep>) {
        Ok(BuiltinStep::Nothing)
    }

    fn exit_code(&self, args: &Vec<String>) -> (r: Option<i32>) {
        let ghost dv = args.deep_view();
        proof {
            if args@.len() >= 2 {
                assert(dv[1] == args@[1]@);
            }
        }
        if args.len() >= 2 {
            match crate::text::parse_i32(args[1].as_str()) {
                Some(v) => Some(v),
                None => Some(0),
            }
        } else {
            Some(0)
        }
    }
}

impl BuiltinCommand for HistoryCommand {
    open spec fn spec_name(&self) -> Seq<char> {
        "history"@
    }

    open spec fn spec_step(&self, args: Seq<Seq<char>>, ctx: ShellContextView) -> Result<
        BuiltinStepView,
        ShellErrorView,
    > {
        if args.len() >= 3 && args[1] == "-r"@ {
            Result::Ok(BuiltinStepView::LoadHistory(args[2]))
        } else {
            Result::Ok(BuiltinStepView::Output(spec_history_listing(ctx.history)))
        }
    }

    open spec fn spec_exit_code(&self, args: Seq<Seq<char>>) -> Option<i32> {
        Option::None
    }

    fn name(&self) -> (r: &'static str) {
        "history"
    }

    fn description(&self) -> (r: &'static str) {
        "Display or read command history"
    }

    fn execute(&self, args: &Vec<String>, ctx: &ShellContext) -> (r: ShellResult<BuiltinStep>) {
        let ghost dv = args.deep_view();
        proof {
            if args@.len() >= 3 {
                assert(dv[1] == args@[1]@);
                assert(dv[2] == args@[2]@);
            }
        }
        if args.len() >= 3 && str_eq(args[1].as_str(), "-r") {
            Ok(BuiltinStep::LoadHistory { path: args[2].clone() })
        } else {
            let text = format_history(&ctx.history);
            Ok(BuiltinStep::Output { text })
        }
    }

    fn exit_code(&self, args: &Vec<String>) -> (r: Option<i32>) {
        None
    }
}

/// What `cd` prints when the target does not exist.
pub fn cd_error_message(target: &str) -> (r: String)
    ensures
        r@ == "cd: "@ + target@ + ": No such file or directory"@,
{
    let mut t = String::from_str("cd: ");
    t.append(target);
    t.append(": No such file or directory");
    t
}

/// What `cat` prints for a file it cannot read.
pub fn cat_error_message(path: &str) -> (r: String)
    ensures
        r@ == "cat: "@ + path@ + ": No such file or directory\n"@,
{
    let mut t = String::from_str("cat: ");
    t.append(path);
    t.append(": No such file or directory\n");
    t
}

/// What `type` prints once the driver has searched `PATH`: the resolved
/// path when one was found, `not found` otherwise.
pub fn type_message(name: &str, found: &Option<String>) -> (r: String)
    ensures
        match found {
            Option::Some(p) => r@ == name@ + " is "@ + p@ + "\n"@,
            Option::None => r@ == name@ + ": not found\n"@,
        },
{
    let mut t = name.to_owned();
    match found {
        Some(p) => {
            t.append(" is ");
            t.append(p.as_str());
            t.append("\n");
        },
        None => {
            t.append(": not found\n");
        },
    }
    t
}

} // verus!
