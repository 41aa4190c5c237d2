//! The builtin registry: the set of in-process commands, looked up by exact
//! name.
//!
//! The registry is built once at startup — registration is the single point
//! where builtins are added — and consulted by the resolver, the executor
//! and the completer.  Lookup walks the registered commands in order and
//! takes the first whose name matches.

use vstd::prelude::*;
use vstd::string::*;
use crate::builtins::{
    step_result_view, BuiltinCommand, BuiltinStep, BuiltinStepView, CdCommand, EchoCommand,
    ExitCommand, HistoryCommand, PwdCommand, ShellContext, TypeCommand,
};
use crate::errors::{ShellErrorView, ShellResult};
use crate::text::str_eq;

verus! {

/// One registered builtin.  A closed set stands in for trait objects: each
/// variant carries the command it dispatches to.
pub enum BuiltinHandle {
    Echo(EchoCommand),
    Pwd(PwdCommand),
    Cd(CdCommand),
    Type(TypeCommand),
    Exit(ExitCommand),
    History(HistoryCommand),
}

impl BuiltinHandle {
    /// The name under which this command is registered.
    pub open spec fn spec_name(&self) -> Seq<char> {
        match self {
            BuiltinHandle::Echo(c) => c.spec_name(),
            BuiltinHandle::Pwd(c) => c.spec_name(),
            BuiltinHandle::Cd(c) => c.spec_name(),
            BuiltinHandle::Type(c) => c.spec_name(),
            BuiltinHandle::Exit(c) => c.spec_name(),
            BuiltinHandle::History(c) => c.spec_name(),
        }
    }

    /// What `execute` decides.
    pub open spec fn spec_step(
        &self,
        args: Seq<Seq<char>>,
        ctx: crate::builtins::ShellContextView,
    ) -> Result<BuiltinStepView, ShellErrorView> {
        match self {
            BuiltinHandle::Echo(c) => c.spec_step(args, ctx),
            BuiltinHandle::Pwd(c) => c.spec_step(args, ctx),
            BuiltinHandle::Cd(c) => c.spec_step(args, ctx),
            BuiltinHandle::Type(c) => c.spec_step(args, ctx),
            BuiltinHandle::Exit(c) => c.spec_step(args, ctx),
            BuiltinHandle::History(c) => c.spec_step(args, ctx),
        }
    }

    /// What `exit_code` returns.
    pub open spec fn spec_exit_code(&self, args: Seq<Seq<char>>) -> Option<i32> {
        match self {
            BuiltinHandle::Echo(c) => c.spec_exit_code(args),
            BuiltinHandle::Pwd(c) => c.spec_exit_code(args),
            BuiltinHandle::Cd(c) => c.spec_exit_code(args),
            BuiltinHandle::Type(c) => c.spec_exit_code(args),
            BuiltinHandle::Exit(c) => c.spec_exit_code(args),
            BuiltinHandle::History(c) => c.spec_exit_code(args),
        }
    }

    /// The command's registered name.
    pub fn name(&self) -> (r: &'static str)
        ensures
            r@ == self.spec_name(),
    {
        match self {
            BuiltinHandle::Echo(c) => c.name(),
            BuiltinHandle::Pwd(c) => c.name(),
            BuiltinHandle::Cd(c) => c.name(),
            BuiltinHandle::Type(c) => c.name(),
            BuiltinHandle::Exit(c) => c.name(),
            BuiltinHandle::History(c) => c.name(),
        }
    }

    /// Runs the command on `args` under the context snapshot `ctx`.
    pub fn execute(&self, args: &Vec<String>, ctx: &ShellContext) -> (r: ShellResult<BuiltinStep>)
        requires
            args@.len() >= 1,
        ensures
            step_result_view(r) == self.spec_step(args.deep_view(), ctx@),
    {
        match self {
            BuiltinHandle::Echo(c) => c.execute(args, ctx),
            BuiltinHandle::Pwd(c) => c.execute(args, ctx),
            BuiltinHandle::Cd(c) => c.execute(args, ctx),
            BuiltinHandle::Type(c) => c.execute(args, ctx),
            BuiltinHandle::Exit(c) => c.execute(args, ctx),
            BuiltinHandle::History(c) => c.execute(args, ctx),
        }
    }

    /// Probes whether the command asks the shell to terminate.
    pub fn exit_code(&self, args: &Vec<String>) -> (r: Option<i32>)
        ensures
            r == self.spec_exit_code(args.deep_view()),
    {
        match self {
            BuiltinHandle::Echo(c) => c.exit_code(args),
            BuiltinHandle::Pwd(c) => c.exit_code(args),
            BuiltinHandle::Cd(c) => c.exit_code(args),
            BuiltinHandle::Type(c) => c.exit_code(args),
            BuiltinHandle::Exit(c) => c.exit_code(args),
            BuiltinHandle::History(c) => c.exit_code(args),
        }
    }
}

/// The first command in `cmds` registered under `name`, if any.
pub open spec fn find_in(cmds: Seq<BuiltinHandle>, name: Seq<char>) -> Option<BuiltinHandle>
    decreases cmds.len(),
{
    if cmds.len() == 0 {
        Option::None
    } else if cmds[0].spec_name() == name {
        Option::Some(cmds[0])
    } else {
        find_in(cmds.skip(1), name)
    }
}

/// Central registry of the builtin commands.
pub struct BuiltinRegistry {
    commands: Vec<BuiltinHandle>,
}

impl BuiltinRegistry {
    /// The registered commands, in registration order.
    pub closed spec fn spec_commands(&self) -> Seq<BuiltinHandle> {
        self.commands@
    }

    /// The registered names, in registration order.
    pub open spec fn spec_names(&self) -> Seq<Seq<char>> {
        self.spec_commands().map_values(|c: BuiltinHandle| c.spec_name())
    }

    /// The first registered command under `name`, if any.
    pub open spec fn spec_find(&self, name: Seq<char>) -> Option<BuiltinHandle> {
        find_in(self.spec_commands(), name)
    }

    /// An empty registry.
    pub fn new() -> (r: Self)
        ensures
            r.spec_commands() == Seq::<BuiltinHandle>::empty(),
    {
        BuiltinRegistry { commands: Vec::new() }
    }

    /// Adds one command; the single point of registration calls this once
    /// per builtin.
    pub fn register(&mut self, cmd: BuiltinHandle)
        ensures
            final(self).spec_commands() == old(self).spec_commands().push(cmd),
    {
        self.commands.push(cmd);
    }

    /// Whether `name` is a registered builtin.
    pub fn is_builtin(&self, name: &str) -> (r: bool)
        ensures
            r == (self.spec_find(name@) is Some),
    {
        let mut i: usize = 0;
        proof {
            assert(self.spec_commands().skip(0) =~= self.spec_commands());
        }
        while i < self.commands.len()
            invariant
                i <= self.commands@.len(),
                self.commands@ == self.spec_commands(),
                find_in(self.spec_commands(), name@) == find_in(
                    self.spec_commands().skip(i as int),
                    name@,
                ),
            decreases self.commands@.len() - i,
        {
            proof {
                assert(self.spec_commands().skip(i as int)[0] == self.spec_commands()[i as int]);
                assert(self.spec_commands().skip(i as int).skip(1) =~= self.spec_commands().skip(
                    i + 1,
                ));
            }
            if str_eq(self.commands[i].name(), name) {
                return true;
            }
            i = i + 1;
        }
        proof {
            assert(self.spec_commands().skip(self.commands@.len() as int).len() == 0);
        }
        false
    }

    /// All registered names, for `type` and for completion.
    pub fn builtin_names(&self) -> (r: Vec<String>)
        ensures
            r.deep_view() == self.spec_names(),
    {
        let mut out: Vec<String> = Vec::new();
        let mut i: usize = 0;
        proof {
            assert(out.deep_view() =~= self.spec_names().take(0));
        }
        while i < self.commands.len()
            invariant
                i <= self.commands@.len(),
                self.commands@ == self.spec_commands(),
                out.deep_view() == self.spec_names().take(i as int),
            decreases self.commands@.len() - i,
        {
            let ghost pre = out.deep_view();
            out.push(self.commands[i].name().to_owned());
            proof {
                assert(self.spec_names()[i as int] == self.spec_commands()[i as int].spec_name());
                assert(out.deep_view() =~~= pre.push(self.spec_names()[i as int]));
                assert(self.spec_names().take(i + 1) =~~= pre.push(self.spec_names()[i as int]));
            }
            i = i + 1;
        }
        proof {
            assert(self.spec_names().take(self.commands@.len() as int) =~~= self.spec_names());
        }
        out
    }

    /// Runs the first builtin registered under `name`, or reports that there
    /// is none.
    pub fn execute(&self, name: &str, args: &Vec<String>, ctx: &ShellContext) -> (r: Option<
        ShellResult<BuiltinStep>,
    >)
        requires
            args@.len() >= 1,
        ensures
            r is Some <==> self.spec_find(name@) is Some,
            r matches Some(res) ==> step_result_view(res) == self.spec_find(
                name@,
            )->Some_0.spec_step(args.deep_view(), ctx@),
    {
        let mut i: usize = 0;
        proof {
            assert(self.spec_commands().skip(0) =~= self.spec_commands());
        }
        while i < self.commands.len()
            invariant
                i <= self.commands@.len(),
                self.commands@ == self.spec_commands(),
                args@.len() >= 1,
                find_in(self.spec_commands(), name@) == find_in(
                    self.spec_commands().skip(i as int),
                    name@,
                ),
            decreases self.commands@.len() - i,
        {
            proof {
                assert(self.spec_commands().skip(i as int)[0] == self.spec_commands()[i as int]);
                assert(self.spec_commands().skip(i as int).skip(1) =~= self.spec_commands().skip(
                    i + 1,
                ));
            }
            if str_eq(self.commands[i].name(), name) {
                return Some(self.commands[i].execute(args, ctx));
            }
            i = i + 1;
        }
        proof {
            assert(self.spec_commands().skip(self.commands@.len() as int).len() == 0);
        }
        None
    }

    /// Probes the builtin registered under `name` for an exit request.
    pub fn check_exit(&self, name: &str, args: &Vec<String>) -> (r: Option<i32>)
        ensures
            r == (match self.spec_find(name@) {
                Option::Some(c) => c.spec_exit_code(args.deep_view()),
                Option::None => Option::<i32>::None,
            }),
    {
        let mut i: usize = 0;
        proof {
            assert(self.spec_commands().skip(0) =~= self.spec_commands());
        }
        while i < self.commands.len()
            invariant
                i <= self.commands@.len(),
                self.commands@ == self.spec_commands(),
                find_in(self.spec_commands(), name@) == find_in(
                    self.spec_commands().skip(i as int),
                    name@,
                ),
            decreases self.commands@.len() - i,
        {
            proof {
                assert(self.spec_commands().skip(i as int)[0] == self.spec_commands()[i as int]);
                assert(self.spec_commands().skip(i as int).skip(1) =~= self.spec_commands().skip(
                    i + 1,
                ));
            }
            if str_eq(self.commands[i].name(), name) {
                return self.commands[i].exit_code(args);
            }
            i = i + 1;
        }
        proof {
            assert(self.spec_commands().skip(self.commands@.len() as int).len() == 0);
        }
        None
    }
}

/// The registry the shell starts with: the six builtins, registered at the
/// single point of registration.
pub fn default_registry() -> (r: BuiltinRegistry)
    ensures
        r.spec_commands() == seq![
            BuiltinHandle::Echo(EchoCommand),
            BuiltinHandle::Pwd(PwdCommand),
            BuiltinHandle::Cd(CdCommand),
            BuiltinHandle::Type(TypeCommand),
            BuiltinHandle::Exit(ExitCommand),
            BuiltinHandle::History(HistoryCommand),
        ],
{
    let mut registry = BuiltinRegistry::new();
    registry.register(BuiltinHandle::Echo(EchoCommand));
    registry.register(BuiltinHandle::Pwd(PwdCommand));
    registry.register(BuiltinHandle::Cd(CdCommand));
    registry.register(BuiltinHandle::Type(TypeCommand));
    registry.register(BuiltinHandle::Exit(ExitCommand));
    registry.register(BuiltinHandle::History(HistoryCommand));
    proof {
        assert(registry.spec_commands() =~= seq![
            BuiltinHandle::Echo(EchoCommand),
            BuiltinHandle::Pwd(PwdCommand),
            BuiltinHandle::Cd(CdCommand),
            BuiltinHandle::Type(TypeCommand),
            BuiltinHandle::Exit(ExitCommand),
            BuiltinHandle::History(HistoryCommand),
        ]);
    }
    registry
}

} // verus!
