//! The model of a program's command line: commands with their arguments,
//! options and subcommands.

use vstd::prelude::*;
use vstd::string::*;
use crate::kind::{parse_argument_kind, parsed_kind, ArgKind, KindError, KindFault, KindView};
use crate::text::texts;

verus! {

/// An option: its spellings, the kind of value that it takes, if any, and
/// what it is for.
#[derive(Debug, PartialEq, Eq)]
pub struct Opt {
    /// The accepted spellings, such as `--verbose` and `-v`.
    pub opts: Vec<String>,
    /// The kind of the option's value; `None` for a flag that takes none.
    pub argument: Option<ArgKind>,
    pub description: String,
}

/// The mathematical value of an [`Opt`].
pub struct OptView {
    pub opts: Seq<Seq<char>>,
    pub argument: Option<KindView>,
    pub description: Seq<char>,
}

impl OptView {
    /// Whether the option is well formed: it has a spelling, and its value
    /// kind, if any, is well formed.
    pub open spec fn wf(self) -> bool {
        &&& self.opts.len() > 0
        &&& self.argument matches Some(kind) ==> kind.wf()
    }
}

impl View for Opt {
    type V = OptView;

    open spec fn view(&self) -> OptView {
        OptView {
            opts: texts(self.opts@),
            argument: match self.argument {
                Some(kind) => Some(kind@),
                None => None,
            },
            description: self.description@,
        }
    }
}

impl Opt {
    /// An option with the given spellings, value kind and description.
    pub fn new(opts: Vec<String>, argument: Option<ArgKind>, description: String) -> (out: Self)
        ensures
            out.opts == opts,
            out.argument == argument,
            out.description == description,
    {
        Opt { opts, argument, description }
    }
}

/// A positional argument.
#[derive(Debug, PartialEq, Eq)]
pub struct Arg {
    pub kind: ArgKind,
    /// Whether the argument has to be given.
    pub required: bool,
    /// Whether file names are offered besides the candidates of the kind.
    pub usefiles: bool,
    pub description: String,
}

/// The mathematical value of an [`Arg`].
pub struct ArgView {
    pub kind: KindView,
    pub required: bool,
    pub usefiles: bool,
    pub description: Seq<char>,
}

impl ArgView {
    /// Whether the argument is well formed: its kind is.
    pub open spec fn wf(self) -> bool {
        self.kind.wf()
    }
}

impl View for Arg {
    type V = ArgView;

    open spec fn view(&self) -> ArgView {
        ArgView {
            kind: self.kind@,
            required: self.required,
            usefiles: self.usefiles,
            description: self.description@,
        }
    }
}

impl Arg {
    /// An argument of the given kind.
    pub fn new(kind: ArgKind, required: bool, usefiles: bool, description: String) -> (out: Self)
        ensures
            out.kind == kind,
            out.required == required,
            out.usefiles == usefiles,
            out.description == description,
    {
        Arg { kind, required, usefiles, description }
    }

    /// Reads the kind that a text names; see [`parse_argument_kind`].
    pub fn parse_argkind(inp: &str) -> (out: Result<ArgKind, KindError>)
        ensures
            match out {
                Ok(kind) => parsed_kind(inp@) == Ok::<KindView, KindFault>(kind@),
                Err(e) => e.input@ == inp@ && parsed_kind(inp@) == Err::<KindView, KindFault>(
                    e.reason,
                ),
            },
    {
        parse_argument_kind(inp)
    }
}

/// A subcommand, by its name.
#[derive(Debug, PartialEq, Eq)]
pub struct Subcmd {
    pub name: String,
}

/// What a completion completes.
#[derive(Debug, PartialEq, Eq)]
pub enum CompKind {
    Opt(Opt),
    Arg(Arg),
    Subcmd(Subcmd),
}

/// The mathematical value of a [`CompKind`].
pub enum CompKindView {
    Opt(OptView),
    Arg(ArgView),
    Subcmd(Seq<char>),
}

impl View for CompKind {
    type V = CompKindView;

    open spec fn view(&self) -> CompKindView {
        match self {
            CompKind::Opt(opt) => CompKindView::Opt(opt@),
            CompKind::Arg(arg) => CompKindView::Arg(arg@),
            CompKind::Subcmd(sub) => CompKindView::Subcmd(sub.name@),
        }
    }
}

/// One thing to complete at one place of a program's command line.
#[derive(Debug, PartialEq, Eq)]
pub struct Completion {
    /// The program's name.
    pub command: String,
    /// The names of the commands from the program down to the place.
    pub path: Vec<String>,
    pub completion_kind: CompKind,
    pub description: String,
}

/// The mathematical value of a [`Completion`].
pub struct CompletionView {
    pub command: Seq<char>,
    pub path: Seq<Seq<char>>,
    pub completion_kind: CompKindView,
    pub description: Seq<char>,
}

impl View for Completion {
    type V = CompletionView;

    open spec fn view(&self) -> CompletionView {
        CompletionView {
            command: self.command@,
            path: texts(self.path@),
            completion_kind: self.completion_kind@,
            description: self.description@,
        }
    }
}

impl Completion {
    /// A completion from its parts.
    pub fn new(cmd: String, path: Vec<String>, kind: CompKind, desc: String) -> (out: Self)
        ensures
            out.command == cmd,
            out.path == path,
            out.completion_kind == kind,
            out.description == desc,
    {
        Completion { command: cmd, path, completion_kind: kind, description: desc }
    }
}

/// One command of a program, with the commands below it.
#[derive(Debug, PartialEq, Eq)]
pub struct Command {
    pub name: String,
    pub arguments: Vec<Arg>,
    pub options: Vec<Opt>,
    pub subcommands: Vec<Command>,
}

/// The mathematical value of a [`Command`].
pub struct CommandView {
    pub name: Seq<char>,
    pub arguments: Seq<ArgView>,
    pub options: Seq<OptView>,
    pub subcommands: Seq<CommandView>,
}

impl CommandView {
    /// Whether the command is well formed: its name is not empty, its
    /// arguments and options are well formed, no two of its subcommands have
    /// the same name, and every subcommand is well formed in turn.
    pub open spec fn wf(self) -> bool
        decreases self,
    {
        &&& self.name.len() > 0
        &&& forall|i: int| 0 <= i < self.arguments.len() ==> (#[trigger] self.arguments[i]).wf()
        &&& forall|i: int| 0 <= i < self.options.len() ==> (#[trigger] self.options[i]).wf()
        &&& forall|i: int, j: int|
            0 <= i < j < self.subcommands.len() ==> (#[trigger] self.subcommands[i]).name != (
            #[trigger] self.subcommands[j]).name
        &&& forall|i: int|
            0 <= i < self.subcommands.len() ==> (#[trigger] self.subcommands[i]).wf()
    }
}

impl ProgramView {
    /// Whether the program is well formed: it is known by the name of its
    /// root command, which is well formed.
    pub open spec fn wf(self) -> bool {
        &&& self.name == self.base_command.name
        &&& self.base_command.wf()
    }
}

/// The values of a sequence of arguments.
pub open spec fn arg_views(args: Seq<Arg>) -> Seq<ArgView> {
    args.map_values(|a: Arg| a@)
}

/// The values of a sequence of options.
pub open spec fn opt_views(opts: Seq<Opt>) -> Seq<OptView> {
    opts.map_values(|o: Opt| o@)
}

impl View for Command {
    type V = CommandView;

    open spec fn view(&self) -> CommandView
        decreases self,
    {
        CommandView {
            name: self.name@,
            arguments: arg_views(self.arguments@),
            options: opt_views(self.options@),
            subcommands: Seq::new(
                self.subcommands@.len(),
                |i: int|
                    if 0 <= i < self.subcommands@.len() {
                        self.subcommands[i]@
                    } else {
                        CommandView {
                            name: Seq::empty(),
                            arguments: Seq::empty(),
                            options: Seq::empty(),
                            subcommands: Seq::empty(),
                        }
                    },
            ),
        }
    }
}

/// The values of a sequence of commands.
pub open spec fn command_views(commands: Seq<Command>) -> Seq<CommandView> {
    commands.map_values(|c: Command| c@)
}

/// The value of a command, part by part.
pub proof fn command_view(command: Command)
    ensures
        command@ == (CommandView {
            name: command.name@,
            arguments: arg_views(command.arguments@),
            options: opt_views(command.options@),
            subcommands: command_views(command.subcommands@),
        }),
{
    assert(command@.subcommands =~= command_views(command.subcommands@));
}

/// A program: its name and its root command.
#[derive(Debug, PartialEq, Eq)]
pub struct Program {
    pub name: String,
    pub base_command: Command,
}

/// The mathematical value of a [`Program`].
pub struct ProgramView {
    pub name: Seq<char>,
    pub base_command: CommandView,
}

impl View for Program {
    type V = ProgramView;

    open spec fn view(&self) -> ProgramView {
        ProgramView { name: self.name@, base_command: self.base_command@ }
    }
}

} // verus!
