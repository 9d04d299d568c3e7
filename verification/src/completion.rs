//! Completions of single entries, and reading a whole document.

use vstd::prelude::*;
use vstd::string::*;
use crate::builder::{build_command, built, command_of, program_of, Policy, MAX_DEPTH};
use crate::entry::{arg_at, opt_at, read_arg, read_opt};
use crate::error::{error_views, ConfigError, ErrorView, Slot};
use crate::laws::built_program_is_well_formed;
use crate::program::{
    ArgView, Command, CommandView, CompKind, CompKindView, Completion, CompletionView, OptView,
    Program, ProgramView,
};
use crate::text::texts;
use crate::value::{Node, Tree};

verus! {

/// The completion of an option of the command at `path`.
pub open spec fn opt_completion(
    command: Seq<char>,
    path: Seq<Seq<char>>,
    opt: OptView,
) -> CompletionView {
    CompletionView {
        command,
        path,
        completion_kind: CompKindView::Opt(opt),
        description: opt.description,
    }
}

/// The completion of an argument of the command at `path`.
pub open spec fn arg_completion(
    command: Seq<char>,
    path: Seq<Seq<char>>,
    arg: ArgView,
) -> CompletionView {
    CompletionView {
        command,
        path,
        completion_kind: CompKindView::Arg(arg),
        description: arg.description,
    }
}

/// Why a document gave no program: the errors found in it, and what could
/// be built of its root command all the same.
#[derive(Debug, PartialEq, Eq)]
pub struct Refusal {
    /// The errors, in the order of the document; one at least.
    pub errors: Vec<ConfigError>,
    /// The root command with the entries and subcommands that could be
    /// built; `None` where not even its name could be read.
    pub partial: Option<Command>,
}

/// The mathematical value of a [`Refusal`].
pub struct RefusalView {
    pub errors: Seq<ErrorView>,
    pub partial: Option<CommandView>,
}

impl View for Refusal {
    type V = RefusalView;

    open spec fn view(&self) -> RefusalView {
        RefusalView { errors: error_views(self.errors@), partial: built(self.partial) }
    }
}

/// What a document gives: the program that it describes, or else its errors
/// with what could be built of its root command.
pub open spec fn document_of(tree: Node, policy: Policy) -> Result<ProgramView, RefusalView> {
    match program_of(tree, policy) {
        Ok(program) => Ok(program),
        Err(errors) => Err(
            RefusalView {
                errors,
                partial: command_of(
                    tree,
                    Seq::empty(),
                    Slot::Command,
                    policy,
                    MAX_DEPTH as nat,
                ).command,
            },
        ),
    }
}

impl Completion {
    /// Builds the completion of the argument entry with a given index of the
    /// command at `path`. An error names that path and that index.
    pub fn build_arg(cmd: String, path: Vec<String>, index: usize, entry: &Tree) -> (out: Result<
        Self,
        ConfigError,
    >)
        ensures
            match out {
                Ok(completion) => arg_at(entry@, texts(path@), index) is Ok && completion@
                    == arg_completion(
                    cmd@,
                    texts(path@),
                    arg_at(entry@, texts(path@), index)->Ok_0,
                ),
                Err(error) => arg_at(entry@, texts(path@), index) == Err::<ArgView, ErrorView>(
                    error@,
                ),
            },
    {
        match read_arg(&path, index, entry) {
            Ok(arg) => {
                let description = arg.description.clone();
                Ok(Completion::new(cmd, path, CompKind::Arg(arg), description))
            },
            Err(error) => Err(error),
        }
    }

    /// Builds the completion of the option entry with a given index of the
    /// command at `path`. An error names that path and that index.
    pub fn build_opt(cmd: String, path: Vec<String>, index: usize, entry: &Tree) -> (out: Result<
        Self,
        ConfigError,
    >)
        ensures
            match out {
                Ok(completion) => opt_at(entry@, texts(path@), index) is Ok && completion@
                    == opt_completion(
                    cmd@,
                    texts(path@),
                    opt_at(entry@, texts(path@), index)->Ok_0,
                ),
                Err(error) => opt_at(entry@, texts(path@), index) == Err::<OptView, ErrorView>(
                    error@,
                ),
            },
    {
        match read_opt(&path, index, entry) {
            Ok(opt) => {
                let description = opt.description.clone();
                Ok(Completion::new(cmd, path, CompKind::Opt(opt), description))
            },
            Err(error) => Err(error),
        }
    }

    /// Reads a document: a table with the `name` of the program and, each
    /// optional, the arrays `argument`, `option` and `command`. Returns the
    /// program where the document has no error. Otherwise returns the errors
    /// that the policy lets the builder find, with what could be built of
    /// the root command.
    pub fn from_toml(toml: &Tree, policy: Policy) -> (out: Result<Program, Refusal>)
        ensures
            match out {
                Ok(program) => document_of(toml@, policy) == Ok::<ProgramView, RefusalView>(
                    program@,
                ),
                Err(refusal) => document_of(toml@, policy) == Err::<ProgramView, RefusalView>(
                    refusal@,
                ),
            },
            out matches Ok(program) ==> program@.wf(),
            out matches Err(refusal) ==> refusal@.errors.len() > 0,
    {
        proof {
            built_program_is_well_formed(toml@, policy);
        }
        let root: Vec<String> = Vec::new();
        assert(texts(root@) =~= Seq::<Seq<char>>::empty());
        let (command, errors) = build_command(toml, &root, Slot::Command, policy, MAX_DEPTH);
        match command {
            Some(command) => {
                if errors.len() == 0 {
                    Ok(Program { name: command.name.clone(), base_command: command })
                } else {
                    Err(Refusal { errors, partial: Some(command) })
                }
            },
            None => Err(Refusal { errors, partial: None }),
        }
    }
}

} // verus!
