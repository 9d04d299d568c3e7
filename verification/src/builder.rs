//! Building the model of a program from a configuration tree.
//!
//! A command is a table with a `name` and, each optional, the arrays
//! `argument`, `option` and `command`, whose entries are tables in turn. The
//! builder reads the arguments, then the options, then the subcommands, each
//! in the order of the document, and reports every error with the path of
//! the command and the index of the entry at fault.

use vstd::prelude::*;
use vstd::string::*;
use crate::entry::{arg_of, opt_of, read_arg, read_opt, required_text};
use crate::laws::built_program_is_well_formed;
use crate::error::{
    error_views, located, ConfigError, ErrorView, Fault, FaultView, Key, Shape, Slot,
};
use crate::program::{
    arg_views, command_view, command_views, opt_views, Arg, ArgView, Command, CommandView, Opt,
    OptView, Program, ProgramView,
};
use crate::text::{contains_text, copy_texts, texts};
use crate::value::{
    get, get_string, lookup, nodes, pairs, Entry, Field, Node, Pair, Tree, ValueKind,
};

verus! {

/// What the builder does after an error.
#[derive(Debug, PartialEq, Eq, Clone, Copy, Structural)]
pub enum Policy {
    /// Stop at the first error.
    FailFast,
    /// Go on with the entries and commands that follow, and report every
    /// error.
    CollectAll,
}

/// The number of commands that the builder follows on one path from the
/// root. A command below that is an error.
pub const MAX_DEPTH: usize = 32;

/// What was built of a list of entries, and the errors of the others.
pub struct Gathered<T> {
    pub items: Seq<T>,
    pub errors: Seq<ErrorView>,
}

/// What was built of a command, and the errors in it.
pub struct Outcome {
    pub command: Option<CommandView>,
    pub errors: Seq<ErrorView>,
}

/// Whether the builder has stopped.
pub open spec fn halted(policy: Policy, errors: Seq<ErrorView>) -> bool {
    policy == Policy::FailFast && errors.len() > 0
}

/// What is built of the first `n` argument entries of the command at `path`.
pub open spec fn args_upto(
    items: Seq<Node>,
    path: Seq<Seq<char>>,
    policy: Policy,
    n: nat,
) -> Gathered<ArgView>
    decreases n,
{
    if n == 0 {
        Gathered { items: Seq::empty(), errors: Seq::empty() }
    } else {
        let before = args_upto(items, path, policy, (n - 1) as nat);
        if halted(policy, before.errors) {
            before
        } else {
            match arg_of(items[n - 1]) {
                Ok(arg) => Gathered { items: before.items.push(arg), errors: before.errors },
                Err(fault) => Gathered {
                    items: before.items,
                    errors: before.errors.push(
                        located(path, Slot::Argument((n - 1) as usize), fault),
                    ),
                },
            }
        }
    }
}

/// What is built of the first `n` option entries of the command at `path`.
pub open spec fn opts_upto(
    items: Seq<Node>,
    path: Seq<Seq<char>>,
    policy: Policy,
    n: nat,
) -> Gathered<OptView>
    decreases n,
{
    if n == 0 {
        Gathered { items: Seq::empty(), errors: Seq::empty() }
    } else {
        let before = opts_upto(items, path, policy, (n - 1) as nat);
        if halted(policy, before.errors) {
            before
        } else {
            match opt_of(items[n - 1]) {
                Ok(opt) => Gathered { items: before.items.push(opt), errors: before.errors },
                Err(fault) => Gathered {
                    items: before.items,
                    errors: before.errors.push(
                        located(path, Slot::Option((n - 1) as usize), fault),
                    ),
                },
            }
        }
    }
}

/// The entries under one of the keys `argument`, `option` and `command`:
/// none where the key is absent, an error where its value is no array.
pub open spec fn section(entries: Seq<Pair>, key: Key) -> Result<Seq<Node>, FaultView> {
    match lookup(entries, key.text()) {
        None => Ok(Seq::empty()),
        Some(Node::List(items)) => Ok(items),
        Some(_) => Err(FaultView::InvalidConfigShape { shape: Shape::NotAList(key) }),
    }
}

/// The arguments of the command at `path`.
pub open spec fn arguments_of(
    entries: Seq<Pair>,
    path: Seq<Seq<char>>,
    policy: Policy,
) -> Gathered<ArgView> {
    match section(entries, Key::Argument) {
        Err(fault) => Gathered {
            items: Seq::empty(),
            errors: seq![located(path, Slot::Command, fault)],
        },
        Ok(items) => args_upto(items, path, policy, items.len()),
    }
}

/// The options of the command at `path`.
pub open spec fn options_of(
    entries: Seq<Pair>,
    path: Seq<Seq<char>>,
    policy: Policy,
) -> Gathered<OptView> {
    match section(entries, Key::Option) {
        Err(fault) => Gathered {
            items: Seq::empty(),
            errors: seq![located(path, Slot::Command, fault)],
        },
        Ok(items) => opts_upto(items, path, policy, items.len()),
    }
}

/// The name of a command: the string under `name`, which has to be there and
/// must not be empty.
pub open spec fn name_of(entries: Seq<Pair>) -> Result<Seq<char>, FaultView> {
    match required_text(entries, Key::Name) {
        Err(fault) => Err(fault),
        Ok(name) => if name.len() == 0 {
            Err(FaultView::InvalidConfigShape { shape: Shape::EmptyName })
        } else {
            Ok(name)
        },
    }
}

/// The name of a subcommand entry, where it can be read.
pub open spec fn name_at(entry: Node) -> Option<Seq<char>> {
    match entry {
        Node::Table(entries) => match name_of(entries) {
            Ok(name) => Some(name),
            Err(_) => None,
        },
        _ => None,
    }
}

/// The names of the first `n` subcommand entries, as far as they can be read.
pub open spec fn names_upto(items: Seq<Node>, n: nat) -> Seq<Seq<char>>
    decreases n,
{
    if n == 0 {
        Seq::empty()
    } else {
        match name_at(items[n - 1]) {
            Some(name) => names_upto(items, (n - 1) as nat).push(name),
            None => names_upto(items, (n - 1) as nat),
        }
    }
}

/// Whether the subcommand entry with index `i` has the name of one before it.
pub open spec fn repeats(items: Seq<Node>, i: nat) -> bool {
    match name_at(items[i as int]) {
        Some(name) => names_upto(items, i).contains(name),
        None => false,
    }
}

/// What is built of a command.
///
/// `parent` is the path of the command above it and `slot` its place there;
/// an error in reading the command's name is reported at that place, every
/// other error at the command's own path. `fuel` is the number of commands
/// that may still follow on the path; with none left the command is an
/// error.
pub open spec fn command_of(
    node: Node,
    parent: Seq<Seq<char>>,
    slot: Slot,
    policy: Policy,
    fuel: nat,
) -> Outcome
    decreases fuel, 0nat,
{
    match node {
        Node::Table(entries) => match name_of(entries) {
            Err(fault) => Outcome { command: None, errors: seq![located(parent, slot, fault)] },
            Ok(name) => {
                let path = parent.push(name);
                if fuel == 0 {
                    Outcome {
                        command: None,
                        errors: seq![
                            located(
                                path,
                                Slot::Command,
                                FaultView::InvalidConfigShape { shape: Shape::TooDeep },
                            ),
                        ],
                    }
                } else {
                    let args = arguments_of(entries, path, policy);
                    let opts = if halted(policy, args.errors) {
                        Gathered { items: Seq::empty(), errors: Seq::empty() }
                    } else {
                        options_of(entries, path, policy)
                    };
                    let subs = if halted(policy, args.errors + opts.errors) {
                        Gathered { items: Seq::empty(), errors: Seq::empty() }
                    } else {
                        subcommands_of(entries, path, policy, (fuel - 1) as nat)
                    };
                    Outcome {
                        command: Some(
                            CommandView {
                                name,
                                arguments: args.items,
                                options: opts.items,
                                subcommands: subs.items,
                            },
                        ),
                        errors: args.errors + opts.errors + subs.errors,
                    }
                }
            },
        },
        _ => Outcome {
            command: None,
            errors: seq![
                located(parent, slot, FaultView::InvalidConfigShape { shape: Shape::NotATable }),
            ],
        },
    }
}

/// The subcommands of the command at `path`.
pub open spec fn subcommands_of(
    entries: Seq<Pair>,
    path: Seq<Seq<char>>,
    policy: Policy,
    fuel: nat,
) -> Gathered<CommandView>
    decreases fuel, 2nat,
{
    match section(entries, Key::Command) {
        Err(fault) => Gathered {
            items: Seq::empty(),
            errors: seq![located(path, Slot::Command, fault)],
        },
        Ok(items) => subs_upto(items, path, policy, fuel, items.len()),
    }
}

/// What is built of the first `n` subcommand entries of the command at
/// `path`. An entry with the name of an earlier one is an error and is not
/// built.
pub open spec fn subs_upto(
    items: Seq<Node>,
    path: Seq<Seq<char>>,
    policy: Policy,
    fuel: nat,
    n: nat,
) -> Gathered<CommandView>
    decreases fuel, 1nat, n,
{
    if n == 0 {
        Gathered { items: Seq::empty(), errors: Seq::empty() }
    } else {
        let before = subs_upto(items, path, policy, fuel, (n - 1) as nat);
        let slot = Slot::Subcommand((n - 1) as usize);
        if halted(policy, before.errors) {
            before
        } else if repeats(items, (n - 1) as nat) {
            Gathered {
                items: before.items,
                errors: before.errors.push(
                    located(
                        path,
                        slot,
                        FaultView::DuplicateSubcommandName { name: name_at(items[n - 1])->0 },
                    ),
                ),
            }
        } else {
            let child = command_of(items[n - 1], path, slot, policy, fuel);
            Gathered {
                items: match child.command {
                    Some(command) => before.items.push(command),
                    None => before.items,
                },
                errors: before.errors + child.errors,
            }
        }
    }
}

/// The program that a document describes, or the errors of the document.
/// The name under which the program is known is the name of its root
/// command.
pub open spec fn program_of(tree: Node, policy: Policy) -> Result<ProgramView, Seq<ErrorView>> {
    let outcome = command_of(tree, Seq::empty(), Slot::Command, policy, MAX_DEPTH as nat);
    match outcome.command {
        Some(command) => if outcome.errors.len() == 0 {
            Ok(ProgramView { name: command.name, base_command: command })
        } else {
            Err(outcome.errors)
        },
        None => Err(outcome.errors),
    }
}

/// Once the builder has stopped, further argument entries change nothing.
pub proof fn args_halt_later(items: Seq<Node>, path: Seq<Seq<char>>, policy: Policy, n: nat, m: nat)
    requires
        n <= m,
        halted(policy, args_upto(items, path, policy, n).errors),
    ensures
        args_upto(items, path, policy, m) == args_upto(items, path, policy, n),
    decreases m,
{
    if n < m {
        args_halt_later(items, path, policy, n, (m - 1) as nat);
    }
}

/// Once the builder has stopped, further option entries change nothing.
pub proof fn opts_halt_later(items: Seq<Node>, path: Seq<Seq<char>>, policy: Policy, n: nat, m: nat)
    requires
        n <= m,
        halted(policy, opts_upto(items, path, policy, n).errors),
    ensures
        opts_upto(items, path, policy, m) == opts_upto(items, path, policy, n),
    decreases m,
{
    if n < m {
        opts_halt_later(items, path, policy, n, (m - 1) as nat);
    }
}

/// Once the builder has stopped, further subcommand entries change nothing.
pub proof fn subs_halt_later(
    items: Seq<Node>,
    path: Seq<Seq<char>>,
    policy: Policy,
    fuel: nat,
    n: nat,
    m: nat,
)
    requires
        n <= m,
        halted(policy, subs_upto(items, path, policy, fuel, n).errors),
    ensures
        subs_upto(items, path, policy, fuel, m) == subs_upto(items, path, policy, fuel, n),
    decreases m,
{
    if n < m {
        subs_halt_later(items, path, policy, fuel, n, (m - 1) as nat);
    }
}

/// Whether the builder stops at the errors found so far.
fn stops(policy: Policy, errors: &Vec<ConfigError>) -> (out: bool)
    ensures
        out == halted(policy, error_views(errors@)),
{
    match policy {
        Policy::FailFast => errors.len() > 0,
        Policy::CollectAll => false,
    }
}

/// Reads the entries under one of the keys `argument`, `option` and
/// `command` of the command at `path`. `Ok(None)` stands for a key that is
/// absent. An error names that path.
pub fn read_section<'a>(path: &Vec<String>, entries: &'a Vec<Entry>, key: Key) -> (out: Result<
    Option<&'a Vec<Tree>>,
    ConfigError,
>)
    ensures
        match out {
            Ok(Some(items)) => section(pairs(entries@), key) == Ok::<Seq<Node>, FaultView>(
                nodes(items@),
            ),
            Ok(None) => section(pairs(entries@), key) == Ok::<Seq<Node>, FaultView>(Seq::empty()),
            Err(error) => section(pairs(entries@), key) is Err && error@ == located(
                texts(path@),
                Slot::Command,
                section(pairs(entries@), key)->Err_0,
            ),
        },
{
    match get(entries, key.name()) {
        None => Ok(None),
        Some(tree) => match tree.as_array() {
            Some(items) => Ok(Some(items)),
            None => Err(
                ConfigError::at(
                    path,
                    Slot::Command,
                    Fault::InvalidConfigShape { shape: Shape::NotAList(key) },
                ),
            ),
        },
    }
}

/// Builds the arguments of the command at `path` from its argument entries.
/// Returns the arguments that could be built and the errors of the others.
pub fn build_arguments(items: &Vec<Tree>, path: &Vec<String>, policy: Policy) -> (out: (
    Vec<Arg>,
    Vec<ConfigError>,
))
    ensures
        arg_views(out.0@) == args_upto(nodes(items@), texts(path@), policy, items@.len()).items,
        error_views(out.1@) == args_upto(nodes(items@), texts(path@), policy, items@.len()).errors,
{
    let mut args: Vec<Arg> = Vec::new();
    let mut errors: Vec<ConfigError> = Vec::new();
    let mut i: usize = 0;
    assert(arg_views(args@) =~= Seq::<ArgView>::empty());
    assert(error_views(errors@) =~= Seq::<ErrorView>::empty());
    while i < items.len()
        invariant
            i <= items@.len(),
            arg_views(args@) == args_upto(nodes(items@), texts(path@), policy, i as nat).items,
            error_views(errors@) == args_upto(nodes(items@), texts(path@), policy, i as nat).errors,
        decreases items@.len() - i,
    {
        if stops(policy, &errors) {
            proof {
                args_halt_later(nodes(items@), texts(path@), policy, i as nat, items@.len());
            }
            return (args, errors);
        }
        let ghost built = arg_views(args@);
        let ghost failed = error_views(errors@);
        assert(nodes(items@)[i as int] == items@[i as int]@);
        match read_arg(path, i, &items[i]) {
            Ok(arg) => {
                args.push(arg);
                assert(arg_views(args@) =~= built.push(arg@));
            },
            Err(error) => {
                errors.push(error);
                assert(error_views(errors@) =~= failed.push(error@));
            },
        }
        i += 1;
    }
    (args, errors)
}

/// Builds the options of the command at `path` from its option entries.
/// Returns the options that could be built and the errors of the others.
pub fn build_options(items: &Vec<Tree>, path: &Vec<String>, policy: Policy) -> (out: (
    Vec<Opt>,
    Vec<ConfigError>,
))
    ensures
        opt_views(out.0@) == opts_upto(nodes(items@), texts(path@), policy, items@.len()).items,
        error_views(out.1@) == opts_upto(nodes(items@), texts(path@), policy, items@.len()).errors,
{
    let mut opts: Vec<Opt> = Vec::new();
    let mut errors: Vec<ConfigError> = Vec::new();
    let mut i: usize = 0;
    assert(opt_views(opts@) =~= Seq::<OptView>::empty());
    assert(error_views(errors@) =~= Seq::<ErrorView>::empty());
    while i < items.len()
        invariant
            i <= items@.len(),
            opt_views(opts@) == opts_upto(nodes(items@), texts(path@), policy, i as nat).items,
            error_views(errors@) == opts_upto(nodes(items@), texts(path@), policy, i as nat).errors,
        decreases items@.len() - i,
    {
        if stops(policy, &errors) {
            proof {
                opts_halt_later(nodes(items@), texts(path@), policy, i as nat, items@.len());
            }
            return (opts, errors);
        }
        let ghost built = opt_views(opts@);
        let ghost failed = error_views(errors@);
        assert(nodes(items@)[i as int] == items@[i as int]@);
        match read_opt(path, i, &items[i]) {
            Ok(opt) => {
                opts.push(opt);
                assert(opt_views(opts@) =~= built.push(opt@));
            },
            Err(error) => {
                errors.push(error);
                assert(error_views(errors@) =~= failed.push(error@));
            },
        }
        i += 1;
    }
    (opts, errors)
}

/// Reads the name of a command.
pub(crate) fn read_name(entries: &Vec<Entry>) -> (out: Result<String, Fault>)
    ensures
        match out {
            Ok(name) => name_of(pairs(entries@)) == Ok::<Seq<char>, FaultView>(name@),
            Err(fault) => name_of(pairs(entries@)) == Err::<Seq<char>, FaultView>(fault@),
        },
{
    match get_string(entries, Key::Name.name()) {
        Field::Present(text) => {
            if text.is_empty() {
                Err(Fault::InvalidConfigShape { shape: Shape::EmptyName })
            } else {
                Ok(String::from_str(text))
            }
        },
        Field::Absent => Err(Fault::MissingRequiredField { field: Key::Name }),
        Field::Mismatch(found) => Err(
            Fault::WrongFieldType { field: Key::Name, expected: ValueKind::Text, found },
        ),
    }
}

/// Reads the name of a subcommand entry, where it has one.
fn peek_name(entry: &Tree) -> (out: Option<String>)
    ensures
        match out {
            Some(name) => name_at(entry@) == Some(name@),
            None => name_at(entry@) is None,
        },
{
    match entry.as_table() {
        None => None,
        Some(entries) => match read_name(entries) {
            Ok(name) => Some(name),
            Err(_) => None,
        },
    }
}

/// The value of what was built of a command.
pub open spec fn built(command: Option<Command>) -> Option<CommandView> {
    match command {
        Some(c) => Some(c@),
        None => None,
    }
}

/// Builds a command from its table.
///
/// `parent` is the path of the command above it and `slot` the command's
/// place there. `fuel` is the number of commands that may still follow on
/// the path. Returns what could be built of the command and the errors
/// found in it; where no error is returned the command is complete.
pub fn build_command(
    node: &Tree,
    parent: &Vec<String>,
    slot: Slot,
    policy: Policy,
    fuel: usize,
) -> (out: (Option<Command>, Vec<ConfigError>))
    ensures
        built(out.0) == command_of(node@, texts(parent@), slot, policy, fuel as nat).command,
        error_views(out.1@) == command_of(node@, texts(parent@), slot, policy, fuel as nat).errors,
    decreases fuel, 0nat,
{
    let mut errors: Vec<ConfigError> = Vec::new();
    let entries = match node.as_table() {
        Some(entries) => entries,
        None => {
            let error = ConfigError::at(
                parent,
                slot,
                Fault::InvalidConfigShape { shape: Shape::NotATable },
            );
            errors.push(error);
            assert(error_views(errors@) =~= seq![error@]);
            return (None, errors);
        },
    };
    let name = match read_name(entries) {
        Ok(name) => name,
        Err(fault) => {
            let error = ConfigError::at(parent, slot, fault);
            errors.push(error);
            assert(error_views(errors@) =~= seq![error@]);
            return (None, errors);
        },
    };
    let mut path = copy_texts(parent);
    path.push(name.clone());
    assert(texts(path@) =~= texts(parent@).push(name@));
    if fuel == 0 {
        let error = ConfigError::at(
            &path,
            Slot::Command,
            Fault::InvalidConfigShape { shape: Shape::TooDeep },
        );
        errors.push(error);
        assert(error_views(errors@) =~= seq![error@]);
        return (None, errors);
    }
    let mut arguments: Vec<Arg> = Vec::new();
    let mut options: Vec<Opt> = Vec::new();
    let mut subcommands: Vec<Command> = Vec::new();
    assert(arg_views(arguments@) =~= Seq::<ArgView>::empty());
    assert(opt_views(options@) =~= Seq::<OptView>::empty());
    assert(command_views(subcommands@) =~= Seq::<CommandView>::empty());
    assert(error_views(errors@) =~= Seq::<ErrorView>::empty());
    match read_section(&path, entries, Key::Argument) {
        Err(error) => {
            errors.push(error);
            assert(error_views(errors@) =~= seq![error@]);
        },
        Ok(None) => {},
        Ok(Some(items)) => {
            let (found, failed) = build_arguments(items, &path, policy);
            arguments = found;
            errors = failed;
        },
    }
    let ghost args = arguments_of(pairs(entries@), texts(path@), policy);
    assert(arg_views(arguments@) == args.items);
    assert(error_views(errors@) == args.errors);
    if !stops(policy, &errors) {
        match read_section(&path, entries, Key::Option) {
            Err(error) => {
                errors.push(error);
                assert(error_views(errors@) =~= args.errors + seq![error@]);
            },
            Ok(None) => {
                assert(error_views(errors@) =~= args.errors + Seq::<ErrorView>::empty());
            },
            Ok(Some(items)) => {
                let (found, mut failed) = build_options(items, &path, policy);
                options = found;
                let ghost more = error_views(failed@);
                errors.append(&mut failed);
                assert(error_views(errors@) =~= args.errors + more);
            },
        }
    } else {
        assert(error_views(errors@) =~= args.errors + Seq::<ErrorView>::empty());
    }
    let ghost opts = if halted(policy, args.errors) {
        Gathered { items: Seq::<OptView>::empty(), errors: Seq::<ErrorView>::empty() }
    } else {
        options_of(pairs(entries@), texts(path@), policy)
    };
    assert(opt_views(options@) == opts.items);
    assert(error_views(errors@) == args.errors + opts.errors);
    if !stops(policy, &errors) {
        match read_section(&path, entries, Key::Command) {
            Err(error) => {
                errors.push(error);
                assert(error_views(errors@) =~= args.errors + opts.errors + seq![error@]);
            },
            Ok(None) => {
                assert(error_views(errors@) =~= args.errors + opts.errors + Seq::<
                    ErrorView,
                >::empty());
            },
            Ok(Some(items)) => {
                let (found, mut failed) = build_subcommands(items, &path, policy, fuel - 1);
                subcommands = found;
                let ghost more = error_views(failed@);
                errors.append(&mut failed);
                assert(error_views(errors@) =~= args.errors + opts.errors + more);
            },
        }
    } else {
        assert(error_views(errors@) =~= args.errors + opts.errors + Seq::<ErrorView>::empty());
    }
    let command = Command { name, arguments, options, subcommands };
    proof {
        command_view(command);
    }
    (Some(command), errors)
}

/// Builds the subcommands of the command at `path` from its subcommand
/// entries. Returns the commands that could be built and the errors found.
pub fn build_subcommands(
    items: &Vec<Tree>,
    path: &Vec<String>,
    policy: Policy,
    fuel: usize,
) -> (out: (Vec<Command>, Vec<ConfigError>))
    ensures
        command_views(out.0@) == subs_upto(
            nodes(items@),
            texts(path@),
            policy,
            fuel as nat,
            items@.len(),
        ).items,
        error_views(out.1@) == subs_upto(
            nodes(items@),
            texts(path@),
            policy,
            fuel as nat,
            items@.len(),
        ).errors,
    decreases fuel, 1nat,
{
    let mut commands: Vec<Command> = Vec::new();
    let mut errors: Vec<ConfigError> = Vec::new();
    let mut seen: Vec<String> = Vec::new();
    let mut i: usize = 0;
    assert(command_views(commands@) =~= Seq::<CommandView>::empty());
    assert(error_views(errors@) =~= Seq::<ErrorView>::empty());
    assert(texts(seen@) =~= Seq::<Seq<char>>::empty());
    while i < items.len()
        invariant
            i <= items@.len(),
            command_views(commands@) == subs_upto(
                nodes(items@),
                texts(path@),
                policy,
                fuel as nat,
                i as nat,
            ).items,
            error_views(errors@) == subs_upto(
                nodes(items@),
                texts(path@),
                policy,
                fuel as nat,
                i as nat,
            ).errors,
            texts(seen@) == names_upto(nodes(items@), i as nat),
        decreases items@.len() - i,
    {
        if stops(policy, &errors) {
            proof {
                subs_halt_later(
                    nodes(items@),
                    texts(path@),
                    policy,
                    fuel as nat,
                    i as nat,
                    items@.len(),
                );
            }
            return (commands, errors);
        }
        let ghost made = command_views(commands@);
        let ghost failed = error_views(errors@);
        let ghost known = texts(seen@);
        assert(nodes(items@)[i as int] == items@[i as int]@);
        let name = peek_name(&items[i]);
        let repeated = match &name {
            Some(text) => contains_text(&seen, text.as_str()),
            None => false,
        };
        if let Some(text) = name {
            if repeated {
                let error = ConfigError::at(
                    path,
                    Slot::Subcommand(i),
                    Fault::DuplicateSubcommandName { name: text.clone() },
                );
                errors.push(error);
                assert(error_views(errors@) =~= failed.push(error@));
            }
            seen.push(text);
            assert(texts(seen@) =~= known.push(text@));
        }
        if !repeated {
            let slot = Slot::Subcommand(i);
            let (child, mut more) = build_command(&items[i], path, slot, policy, fuel);
            let ghost added = error_views(more@);
            if let Some(command) = child {
                commands.push(command);
                assert(command_views(commands@) =~= made.push(command@));
            }
            errors.append(&mut more);
            assert(error_views(errors@) =~= failed + added);
        }
        i += 1;
    }
    (commands, errors)
}

/// Builds the program that a document describes. Returns every error that
/// the policy lets the builder find; a document with an error gives no
/// program.
pub fn build_program(tree: &Tree, policy: Policy) -> (out: Result<Program, Vec<ConfigError>>)
    ensures
        match out {
            Ok(program) => program_of(tree@, policy) == Ok::<ProgramView, Seq<ErrorView>>(program@),
            Err(errors) => program_of(tree@, policy) == Err::<ProgramView, Seq<ErrorView>>(
                error_views(errors@),
            ),
        },
        out matches Ok(program) ==> program@.wf(),
{
    proof {
        built_program_is_well_formed(tree@, policy);
    }
    let root: Vec<String> = Vec::new();
    assert(texts(root@) =~= Seq::<Seq<char>>::empty());
    let (command, errors) = build_command(tree, &root, Slot::Command, policy, MAX_DEPTH);
    match command {
        Some(command) => {
            if errors.len() == 0 {
                Ok(Program { name: command.name.clone(), base_command: command })
            } else {
                Err(errors)
            }
        },
        None => Err(errors),
    }
}

} // verus!
