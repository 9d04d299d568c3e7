//! What holds of every program that the builder makes.

use vstd::prelude::*;
use crate::builder::{
    args_upto, arguments_of, command_of, halted, name_at, name_of, names_upto,
    options_of, opts_upto, program_of, repeats, section, subcommands_of, subs_upto, Policy,
    MAX_DEPTH,
};
use crate::completion::{document_of, RefusalView};
use crate::entry::{arg_of, opt_of};
use crate::error::{located, ErrorView, FaultView, Key, Slot};
use crate::program::{ArgView, CommandView, OptView, ProgramView};
use crate::value::{lookup, Node, Pair};

verus! {

/// An argument that an entry describes is well formed.
pub proof fn arg_of_is_well_formed(entry: Node)
    ensures
        arg_of(entry) matches Ok(arg) ==> arg.wf(),
{
}

/// An option that an entry describes is well formed: it has a spelling.
pub proof fn opt_of_is_well_formed(entry: Node)
    ensures
        opt_of(entry) matches Ok(opt) ==> opt.wf(),
{
}

/// The arguments that the builder makes of a list of entries are well
/// formed.
pub proof fn arguments_are_well_formed(
    items: Seq<Node>,
    path: Seq<Seq<char>>,
    policy: Policy,
    n: nat,
)
    ensures
        forall|i: int|
            0 <= i < args_upto(items, path, policy, n).items.len() ==> (#[trigger] args_upto(
                items,
                path,
                policy,
                n,
            ).items[i]).wf(),
    decreases n,
{
    if n > 0 {
        arguments_are_well_formed(items, path, policy, (n - 1) as nat);
        arg_of_is_well_formed(items[n - 1]);
        let before = args_upto(items, path, policy, (n - 1) as nat);
        let after = args_upto(items, path, policy, n);
        assert forall|i: int| 0 <= i < after.items.len() implies (
        #[trigger] after.items[i]).wf() by {
            if i < before.items.len() {
                assert(after.items[i] == before.items[i]);
            }
        }
    }
}

/// The options that the builder makes of a list of entries are well formed.
pub proof fn options_are_well_formed(
    items: Seq<Node>,
    path: Seq<Seq<char>>,
    policy: Policy,
    n: nat,
)
    ensures
        forall|i: int|
            0 <= i < opts_upto(items, path, policy, n).items.len() ==> (#[trigger] opts_upto(
                items,
                path,
                policy,
                n,
            ).items[i]).wf(),
    decreases n,
{
    if n > 0 {
        options_are_well_formed(items, path, policy, (n - 1) as nat);
        opt_of_is_well_formed(items[n - 1]);
        let before = opts_upto(items, path, policy, (n - 1) as nat);
        let after = opts_upto(items, path, policy, n);
        assert forall|i: int| 0 <= i < after.items.len() implies (
        #[trigger] after.items[i]).wf() by {
            if i < before.items.len() {
                assert(after.items[i] == before.items[i]);
            }
        }
    }
}

/// A command that the builder makes has the name that its entry gives it.
pub proof fn built_command_keeps_its_name(
    node: Node,
    parent: Seq<Seq<char>>,
    slot: Slot,
    policy: Policy,
    fuel: nat,
)
    ensures
        command_of(node, parent, slot, policy, fuel).command matches Some(command) ==> name_at(node)
            == Some(command.name),
{
}

/// The names of the entries read so far stay among the names read later.
pub proof fn names_grow(items: Seq<Node>, n: nat, m: nat, name: Seq<char>)
    requires
        n <= m,
        names_upto(items, n).contains(name),
    ensures
        names_upto(items, m).contains(name),
    decreases m,
{
    if n < m {
        names_grow(items, n, (m - 1) as nat, name);
        let before = names_upto(items, (m - 1) as nat);
        let i = choose|i: int| 0 <= i < before.len() && before[i] == name;
        if name_at(items[m - 1]) is Some {
            assert(before.push(name_at(items[m - 1])->0)[i] == name);
        }
    }
}

/// A command that the builder makes is well formed.
pub proof fn command_is_well_formed(
    node: Node,
    parent: Seq<Seq<char>>,
    slot: Slot,
    policy: Policy,
    fuel: nat,
)
    ensures
        command_of(node, parent, slot, policy, fuel).command matches Some(command) ==> command.wf(),
    decreases fuel, 0nat,
{
    if let Node::Table(entries) = node {
        if let Ok(name) = name_of(entries) {
            if fuel > 0 {
                let path = parent.push(name);
                let command = command_of(node, parent, slot, policy, fuel).command->0;
                if let Ok(items) = section(entries, Key::Argument) {
                    arguments_are_well_formed(items, path, policy, items.len());
                }
                if let Ok(items) = section(entries, Key::Option) {
                    options_are_well_formed(items, path, policy, items.len());
                }
                let subs = subcommands_of(entries, path, policy, (fuel - 1) as nat);
                match section(entries, Key::Command) {
                    Ok(items) => {
                        subcommands_are_well_formed(
                            items,
                            path,
                            policy,
                            (fuel - 1) as nat,
                            items.len(),
                        );
                        assert(subs == subs_upto(
                            items,
                            path,
                            policy,
                            (fuel - 1) as nat,
                            items.len(),
                        ));
                    },
                    Err(_) => {
                        assert(subs.items.len() == 0);
                    },
                }
                assert(command.subcommands.len() == 0 || command.subcommands == subs.items);
                assert(command.name.len() > 0);
                assert forall|i: int| 0 <= i < command.arguments.len() implies (
                #[trigger] command.arguments[i]).wf() by {}
                assert forall|i: int| 0 <= i < command.options.len() implies (
                #[trigger] command.options[i]).wf() by {}
                assert forall|i: int| 0 <= i < command.subcommands.len() implies (
                #[trigger] command.subcommands[i]).wf() by {}
                assert forall|i: int, j: int| 0 <= i < j < command.subcommands.len() implies (
                #[trigger] command.subcommands[i]).name != (
                #[trigger] command.subcommands[j]).name by {}
            }
        }
    }
}

/// The subcommands that the builder makes of a list of entries are well
/// formed, have names that were read from the entries, and no two of them
/// have the same name.
pub proof fn subcommands_are_well_formed(
    items: Seq<Node>,
    path: Seq<Seq<char>>,
    policy: Policy,
    fuel: nat,
    n: nat,
)
    ensures
        forall|i: int|
            0 <= i < subs_upto(items, path, policy, fuel, n).items.len() ==> (#[trigger] subs_upto(
                items,
                path,
                policy,
                fuel,
                n,
            ).items[i]).wf(),
        forall|i: int|
            0 <= i < subs_upto(items, path, policy, fuel, n).items.len() ==> names_upto(
                items,
                n,
            ).contains((#[trigger] subs_upto(items, path, policy, fuel, n).items[i]).name),
        forall|i: int, j: int|
            0 <= i < j < subs_upto(items, path, policy, fuel, n).items.len() ==> (
            #[trigger] subs_upto(items, path, policy, fuel, n).items[i]).name != (
            #[trigger] subs_upto(items, path, policy, fuel, n).items[j]).name,
    decreases fuel, 1nat, n,
{
    if n > 0 {
        let before = subs_upto(items, path, policy, fuel, (n - 1) as nat);
        let after = subs_upto(items, path, policy, fuel, n);
        let slot = Slot::Subcommand((n - 1) as usize);
        subcommands_are_well_formed(items, path, policy, fuel, (n - 1) as nat);
        assert forall|i: int| 0 <= i < before.items.len() implies names_upto(items, n).contains(
            (#[trigger] before.items[i]).name,
        ) by {
            names_grow(items, (n - 1) as nat, n, before.items[i].name);
        }
        if !halted(policy, before.errors) && !repeats(items, (n - 1) as nat) {
            let child = command_of(items[n - 1], path, slot, policy, fuel);
            command_is_well_formed(items[n - 1], path, slot, policy, fuel);
            built_command_keeps_its_name(items[n - 1], path, slot, policy, fuel);
            if let Some(command) = child.command {
                let names = names_upto(items, (n - 1) as nat);
                assert(!names.contains(command.name));
                assert(names_upto(items, n) == names.push(command.name));
                assert(names.push(command.name)[names.len() as int] == command.name);
                assert(after.items == before.items.push(command));
            }
        }
    }
}

/// A program that the builder makes is well formed: every command of it has
/// a name, no two subcommands of one command have the same name, every
/// option has a spelling, and every list of choices has a word.
pub proof fn built_program_is_well_formed(tree: Node, policy: Policy)
    ensures
        program_of(tree, policy) matches Ok(program) ==> program.wf(),
{
    command_is_well_formed(tree, Seq::empty(), Slot::Command, policy, MAX_DEPTH as nat);
}

/// A document that holds a name and nothing else describes a program whose
/// root command has no arguments, no options and no subcommands.
pub proof fn name_alone_gives_bare_command(name: Seq<char>, policy: Policy)
    requires
        name.len() > 0,
    ensures
        program_of(Node::Table(seq![Pair { key: "name"@, value: Node::Text(name) }]), policy)
            == Ok::<ProgramView, Seq<ErrorView>>(
            ProgramView {
                name,
                base_command: CommandView {
                    name,
                    arguments: Seq::empty(),
                    options: Seq::empty(),
                    subcommands: Seq::empty(),
                },
            },
        ),
        document_of(Node::Table(seq![Pair { key: "name"@, value: Node::Text(name) }]), policy)
            == Ok::<ProgramView, RefusalView>(
            ProgramView {
                name,
                base_command: CommandView {
                    name,
                    arguments: Seq::empty(),
                    options: Seq::empty(),
                    subcommands: Seq::empty(),
                },
            },
        ),
{
    reveal_strlit("name");
    reveal_strlit("argument");
    reveal_strlit("option");
    reveal_strlit("command");
    let entries = seq![Pair { key: "name"@, value: Node::Text(name) }];
    let path = Seq::<Seq<char>>::empty().push(name);
    assert(entries.skip(1).len() == 0);
    assert("name"@.len() == 4 && "argument"@.len() == 8 && "option"@.len() == 6 && "command"@.len()
        == 7);
    assert(lookup(entries.skip(1), "argument"@) is None);
    assert(lookup(entries.skip(1), "option"@) is None);
    assert(lookup(entries.skip(1), "command"@) is None);
    assert(lookup(entries, "name"@) == Some(Node::Text(name)));
    assert(lookup(entries, "argument"@) is None);
    assert(lookup(entries, "option"@) is None);
    assert(lookup(entries, "command"@) is None);
    assert(subcommands_of(entries, path, policy, (MAX_DEPTH - 1) as nat).items
        =~= Seq::<CommandView>::empty());
    assert(subcommands_of(entries, path, policy, (MAX_DEPTH - 1) as nat).errors
        =~= Seq::<ErrorView>::empty());
    let outcome = command_of(
        Node::Table(entries),
        Seq::empty(),
        Slot::Command,
        policy,
        MAX_DEPTH as nat,
    );
    assert(outcome.errors =~= Seq::<ErrorView>::empty());
    assert(outcome.command->0.arguments =~= Seq::<ArgView>::empty());
    assert(outcome.command->0.options =~= Seq::<OptView>::empty());
    assert(outcome.command->0.subcommands =~= Seq::<CommandView>::empty());
}

/// The error of a subcommand entry that has the name of an earlier one.
pub open spec fn repeated(items: Seq<Node>, path: Seq<Seq<char>>, j: nat) -> ErrorView {
    located(
        path,
        Slot::Subcommand(j as usize),
        FaultView::DuplicateSubcommandName { name: name_at(items[j as int])->0 },
    )
}

/// Where every error is collected, a subcommand entry that has the name of
/// an earlier entry of the same command is reported as a duplicate, at the
/// path of that command.
pub proof fn repeated_name_is_reported(
    items: Seq<Node>,
    path: Seq<Seq<char>>,
    fuel: nat,
    n: nat,
    j: nat,
)
    requires
        j < n,
        repeats(items, j),
    ensures
        subs_upto(items, path, Policy::CollectAll, fuel, n).errors.contains(
            repeated(items, path, j),
        ),
    decreases n,
{
    let before = subs_upto(items, path, Policy::CollectAll, fuel, (n - 1) as nat);
    let after = subs_upto(items, path, Policy::CollectAll, fuel, n);
    let error = repeated(items, path, j);
    if j + 1 == n {
        assert(after.errors == before.errors.push(error));
        assert(after.errors[before.errors.len() as int] == error);
    } else {
        repeated_name_is_reported(items, path, fuel, (n - 1) as nat, j);
        let i = choose|i: int| 0 <= i < before.errors.len() && before.errors[i] == error;
        assert(after.errors[i] == error);
    }
}

/// Whatever the policy, a list of subcommand entries of which one has the
/// name of an earlier one gives an error.
pub proof fn repeated_name_fails(
    items: Seq<Node>,
    path: Seq<Seq<char>>,
    policy: Policy,
    fuel: nat,
    n: nat,
    j: nat,
)
    requires
        j < n,
        repeats(items, j),
    ensures
        subs_upto(items, path, policy, fuel, n).errors.len() > 0,
    decreases n,
{
    if j + 1 < n {
        repeated_name_fails(items, path, policy, fuel, (n - 1) as nat, j);
    }
}

/// A document whose root command has two subcommand entries with the same
/// name describes no program. Where every error is collected, the errors
/// hold the duplicate, reported at the path of the root command with the
/// index of the later entry.
pub proof fn duplicate_subcommand_is_refused(entries: Seq<Pair>, policy: Policy, j: nat)
    requires
        name_of(entries) is Ok,
        section(entries, Key::Command) is Ok,
        j < section(entries, Key::Command)->Ok_0.len(),
        repeats(section(entries, Key::Command)->Ok_0, j),
    ensures
        program_of(Node::Table(entries), policy) is Err,
        policy == Policy::CollectAll ==> program_of(Node::Table(entries), policy)->Err_0.contains(
            repeated(section(entries, Key::Command)->Ok_0, seq![name_of(entries)->Ok_0], j),
        ),
        document_of(Node::Table(entries), policy) is Err,
        policy == Policy::CollectAll ==> document_of(
            Node::Table(entries),
            policy,
        )->Err_0.errors.contains(
            repeated(section(entries, Key::Command)->Ok_0, seq![name_of(entries)->Ok_0], j),
        ),
{
    let items = section(entries, Key::Command)->Ok_0;
    let name = name_of(entries)->Ok_0;
    let path = Seq::<Seq<char>>::empty().push(name);
    assert(path =~= seq![name]);
    let fuel = (MAX_DEPTH - 1) as nat;
    let outcome = command_of(
        Node::Table(entries),
        Seq::empty(),
        Slot::Command,
        policy,
        MAX_DEPTH as nat,
    );
    let args = arguments_of(entries, path, policy);
    let opts = options_of(entries, path, policy);
    let subs = subcommands_of(entries, path, policy, fuel);
    assert(subs == subs_upto(items, path, policy, fuel, items.len()));
    repeated_name_fails(items, path, policy, fuel, items.len(), j);
    if policy == Policy::CollectAll {
        repeated_name_is_reported(items, path, fuel, items.len(), j);
        let error = repeated(items, path, j);
        let k = choose|k: int| 0 <= k < subs.errors.len() && subs.errors[k] == error;
        assert(outcome.errors == args.errors + opts.errors + subs.errors);
        assert(outcome.errors[args.errors.len() + opts.errors.len() + k] == error);
    }
}

/// Where every error is collected, each option entry that is valid gives an
/// option of the command, whatever is wrong with the entries beside it, and
/// each entry that is at fault gives an error with its index.
pub proof fn every_option_entry_counts(items: Seq<Node>, path: Seq<Seq<char>>, n: nat, i: nat)
    requires
        i < n,
    ensures
        opt_of(items[i as int]) matches Ok(opt) ==> opts_upto(
            items,
            path,
            Policy::CollectAll,
            n,
        ).items.contains(opt),
        opt_of(items[i as int]) matches Err(fault) ==> opts_upto(
            items,
            path,
            Policy::CollectAll,
            n,
        ).errors.contains(located(path, Slot::Option(i as usize), fault)),
    decreases n,
{
    let before = opts_upto(items, path, Policy::CollectAll, (n - 1) as nat);
    let after = opts_upto(items, path, Policy::CollectAll, n);
    if i + 1 == n {
        match opt_of(items[i as int]) {
            Ok(opt) => {
                assert(after.items[before.items.len() as int] == opt);
            },
            Err(fault) => {
                assert(after.errors[before.errors.len() as int] == located(
                    path,
                    Slot::Option(i as usize),
                    fault,
                ));
            },
        }
    } else {
        every_option_entry_counts(items, path, (n - 1) as nat, i);
        match opt_of(items[i as int]) {
            Ok(opt) => {
                let k = choose|k: int| 0 <= k < before.items.len() && before.items[k] == opt;
                assert(after.items[k] == opt);
            },
            Err(fault) => {
                let error = located(path, Slot::Option(i as usize), fault);
                let k = choose|k: int| 0 <= k < before.errors.len() && before.errors[k] == error;
                assert(after.errors[k] == error);
            },
        }
    }
}

/// Where every error is collected, each argument entry that is valid gives
/// an argument of the command, whatever is wrong with the entries beside it,
/// and each entry that is at fault gives an error with its index.
pub proof fn every_argument_entry_counts(items: Seq<Node>, path: Seq<Seq<char>>, n: nat, i: nat)
    requires
        i < n,
    ensures
        arg_of(items[i as int]) matches Ok(arg) ==> args_upto(
            items,
            path,
            Policy::CollectAll,
            n,
        ).items.contains(arg),
        arg_of(items[i as int]) matches Err(fault) ==> args_upto(
            items,
            path,
            Policy::CollectAll,
            n,
        ).errors.contains(located(path, Slot::Argument(i as usize), fault)),
    decreases n,
{
    let before = args_upto(items, path, Policy::CollectAll, (n - 1) as nat);
    let after = args_upto(items, path, Policy::CollectAll, n);
    if i + 1 == n {
        match arg_of(items[i as int]) {
            Ok(arg) => {
                assert(after.items[before.items.len() as int] == arg);
            },
            Err(fault) => {
                assert(after.errors[before.errors.len() as int] == located(
                    path,
                    Slot::Argument(i as usize),
                    fault,
                ));
            },
        }
    } else {
        every_argument_entry_counts(items, path, (n - 1) as nat, i);
        match arg_of(items[i as int]) {
            Ok(arg) => {
                let k = choose|k: int| 0 <= k < before.items.len() && before.items[k] == arg;
                assert(after.items[k] == arg);
            },
            Err(fault) => {
                let error = located(path, Slot::Argument(i as usize), fault);
                let k = choose|k: int| 0 <= k < before.errors.len() && before.errors[k] == error;
                assert(after.errors[k] == error);
            },
        }
    }
}

/// The first of some errors, if there is any.
pub open spec fn first_of(errors: Seq<ErrorView>) -> Seq<ErrorView> {
    if errors.len() == 0 {
        errors
    } else {
        seq![errors[0]]
    }
}

/// Stopping at the first error gives the first of the errors that
/// collecting gives, and the same arguments where there is no error.
pub proof fn argument_policies_agree(items: Seq<Node>, path: Seq<Seq<char>>, n: nat)
    ensures
        args_upto(items, path, Policy::FailFast, n).errors == first_of(
            args_upto(items, path, Policy::CollectAll, n).errors,
        ),
        args_upto(items, path, Policy::CollectAll, n).errors.len() == 0 ==> args_upto(
            items,
            path,
            Policy::FailFast,
            n,
        ).items == args_upto(items, path, Policy::CollectAll, n).items,
    decreases n,
{
    let all = args_upto(items, path, Policy::CollectAll, n);
    let one = args_upto(items, path, Policy::FailFast, n);
    if n > 0 {
        argument_policies_agree(items, path, (n - 1) as nat);
        let all_before = args_upto(items, path, Policy::CollectAll, (n - 1) as nat);
        if all_before.errors.len() > 0 {
            assert(all.errors[0] == all_before.errors[0]);
        }
    }
    assert(one.errors =~= first_of(all.errors));
}

/// Stopping at the first error gives the first of the errors that
/// collecting gives, and the same options where there is no error.
pub proof fn option_policies_agree(items: Seq<Node>, path: Seq<Seq<char>>, n: nat)
    ensures
        opts_upto(items, path, Policy::FailFast, n).errors == first_of(
            opts_upto(items, path, Policy::CollectAll, n).errors,
        ),
        opts_upto(items, path, Policy::CollectAll, n).errors.len() == 0 ==> opts_upto(
            items,
            path,
            Policy::FailFast,
            n,
        ).items == opts_upto(items, path, Policy::CollectAll, n).items,
    decreases n,
{
    let all = opts_upto(items, path, Policy::CollectAll, n);
    let one = opts_upto(items, path, Policy::FailFast, n);
    if n > 0 {
        option_policies_agree(items, path, (n - 1) as nat);
        let all_before = opts_upto(items, path, Policy::CollectAll, (n - 1) as nat);
        if all_before.errors.len() > 0 {
            assert(all.errors[0] == all_before.errors[0]);
        }
    }
    assert(one.errors =~= first_of(all.errors));
}

/// Stopping at the first error gives the first of the errors that
/// collecting gives, and the same command where there is no error.
pub proof fn command_policies_agree(node: Node, parent: Seq<Seq<char>>, slot: Slot, fuel: nat)
    ensures
        command_of(node, parent, slot, Policy::FailFast, fuel).errors == first_of(
            command_of(node, parent, slot, Policy::CollectAll, fuel).errors,
        ),
        command_of(node, parent, slot, Policy::CollectAll, fuel).errors.len() == 0 ==> command_of(
            node,
            parent,
            slot,
            Policy::FailFast,
            fuel,
        ).command == command_of(node, parent, slot, Policy::CollectAll, fuel).command,
        command_of(node, parent, slot, Policy::CollectAll, fuel).command is None ==> command_of(
            node,
            parent,
            slot,
            Policy::CollectAll,
            fuel,
        ).errors.len() > 0,
    decreases fuel, 0nat,
{
    let all = command_of(node, parent, slot, Policy::CollectAll, fuel);
    let one = command_of(node, parent, slot, Policy::FailFast, fuel);
    if let Node::Table(entries) = node {
        if let Ok(name) = name_of(entries) {
            if fuel > 0 {
                let path = parent.push(name);
                let all_args = arguments_of(entries, path, Policy::CollectAll);
                let one_args = arguments_of(entries, path, Policy::FailFast);
                let all_opts = options_of(entries, path, Policy::CollectAll);
                let one_opts = options_of(entries, path, Policy::FailFast);
                let all_subs = subcommands_of(entries, path, Policy::CollectAll, (fuel - 1) as nat);
                let one_subs = subcommands_of(entries, path, Policy::FailFast, (fuel - 1) as nat);
                if let Ok(items) = section(entries, Key::Argument) {
                    argument_policies_agree(items, path, items.len());
                }
                if let Ok(items) = section(entries, Key::Option) {
                    option_policies_agree(items, path, items.len());
                }
                if let Ok(items) = section(entries, Key::Command) {
                    subcommand_policies_agree(items, path, (fuel - 1) as nat, items.len());
                }
                assert(one_args.errors =~= first_of(all_args.errors));
                assert(one_opts.errors =~= first_of(all_opts.errors));
                assert(one_subs.errors =~= first_of(all_subs.errors));
                assert(all.errors == all_args.errors + all_opts.errors + all_subs.errors);
                if all_args.errors.len() > 0 {
                    assert(all.errors[0] == all_args.errors[0]);
                    assert(one.errors =~= first_of(all.errors));
                } else if all_opts.errors.len() > 0 {
                    assert(all.errors[0] == all_opts.errors[0]);
                    assert(one.errors =~= first_of(all.errors));
                } else if all_subs.errors.len() > 0 {
                    assert(all.errors[0] == all_subs.errors[0]);
                    assert(one.errors =~= first_of(all.errors));
                } else {
                    assert(one.errors =~= first_of(all.errors));
                }
            }
        }
    }
    assert(one.errors =~= first_of(all.errors));
}

/// Stopping at the first error gives the first of the errors that
/// collecting gives, and the same subcommands where there is no error.
pub proof fn subcommand_policies_agree(items: Seq<Node>, path: Seq<Seq<char>>, fuel: nat, n: nat)
    ensures
        subs_upto(items, path, Policy::FailFast, fuel, n).errors == first_of(
            subs_upto(items, path, Policy::CollectAll, fuel, n).errors,
        ),
        subs_upto(items, path, Policy::CollectAll, fuel, n).errors.len() == 0 ==> subs_upto(
            items,
            path,
            Policy::FailFast,
            fuel,
            n,
        ).items == subs_upto(items, path, Policy::CollectAll, fuel, n).items,
    decreases fuel, 1nat, n,
{
    let all = subs_upto(items, path, Policy::CollectAll, fuel, n);
    let one = subs_upto(items, path, Policy::FailFast, fuel, n);
    if n > 0 {
        subcommand_policies_agree(items, path, fuel, (n - 1) as nat);
        let all_before = subs_upto(items, path, Policy::CollectAll, fuel, (n - 1) as nat);
        let slot = Slot::Subcommand((n - 1) as usize);
        if all_before.errors.len() > 0 {
            assert(all.errors[0] == all_before.errors[0]);
        } else if !repeats(items, (n - 1) as nat) {
            command_policies_agree(items[n - 1], path, slot, fuel);
            let child = command_of(items[n - 1], path, slot, Policy::CollectAll, fuel);
            assert(all.errors =~= child.errors);
        }
    }
    assert(one.errors =~= first_of(all.errors));
}

/// The two policies accept the same documents and build the same programs
/// of them. Of a document that they refuse, stopping at the first error
/// reports exactly the first of the errors that collecting reports, of which
/// there is one at least.
pub proof fn fail_fast_reports_the_first_error(tree: Node)
    ensures
        match program_of(tree, Policy::CollectAll) {
            Ok(program) => program_of(tree, Policy::FailFast) == Ok::<ProgramView, Seq<ErrorView>>(
                program,
            ),
            Err(errors) => errors.len() > 0 && program_of(tree, Policy::FailFast) == Err::<
                ProgramView,
                Seq<ErrorView>,
            >(seq![errors[0]]),
        },
{
    command_policies_agree(tree, Seq::empty(), Slot::Command, MAX_DEPTH as nat);
}

/// Where every error is collected, a document with an option entry at fault
/// is refused with the error of that entry, at the path of the root command
/// and with the entry's index, and each valid option entry beside it is
/// among the options of what was built of the root command.
pub proof fn option_entries_of_a_document(entries: Seq<Pair>, i: nat)
    requires
        name_of(entries) is Ok,
        section(entries, Key::Option) is Ok,
        i < section(entries, Key::Option)->Ok_0.len(),
    ensures
        command_of(
            Node::Table(entries),
            Seq::empty(),
            Slot::Command,
            Policy::CollectAll,
            MAX_DEPTH as nat,
        ).command is Some,
        opt_of(section(entries, Key::Option)->Ok_0[i as int]) matches Ok(opt) ==> command_of(
            Node::Table(entries),
            Seq::empty(),
            Slot::Command,
            Policy::CollectAll,
            MAX_DEPTH as nat,
        ).command->0.options.contains(opt),
        opt_of(section(entries, Key::Option)->Ok_0[i as int]) matches Err(fault) ==> {
            &&& document_of(Node::Table(entries), Policy::CollectAll) matches Err(refusal)
            &&& document_of(Node::Table(entries), Policy::CollectAll)->Err_0.errors.contains(
                located(seq![name_of(entries)->Ok_0], Slot::Option(i as usize), fault),
            )
            &&& document_of(Node::Table(entries), Policy::CollectAll)->Err_0.partial == command_of(
                Node::Table(entries),
                Seq::empty(),
                Slot::Command,
                Policy::CollectAll,
                MAX_DEPTH as nat,
            ).command
        },
{
    let items = section(entries, Key::Option)->Ok_0;
    let name = name_of(entries)->Ok_0;
    let path = Seq::<Seq<char>>::empty().push(name);
    assert(path =~= seq![name]);
    let policy = Policy::CollectAll;
    let outcome = command_of(
        Node::Table(entries),
        Seq::empty(),
        Slot::Command,
        policy,
        MAX_DEPTH as nat,
    );
    let args = arguments_of(entries, path, policy);
    let opts = options_of(entries, path, policy);
    let subs = subcommands_of(entries, path, policy, (MAX_DEPTH - 1) as nat);
    every_option_entry_counts(items, path, items.len(), i);
    assert(outcome.errors == args.errors + opts.errors + subs.errors);
    if let Err(fault) = opt_of(items[i as int]) {
        let error = located(path, Slot::Option(i as usize), fault);
        let k = choose|k: int| 0 <= k < opts.errors.len() && opts.errors[k] == error;
        assert(outcome.errors[args.errors.len() + k] == error);
    }
}

/// The arguments that the entries of a list describe, where each of them is
/// valid.
pub open spec fn described_args(items: Seq<Node>) -> Seq<ArgView> {
    Seq::new(items.len(), |i: int| arg_of(items[i])->Ok_0)
}

/// The options that the entries of a list describe, where each of them is
/// valid.
pub open spec fn described_opts(items: Seq<Node>) -> Seq<OptView> {
    Seq::new(items.len(), |i: int| opt_of(items[i])->Ok_0)
}

/// Argument entries that are all valid give no error and one argument each,
/// in their order.
pub proof fn valid_arguments_all_build(
    items: Seq<Node>,
    path: Seq<Seq<char>>,
    policy: Policy,
    n: nat,
)
    requires
        n <= items.len(),
        forall|i: int| 0 <= i < items.len() ==> arg_of(#[trigger] items[i]) is Ok,
    ensures
        args_upto(items, path, policy, n).errors.len() == 0,
        args_upto(items, path, policy, n).items == described_args(items).take(n as int),
    decreases n,
{
    if n > 0 {
        valid_arguments_all_build(items, path, policy, (n - 1) as nat);
        assert(arg_of(items[n - 1]) is Ok);
        assert(described_args(items).take(n as int) =~= described_args(items).take(
            n - 1,
        ).push(arg_of(items[n - 1])->Ok_0));
    } else {
        assert(described_args(items).take(0) =~= Seq::<ArgView>::empty());
    }
}

/// Option entries that are all valid give no error and one option each, in
/// their order.
pub proof fn valid_options_all_build(
    items: Seq<Node>,
    path: Seq<Seq<char>>,
    policy: Policy,
    n: nat,
)
    requires
        n <= items.len(),
        forall|i: int| 0 <= i < items.len() ==> opt_of(#[trigger] items[i]) is Ok,
    ensures
        opts_upto(items, path, policy, n).errors.len() == 0,
        opts_upto(items, path, policy, n).items == described_opts(items).take(n as int),
    decreases n,
{
    if n > 0 {
        valid_options_all_build(items, path, policy, (n - 1) as nat);
        assert(opt_of(items[n - 1]) is Ok);
        assert(described_opts(items).take(n as int) =~= described_opts(items).take(
            n - 1,
        ).push(opt_of(items[n - 1])->Ok_0));
    } else {
        assert(described_opts(items).take(0) =~= Seq::<OptView>::empty());
    }
}

/// A document with a name, without subcommands, and with argument and
/// option entries that are all valid describes a program under either
/// policy: the program has the document's name, and its root command has
/// exactly one argument for each argument entry and one option for each
/// option entry, in the order in which the entries were declared.
pub proof fn valid_document_builds(entries: Seq<Pair>, policy: Policy)
    requires
        name_of(entries) is Ok,
        section(entries, Key::Argument) is Ok,
        section(entries, Key::Option) is Ok,
        section(entries, Key::Command) == Ok::<Seq<Node>, FaultView>(Seq::empty()),
        forall|i: int|
            0 <= i < section(entries, Key::Argument)->Ok_0.len() ==> arg_of(
                #[trigger] section(entries, Key::Argument)->Ok_0[i],
            ) is Ok,
        forall|i: int|
            0 <= i < section(entries, Key::Option)->Ok_0.len() ==> opt_of(
                #[trigger] section(entries, Key::Option)->Ok_0[i],
            ) is Ok,
    ensures
        program_of(Node::Table(entries), policy) == Ok::<ProgramView, Seq<ErrorView>>(
            ProgramView {
                name: name_of(entries)->Ok_0,
                base_command: CommandView {
                    name: name_of(entries)->Ok_0,
                    arguments: described_args(section(entries, Key::Argument)->Ok_0),
                    options: described_opts(section(entries, Key::Option)->Ok_0),
                    subcommands: Seq::empty(),
                },
            },
        ),
        document_of(Node::Table(entries), policy) == Ok::<ProgramView, RefusalView>(
            ProgramView {
                name: name_of(entries)->Ok_0,
                base_command: CommandView {
                    name: name_of(entries)->Ok_0,
                    arguments: described_args(section(entries, Key::Argument)->Ok_0),
                    options: described_opts(section(entries, Key::Option)->Ok_0),
                    subcommands: Seq::empty(),
                },
            },
        ),
        described_args(section(entries, Key::Argument)->Ok_0).len() == section(
            entries,
            Key::Argument,
        )->Ok_0.len(),
        described_opts(section(entries, Key::Option)->Ok_0).len() == section(
            entries,
            Key::Option,
        )->Ok_0.len(),
{
    let name = name_of(entries)->Ok_0;
    let path = Seq::<Seq<char>>::empty().push(name);
    let arguments = section(entries, Key::Argument)->Ok_0;
    let options = section(entries, Key::Option)->Ok_0;
    valid_arguments_all_build(arguments, path, policy, arguments.len());
    valid_options_all_build(options, path, policy, options.len());
    assert(described_args(arguments).take(arguments.len() as int) =~= described_args(arguments));
    assert(described_opts(options).take(options.len() as int) =~= described_opts(options));
    let args = arguments_of(entries, path, policy);
    let opts = options_of(entries, path, policy);
    let subs = subcommands_of(entries, path, policy, (MAX_DEPTH - 1) as nat);
    assert(subs.items =~= Seq::<CommandView>::empty());
    assert(subs.errors =~= Seq::<ErrorView>::empty());
    let outcome = command_of(
        Node::Table(entries),
        Seq::empty(),
        Slot::Command,
        policy,
        MAX_DEPTH as nat,
    );
    assert(outcome.errors =~= Seq::<ErrorView>::empty());
    assert(outcome.command->0.subcommands =~= Seq::<CommandView>::empty());
}

} // verus!
