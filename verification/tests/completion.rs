use completist::builder::{build_program, Policy};
use completist::completion::Refusal;
use completist::document::read_document;
use completist::error::{ConfigError, Fault, Key, Shape, Slot};
use completist::kind::{ArgKind, KindFault};
use completist::program::{Arg, Command, CompKind, Completion, Opt, Program, Subcmd};
use completist::value::{Tree, ValueKind};

fn path(names: &[&str]) -> Vec<String> {
    names.iter().map(|name| name.to_string()).collect()
}

fn bare(name: &str) -> Command {
    Command {
        name: name.to_string(),
        arguments: Vec::new(),
        options: Vec::new(),
        subcommands: Vec::new(),
    }
}

fn error(names: &[&str], slot: Slot, fault: Fault) -> ConfigError {
    ConfigError { path: path(names), slot, fault }
}

#[test]
fn document_with_a_name_alone() {
    let tree = read_document("name = \"test-command\"").unwrap();
    for policy in [Policy::FailFast, Policy::CollectAll] {
        let program = Completion::from_toml(&tree, policy).unwrap();
        assert_eq!(program.name, "test-command");
        assert_eq!(program.base_command.name, "test-command");
        assert_eq!(program.base_command.arguments, Vec::new());
        assert_eq!(program.base_command.options, Vec::new());
        assert_eq!(program.base_command.subcommands, Vec::new());
    }
}

#[test]
fn document_with_a_repeated_subcommand() {
    let tree =
        read_document("name = 'prog'\n[[command]]\nname = 'sub'\n[[command]]\nname = 'sub'")
            .unwrap();
    for policy in [Policy::FailFast, Policy::CollectAll] {
        let refusal = Completion::from_toml(&tree, policy).unwrap_err();
        assert_eq!(
            refusal.errors,
            vec![error(
                &["prog"],
                Slot::Subcommand(1),
                Fault::DuplicateSubcommandName { name: "sub".to_string() }
            )]
        );
        let mut partial = bare("prog");
        partial.subcommands.push(bare("sub"));
        assert_eq!(refusal.partial, Some(partial));
    }
}

#[test]
fn document_with_an_option_without_spelling() {
    let tree = read_document(
        "name = 'prog'\n[[option]]\ndescription = 'no spelling'\n[[option]]\nopt = '--ok'\ndescription = 'fine'",
    )
    .unwrap();
    let missing = || {
        error(&["prog"], Slot::Option(0), Fault::MissingRequiredField { field: Key::Opt })
    };
    let refusal = Completion::from_toml(&tree, Policy::CollectAll).unwrap_err();
    assert_eq!(refusal.errors, vec![missing()]);
    let mut partial = bare("prog");
    partial.options.push(Opt {
        opts: path(&["--ok"]),
        argument: None,
        description: "fine".to_string(),
    });
    assert_eq!(refusal.partial, Some(partial));

    let refusal = Completion::from_toml(&tree, Policy::FailFast).unwrap_err();
    assert_eq!(refusal, Refusal { errors: vec![missing()], partial: Some(bare("prog")) });
}

#[test]
fn document_like_cat() {
    let mut text = String::from(
        "name = \"cat\"\n[[argument]]\nkind = \"FILE+\"\nrequired = false\ndescription = \"files\"\n",
    );
    let spellings = [
        "[\"--show-all\", \"-A\"]",
        "[\"--number-nonblank\", \"-b\"]",
        "\"-e\"",
        "[\"--show-ends\", \"-E\"]",
        "[\"--number\", \"-n\"]",
        "[\"--squeeze-blank\", \"-s\"]",
        "\"-t\"",
        "[\"--show-tabs\", \"-T\"]",
        "\"-u\"",
        "[\"--show-nonprinting\", \"-v\"]",
        "\"--help\"",
        "\"--version\"",
    ];
    for (index, opts) in spellings.iter().enumerate() {
        text.push_str(&format!("[[option]]\nopts = {opts}\ndescription = \"option {index}\"\n"));
        if index == 4 {
            text.push_str("argument = \"oneof(all nonblank)\"\n");
        }
    }
    let tree = read_document(&text).unwrap();
    for policy in [Policy::FailFast, Policy::CollectAll] {
        let program = Completion::from_toml(&tree, policy).unwrap();
        assert_eq!(program.name, "cat");
        assert_eq!(
            program.base_command.arguments,
            vec![Arg {
                kind: ArgKind::FilePlus,
                required: false,
                usefiles: true,
                description: "files".to_string()
            }]
        );
        assert_eq!(program.base_command.options.len(), 12);
        for (index, opt) in program.base_command.options.iter().enumerate() {
            assert_eq!(opt.description, format!("option {index}"));
        }
        assert_eq!(program.base_command.options[0].opts, path(&["--show-all", "-A"]));
        assert_eq!(program.base_command.options[2].opts, path(&["-e"]));
        assert_eq!(
            program.base_command.options[4].argument,
            Some(ArgKind::OneOf(path(&["all", "nonblank"])))
        );
        assert_eq!(program.base_command.options[11].argument, None);
        assert_eq!(program.base_command.subcommands.len(), 0);
        assert_eq!(build_program(&tree, policy), Ok(program));
    }
}

#[test]
fn document_that_is_no_table() {
    let refusal = Completion::from_toml(&Tree::Integer(1), Policy::CollectAll).unwrap_err();
    assert_eq!(
        refusal,
        Refusal {
            errors: vec![error(
                &[],
                Slot::Command,
                Fault::InvalidConfigShape { shape: Shape::NotATable }
            )],
            partial: None
        }
    );
}

#[test]
fn from_toml_agrees_with_build_program() {
    let text = "name = 'p'\n[[argument]]\nkind = 'what'\ndescription = 'd'\n[[command]]\nname = 's'\n[[command.option]]\nopt = 1\ndescription = 'd'\n";
    let tree = read_document(text).unwrap();
    for policy in [Policy::FailFast, Policy::CollectAll] {
        let refusal = Completion::from_toml(&tree, policy).unwrap_err();
        assert_eq!(build_program(&tree, policy), Err(refusal.errors));
    }
    let refusal = Completion::from_toml(&tree, Policy::CollectAll).unwrap_err();
    assert_eq!(refusal.errors.len(), 2);
    let mut partial = bare("p");
    partial.subcommands.push(bare("s"));
    assert_eq!(refusal.partial, Some(partial));
}

#[test]
fn completion_errors_name_the_path() {
    let entry = read_document("kind = \"on_e_of(a b c d)\"\ndescription = \"d\"\n").unwrap();
    assert_eq!(
        Completion::build_arg("git".to_string(), path(&["git", "remote"]), 2, &entry),
        Err(error(
            &["git", "remote"],
            Slot::Argument(2),
            Fault::MalformedArgumentKind {
                input: "on_e_of(a b c d)".to_string(),
                reason: KindFault::Unrecognised
            }
        ))
    );
    let entry = read_document("opt = \"-x\"\nargument = \"nothing\"\ndescription = \"d\"\n").unwrap();
    assert_eq!(
        Completion::build_opt("git".to_string(), path(&["git"]), 5, &entry),
        Err(error(
            &["git"],
            Slot::Option(5),
            Fault::MalformedArgumentKind {
                input: "nothing".to_string(),
                reason: KindFault::Unrecognised
            }
        ))
    );
    let entry = read_document("opt = \"-x\"\nargument = 3\ndescription = \"d\"\n").unwrap();
    assert_eq!(
        Completion::build_opt("git".to_string(), path(&["git"]), 0, &entry),
        Err(error(
            &["git"],
            Slot::Option(0),
            Fault::WrongFieldType {
                field: Key::Argument,
                expected: ValueKind::Text,
                found: ValueKind::Integer
            }
        ))
    );
}

#[test]
fn completion_of_an_option_by_argument() {
    let built = |text: &str| {
        let entry = read_document(text).unwrap();
        Completion::build_opt("p".to_string(), path(&["p", "q"]), 0, &entry).unwrap()
    };
    let none = built("opt = \"-x\"\ndescription = \"d\"\n");
    assert_eq!(none.command, "p");
    assert_eq!(none.path, path(&["p", "q"]));
    assert_eq!(none.description, "d");
    assert_eq!(
        none.completion_kind,
        CompKind::Opt(Opt { opts: path(&["-x"]), argument: None, description: "d".to_string() })
    );
    let some = built("opt = \"-x\"\nargument = \"command(ls)\"\ndescription = \"d\"\n");
    assert_eq!(
        some.completion_kind,
        CompKind::Opt(Opt {
            opts: path(&["-x"]),
            argument: Some(ArgKind::Command("ls".to_string())),
            description: "d".to_string()
        })
    );
}

#[test]
fn completion_from_its_parts() {
    let made = Completion::new(
        "p".to_string(),
        path(&["p"]),
        CompKind::Subcmd(Subcmd { name: "s".to_string() }),
        "d".to_string(),
    );
    assert_eq!(made.command, "p");
    assert_eq!(made.path, path(&["p"]));
    assert_eq!(made.completion_kind, CompKind::Subcmd(Subcmd { name: "s".to_string() }));
    assert_eq!(made.description, "d");
    let program = Program { name: "p".to_string(), base_command: bare("p") };
    assert_eq!(program.base_command.name, program.name);
}
