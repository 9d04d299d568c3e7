use completist::builder::Policy;
use completist::completion::Refusal;
use completist::document::read_document;
use completist::error::{ConfigError, Fault, Key, Slot};
use completist::kind::{ArgKind, KindError, KindFault};
use completist::program::{Arg, CompKind, Completion};

fn nameless() -> Refusal {
    Refusal {
        errors: vec![ConfigError {
            path: Vec::new(),
            slot: Slot::Command,
            fault: Fault::MissingRequiredField { field: Key::Name },
        }],
        partial: None,
    }
}

#[test]
fn completion_opt_from_toml() {
    let toml = read_document(
        "
            [[prog.option]]
            opt = '--lib'
            description = 'option'",
    )
    .expect("TOML could not be parsed");
    assert_eq!(Completion::from_toml(&toml, Policy::CollectAll), Err(nameless()));
    assert_eq!(Completion::from_toml(&toml, Policy::FailFast), Err(nameless()));
}

#[test]
fn completion_arg_from_toml() {
    let toml = read_document(
        "
            [[prog.argument]]
            kind = 'FILE'
            description = 'arg'",
    )
    .expect("TOML could not be parsed");
    assert_eq!(Completion::from_toml(&toml, Policy::CollectAll), Err(nameless()));
    assert_eq!(Completion::from_toml(&toml, Policy::FailFast), Err(nameless()));
}

#[test]
fn completion_opt_of_a_named_document() {
    let toml = read_document(
        "
            name = 'prog'
            [[option]]
            opt = '--lib'
            description = 'option'",
    )
    .expect("TOML could not be parsed");
    let program = Completion::from_toml(&toml, Policy::CollectAll).unwrap();
    assert_eq!(program.name, "prog".to_string());
    assert_eq!(program.base_command.options.len(), 1);
    assert_eq!(program.base_command.arguments.len(), 0);
    assert_eq!(program.base_command.options[0].opts, vec!["--lib".to_string()]);
    assert_eq!(program.base_command.options[0].argument, None);
    assert_eq!(program.base_command.options[0].description, "option".to_string());

    let entry = &toml.as_table().unwrap()[1].value.as_array().unwrap()[0];
    let completion =
        Completion::build_opt("prog".to_string(), vec!["prog".to_string()], 0, entry).unwrap();
    assert_eq!(completion.command, "prog".to_string());
    assert_eq!(completion.path, vec!["prog".to_string()]);
    assert_eq!(completion.description, "option".to_string());
    if let CompKind::Opt(ref opt) = completion.completion_kind {
        assert_eq!(opt.opts, vec!["--lib".to_string()]);
        assert_eq!(opt.argument, None);
    } else {
        panic!("Wrong CompKind returned");
    }
}

#[test]
fn completion_arg_of_a_named_document() {
    let toml = read_document(
        "
            name = 'prog'
            [[argument]]
            kind = 'FILE'
            description = 'arg'",
    )
    .expect("TOML could not be parsed");
    let program = Completion::from_toml(&toml, Policy::FailFast).unwrap();
    assert_eq!(program.name, "prog".to_string());
    assert_eq!(program.base_command.arguments.len(), 1);
    assert_eq!(program.base_command.options.len(), 0);
    assert_eq!(program.base_command.arguments[0].required, false);
    assert_eq!(program.base_command.arguments[0].usefiles, true);
    assert_eq!(program.base_command.arguments[0].kind, ArgKind::File);

    let entry = &toml.as_table().unwrap()[0].value.as_array().unwrap()[0];
    let completion =
        Completion::build_arg("prog".to_string(), vec!["prog".to_string()], 0, entry).unwrap();
    assert_eq!(completion.command, "prog".to_string());
    assert_eq!(completion.path, vec!["prog".to_string()]);
    assert_eq!(completion.description, "arg".to_string());
    if let CompKind::Arg(ref arg) = completion.completion_kind {
        assert_eq!(arg.required, false);
        assert_eq!(arg.usefiles, true);
        assert_eq!(arg.kind, ArgKind::File);
    } else {
        panic!("Wrong CompKind returned");
    }
}

#[test]
fn parse_argkind() {
    let kind = Arg::parse_argkind("FILE").unwrap();
    assert_eq!(kind, ArgKind::File);
    let kind = Arg::parse_argkind("FiLe").unwrap();
    assert_eq!(kind, ArgKind::File);
    let kind = Arg::parse_argkind("FILE+").unwrap();
    assert_eq!(kind, ArgKind::FilePlus);
    let kind = Arg::parse_argkind("anything").unwrap();
    assert_eq!(kind, ArgKind::Anything);
    let kind = Arg::parse_argkind("separator").unwrap();
    assert_eq!(kind, ArgKind::Separator);
    let kind = Arg::parse_argkind("oneof(a b c)").unwrap();
    assert_eq!(kind, ArgKind::OneOf(vec!["a".to_string(), "b".to_string(), "c".to_string()]));
    let kind = Arg::parse_argkind("one_of(a b c)").unwrap();
    assert_eq!(kind, ArgKind::OneOf(vec!["a".to_string(), "b".to_string(), "c".to_string()]));
    let kind = Arg::parse_argkind(r#"one_of('a' "b" '')"#).unwrap();
    assert_eq!(kind, ArgKind::OneOf(vec!["a".to_string(), "b".to_string(), "".to_string()]));
    let kind = Arg::parse_argkind("on_e_of(a b c d)");
    assert!(kind.is_err());
    let kind = Arg::parse_argkind("function(a b c d)").unwrap();
    assert_eq!(kind, ArgKind::Function("a b c d".to_string()));
    let kind = Arg::parse_argkind("command(a b c d)").unwrap();
    assert_eq!(kind, ArgKind::Command("a b c d".to_string()));
    let kind = Arg::parse_argkind("unrecognised input");
    assert!(kind.is_err());
}

#[test]
fn unrecognised_kind_carries_the_input() {
    assert_eq!(
        Arg::parse_argkind("unrecognised input"),
        Err(KindError { input: "unrecognised input".to_string(), reason: KindFault::Unrecognised })
    );
}
