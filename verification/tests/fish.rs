use completist::builder::{build_program, Policy};
use completist::document::read_document;
use completist::fish::HEADER_TAIL;
use completist::formatter::{Formatter, FormatterBuilder};
use completist::kind::ArgKind;
use completist::program::{Arg, Command, Opt, Program};

fn fish() -> Formatter {
    let mut builder = FormatterBuilder::new("fish");
    builder.ext("fish");
    builder.build().unwrap()
}

fn strings(list: &[&str]) -> Vec<String> {
    list.iter().map(|item| item.to_string()).collect()
}

fn program(name: &str) -> Program {
    Program {
        name: name.to_string(),
        base_command: Command {
            name: name.to_string(),
            arguments: Vec::new(),
            options: Vec::new(),
            subcommands: Vec::new(),
        },
    }
}

fn option(opts: &[&str], argument: Option<ArgKind>, description: &str) -> Opt {
    Opt { opts: strings(opts), argument, description: description.to_string() }
}

fn value_text(argument: Option<ArgKind>) -> String {
    let mut out = String::new();
    fish().write_opt_arguments(&mut out, &option(&["-x"], argument, "d"));
    out
}

#[test]
fn verbose_option_statement() {
    let mut prog = program("prog");
    prog.base_command.options.push(option(&["--verbose", "-v"], None, "be verbose"));
    let script = fish().render(&prog);
    let statement = "complete -c 'prog'  -n '__fish_at_level_prog prog'  -l '--verbose'  -s '-v'  -d 'be verbose' \n";
    assert_eq!(script, format!("function __fish_at_level_prog{}{}", HEADER_TAIL, statement));
    assert!(statement.contains("'--verbose'"));
    assert!(statement.contains("'-v'"));
    assert!(statement.contains("be verbose"));
    assert!(!statement.contains(" -r "));
    assert!(!statement.contains(" -x "));
    assert!(!statement.contains(" -a "));
}

#[test]
fn header_names_the_program() {
    let mut out = String::from("# before\n");
    fish().write_header(&mut out, &program("cat"));
    assert!(out.starts_with("# before\nfunction __fish_at_level_cat\n  set cmd (commandline -opc)\n"));
    assert!(out.ends_with("\n  return 1\nend\n"));
}

#[test]
fn comment_lines() {
    let comment = |text: &str| {
        let mut out = String::from(">");
        fish().write_comment(&mut out, text.to_string());
        out
    };
    assert_eq!(comment(""), ">");
    assert_eq!(comment("one"), "># one\n");
    assert_eq!(comment("one\n"), "># one\n");
    assert_eq!(comment("one\ntwo"), "># one\n# two\n");
    assert_eq!(comment("one\r\ntwo\r\n"), "># one\n# two\n");
    assert_eq!(comment("\n\nx"), "># \n# \n# x\n");
    assert_eq!(comment("a\rb\r"), "># a\rb\r\n");
}

#[test]
fn begin_and_level() {
    let prog = program("git");
    let mut out = String::new();
    fish().write_begin(&mut out, &prog);
    assert_eq!(out, "complete -c 'git' ");
    let mut out = String::new();
    fish().write_level(&mut out, &prog, &strings(&["git", "remote", "add"]));
    assert_eq!(out, " -n '__fish_at_level_git git remote add' ");
    let mut out = String::new();
    fish().write_level(&mut out, &prog, &[]);
    assert_eq!(out, " -n '__fish_at_level_git ' ");
}

#[test]
fn spellings_by_shape() {
    let mut out = String::new();
    fish().write_opt(&mut out, &option(&["--long", "-s", "-old", "--", "-", "x", "-\u{e9}"], None, "d"));
    assert_eq!(
        out,
        " -l '--long'  -s '-s'  -o '-old'  -l '--'  -o '-'  -o 'x'  -s '-\u{e9}' "
    );
    let mut out = String::new();
    fish().write_opt(&mut out, &option(&[], None, "d"));
    assert_eq!(out, "");
}

#[test]
fn description_is_verbatim() {
    let mut out = String::new();
    fish().write_opt_description(&mut out, &option(&["-x"], None, "display $ at end"));
    assert_eq!(out, " -d 'display $ at end' ");
}

#[test]
fn option_values_by_kind() {
    assert_eq!(value_text(None), "");
    assert_eq!(value_text(Some(ArgKind::File)), " -r ");
    assert_eq!(value_text(Some(ArgKind::FilePlus)), " -r -a '--'");
    assert_eq!(value_text(Some(ArgKind::Anything)), " -x ");
    assert_eq!(value_text(Some(ArgKind::Separator)), " -x -a '--'");
    assert_eq!(
        value_text(Some(ArgKind::OneOf(strings(&["a", "it's", ""])))),
        " -r -a 'a it\\'s '"
    );
    assert_eq!(value_text(Some(ArgKind::Command("ls -1".to_string()))), " -r -a '(ls -1)'");
    assert_eq!(
        value_text(Some(ArgKind::Function("branches".to_string()))),
        " -x -a '(__fish_completist_func_branches)'"
    );
}

#[test]
fn argument_statements() {
    let prog = program("p");
    let line = |kind: ArgKind, usefiles: bool| {
        let mut out = String::new();
        let arg = Arg { kind, required: false, usefiles, description: "d".to_string() };
        fish().write_argument(&mut out, &prog, &strings(&["p"]), &arg);
        out
    };
    let head = "complete -c 'p'  -n '__fish_at_level_p p' ";
    assert_eq!(line(ArgKind::File, true), format!("{head} -F  -d 'd' \n"));
    assert_eq!(line(ArgKind::FilePlus, true), format!("{head} -F  -d 'd' \n"));
    assert_eq!(line(ArgKind::Anything, true), format!("{head} -d 'd' \n"));
    assert_eq!(line(ArgKind::Anything, false), format!("{head} -f  -d 'd' \n"));
    assert_eq!(line(ArgKind::Separator, true), format!("{head} -a '--'  -d 'd' \n"));
    assert_eq!(
        line(ArgKind::OneOf(strings(&["x", "y"])), false),
        format!("{head} -f  -a 'x y'  -d 'd' \n")
    );
    assert_eq!(
        line(ArgKind::Command("ls".to_string()), true),
        format!("{head} -a '(ls)'  -d 'd' \n")
    );
    assert_eq!(
        line(ArgKind::Function("f".to_string()), true),
        format!("{head} -a '(__fish_completist_func_f)'  -d 'd' \n")
    );
}

#[test]
fn options_then_arguments_then_subcommands() {
    let tree = read_document(
        "name = \"p\"\n\
         [[command]]\nname = \"s1\"\n\
         [[command.option]]\nopt = \"-a\"\ndescription = \"da\"\n\
         [[command.command]]\nname = \"deep\"\n\
         [[command]]\nname = \"s2\"\n\
         [[argument]]\nkind = \"anything\"\ndescription = \"arg\"\n\
         [[option]]\nopt = \"-o1\"\ndescription = \"d1\"\n\
         [[option]]\nopt = \"--o2\"\ndescription = \"d2\"\n",
    )
    .unwrap();
    let prog = build_program(&tree, Policy::CollectAll).unwrap();
    let mut out = String::new();
    fish().write_command(&mut out, &prog, &Vec::new(), &prog.base_command);
    let p = "complete -c 'p'  -n '__fish_at_level_p p' ";
    let s1 = "complete -c 'p'  -n '__fish_at_level_p p s1' ";
    let expected = [
        format!("{p} -o '-o1'  -d 'd1' \n"),
        format!("{p} -l '--o2'  -d 'd2' \n"),
        format!("{p} -d 'arg' \n"),
        format!("{p} -f -a 's1'\n"),
        format!("{s1} -s '-a'  -d 'da' \n"),
        format!("{s1} -f -a 'deep'\n"),
        format!("{p} -f -a 's2'\n"),
    ]
    .concat();
    assert_eq!(out, expected);
    assert_eq!(fish().render(&prog), format!("function __fish_at_level_p{}{}", HEADER_TAIL, expected));
}
