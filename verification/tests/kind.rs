use completist::kind::{
    choose_one_of, command_text, escape_body, function_text, parse_argument_kind, ArgKind,
    KindError, KindFault,
};

fn fails_with(input: &str, reason: KindFault) {
    assert_eq!(parse_argument_kind(input), Err(KindError { input: input.to_string(), reason }));
}

fn words(list: &[&str]) -> Vec<String> {
    list.iter().map(|word| word.to_string()).collect()
}

#[test]
fn words_in_any_case() {
    for input in ["file", "FILE", "fIlE", "File"] {
        assert_eq!(parse_argument_kind(input), Ok(ArgKind::File));
    }
    for input in ["file+", "FILE+", "FiLe+"] {
        assert_eq!(parse_argument_kind(input), Ok(ArgKind::FilePlus));
    }
    for input in ["anything", "ANYTHING", "AnyThing"] {
        assert_eq!(parse_argument_kind(input), Ok(ArgKind::Anything));
    }
    for input in ["separator", "SEPARATOR", "sEpArAtOr"] {
        assert_eq!(parse_argument_kind(input), Ok(ArgKind::Separator));
    }
}

#[test]
fn one_of_splits_like_a_shell() {
    assert_eq!(parse_argument_kind("oneof(a b c)"), Ok(ArgKind::OneOf(words(&["a", "b", "c"]))));
    assert_eq!(
        parse_argument_kind("one_of('a' \"b\" '')"),
        Ok(ArgKind::OneOf(words(&["a", "b", ""])))
    );
    assert_eq!(
        parse_argument_kind("ONEOF('two words'   x)"),
        Ok(ArgKind::OneOf(words(&["two words", "x"])))
    );
    assert_eq!(parse_argument_kind("One_Of(a)"), Ok(ArgKind::OneOf(words(&["a"]))));
}

#[test]
fn function_body_with_escaped_parentheses() {
    assert_eq!(
        parse_argument_kind("function(can contain \\( and \\) inside)"),
        Ok(ArgKind::Function("can contain ( and ) inside".to_string()))
    );
    assert_eq!(
        parse_argument_kind("FUNCTION(a\\\\b)"),
        Ok(ArgKind::Function("a\\b".to_string()))
    );
    assert_eq!(parse_argument_kind("function()"), Ok(ArgKind::Function(String::new())));
}

#[test]
fn command_body_is_kept_verbatim() {
    assert_eq!(
        parse_argument_kind("command(git branch  --list)"),
        Ok(ArgKind::Command("git branch  --list".to_string()))
    );
    assert_eq!(
        parse_argument_kind("Command(ls 'a b'\n-l)"),
        Ok(ArgKind::Command("ls 'a b'\n-l".to_string()))
    );
    assert_eq!(
        parse_argument_kind("command(caf\u{e9} \u{1F600})"),
        Ok(ArgKind::Command("caf\u{e9} \u{1F600}".to_string()))
    );
}

#[test]
fn unescaped_parenthesis_inside_fails() {
    fails_with("command(err: unescaped ( inside)", KindFault::BadEscape);
    fails_with("command(err: unescaped ) inside)", KindFault::BadEscape);
    fails_with("function(a))", KindFault::BadEscape);
    fails_with("oneof(a (b) c)", KindFault::BadEscape);
}

#[test]
fn stray_backslash_fails() {
    fails_with("command(a\\b)", KindFault::BadEscape);
    fails_with("command(a\\)", KindFault::BadEscape);
    fails_with("function(\\n)", KindFault::BadEscape);
}

#[test]
fn unbalanced_quoting_fails() {
    fails_with("oneof('a b)", KindFault::BadQuoting);
    fails_with("one_of(a \"b)", KindFault::BadQuoting);
    fails_with("oneof(a \\\\)", KindFault::BadQuoting);
}

#[test]
fn one_of_without_words_fails() {
    fails_with("oneof()", KindFault::NoChoices);
    fails_with("one_of(   )", KindFault::NoChoices);
}

#[test]
fn anything_else_is_unrecognised() {
    fails_with("", KindFault::Unrecognised);
    fails_with("files", KindFault::Unrecognised);
    fails_with(" file", KindFault::Unrecognised);
    fails_with("file ", KindFault::Unrecognised);
    fails_with("file +", KindFault::Unrecognised);
    fails_with("on_e_of(a b c d)", KindFault::Unrecognised);
    fails_with("function (a)", KindFault::Unrecognised);
    fails_with("function(a", KindFault::Unrecognised);
    fails_with("function(a) ", KindFault::Unrecognised);
    fails_with("xfunction(a)", KindFault::Unrecognised);
    fails_with("command", KindFault::Unrecognised);
    fails_with("command(", KindFault::Unrecognised);
    fails_with("command)", KindFault::Unrecognised);
    fails_with("(a)", KindFault::Unrecognised);
    fails_with("\u{17f}eparator", KindFault::Unrecognised);
}

#[test]
fn shortest_frames() {
    assert_eq!(parse_argument_kind("command()"), Ok(ArgKind::Command(String::new())));
    assert_eq!(parse_argument_kind("command(\\))"), Ok(ArgKind::Command(")".to_string())));
    assert_eq!(parse_argument_kind("command(\\()"), Ok(ArgKind::Command("(".to_string())));
}

#[test]
fn choose_one_of_by_case() {
    assert_eq!(choose_one_of("x", Some(words(&["a", "b"]))), Ok(ArgKind::OneOf(words(&["a", "b"]))));
    assert_eq!(
        choose_one_of("x", Some(Vec::new())),
        Err(KindError { input: "x".to_string(), reason: KindFault::NoChoices })
    );
    assert_eq!(
        choose_one_of("x", None),
        Err(KindError { input: "x".to_string(), reason: KindFault::BadQuoting })
    );
}

#[test]
fn escape_body_exact() {
    assert_eq!(escape_body(""), "");
    assert_eq!(escape_body("plain text"), "plain text");
    assert_eq!(escape_body("f(x)"), "f\\(x\\)");
    assert_eq!(escape_body("a\\b"), "a\\\\b");
    assert_eq!(escape_body("\\("), "\\\\\\(");
}

#[test]
fn command_round_trip() {
    for text in ["", "ls", "echo (a)", "a\\b", "\\(", "((()))\\\\", ")(", "grep -e '\\)'"] {
        let written = command_text(text);
        assert_eq!(parse_argument_kind(&written), Ok(ArgKind::Command(text.to_string())));
        let written = function_text(text);
        assert_eq!(parse_argument_kind(&written), Ok(ArgKind::Function(text.to_string())));
    }
    assert_eq!(command_text("echo (a)"), "command(echo \\(a\\))");
    assert_eq!(function_text("f"), "function(f)");
}

#[test]
fn written_form_of_a_parsed_body_is_the_body() {
    for input in ["command(a\\(b\\)\\\\c)", "command()", "command(plain)", "command(\\\\\\\\)"] {
        match parse_argument_kind(input) {
            Ok(ArgKind::Command(text)) => assert_eq!(command_text(&text), input),
            other => panic!("{input:?} gave {other:?}"),
        }
    }
}
