//! The completion script that a formatter writes, in the syntax of the fish
//! shell.
//!
//! Every completion is one `complete` statement. A statement names the
//! program, is bound to the command line that leads to its command, and then
//! says what is offered there. The script begins with the function that the
//! statements use to test the command line.

use vstd::prelude::*;
use vstd::string::*;
use crate::formatter::Formatter;
use crate::kind::{ArgKind, KindView};
use crate::program::{
    arg_views, command_view, command_views, opt_views, Arg, ArgView, Command, CommandView, Opt,
    OptView, Program, ProgramView,
};
use crate::text::{
    append_joined, chars_of, copy_texts, joined, split_on, split_text, string_of, texts,
};

verus! {

/// What follows the program's name in the head of the script.
pub const HEADER_TAIL: &'static str = "\
\n  set cmd (commandline -opc)\
\n  set subcommands $argv\
\n  set subcommands_len (count $subcommands)\
\n  if [ (count $cmd) -eq $subcommands_len ]\
\n    for i in (seq $subcommands_len)\
\n      if [ $subcommands[$i] != $cmd[$i] ]\
\n        return 1\
\n      end\
\n    end\
\n    return 0\
\n  end\
\n\
\n  return 1\
\nend\
\n";

/// A line without the carriage return that may end it.
pub open spec fn without_return(line: Seq<char>) -> Seq<char> {
    if line.len() > 0 && line.last() == '\r' {
        line.drop_last()
    } else {
        line
    }
}

/// The lines of a text. A line ends with a line feed, or with a carriage
/// return and a line feed, or with the text; what follows the last line feed
/// is a line only where it is not empty.
pub open spec fn lines_of(text: Seq<char>) -> Seq<Seq<char>> {
    let parts = split_on(text, '\n');
    let ended = parts.drop_last().map_values(|line: Seq<char>| without_return(line));
    if parts.last().len() == 0 {
        ended
    } else {
        ended.push(parts.last())
    }
}

/// The first `n` of some lines, each written as a comment.
pub open spec fn commented(lines: Seq<Seq<char>>, n: nat) -> Seq<char>
    decreases n,
{
    if n == 0 {
        Seq::empty()
    } else {
        commented(lines, (n - 1) as nat) + "# "@ + lines[n - 1] + "\n"@
    }
}

/// A text written as comment lines.
pub open spec fn comment_text(text: Seq<char>) -> Seq<char> {
    commented(lines_of(text), lines_of(text).len())
}

/// The head of the script of a program: the function that tells whether the
/// command line so far is a given path of commands.
pub open spec fn header_text(program: Seq<char>) -> Seq<char> {
    "function __fish_at_level_"@ + program + HEADER_TAIL@
}

/// The beginning of a statement for a program.
pub open spec fn begin_text(program: Seq<char>) -> Seq<char> {
    "complete -c '"@ + program + "' "@
}

/// The condition that binds a statement to the command at `path`.
pub open spec fn level_text(program: Seq<char>, path: Seq<Seq<char>>) -> Seq<char> {
    " -n '__fish_at_level_"@ + program + " "@ + joined(path, " "@, path.len()) + "' "@
}

/// How one spelling of an option is registered: as a long option where it
/// begins with two dashes, as a short one where it is a dash and one more
/// character, and as an old-style option otherwise.
pub open spec fn spelling_text(spelling: Seq<char>) -> Seq<char> {
    if spelling.len() >= 2 && spelling[0] == '-' && spelling[1] == '-' {
        " -l '"@ + spelling + "' "@
    } else if spelling.len() == 2 && spelling[0] == '-' {
        " -s '"@ + spelling + "' "@
    } else {
        " -o '"@ + spelling + "' "@
    }
}

/// How the first `n` spellings of an option are registered.
pub open spec fn spellings_text(opts: Seq<Seq<char>>, n: nat) -> Seq<char>
    decreases n,
{
    if n == 0 {
        Seq::empty()
    } else {
        spellings_text(opts, (n - 1) as nat) + spelling_text(opts[n - 1])
    }
}

/// How a description is attached to a statement.
pub open spec fn description_text(description: Seq<char>) -> Seq<char> {
    " -d '"@ + description + "' "@
}

impl Formatter {
    /// Appends a text as comment lines.
    pub fn write_comment(&self, output: &mut String, text: String)
        ensures
            final(output)@ == old(output)@ + comment_text(text@),
    {
        let parts = split_text(text.as_str(), '\n');
        let n = parts.len();
        let ghost lines = lines_of(text@);
        let mut i: usize = 0;
        assert(output@ + Seq::<char>::empty() =~= output@);
        while i + 1 < n
            invariant
                1 <= n == parts@.len(),
                i + 1 <= n,
                texts(parts@) == split_on(text@, '\n'),
                lines == lines_of(text@),
                output@ == old(output)@ + commented(lines, i as nat),
            decreases n - i,
        {
            let chars = chars_of(parts[i].as_str());
            let m = chars.len();
            let line = if m > 0 && chars[m - 1] == '\r' {
                assert(chars@.subrange(0, m - 1) =~= chars@.drop_last());
                string_of(&chars, 0, m - 1)
            } else {
                assert(chars@.subrange(0, m as int) =~= chars@);
                string_of(&chars, 0, m)
            };
            assert(texts(parts@)[i as int] == parts@[i as int]@);
            assert(line@ == without_return(parts@[i as int]@));
            assert(lines[i as int] == line@);
            output.append("# ");
            output.append(line.as_str());
            output.append("\n");
            assert(output@ =~= old(output)@ + commented(lines, (i + 1) as nat));
            i += 1;
        }
        assert(texts(parts@)[n - 1] == parts@[n - 1]@);
        if !parts[n - 1].as_str().is_empty() {
            assert(lines[n - 1] == parts@[n - 1]@);
            output.append("# ");
            output.append(parts[n - 1].as_str());
            output.append("\n");
            assert(output@ =~= old(output)@ + commented(lines, n as nat));
        }
    }

    /// Appends the head of a program's script.
    pub fn write_header(&self, output: &mut String, program: &Program)
        ensures
            final(output)@ == old(output)@ + header_text(program@.name),
    {
        output.append("function __fish_at_level_");
        output.append(program.name.as_str());
        output.append(HEADER_TAIL);
        assert(output@ =~= old(output)@ + header_text(program@.name));
    }

    /// Appends the beginning of a statement for a program.
    pub fn write_begin(&self, out: &mut String, prog: &Program)
        ensures
            final(out)@ == old(out)@ + begin_text(prog@.name),
    {
        out.append("complete -c '");
        out.append(prog.name.as_str());
        out.append("' ");
        assert(out@ =~= old(out)@ + begin_text(prog@.name));
    }

    /// Appends the condition that binds a statement to the command at `lvl`.
    pub fn write_level(&self, out: &mut String, prog: &Program, lvl: &[String])
        ensures
            final(out)@ == old(out)@ + level_text(prog@.name, texts(lvl@)),
    {
        out.append(" -n '__fish_at_level_");
        out.append(prog.name.as_str());
        out.append(" ");
        append_joined(out, lvl, " ");
        out.append("' ");
        assert(out@ =~= old(out)@ + level_text(prog@.name, texts(lvl@)));
    }

    /// Appends the spellings of an option, in the order in which they were
    /// declared.
    pub fn write_opt(&self, out: &mut String, opt: &Opt)
        ensures
            final(out)@ == old(out)@ + spellings_text(opt@.opts, opt@.opts.len()),
    {
        let mut i: usize = 0;
        assert(out@ + Seq::<char>::empty() =~= out@);
        while i < opt.opts.len()
            invariant
                i <= opt.opts@.len(),
                out@ == old(out)@ + spellings_text(opt@.opts, i as nat),
            decreases opt.opts@.len() - i,
        {
            let spelling = opt.opts[i].as_str();
            assert(opt@.opts[i as int] == spelling@);
            let n = spelling.unicode_len();
            if n >= 2 && spelling.get_char(0) == '-' && spelling.get_char(1) == '-' {
                out.append(" -l '");
            } else if n == 2 && spelling.get_char(0) == '-' {
                out.append(" -s '");
            } else {
                out.append(" -o '");
            }
            out.append(spelling);
            out.append("' ");
            assert(out@ =~= old(out)@ + spellings_text(opt@.opts, (i + 1) as nat));
            i += 1;
        }
    }

    /// Appends the description of an option.
    pub fn write_opt_description(&self, out: &mut String, opt: &Opt)
        ensures
            final(out)@ == old(out)@ + description_text(opt@.description),
    {
        out.append(" -d '");
        out.append(opt.description.as_str());
        out.append("' ");
        assert(out@ =~= old(out)@ + description_text(opt@.description));
    }

    /// Appends what an option says of its value: nothing for an option that
    /// takes none, and otherwise that a value is required and where its
    /// candidates come from.
    pub fn write_opt_arguments(&self, out: &mut String, opt: &Opt)
        ensures
            final(out)@ == old(out)@ + argument_text(opt@.argument),
    {
        match &opt.argument {
            None => {
                assert(out@ + Seq::<char>::empty() =~= out@);
            },
            Some(ArgKind::File) => {
                out.append(" -r ");
            },
            Some(ArgKind::FilePlus) => {
                out.append(" -r -a '--'");
            },
            Some(ArgKind::Anything) => {
                out.append(" -x ");
            },
            Some(ArgKind::Separator) => {
                out.append(" -x -a '--'");
            },
            Some(ArgKind::OneOf(words)) => {
                out.append(" -r -a '");
                append_words(out, words);
                out.append("'");
                assert(out@ =~= old(out)@ + argument_text(opt@.argument));
            },
            Some(ArgKind::Command(command)) => {
                out.append(" -r -a '(");
                out.append(command.as_str());
                out.append(")'");
                assert(out@ =~= old(out)@ + argument_text(opt@.argument));
            },
            Some(ArgKind::Function(function)) => {
                out.append(" -x -a '(__fish_completist_func_");
                out.append(function.as_str());
                out.append(")'");
                assert(out@ =~= old(out)@ + argument_text(opt@.argument));
            },
        }
    }
}

/// A word with a backslash put before each single quote, so that it can
/// stand between single quotes.
pub open spec fn quoted(word: Seq<char>) -> Seq<char>
    decreases word.len(),
{
    if word.len() == 0 {
        Seq::empty()
    } else if word.last() == '\'' {
        quoted(word.drop_last()) + seq!['\\', '\'']
    } else {
        quoted(word.drop_last()).push(word.last())
    }
}

/// The first `n` words of a list, each quoted, with a blank between them.
pub open spec fn words_text(words: Seq<Seq<char>>, n: nat) -> Seq<char>
    decreases n,
{
    if n == 0 {
        Seq::empty()
    } else if n == 1 {
        quoted(words[0])
    } else {
        words_text(words, (n - 1) as nat) + " "@ + quoted(words[n - 1])
    }
}

/// What an option says of its value.
pub open spec fn argument_text(argument: Option<KindView>) -> Seq<char> {
    match argument {
        None => Seq::empty(),
        Some(KindView::File) => " -r "@,
        Some(KindView::FilePlus) => " -r -a '--'"@,
        Some(KindView::Anything) => " -x "@,
        Some(KindView::Separator) => " -x -a '--'"@,
        Some(KindView::OneOf(words)) => " -r -a '"@ + words_text(words, words.len()) + "'"@,
        Some(KindView::Command(command)) => " -r -a '("@ + command + ")'"@,
        Some(KindView::Function(function)) => " -x -a '(__fish_completist_func_"@ + function
            + ")'"@,
    }
}

/// Appends a word, quoted.
fn append_quoted(out: &mut String, word: &str)
    ensures
        final(out)@ == old(out)@ + quoted(word@),
{
    let chars = chars_of(word);
    let mut i: usize = 0;
    assert(chars@.take(0) =~= Seq::<char>::empty());
    assert(out@ + Seq::<char>::empty() =~= out@);
    while i < chars.len()
        invariant
            i <= chars@.len(),
            out@ == old(out)@ + quoted(chars@.take(i as int)),
        decreases chars@.len() - i,
    {
        let c = chars[i];
        let ghost before = quoted(chars@.take(i as int));
        assert(chars@.take(i + 1).drop_last() =~= chars@.take(i as int));
        assert(chars@.take(i + 1).last() == c);
        if c == '\'' {
            out.push('\\');
            out.push('\'');
            assert(out@ =~= old(out)@ + (before + seq!['\\', '\'']));
        } else {
            out.push(c);
            assert(out@ =~= old(out)@ + before.push(c));
        }
        i += 1;
    }
    assert(chars@.take(chars@.len() as int) =~= chars@);
}

/// Appends the words of a list, each quoted, with a blank between them.
fn append_words(out: &mut String, words: &Vec<String>)
    ensures
        final(out)@ == old(out)@ + words_text(texts(words@), words@.len() as nat),
{
    let mut i: usize = 0;
    assert(out@ + Seq::<char>::empty() =~= out@);
    while i < words.len()
        invariant
            i <= words@.len(),
            out@ == old(out)@ + words_text(texts(words@), i as nat),
        decreases words@.len() - i,
    {
        assert(texts(words@)[i as int] == words@[i as int]@);
        if i > 0 {
            out.append(" ");
        }
        append_quoted(out, words[i].as_str());
        assert(out@ =~= old(out)@ + words_text(texts(words@), (i + 1) as nat));
        i += 1;
    }
}

/// Where the candidates of an argument come from.
pub open spec fn candidates_text(kind: KindView) -> Seq<char> {
    match kind {
        KindView::File => " -F "@,
        KindView::FilePlus => " -F "@,
        KindView::Anything => Seq::empty(),
        KindView::Separator => " -a '--' "@,
        KindView::OneOf(words) => " -a '"@ + words_text(words, words.len()) + "' "@,
        KindView::Command(command) => " -a '("@ + command + ")' "@,
        KindView::Function(function) => " -a '(__fish_completist_func_"@ + function + ")' "@,
    }
}

/// What is offered for an argument: no file names where the argument does
/// not use them, then the candidates of its kind.
pub open spec fn positional_text(arg: ArgView) -> Seq<char> {
    if arg.usefiles {
        candidates_text(arg.kind)
    } else {
        " -f "@ + candidates_text(arg.kind)
    }
}

/// The statement for an option of the command at `path`.
pub open spec fn option_line(
    program: Seq<char>,
    path: Seq<Seq<char>>,
    opt: OptView,
) -> Seq<char> {
    begin_text(program) + level_text(program, path) + spellings_text(opt.opts, opt.opts.len())
        + description_text(opt.description) + argument_text(opt.argument) + "\n"@
}

/// The statement for an argument of the command at `path`.
pub open spec fn argument_line(
    program: Seq<char>,
    path: Seq<Seq<char>>,
    arg: ArgView,
) -> Seq<char> {
    begin_text(program) + level_text(program, path) + positional_text(arg) + description_text(
        arg.description,
    ) + "\n"@
}

/// The statement that offers a subcommand of the command at `path`.
pub open spec fn subcommand_line(
    program: Seq<char>,
    path: Seq<Seq<char>>,
    name: Seq<char>,
) -> Seq<char> {
    begin_text(program) + level_text(program, path) + " -f -a '"@ + quoted(name) + "'\n"@
}

/// The statements for the first `n` options of the command at `path`.
pub open spec fn options_text(
    program: Seq<char>,
    path: Seq<Seq<char>>,
    opts: Seq<OptView>,
    n: nat,
) -> Seq<char>
    decreases n,
{
    if n == 0 {
        Seq::empty()
    } else {
        options_text(program, path, opts, (n - 1) as nat) + option_line(program, path, opts[n - 1])
    }
}

/// The statements for the first `n` arguments of the command at `path`.
pub open spec fn arguments_text(
    program: Seq<char>,
    path: Seq<Seq<char>>,
    args: Seq<ArgView>,
    n: nat,
) -> Seq<char>
    decreases n,
{
    if n == 0 {
        Seq::empty()
    } else {
        arguments_text(program, path, args, (n - 1) as nat) + argument_line(
            program,
            path,
            args[n - 1],
        )
    }
}

/// The statements for a command below the path `parent`: its options, then
/// its arguments, then its subcommands, each in the order in which they
/// were declared.
pub open spec fn command_text(
    program: Seq<char>,
    parent: Seq<Seq<char>>,
    command: CommandView,
) -> Seq<char>
    decreases command, 0nat,
{
    let path = parent.push(command.name);
    options_text(program, path, command.options, command.options.len()) + arguments_text(
        program,
        path,
        command.arguments,
        command.arguments.len(),
    ) + subcommands_text(program, path, command.subcommands, command.subcommands.len())
}

/// The statements for the first `n` subcommands of the command at `path`:
/// for each the statement that offers it, then the statements of the
/// subcommand itself.
pub open spec fn subcommands_text(
    program: Seq<char>,
    path: Seq<Seq<char>>,
    subs: Seq<CommandView>,
    n: nat,
) -> Seq<char>
    decreases subs, n,
{
    if n == 0 || n > subs.len() {
        Seq::empty()
    } else {
        subcommands_text(program, path, subs, (n - 1) as nat) + subcommand_line(
            program,
            path,
            subs[n - 1].name,
        ) + command_text(program, path, subs[n - 1])
    }
}

/// The script of a program: the head, then the statements of its root
/// command.
pub open spec fn program_text(program: ProgramView) -> Seq<char> {
    header_text(program.name) + command_text(program.name, Seq::empty(), program.base_command)
}

/// Appends where the candidates of an argument come from.
fn append_candidates(out: &mut String, kind: &ArgKind)
    ensures
        final(out)@ == old(out)@ + candidates_text(kind@),
{
    match kind {
        ArgKind::File => {
            out.append(" -F ");
        },
        ArgKind::FilePlus => {
            out.append(" -F ");
        },
        ArgKind::Anything => {
            assert(out@ + Seq::<char>::empty() =~= out@);
        },
        ArgKind::Separator => {
            out.append(" -a '--' ");
        },
        ArgKind::OneOf(words) => {
            out.append(" -a '");
            append_words(out, words);
            out.append("' ");
            assert(out@ =~= old(out)@ + candidates_text(kind@));
        },
        ArgKind::Command(command) => {
            out.append(" -a '(");
            out.append(command.as_str());
            out.append(")' ");
            assert(out@ =~= old(out)@ + candidates_text(kind@));
        },
        ArgKind::Function(function) => {
            out.append(" -a '(__fish_completist_func_");
            out.append(function.as_str());
            out.append(")' ");
            assert(out@ =~= old(out)@ + candidates_text(kind@));
        },
    }
}

impl Formatter {
    /// Appends the statement for an option of the command at `path`.
    pub fn write_option(&self, out: &mut String, prog: &Program, path: &[String], opt: &Opt)
        ensures
            final(out)@ == old(out)@ + option_line(prog@.name, texts(path@), opt@),
    {
        self.write_begin(out, prog);
        self.write_level(out, prog, path);
        self.write_opt(out, opt);
        self.write_opt_description(out, opt);
        self.write_opt_arguments(out, opt);
        out.append("\n");
        assert(out@ =~= old(out)@ + option_line(prog@.name, texts(path@), opt@));
    }

    /// Appends the statement for an argument of the command at `path`.
    pub fn write_argument(&self, out: &mut String, prog: &Program, path: &[String], arg: &Arg)
        ensures
            final(out)@ == old(out)@ + argument_line(prog@.name, texts(path@), arg@),
    {
        self.write_begin(out, prog);
        self.write_level(out, prog, path);
        if !arg.usefiles {
            out.append(" -f ");
        }
        append_candidates(out, &arg.kind);
        out.append(" -d '");
        out.append(arg.description.as_str());
        out.append("' ");
        out.append("\n");
        assert(out@ =~= old(out)@ + argument_line(prog@.name, texts(path@), arg@));
    }

    /// Appends the statement that offers a subcommand of the command at
    /// `path`.
    pub fn write_subcommand(&self, out: &mut String, prog: &Program, path: &[String], name: &str)
        ensures
            final(out)@ == old(out)@ + subcommand_line(prog@.name, texts(path@), name@),
    {
        self.write_begin(out, prog);
        self.write_level(out, prog, path);
        out.append(" -f -a '");
        append_quoted(out, name);
        out.append("'\n");
        assert(out@ =~= old(out)@ + subcommand_line(prog@.name, texts(path@), name@));
    }

    /// Appends the statements for the options of the command at `path`.
    pub fn write_options(
        &self,
        out: &mut String,
        prog: &Program,
        path: &[String],
        opts: &Vec<Opt>,
    )
        ensures
            final(out)@ == old(out)@ + options_text(
                prog@.name,
                texts(path@),
                opt_views(opts@),
                opts@.len() as nat,
            ),
    {
        let mut i: usize = 0;
        assert(out@ + Seq::<char>::empty() =~= out@);
        while i < opts.len()
            invariant
                i <= opts@.len(),
                out@ == old(out)@ + options_text(
                    prog@.name,
                    texts(path@),
                    opt_views(opts@),
                    i as nat,
                ),
            decreases opts@.len() - i,
        {
            let ghost before = options_text(prog@.name, texts(path@), opt_views(opts@), i as nat);
            assert(opt_views(opts@)[i as int] == opts@[i as int]@);
            self.write_option(out, prog, path, &opts[i]);
            assert(out@ =~= old(out)@ + (before + option_line(
                prog@.name,
                texts(path@),
                opts@[i as int]@,
            )));
            i += 1;
        }
    }

    /// Appends the statements for the arguments of the command at `path`.
    pub fn write_arguments(
        &self,
        out: &mut String,
        prog: &Program,
        path: &[String],
        args: &Vec<Arg>,
    )
        ensures
            final(out)@ == old(out)@ + arguments_text(
                prog@.name,
                texts(path@),
                arg_views(args@),
                args@.len() as nat,
            ),
    {
        let mut i: usize = 0;
        assert(out@ + Seq::<char>::empty() =~= out@);
        while i < args.len()
            invariant
                i <= args@.len(),
                out@ == old(out)@ + arguments_text(
                    prog@.name,
                    texts(path@),
                    arg_views(args@),
                    i as nat,
                ),
            decreases args@.len() - i,
        {
            let ghost before = arguments_text(prog@.name, texts(path@), arg_views(args@), i as nat);
            assert(arg_views(args@)[i as int] == args@[i as int]@);
            self.write_argument(out, prog, path, &args[i]);
            assert(out@ =~= old(out)@ + (before + argument_line(
                prog@.name,
                texts(path@),
                args@[i as int]@,
            )));
            i += 1;
        }
    }

    /// Appends the statements for the subcommands of the command at `path`,
    /// and for every command below them.
    pub fn write_subcommands(
        &self,
        out: &mut String,
        prog: &Program,
        path: &Vec<String>,
        subs: &Vec<Command>,
    )
        ensures
            final(out)@ == old(out)@ + subcommands_text(
                prog@.name,
                texts(path@),
                command_views(subs@),
                subs@.len() as nat,
            ),
        decreases subs, 1nat,
    {
        let mut i: usize = 0;
        assert(out@ + Seq::<char>::empty() =~= out@);
        while i < subs.len()
            invariant
                i <= subs@.len(),
                out@ == old(out)@ + subcommands_text(
                    prog@.name,
                    texts(path@),
                    command_views(subs@),
                    i as nat,
                ),
            decreases subs@.len() - i,
        {
            let ghost before = subcommands_text(
                prog@.name,
                texts(path@),
                command_views(subs@),
                i as nat,
            );
            let sub = &subs[i];
            assert(command_views(subs@)[i as int] == sub@);
            proof {
                command_view(*sub);
            }
            self.write_subcommand(out, prog, path.as_slice(), sub.name.as_str());
            self.write_command(out, prog, path, sub);
            assert(out@ =~= old(out)@ + (before + subcommand_line(
                prog@.name,
                texts(path@),
                sub@.name,
            ) + command_text(prog@.name, texts(path@), sub@)));
            i += 1;
        }
    }

    /// Appends the statements for a command below the path `parent`, and for
    /// every command below it.
    pub fn write_command(
        &self,
        out: &mut String,
        prog: &Program,
        parent: &Vec<String>,
        command: &Command,
    )
        ensures
            final(out)@ == old(out)@ + command_text(prog@.name, texts(parent@), command@),
        decreases command, 0nat,
    {
        let mut path = copy_texts(parent);
        path.push(command.name.clone());
        assert(texts(path@) =~= texts(parent@).push(command.name@));
        proof {
            command_view(*command);
        }
        self.write_options(out, prog, path.as_slice(), &command.options);
        self.write_arguments(out, prog, path.as_slice(), &command.arguments);
        self.write_subcommands(out, prog, &path, &command.subcommands);
        assert(out@ =~= old(out)@ + command_text(prog@.name, texts(parent@), command@));
    }

    /// Appends the script of a program.
    pub fn write_program(&self, out: &mut String, prog: &Program)
        ensures
            final(out)@ == old(out)@ + program_text(prog@),
    {
        self.write_header(out, prog);
        let root: Vec<String> = Vec::new();
        assert(texts(root@) =~= Seq::<Seq<char>>::empty());
        self.write_command(out, prog, &root, &prog.base_command);
        assert(out@ =~= old(out)@ + program_text(prog@));
    }

    /// The script of a program.
    pub fn render(&self, prog: &Program) -> (out: String)
        ensures
            out@ == program_text(prog@),
    {
        let mut out = String::new();
        self.write_program(&mut out, prog);
        assert(Seq::<char>::empty() + program_text(prog@) =~= program_text(prog@));
        out
    }
}

} // verus!
