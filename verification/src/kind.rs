//! The kinds of value that an argument or an option accepts, and the small
//! language in which a configuration names them.
//!
//! A kind is written as one of the words `file`, `file+`, `anything` and
//! `separator`, or as a keyword followed by a body in parentheses:
//! `function(BODY)`, `command(BODY)`, `oneof(BODY)` or `one_of(BODY)`.
//! Words and keywords are matched without regard to ASCII case. Inside a body
//! a parenthesis or a backslash stands only behind a backslash.

use vstd::prelude::*;
use vstd::string::*;
use crate::text::{chars_of, fold_char, folded, same_ignoring_case, texts};

verus! {

/// How the candidates for a value are found.
#[derive(Debug, PartialEq, Eq)]
pub enum ArgKind {
    /// A file.
    File,
    /// One file or more.
    FilePlus,
    /// Any token.
    Anything,
    /// A marker such as `--`.
    Separator,
    /// One of a fixed list of words.
    OneOf(Vec<String>),
    /// A shell command whose output lines are the candidates.
    Command(String),
    /// A named function that provides the candidates.
    Function(String),
}

/// The mathematical value of an [`ArgKind`].
pub enum KindView {
    File,
    FilePlus,
    Anything,
    Separator,
    OneOf(Seq<Seq<char>>),
    Command(Seq<char>),
    Function(Seq<char>),
}

impl KindView {
    /// Whether the kind is well formed: a `OneOf` has one word at least.
    pub open spec fn wf(self) -> bool {
        self matches KindView::OneOf(words) ==> words.len() > 0
    }
}

impl View for ArgKind {
    type V = KindView;

    open spec fn view(&self) -> KindView {
        match self {
            ArgKind::File => KindView::File,
            ArgKind::FilePlus => KindView::FilePlus,
            ArgKind::Anything => KindView::Anything,
            ArgKind::Separator => KindView::Separator,
            ArgKind::OneOf(words) => KindView::OneOf(texts(words@)),
            ArgKind::Command(text) => KindView::Command(text@),
            ArgKind::Function(text) => KindView::Function(text@),
        }
    }
}

/// Why a text names no kind.
#[derive(Debug, PartialEq, Eq, Clone, Copy, Structural)]
pub enum KindFault {
    /// The text is none of the four words and has none of the parametric forms.
    Unrecognised,
    /// The body holds a bare parenthesis, or a backslash that is not followed
    /// by a parenthesis or a backslash.
    BadEscape,
    /// The body of a `oneof` could not be divided into words.
    BadQuoting,
    /// The body of a `oneof` holds no word at all.
    NoChoices,
}

/// A text that names no kind, with the reason.
#[derive(Debug, PartialEq, Eq)]
pub struct KindError {
    /// The text as it was given.
    pub input: String,
    /// What is wrong with it.
    pub reason: KindFault,
}

/// Whether a character has to be escaped inside a body.
pub open spec fn is_structural(c: char) -> bool {
    c == '(' || c == ')' || c == '\\'
}

/// Whether a body is well formed: every backslash in it is followed by a
/// parenthesis or a backslash, and no parenthesis stands bare.
pub open spec fn body_ok(body: Seq<char>) -> bool
    decreases body.len(),
{
    if body.len() == 0 {
        true
    } else if body[0] == '\\' {
        body.len() >= 2 && is_structural(body[1]) && body_ok(body.skip(2))
    } else {
        body[0] != '(' && body[0] != ')' && body_ok(body.skip(1))
    }
}

/// A body with each escape replaced by the character that it stands for.
pub open spec fn unescaped(body: Seq<char>) -> Seq<char>
    decreases body.len(),
{
    if body.len() == 0 {
        Seq::empty()
    } else if body[0] == '\\' && body.len() >= 2 {
        seq![body[1]] + unescaped(body.skip(2))
    } else {
        seq![body[0]] + unescaped(body.skip(1))
    }
}

/// A text with a backslash put before each parenthesis and each backslash.
pub open spec fn escaped(text: Seq<char>) -> Seq<char>
    decreases text.len(),
{
    if text.len() == 0 {
        Seq::empty()
    } else if is_structural(text[0]) {
        seq!['\\', text[0]] + escaped(text.skip(1))
    } else {
        seq![text[0]] + escaped(text.skip(1))
    }
}

/// Whether `input` is `keyword`, in any case, then `(`, a body, and `)` as
/// its last character.
pub open spec fn framed(input: Seq<char>, keyword: Seq<char>) -> bool {
    &&& input.len() >= keyword.len() + 2
    &&& same_ignoring_case(input.take(keyword.len() as int), keyword)
    &&& input[keyword.len() as int] == '('
    &&& input[input.len() - 1] == ')'
}

/// What stands between the parentheses of a framed input.
pub open spec fn frame_body(input: Seq<char>, keyword: Seq<char>) -> Seq<char> {
    input.subrange(keyword.len() as int + 1, input.len() as int - 1)
}

/// The resolved body of a framed input, or `None` where the body is not well
/// formed.
pub open spec fn resolved(input: Seq<char>, keyword: Seq<char>) -> Option<Seq<char>> {
    if body_ok(frame_body(input, keyword)) {
        Some(unescaped(frame_body(input, keyword)))
    } else {
        None
    }
}

/// The words into which `shlex::split` divides a text by the rules of a POSIX
/// shell, or `None` where it reports the text as erroneous.
pub uninterp spec fn shlex_split(text: Seq<char>) -> Option<Seq<Seq<char>>>;

/// The kind that a list of words stands for.
pub open spec fn choice_of(words: Option<Seq<Seq<char>>>) -> Result<KindView, KindFault> {
    match words {
        None => Err(KindFault::BadQuoting),
        Some(list) => if list.len() == 0 {
            Err(KindFault::NoChoices)
        } else {
            Ok(KindView::OneOf(list))
        },
    }
}

/// The kind that the body of a `oneof` stands for.
pub open spec fn one_of(body: Option<Seq<char>>) -> Result<KindView, KindFault> {
    match body {
        None => Err(KindFault::BadEscape),
        Some(text) => choice_of(shlex_split(text)),
    }
}

/// The kind that a text names, or the reason why it names none.
pub open spec fn parsed_kind(input: Seq<char>) -> Result<KindView, KindFault> {
    if same_ignoring_case(input, "file"@) {
        Ok(KindView::File)
    } else if same_ignoring_case(input, "file+"@) {
        Ok(KindView::FilePlus)
    } else if same_ignoring_case(input, "separator"@) {
        Ok(KindView::Separator)
    } else if same_ignoring_case(input, "anything"@) {
        Ok(KindView::Anything)
    } else if framed(input, "function"@) {
        match resolved(input, "function"@) {
            Some(text) => Ok(KindView::Function(text)),
            None => Err(KindFault::BadEscape),
        }
    } else if framed(input, "command"@) {
        match resolved(input, "command"@) {
            Some(text) => Ok(KindView::Command(text)),
            None => Err(KindFault::BadEscape),
        }
    } else if framed(input, "oneof"@) {
        one_of(resolved(input, "oneof"@))
    } else if framed(input, "one_of"@) {
        one_of(resolved(input, "one_of"@))
    } else {
        Err(KindFault::Unrecognised)
    }
}

/// Whether a text is a given word, in any case.
fn is_word(chars: &Vec<char>, word: &str) -> (out: bool)
    ensures
        out == same_ignoring_case(chars@, word@),
{
    let letters = chars_of(word);
    if chars.len() != letters.len() {
        return false;
    }
    let mut i: usize = 0;
    while i < chars.len()
        invariant
            i <= chars@.len() == letters@.len(),
            letters@ == word@,
            forall|j: int| 0 <= j < i ==> folded(#[trigger] chars@[j]) == folded(letters@[j]),
        decreases chars@.len() - i,
    {
        if fold_char(chars[i]) != fold_char(letters[i]) {
            return false;
        }
        i += 1;
    }
    true
}

/// Whether a text has the frame of a keyword.
fn has_frame(chars: &Vec<char>, keyword: &str) -> (out: bool)
    ensures
        out == framed(chars@, keyword@),
        out ==> keyword@.len() + 2 <= chars@.len(),
{
    let letters = chars_of(keyword);
    let n = letters.len();
    if chars.len() < 2 || chars.len() - 2 < n {
        return false;
    }
    let mut i: usize = 0;
    while i < n
        invariant
            i <= n == letters@.len(),
            n + 2 <= chars@.len(),
            letters@ == keyword@,
            forall|j: int| 0 <= j < i ==> folded(#[trigger] chars@[j]) == folded(letters@[j]),
        decreases n - i,
    {
        if fold_char(chars[i]) != fold_char(letters[i]) {
            assert(chars@.take(n as int)[i as int] == chars@[i as int]);
            return false;
        }
        i += 1;
    }
    assert(same_ignoring_case(chars@.take(n as int), keyword@)) by {
        assert forall|j: int| 0 <= j < n implies folded(#[trigger] chars@.take(n as int)[j])
            == folded(keyword@[j]) by {
            assert(chars@.take(n as int)[j] == chars@[j]);
        }
    }
    chars[n] == '(' && chars[chars.len() - 1] == ')'
}

/// Resolves the escapes of the body `chars[from..to]`. Returns `None` where
/// the body is not well formed.
fn resolve(chars: &Vec<char>, from: usize, to: usize) -> (out: Option<String>)
    requires
        from <= to <= chars@.len(),
    ensures
        match out {
            Some(text) => body_ok(chars@.subrange(from as int, to as int)) && text@ == unescaped(
                chars@.subrange(from as int, to as int),
            ),
            None => !body_ok(chars@.subrange(from as int, to as int)),
        },
{
    let ghost body = chars@.subrange(from as int, to as int);
    let mut text = String::new();
    let mut i: usize = from;
    while i < to
        invariant
            from <= i <= to <= chars@.len(),
            body == chars@.subrange(from as int, to as int),
            body_ok(body) == body_ok(chars@.subrange(i as int, to as int)),
            unescaped(body) == text@ + unescaped(chars@.subrange(i as int, to as int)),
        decreases to - i,
    {
        let ghost rest = chars@.subrange(i as int, to as int);
        let c = chars[i];
        assert(rest[0] == c);
        if c == '\\' {
            if i + 1 >= to {
                return None;
            }
            let d = chars[i + 1];
            assert(rest[1] == d);
            if d != '(' && d != ')' && d != '\\' {
                return None;
            }
            assert(rest.skip(2) =~= chars@.subrange(i + 2, to as int));
            assert(text@.push(d) + unescaped(rest.skip(2)) =~= text@ + (seq![d] + unescaped(
                rest.skip(2),
            )));
            text.push(d);
            i += 2;
        } else {
            if c == '(' || c == ')' {
                return None;
            }
            assert(rest.skip(1) =~= chars@.subrange(i + 1, to as int));
            assert(text@.push(c) + unescaped(rest.skip(1)) =~= text@ + (seq![c] + unescaped(
                rest.skip(1),
            )));
            text.push(c);
            i += 1;
        }
    }
    assert(chars@.subrange(to as int, to as int) =~= Seq::<char>::empty());
    assert(text@ + Seq::<char>::empty() =~= text@);
    Some(text)
}

/// The resolved body of an input that has the frame of `keyword`.
fn resolve_frame(chars: &Vec<char>, keyword: &str) -> (out: Option<String>)
    requires
        framed(chars@, keyword@),
    ensures
        match out {
            Some(text) => resolved(chars@, keyword@) == Some(text@),
            None => resolved(chars@, keyword@) is None,
        },
{
    let n = keyword.unicode_len();
    let end = chars.len();
    resolve(chars, n + 1, end - 1)
}

/// `shlex::split` divides a text into words as a POSIX shell does: words are
/// parted by blanks, and quotes and backslashes keep blanks inside a word.
/// It returns `None` where the text ends inside a quotation or behind a
/// backslash. The result depends on the text alone.
#[verifier::external_body]
fn split_words(text: &str) -> (out: Option<Vec<String>>)
    ensures
        match out {
            Some(words) => shlex_split(text@) == Some(texts(words@)),
            None => shlex_split(text@) is None,
        },
{
    shlex::split(text)
}

/// The kind that the words of a `oneof` body stand for: the list of words
/// where there is at least one, an error where there is none or where the
/// body could not be divided. `input` is the text that the error reports.
pub fn choose_one_of(input: &str, words: Option<Vec<String>>) -> (out: Result<ArgKind, KindError>)
    ensures
        match out {
            Ok(kind) => choice_of(
                match words {
                    Some(list) => Some(texts(list@)),
                    None => None,
                },
            ) == Ok::<KindView, KindFault>(kind@),
            Err(e) => e.input@ == input@ && choice_of(
                match words {
                    Some(list) => Some(texts(list@)),
                    None => None,
                },
            ) == Err::<KindView, KindFault>(e.reason),
        },
{
    match words {
        None => Err(KindError { input: String::from_str(input), reason: KindFault::BadQuoting }),
        Some(list) => {
            if list.len() == 0 {
                Err(KindError { input: String::from_str(input), reason: KindFault::NoChoices })
            } else {
                Ok(ArgKind::OneOf(list))
            }
        },
    }
}

/// The kind of a `oneof` whose body resolved to `body`.
fn one_of_kind(input: &str, body: Option<String>) -> (out: Result<ArgKind, KindError>)
    ensures
        match out {
            Ok(kind) => one_of(
                match body {
                    Some(text) => Some(text@),
                    None => None,
                },
            ) == Ok::<KindView, KindFault>(kind@),
            Err(e) => e.input@ == input@ && one_of(
                match body {
                    Some(text) => Some(text@),
                    None => None,
                },
            ) == Err::<KindView, KindFault>(e.reason),
        },
{
    match body {
        None => Err(KindError { input: String::from_str(input), reason: KindFault::BadEscape }),
        Some(text) => choose_one_of(input, split_words(text.as_str())),
    }
}

/// Reads the kind that a text names. The whole text has to be one of the
/// accepted forms; anything before or after it is an error.
pub fn parse_argument_kind(input: &str) -> (out: Result<ArgKind, KindError>)
    ensures
        match out {
            Ok(kind) => parsed_kind(input@) == Ok::<KindView, KindFault>(kind@),
            Err(e) => e.input@ == input@ && parsed_kind(input@) == Err::<KindView, KindFault>(
                e.reason,
            ),
        },
{
    let chars = chars_of(input);
    if is_word(&chars, "file") {
        Ok(ArgKind::File)
    } else if is_word(&chars, "file+") {
        Ok(ArgKind::FilePlus)
    } else if is_word(&chars, "separator") {
        Ok(ArgKind::Separator)
    } else if is_word(&chars, "anything") {
        Ok(ArgKind::Anything)
    } else if has_frame(&chars, "function") {
        match resolve_frame(&chars, "function") {
            Some(text) => Ok(ArgKind::Function(text)),
            None => Err(KindError { input: String::from_str(input), reason: KindFault::BadEscape }),
        }
    } else if has_frame(&chars, "command") {
        match resolve_frame(&chars, "command") {
            Some(text) => Ok(ArgKind::Command(text)),
            None => Err(KindError { input: String::from_str(input), reason: KindFault::BadEscape }),
        }
    } else if has_frame(&chars, "oneof") {
        one_of_kind(input, resolve_frame(&chars, "oneof"))
    } else if has_frame(&chars, "one_of") {
        one_of_kind(input, resolve_frame(&chars, "one_of"))
    } else {
        Err(KindError { input: String::from_str(input), reason: KindFault::Unrecognised })
    }
}

/// Puts a backslash before each parenthesis and each backslash of a text, so
/// that the result can stand as a body.
pub fn escape_body(text: &str) -> (out: String)
    ensures
        out@ == escaped(text@),
{
    let chars = chars_of(text);
    let mut out = String::new();
    let mut i: usize = 0;
    assert(chars@.skip(0) =~= chars@);
    assert(out@ + escaped(chars@) =~= escaped(chars@));
    while i < chars.len()
        invariant
            i <= chars@.len(),
            escaped(chars@) == out@ + escaped(chars@.skip(i as int)),
        decreases chars@.len() - i,
    {
        let ghost rest = chars@.skip(i as int);
        let ghost before = out@;
        let c = chars[i];
        assert(rest[0] == c);
        assert(rest.skip(1) =~= chars@.skip(i + 1));
        if c == '(' || c == ')' || c == '\\' {
            out.push('\\');
            out.push(c);
            assert(out@ + escaped(rest.skip(1)) =~= before + (seq!['\\', c] + escaped(
                rest.skip(1),
            )));
        } else {
            out.push(c);
            assert(out@ + escaped(rest.skip(1)) =~= before + (seq![c] + escaped(rest.skip(1))));
        }
        i += 1;
    }
    assert(chars@.skip(chars@.len() as int) =~= Seq::<char>::empty());
    assert(out@ + Seq::<char>::empty() =~= out@);
    out
}

/// The text of a parametric kind: the keyword, then the payload, escaped,
/// between parentheses.
pub open spec fn parametric(keyword: Seq<char>, payload: Seq<char>) -> Seq<char> {
    keyword + seq!['('] + escaped(payload) + seq![')']
}

/// Writes the text that names the kind `Command(command)`.
pub fn command_text(command: &str) -> (out: String)
    ensures
        out@ == parametric("command"@, command@),
{
    proof {
        reveal_strlit("(");
        reveal_strlit(")");
        assert("("@ =~= seq!['(']);
        assert(")"@ =~= seq![')']);
    }
    let body = escape_body(command);
    String::from_str("command").concat("(").concat(body.as_str()).concat(")")
}

/// Writes the text that names the kind `Function(function)`.
pub fn function_text(function: &str) -> (out: String)
    ensures
        out@ == parametric("function"@, function@),
{
    proof {
        reveal_strlit("(");
        reveal_strlit(")");
        assert("("@ =~= seq!['(']);
        assert(")"@ =~= seq![')']);
    }
    let body = escape_body(function);
    String::from_str("function").concat("(").concat(body.as_str()).concat(")")
}

/// A kind that a text names is well formed.
pub proof fn parsed_kind_is_well_formed(input: Seq<char>)
    ensures
        parsed_kind(input) matches Ok(kind) ==> kind.wf(),
{
}

/// Each of the four words names its kind however its letters are cased.
pub proof fn words_name_their_kinds(input: Seq<char>)
    ensures
        same_ignoring_case(input, "file"@) ==> parsed_kind(input) == Ok::<KindView, KindFault>(
            KindView::File,
        ),
        same_ignoring_case(input, "file+"@) ==> parsed_kind(input) == Ok::<KindView, KindFault>(
            KindView::FilePlus,
        ),
        same_ignoring_case(input, "separator"@) ==> parsed_kind(input) == Ok::<
            KindView,
            KindFault,
        >(KindView::Separator),
        same_ignoring_case(input, "anything"@) ==> parsed_kind(input) == Ok::<KindView, KindFault>(
            KindView::Anything,
        ),
{
    reveal_strlit("file");
    reveal_strlit("file+");
    reveal_strlit("separator");
    reveal_strlit("anything");
}

/// An escaped text is a well-formed body, and resolving its escapes gives
/// the text back.
pub proof fn escape_then_unescape(text: Seq<char>)
    ensures
        body_ok(escaped(text)),
        unescaped(escaped(text)) == text,
    decreases text.len(),
{
    if text.len() > 0 {
        let rest = text.skip(1);
        escape_then_unescape(rest);
        let e = escaped(text);
        if is_structural(text[0]) {
            assert(e.skip(2) =~= escaped(rest));
        } else {
            assert(e.skip(1) =~= escaped(rest));
        }
        assert(seq![text[0]] + rest =~= text);
    } else {
        assert(unescaped(escaped(text)) =~= text);
    }
}

/// Escaping the resolved form of a well-formed body gives the body back.
pub proof fn unescape_then_escape(body: Seq<char>)
    requires
        body_ok(body),
    ensures
        escaped(unescaped(body)) == body,
    decreases body.len(),
{
    if body.len() > 0 {
        let u = unescaped(body);
        if body[0] == '\\' {
            unescape_then_escape(body.skip(2));
            assert(u.skip(1) =~= unescaped(body.skip(2)));
            assert(seq!['\\', body[1]] + body.skip(2) =~= body);
        } else {
            unescape_then_escape(body.skip(1));
            assert(u.skip(1) =~= unescaped(body.skip(1)));
            assert(seq![body[0]] + body.skip(1) =~= body);
        }
    } else {
        assert(escaped(unescaped(body)) =~= body);
    }
}

/// The text written for `Command(text)` names that kind again, whatever
/// parentheses and backslashes the text holds.
pub proof fn command_text_reparses(text: Seq<char>)
    ensures
        parsed_kind(parametric("command"@, text)) == Ok::<KindView, KindFault>(
            KindView::Command(text),
        ),
{
    reveal_strlit("file");
    reveal_strlit("file+");
    reveal_strlit("separator");
    reveal_strlit("anything");
    reveal_strlit("function");
    reveal_strlit("command");
    let input = parametric("command"@, text);
    let keyword = "command"@;
    escape_then_unescape(text);
    assert(input[0] == 'c');
    assert(input[input.len() - 1] == ')');
    assert(input.take(keyword.len() as int) =~= keyword);
    assert(frame_body(input, keyword) =~= escaped(text));
    assert(!framed(input, "function"@)) by {
        if input.len() >= 10 {
            assert(input.take(8)[0] == 'c');
        }
    }
}

/// The text written for `Function(text)` names that kind again, whatever
/// parentheses and backslashes the text holds.
pub proof fn function_text_reparses(text: Seq<char>)
    ensures
        parsed_kind(parametric("function"@, text)) == Ok::<KindView, KindFault>(
            KindView::Function(text),
        ),
{
    reveal_strlit("file");
    reveal_strlit("file+");
    reveal_strlit("separator");
    reveal_strlit("anything");
    reveal_strlit("function");
    let input = parametric("function"@, text);
    let keyword = "function"@;
    escape_then_unescape(text);
    assert(input[input.len() - 1] == ')');
    assert(input.take(keyword.len() as int) =~= keyword);
    assert(frame_body(input, keyword) =~= escaped(text));
}

} // verus!
