//! Reading one argument entry or one option entry of a configuration.

use vstd::prelude::*;
use vstd::string::*;
use crate::error::{located, ConfigError, ErrorView, Fault, FaultView, Key, Shape, Slot};
use crate::kind::{parse_argument_kind, parsed_kind, ArgKind, KindView};
use crate::text::texts;
use crate::program::{Arg, ArgView, Opt, OptView};
use crate::value::{
    flag_at, get, get_bool, get_string, kind_of, lookup, nodes, pairs, text_at, Entry, Field, Node,
    Pair, Tree, ValueKind,
};

verus! {

/// The fault of a key that is absent.
pub open spec fn missing(field: Key) -> FaultView {
    FaultView::MissingRequiredField { field }
}

/// The fault of a key whose value has the wrong type.
pub open spec fn mistyped(field: Key, expected: ValueKind, found: ValueKind) -> FaultView {
    FaultView::WrongFieldType { field, expected, found }
}

/// The string under a key that has to be there.
pub open spec fn required_text(entries: Seq<Pair>, key: Key) -> Result<Seq<char>, FaultView> {
    match text_at(entries, key.text()) {
        Field::Present(text) => Ok(text),
        Field::Absent => Err(missing(key)),
        Field::Mismatch(found) => Err(mistyped(key, ValueKind::Text, found)),
    }
}

/// The boolean under a key, or `default` where the key is absent.
pub open spec fn flag_or(entries: Seq<Pair>, key: Key, default: bool) -> Result<bool, FaultView> {
    match flag_at(entries, key.text()) {
        Field::Present(flag) => Ok(flag),
        Field::Absent => Ok(default),
        Field::Mismatch(found) => Err(mistyped(key, ValueKind::Boolean, found)),
    }
}

/// Whether file names are offered as well: the boolean under `usefiles`, or
/// else the one under `use_files`, or else `true`.
pub open spec fn usefiles_of(entries: Seq<Pair>) -> Result<bool, FaultView> {
    if lookup(entries, Key::Usefiles.text()) is Some {
        flag_or(entries, Key::Usefiles, true)
    } else {
        flag_or(entries, Key::UseFiles, true)
    }
}

/// The kind that the string under a key names; `None` where the key is
/// absent.
pub open spec fn kind_at(entries: Seq<Pair>, key: Key) -> Result<Option<KindView>, FaultView> {
    match text_at(entries, key.text()) {
        Field::Absent => Ok(None),
        Field::Mismatch(found) => Err(mistyped(key, ValueKind::Text, found)),
        Field::Present(text) => match parsed_kind(text) {
            Ok(kind) => Ok(Some(kind)),
            Err(reason) => Err(FaultView::MalformedArgumentKind { input: text, reason }),
        },
    }
}

/// The argument that an entry describes: its `kind`, which has to be there,
/// `required` (else `false`), `usefiles` or `use_files` (else `true`) and its
/// `description`, which has to be there. The first of these that is at
/// fault gives the error.
pub open spec fn arg_of(entry: Node) -> Result<ArgView, FaultView> {
    match entry {
        Node::Table(entries) => match kind_at(entries, Key::Kind) {
            Err(fault) => Err(fault),
            Ok(None) => Err(missing(Key::Kind)),
            Ok(Some(kind)) => match flag_or(entries, Key::Required, false) {
                Err(fault) => Err(fault),
                Ok(required) => match usefiles_of(entries) {
                    Err(fault) => Err(fault),
                    Ok(usefiles) => match required_text(entries, Key::Description) {
                        Err(fault) => Err(fault),
                        Ok(description) => Ok(ArgView { kind, required, usefiles, description }),
                    },
                },
            },
        },
        _ => Err(FaultView::InvalidConfigShape { shape: Shape::NotATable }),
    }
}

/// The strings of the first `n` items of an array, or the fault of the first
/// item among them that is no string.
pub open spec fn texts_upto(items: Seq<Node>, key: Key, n: nat) -> Result<Seq<Seq<char>>, FaultView>
    decreases n,
{
    if n == 0 {
        Ok(Seq::empty())
    } else {
        match texts_upto(items, key, (n - 1) as nat) {
            Err(fault) => Err(fault),
            Ok(found) => match items[n - 1] {
                Node::Text(text) => Ok(found.push(text)),
                other => Err(mistyped(key, ValueKind::Text, kind_of(other))),
            },
        }
    }
}

/// The spellings under a key: none where the key is absent, one where it
/// holds a string, and the items where it holds an array of strings.
pub open spec fn spellings_at(entries: Seq<Pair>, key: Key) -> Result<Seq<Seq<char>>, FaultView> {
    match lookup(entries, key.text()) {
        None => Ok(Seq::empty()),
        Some(Node::Text(text)) => Ok(seq![text]),
        Some(Node::List(items)) => texts_upto(items, key, items.len()),
        Some(other) => Err(mistyped(key, ValueKind::Text, kind_of(other))),
    }
}

/// The option that an entry describes: the spellings under `opt` followed by
/// those under `opts`, of which there has to be one at least, the kind under
/// `argument`, if any, and the `description`, which has to be there. The
/// first of these that is at fault gives the error.
pub open spec fn opt_of(entry: Node) -> Result<OptView, FaultView> {
    match entry {
        Node::Table(entries) => match spellings_at(entries, Key::Opt) {
            Err(fault) => Err(fault),
            Ok(first) => match spellings_at(entries, Key::Opts) {
                Err(fault) => Err(fault),
                Ok(more) => if first.len() + more.len() == 0 {
                    Err(missing(Key::Opt))
                } else {
                    match kind_at(entries, Key::Argument) {
                        Err(fault) => Err(fault),
                        Ok(argument) => match required_text(entries, Key::Description) {
                            Err(fault) => Err(fault),
                            Ok(description) => Ok(
                                OptView { opts: first + more, argument, description },
                            ),
                        },
                    }
                },
            },
        },
        _ => Err(FaultView::InvalidConfigShape { shape: Shape::NotATable }),
    }
}

/// Whether an exec result stands for a spec result.
pub open spec fn agrees<T: View>(out: Result<T, Fault>, expected: Result<T::V, FaultView>) -> bool {
    match out {
        Ok(value) => expected == Ok::<T::V, FaultView>(value@),
        Err(fault) => expected == Err::<T::V, FaultView>(fault@),
    }
}

/// Reads the string under a key that has to be there.
pub(crate) fn read_text(entries: &Vec<Entry>, key: Key) -> (out: Result<String, Fault>)
    ensures
        agrees(out, required_text(pairs(entries@), key)),
{
    match get_string(entries, key.name()) {
        Field::Present(text) => Ok(String::from_str(text)),
        Field::Absent => Err(Fault::MissingRequiredField { field: key }),
        Field::Mismatch(found) => Err(
            Fault::WrongFieldType { field: key, expected: ValueKind::Text, found },
        ),
    }
}

/// Reads the boolean under a key, or `default` where the key is absent.
pub(crate) fn read_flag(entries: &Vec<Entry>, key: Key, default: bool) -> (out: Result<bool, Fault>)
    ensures
        match out {
            Ok(flag) => flag_or(pairs(entries@), key, default) == Ok::<bool, FaultView>(flag),
            Err(fault) => flag_or(pairs(entries@), key, default) == Err::<bool, FaultView>(fault@),
        },
{
    match get_bool(entries, key.name()) {
        Field::Present(flag) => Ok(flag),
        Field::Absent => Ok(default),
        Field::Mismatch(found) => Err(
            Fault::WrongFieldType { field: key, expected: ValueKind::Boolean, found },
        ),
    }
}

/// Reads the kind that the string under a key names.
pub(crate) fn read_kind(entries: &Vec<Entry>, key: Key) -> (out: Result<Option<ArgKind>, Fault>)
    ensures
        match out {
            Ok(Some(kind)) => kind_at(pairs(entries@), key) == Ok::<Option<KindView>, FaultView>(
                Some(kind@),
            ),
            Ok(None) => kind_at(pairs(entries@), key) == Ok::<Option<KindView>, FaultView>(None),
            Err(fault) => kind_at(pairs(entries@), key) == Err::<Option<KindView>, FaultView>(
                fault@,
            ),
        },
{
    match get_string(entries, key.name()) {
        Field::Absent => Ok(None),
        Field::Mismatch(found) => Err(
            Fault::WrongFieldType { field: key, expected: ValueKind::Text, found },
        ),
        Field::Present(text) => match parse_argument_kind(text) {
            Ok(kind) => Ok(Some(kind)),
            Err(e) => Err(Fault::MalformedArgumentKind { input: e.input, reason: e.reason }),
        },
    }
}

/// Reads the fields of one argument entry.
fn arg_from(entry: &Tree) -> (out: Result<Arg, Fault>)
    ensures
        agrees(out, arg_of(entry@)),
{
    let entries = match entry.as_table() {
        Some(entries) => entries,
        None => {
            return Err(Fault::InvalidConfigShape { shape: Shape::NotATable });
        },
    };
    let kind = match read_kind(entries, Key::Kind) {
        Err(fault) => {
            return Err(fault);
        },
        Ok(None) => {
            return Err(Fault::MissingRequiredField { field: Key::Kind });
        },
        Ok(Some(kind)) => kind,
    };
    let required = match read_flag(entries, Key::Required, false) {
        Err(fault) => {
            return Err(fault);
        },
        Ok(flag) => flag,
    };
    let usefiles = match get(entries, Key::Usefiles.name()) {
        Some(_) => read_flag(entries, Key::Usefiles, true),
        None => read_flag(entries, Key::UseFiles, true),
    };
    let usefiles = match usefiles {
        Err(fault) => {
            return Err(fault);
        },
        Ok(flag) => flag,
    };
    let description = match read_text(entries, Key::Description) {
        Err(fault) => {
            return Err(fault);
        },
        Ok(text) => text,
    };
    Ok(Arg::new(kind, required, usefiles, description))
}

/// Reads the spellings under a key.
pub(crate) fn read_spellings(entries: &Vec<Entry>, key: Key) -> (out: Result<Vec<String>, Fault>)
    ensures
        match out {
            Ok(found) => spellings_at(pairs(entries@), key) == Ok::<Seq<Seq<char>>, FaultView>(
                texts(found@),
            ),
            Err(fault) => spellings_at(pairs(entries@), key) == Err::<Seq<Seq<char>>, FaultView>(
                fault@,
            ),
        },
{
    let mut found: Vec<String> = Vec::new();
    match get(entries, key.name()) {
        None => {
            assert(texts(found@) =~= Seq::<Seq<char>>::empty());
            Ok(found)
        },
        Some(tree) => {
            if let Some(text) = tree.as_str() {
                found.push(String::from_str(text));
                assert(texts(found@) =~= seq![text@]);
                Ok(found)
            } else if let Some(items) = tree.as_array() {
                let mut i: usize = 0;
                assert(texts(found@) =~= Seq::<Seq<char>>::empty());
                while i < items.len()
                    invariant
                        i <= items@.len(),
                        lookup(pairs(entries@), key.text()) == Some(Node::List(nodes(items@))),
                        texts_upto(nodes(items@), key, i as nat) == Ok::<
                            Seq<Seq<char>>,
                            FaultView,
                        >(texts(found@)),
                    decreases items@.len() - i,
                {
                    match items[i].as_str() {
                        Some(text) => {
                            let ghost before = texts(found@);
                            found.push(String::from_str(text));
                            assert(texts(found@) =~= before.push(text@));
                        },
                        None => {
                            let fault = Fault::WrongFieldType {
                                field: key,
                                expected: ValueKind::Text,
                                found: items[i].kind(),
                            };
                            proof {
                                assert(nodes(items@)[i as int] == items@[i as int]@);
                                assert(texts_upto(nodes(items@), key, (i + 1) as nat) == Err::<
                                    Seq<Seq<char>>,
                                    FaultView,
                                >(fault@));
                                texts_fail_later(nodes(items@), key, (i + 1) as nat, items@.len());
                            }
                            return Err(fault);
                        },
                    }
                    i += 1;
                }
                Ok(found)
            } else {
                Err(
                    Fault::WrongFieldType {
                        field: key,
                        expected: ValueKind::Text,
                        found: tree.kind(),
                    },
                )
            }
        },
    }
}

/// Once an item is no string, reading more items gives the same fault.
pub proof fn texts_fail_later(items: Seq<Node>, key: Key, n: nat, m: nat)
    requires
        n <= m,
        texts_upto(items, key, n) is Err,
    ensures
        texts_upto(items, key, m) == texts_upto(items, key, n),
    decreases m,
{
    if n < m {
        texts_fail_later(items, key, n, (m - 1) as nat);
    }
}

/// Reads the fields of one option entry.
fn opt_from(entry: &Tree) -> (out: Result<Opt, Fault>)
    ensures
        agrees(out, opt_of(entry@)),
{
    let entries = match entry.as_table() {
        Some(entries) => entries,
        None => {
            return Err(Fault::InvalidConfigShape { shape: Shape::NotATable });
        },
    };
    let mut opts = match read_spellings(entries, Key::Opt) {
        Err(fault) => {
            return Err(fault);
        },
        Ok(found) => found,
    };
    let mut more = match read_spellings(entries, Key::Opts) {
        Err(fault) => {
            return Err(fault);
        },
        Ok(found) => found,
    };
    let ghost first = texts(opts@);
    let ghost second = texts(more@);
    opts.append(&mut more);
    assert(texts(opts@) =~= first + second);
    if opts.len() == 0 {
        return Err(Fault::MissingRequiredField { field: Key::Opt });
    }
    let argument = match read_kind(entries, Key::Argument) {
        Err(fault) => {
            return Err(fault);
        },
        Ok(kind) => kind,
    };
    let description = match read_text(entries, Key::Description) {
        Err(fault) => {
            return Err(fault);
        },
        Ok(text) => text,
    };
    Ok(Opt::new(opts, argument, description))
}

/// The argument that the entry with a given index describes, or its fault
/// with the path of the command and the index.
pub open spec fn arg_at(entry: Node, path: Seq<Seq<char>>, index: usize) -> Result<
    ArgView,
    ErrorView,
> {
    match arg_of(entry) {
        Ok(arg) => Ok(arg),
        Err(fault) => Err(located(path, Slot::Argument(index), fault)),
    }
}

/// The option that the entry with a given index describes, or its fault
/// with the path of the command and the index.
pub open spec fn opt_at(entry: Node, path: Seq<Seq<char>>, index: usize) -> Result<
    OptView,
    ErrorView,
> {
    match opt_of(entry) {
        Ok(opt) => Ok(opt),
        Err(fault) => Err(located(path, Slot::Option(index), fault)),
    }
}

/// Reads the argument entry with a given index of the command at `path`. An
/// error names that path and that index.
pub fn read_arg(path: &Vec<String>, index: usize, entry: &Tree) -> (out: Result<Arg, ConfigError>)
    ensures
        match out {
            Ok(arg) => arg_at(entry@, texts(path@), index) == Ok::<ArgView, ErrorView>(arg@),
            Err(error) => arg_at(entry@, texts(path@), index) == Err::<ArgView, ErrorView>(error@),
        },
{
    match arg_from(entry) {
        Ok(arg) => Ok(arg),
        Err(fault) => Err(ConfigError::at(path, Slot::Argument(index), fault)),
    }
}

/// Reads the option entry with a given index of the command at `path`. An
/// error names that path and that index.
pub fn read_opt(path: &Vec<String>, index: usize, entry: &Tree) -> (out: Result<Opt, ConfigError>)
    ensures
        match out {
            Ok(opt) => opt_at(entry@, texts(path@), index) == Ok::<OptView, ErrorView>(opt@),
            Err(error) => opt_at(entry@, texts(path@), index) == Err::<OptView, ErrorView>(error@),
        },
{
    match opt_from(entry) {
        Ok(opt) => Ok(opt),
        Err(fault) => Err(ConfigError::at(path, Slot::Option(index), fault)),
    }
}

} // verus!
