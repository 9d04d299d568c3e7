//! What can be wrong with a configuration, and where.

use vstd::prelude::*;
use vstd::string::*;
use crate::kind::KindFault;
use crate::text::{copy_texts, texts};
use crate::value::ValueKind;

verus! {

/// The keys that a configuration is read by.
#[derive(Debug, PartialEq, Eq, Clone, Copy, Structural)]
pub enum Key {
    Name,
    Argument,
    Option,
    Command,
    Kind,
    Required,
    Usefiles,
    UseFiles,
    Description,
    Opt,
    Opts,
}

impl Key {
    /// The key as it is written in a document.
    pub open spec fn text(self) -> Seq<char> {
        match self {
            Key::Name => "name"@,
            Key::Argument => "argument"@,
            Key::Option => "option"@,
            Key::Command => "command"@,
            Key::Kind => "kind"@,
            Key::Required => "required"@,
            Key::Usefiles => "usefiles"@,
            Key::UseFiles => "use_files"@,
            Key::Description => "description"@,
            Key::Opt => "opt"@,
            Key::Opts => "opts"@,
        }
    }

    /// The key as it is written in a document.
    pub fn name(self) -> (out: &'static str)
        ensures
            out@ == self.text(),
    {
        match self {
            Key::Name => "name",
            Key::Argument => "argument",
            Key::Option => "option",
            Key::Command => "command",
            Key::Kind => "kind",
            Key::Required => "required",
            Key::Usefiles => "usefiles",
            Key::UseFiles => "use_files",
            Key::Description => "description",
            Key::Opt => "opt",
            Key::Opts => "opts",
        }
    }
}

/// The part of a command that an error is about.
#[derive(Debug, PartialEq, Eq, Clone, Copy, Structural)]
pub enum Slot {
    /// The command itself.
    Command,
    /// The argument entry with this index.
    Argument(usize),
    /// The option entry with this index.
    Option(usize),
    /// The subcommand entry with this index.
    Subcommand(usize),
}

/// How a configuration is misshapen.
#[derive(Debug, PartialEq, Eq, Clone, Copy, Structural)]
pub enum Shape {
    /// The value under this key has to be an array of tables.
    NotAList(Key),
    /// A table stands where something else was found.
    NotATable,
    /// A command's name is the empty string.
    EmptyName,
    /// Commands are nested more deeply than the builder follows.
    TooDeep,
}

/// What is wrong.
#[derive(Debug, PartialEq, Eq)]
pub enum Fault {
    /// A text that should name a kind of value names none.
    MalformedArgumentKind { input: String, reason: KindFault },
    /// A key that has to be there is absent.
    MissingRequiredField { field: Key },
    /// The value under a key has the wrong type.
    WrongFieldType { field: Key, expected: ValueKind, found: ValueKind },
    /// Two subcommands of one command have the same name.
    DuplicateSubcommandName { name: String },
    /// The configuration is misshapen.
    InvalidConfigShape { shape: Shape },
}

/// The mathematical value of a [`Fault`].
pub enum FaultView {
    MalformedArgumentKind { input: Seq<char>, reason: KindFault },
    MissingRequiredField { field: Key },
    WrongFieldType { field: Key, expected: ValueKind, found: ValueKind },
    DuplicateSubcommandName { name: Seq<char> },
    InvalidConfigShape { shape: Shape },
}

impl View for Fault {
    type V = FaultView;

    open spec fn view(&self) -> FaultView {
        match self {
            Fault::MalformedArgumentKind { input, reason } => FaultView::MalformedArgumentKind {
                input: input@,
                reason: *reason,
            },
            Fault::MissingRequiredField { field } => FaultView::MissingRequiredField {
                field: *field,
            },
            Fault::WrongFieldType { field, expected, found } => FaultView::WrongFieldType {
                field: *field,
                expected: *expected,
                found: *found,
            },
            Fault::DuplicateSubcommandName { name } => FaultView::DuplicateSubcommandName {
                name: name@,
            },
            Fault::InvalidConfigShape { shape } => FaultView::InvalidConfigShape { shape: *shape },
        }
    }
}

/// An error of a configuration: the path of the command at fault, the part of
/// that command, and what is wrong with it.
#[derive(Debug, PartialEq, Eq)]
pub struct ConfigError {
    /// The names of the commands from the root down to the one at fault.
    pub path: Vec<String>,
    pub slot: Slot,
    pub fault: Fault,
}

/// The mathematical value of a [`ConfigError`].
pub struct ErrorView {
    pub path: Seq<Seq<char>>,
    pub slot: Slot,
    pub fault: FaultView,
}

impl View for ConfigError {
    type V = ErrorView;

    open spec fn view(&self) -> ErrorView {
        ErrorView { path: texts(self.path@), slot: self.slot, fault: self.fault@ }
    }
}

/// The error of a fault at a place.
pub open spec fn located(path: Seq<Seq<char>>, slot: Slot, fault: FaultView) -> ErrorView {
    ErrorView { path, slot, fault }
}

impl ConfigError {
    /// The error of a fault at a part of the command at `path`.
    pub fn at(path: &Vec<String>, slot: Slot, fault: Fault) -> (out: Self)
        ensures
            out@ == located(texts(path@), slot, fault@),
    {
        ConfigError { path: copy_texts(path), slot, fault }
    }
}

/// The values of a sequence of errors.
pub open spec fn error_views(errors: Seq<ConfigError>) -> Seq<ErrorView> {
    errors.map_values(|e: ConfigError| e@)
}

} // verus!
