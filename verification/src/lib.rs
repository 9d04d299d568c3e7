//! Compiles a declarative description of a command-line interface into
//! shell completion scripts.
//!
//! A configuration document is read into a tree ([`value`], [`document`]),
//! the tree is built into the model of a program ([`builder`],
//! [`completion`], [`program`]), and a formatter renders the model as a
//! script ([`formatter`], [`fish`]). [`Completist`] holds the formatters and
//! the programs and ties the steps together.

pub mod builder;
pub mod completion;
pub mod document;
pub mod entry;
pub mod error;
pub mod fish;
pub mod formatter;
pub mod kind;
pub mod laws;
pub mod program;
pub mod text;
pub mod utils;
pub mod value;

use vstd::prelude::*;
use vstd::string::*;
use crate::builder::{build_program, program_of, Policy};
use crate::document::{read_document, toml_document};
use crate::error::{error_views, ConfigError, ErrorView};
use crate::fish::program_text;
use crate::formatter::{Formatter, FormatterView};
use crate::program::{Program, ProgramView};
use crate::utils::{extension_of, normalise_extension, normalised, path_extension};
use crate::value::{Node, Tree};

verus! {

/// Why the compiler refused a formatter or a document.
#[derive(Debug, PartialEq, Eq)]
pub enum CompletistError {
    /// The text is no document; the message says why.
    ParserError(String),
    /// The document describes no valid program.
    InvalidConfig(Vec<ConfigError>),
    /// A formatter claims an extension that a registered one claims already.
    AmbiguousFormatterExtension { extension: String },
}

/// The compiler: the registered formatters and the programs built so far.
pub struct Completist {
    formatters: Vec<Formatter>,
    programs: Vec<Program>,
    policy: Policy,
}

/// The mathematical value of a [`Completist`].
pub struct CompletistView {
    pub formatters: Seq<FormatterView>,
    pub programs: Seq<ProgramView>,
    pub policy: Policy,
}

/// The scripts of the first `n` programs of a list, one after the other.
pub open spec fn scripts(programs: Seq<ProgramView>, n: nat) -> Seq<char>
    decreases n,
{
    if n == 0 {
        Seq::empty()
    } else {
        scripts(programs, (n - 1) as nat) + program_text(programs[n - 1])
    }
}

/// Whether no two of some formatters claim the same extension.
pub open spec fn unambiguous(formatters: Seq<FormatterView>) -> bool {
    forall|i: int, j: int|
        0 <= i < j < formatters.len() ==> (#[trigger] formatters[i]).extensions.disjoint(
            (#[trigger] formatters[j]).extensions,
        )
}

impl View for Completist {
    type V = CompletistView;

    closed spec fn view(&self) -> CompletistView {
        CompletistView {
            formatters: self.formatters@.map_values(|f: Formatter| f@),
            programs: self.programs@.map_values(|p: Program| p@),
            policy: self.policy,
        }
    }
}

impl Completist {
    /// Whether the compiler is well formed: every formatter is, and no two
    /// of them claim the same extension.
    pub closed spec fn wf(&self) -> bool {
        &&& forall|i: int| 0 <= i < self.formatters@.len() ==> (#[trigger] self.formatters@[i]).wf()
        &&& unambiguous(self@.formatters)
    }

    /// In a well-formed compiler no two formatters claim the same extension,
    /// so an extension finds one formatter at most.
    pub proof fn registry_is_unambiguous(&self)
        requires
            self.wf(),
        ensures
            unambiguous(self@.formatters),
    {
    }

    /// A compiler without formatters and programs, which reports every error
    /// of a document.
    pub fn new() -> (out: Self)
        ensures
            out.wf(),
            out@.formatters.len() == 0,
            out@.programs.len() == 0,
            out@.policy == Policy::CollectAll,
    {
        Completist { formatters: Vec::new(), programs: Vec::new(), policy: Policy::CollectAll }
    }

    /// Chooses what the builder does after an error.
    pub fn set_policy(&mut self, policy: Policy)
        requires
            old(self).wf(),
        ensures
            final(self).wf(),
            final(self)@.formatters == old(self)@.formatters,
            final(self)@.programs == old(self)@.programs,
            final(self)@.policy == policy,
    {
        self.policy = policy;
    }

    /// The number of registered formatters.
    pub fn formatter_count(&self) -> (out: usize)
        ensures
            out == self@.formatters.len(),
    {
        self.formatters.len()
    }

    /// The number of programs built so far.
    pub fn program_count(&self) -> (out: usize)
        ensures
            out == self@.programs.len(),
    {
        self.programs.len()
    }

    /// The formatter with a given index.
    pub fn formatter(&self, index: usize) -> (out: Option<&Formatter>)
        ensures
            match out {
                Some(formatter) => index < self@.formatters.len() && formatter@
                    == self@.formatters[index as int],
                None => index >= self@.formatters.len(),
            },
            self.wf() ==> (out matches Some(formatter) ==> formatter.wf()),
    {
        if index < self.formatters.len() {
            Some(&self.formatters[index])
        } else {
            None
        }
    }

    /// The program with a given index.
    pub fn program(&self, index: usize) -> (out: Option<&Program>)
        ensures
            match out {
                Some(program) => index < self@.programs.len() && program@
                    == self@.programs[index as int],
                None => index >= self@.programs.len(),
            },
    {
        if index < self.programs.len() {
            Some(&self.programs[index])
        } else {
            None
        }
    }

    /// Registers a formatter. A formatter that claims an extension which a
    /// registered one claims already is refused, and the error names such an
    /// extension.
    pub fn add_formatter(&mut self, fmtr: Formatter) -> (out: Result<(), CompletistError>)
        requires
            old(self).wf(),
            fmtr.wf(),
        ensures
            final(self).wf(),
            final(self)@.programs == old(self)@.programs,
            final(self)@.policy == old(self)@.policy,
            match out {
                Ok(_) => {
                    &&& final(self)@.formatters == old(self)@.formatters.push(fmtr@)
                    &&& forall|i: int|
                        0 <= i < old(self)@.formatters.len() ==> (#[trigger] old(
                            self,
                        )@.formatters[i]).extensions.disjoint(fmtr@.extensions)
                },
                Err(CompletistError::AmbiguousFormatterExtension { extension }) => {
                    &&& final(self)@.formatters == old(self)@.formatters
                    &&& fmtr@.extensions.contains(extension@)
                    &&& exists|i: int|
                        0 <= i < old(self)@.formatters.len() && (#[trigger] old(
                            self,
                        )@.formatters[i]).extensions.contains(extension@)
                },
                Err(_) => false,
            },
    {
        let mut i: usize = 0;
        while i < self.formatters.len()
            invariant
                i <= self.formatters@.len(),
                *self == *old(self),
                self.wf(),
                fmtr.wf(),
                forall|j: int|
                    0 <= j < i ==> (#[trigger] self@.formatters[j]).extensions.disjoint(
                        fmtr@.extensions,
                    ),
            decreases self.formatters@.len() - i,
        {
            match self.formatters[i].shared_extension(&fmtr) {
                Some(extension) => {
                    assert(self@.formatters[i as int] == self.formatters@[i as int]@);
                    return Err(CompletistError::AmbiguousFormatterExtension { extension });
                },
                None => {
                    assert(self@.formatters[i as int] == self.formatters@[i as int]@);
                },
            }
            i += 1;
        }
        let ghost before = self@.formatters;
        self.formatters.push(fmtr);
        assert(self@.formatters =~= before.push(fmtr@));
        Ok(())
    }

    /// The index of the formatter that claims an extension. The extension is
    /// brought into its normal form first, so that `fish` and `.fish` find
    /// the same formatter.
    pub fn find_formatter(&self, extension: &str) -> (out: Option<usize>)
        ensures
            match out {
                Some(index) => {
                    &&& index < self@.formatters.len()
                    &&& self@.formatters[index as int].extensions.contains(normalised(extension@))
                    &&& forall|i: int|
                        0 <= i < index ==> !(#[trigger] self@.formatters[i]).extensions.contains(
                            normalised(extension@),
                        )
                },
                None => forall|i: int|
                    0 <= i < self@.formatters.len() ==> !(
                    #[trigger] self@.formatters[i]).extensions.contains(normalised(extension@)),
            },
    {
        let normal = normalise_extension(String::from_str(extension));
        let mut i: usize = 0;
        while i < self.formatters.len()
            invariant
                i <= self.formatters@.len(),
                normal@ == normalised(extension@),
                forall|j: int|
                    0 <= j < i ==> !(#[trigger] self@.formatters[j]).extensions.contains(normal@),
            decreases self.formatters@.len() - i,
        {
            assert(self@.formatters[i as int] == self.formatters@[i as int]@);
            if self.formatters[i].matches_extension(normal.clone()) {
                return Some(i);
            }
            i += 1;
        }
        None
    }

    /// The index of the formatter that claims the extension of a path; `None`
    /// where the path has no extension or no formatter claims it.
    pub fn formatter_for(&self, path: &str) -> (out: Option<usize>)
        ensures
            match out {
                Some(index) => {
                    &&& extension_of(path@) is Some
                    &&& index < self@.formatters.len()
                    &&& self@.formatters[index as int].extensions.contains(
                        normalised(extension_of(path@)->0),
                    )
                },
                None => extension_of(path@) matches Some(extension) ==> forall|i: int|
                    0 <= i < self@.formatters.len() ==> !(
                    #[trigger] self@.formatters[i]).extensions.contains(normalised(extension)),
            },
    {
        match path_extension(path) {
            Some(extension) => self.find_formatter(extension.as_str()),
            None => None,
        }
    }

    /// Builds the program that a document tree describes and keeps it. A
    /// tree with an error is refused with the errors that the policy lets the
    /// builder find, and nothing is kept of it.
    pub fn add_document(&mut self, tree: &Tree) -> (out: Result<(), CompletistError>)
        requires
            old(self).wf(),
        ensures
            final(self).wf(),
            final(self)@.formatters == old(self)@.formatters,
            final(self)@.policy == old(self)@.policy,
            match out {
                Ok(_) => program_of(tree@, old(self)@.policy) is Ok && final(self)@.programs == old(
                    self,
                )@.programs.push(program_of(tree@, old(self)@.policy)->Ok_0),
                Err(CompletistError::InvalidConfig(errors)) => final(self)@.programs == old(
                    self,
                )@.programs && program_of(tree@, old(self)@.policy) == Err::<
                    ProgramView,
                    Seq<ErrorView>,
                >(error_views(errors@)),
                Err(_) => false,
            },
    {
        match build_program(tree, self.policy) {
            Ok(program) => {
                let ghost before = self@.programs;
                self.programs.push(program);
                assert(self@.programs =~= before.push(program@));
                Ok(())
            },
            Err(errors) => Err(CompletistError::InvalidConfig(errors)),
        }
    }

    /// Reads a document from TOML text, builds the program that it
    /// describes and keeps it.
    pub fn parse_string(&mut self, text: &str) -> (out: Result<(), CompletistError>)
        requires
            old(self).wf(),
        ensures
            final(self).wf(),
            final(self)@.formatters == old(self)@.formatters,
            final(self)@.policy == old(self)@.policy,
            match out {
                Ok(_) => toml_document(text@) is Ok && program_of(
                    toml_document(text@)->Ok_0,
                    old(self)@.policy,
                ) is Ok && final(self)@.programs == old(self)@.programs.push(
                    program_of(toml_document(text@)->Ok_0, old(self)@.policy)->Ok_0,
                ),
                Err(CompletistError::ParserError(message)) => final(self)@.programs == old(
                    self,
                )@.programs && toml_document(text@) == Err::<Node, Seq<char>>(message@),
                Err(CompletistError::InvalidConfig(errors)) => final(self)@.programs == old(
                    self,
                )@.programs && toml_document(text@) is Ok && program_of(
                    toml_document(text@)->Ok_0,
                    old(self)@.policy,
                ) == Err::<ProgramView, Seq<ErrorView>>(error_views(errors@)),
                Err(_) => false,
            },
    {
        match read_document(text) {
            Ok(tree) => self.add_document(&tree),
            Err(message) => Err(CompletistError::ParserError(message)),
        }
    }

    /// The scripts of all programs, as the formatter with a given index
    /// writes them; `None` where there is no such formatter.
    pub fn render(&self, formatter: usize) -> (out: Option<String>)
        ensures
            match out {
                Some(text) => formatter < self@.formatters.len() && text@ == scripts(
                    self@.programs,
                    self@.programs.len(),
                ),
                None => formatter >= self@.formatters.len(),
            },
    {
        if formatter >= self.formatters.len() {
            return None;
        }
        let mut out = String::new();
        let mut i: usize = 0;
        while i < self.programs.len()
            invariant
                i <= self.programs@.len(),
                formatter < self.formatters@.len(),
                out@ == scripts(self@.programs, i as nat),
            decreases self.programs@.len() - i,
        {
            assert(self@.programs[i as int] == self.programs@[i as int]@);
            self.formatters[formatter].write_program(&mut out, &self.programs[i]);
            i += 1;
        }
        Some(out)
    }
}

} // verus!
