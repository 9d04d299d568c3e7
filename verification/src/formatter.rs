//! Formatters: who renders a program's completions, and for which files.

use vstd::prelude::*;
use vstd::string::*;
use crate::text::{contains_text, texts};
use crate::utils::{normalise_extension, normalised};

verus! {

/// A renderer of completion scripts, known by its name and by the file
/// extensions that it claims.
pub struct Formatter {
    name: String,
    extensions: Vec<String>,
}

/// The mathematical value of a [`Formatter`] or a [`FormatterBuilder`].
pub struct FormatterView {
    pub name: Seq<char>,
    pub extensions: Set<Seq<char>>,
}

impl View for Formatter {
    type V = FormatterView;

    closed spec fn view(&self) -> FormatterView {
        FormatterView { name: self.name@, extensions: texts(self.extensions@).to_set() }
    }
}

impl Formatter {
    /// Whether the formatter is well formed: no extension is held twice.
    pub closed spec fn wf(&self) -> bool {
        texts(self.extensions@).no_duplicates()
    }

    /// The formatter's name.
    pub fn name(&self) -> (out: &str)
        ensures
            out@ == self@.name,
    {
        self.name.as_str()
    }

    /// The number of extensions that the formatter claims.
    pub fn extension_count(&self) -> (out: usize)
        requires
            self.wf(),
        ensures
            out == self@.extensions.len(),
            self@.extensions.finite(),
    {
        proof {
            texts(self.extensions@).unique_seq_to_set();
        }
        self.extensions.len()
    }

    /// Some extension that this formatter and another one both claim, if
    /// there is one.
    pub fn shared_extension(&self, other: &Formatter) -> (out: Option<String>)
        ensures
            match out {
                Some(extension) => self@.extensions.contains(extension@)
                    && other@.extensions.contains(extension@),
                None => self@.extensions.disjoint(other@.extensions),
            },
    {
        let mut i: usize = 0;
        while i < self.extensions.len()
            invariant
                i <= self.extensions@.len(),
                forall|j: int|
                    0 <= j < i ==> !texts(other.extensions@).contains(
                        #[trigger] texts(self.extensions@)[j],
                    ),
            decreases self.extensions@.len() - i,
        {
            if contains_text(&other.extensions, self.extensions[i].as_str()) {
                assert(texts(self.extensions@)[i as int] == self.extensions@[i as int]@);
                return Some(self.extensions[i].clone());
            }
            i += 1;
        }
        assert forall|t: Seq<char>|
            !(self@.extensions.contains(t) && other@.extensions.contains(t)) by {
            if texts(self.extensions@).contains(t) {
                let j = choose|j: int|
                    0 <= j < texts(self.extensions@).len() && texts(self.extensions@)[j] == t;
                assert(!texts(other.extensions@).contains(texts(self.extensions@)[j]));
            }
        }
        None
    }

    /// Whether the formatter claims an extension, taken as it is written.
    pub fn matches_extension(&self, extension: String) -> (out: bool)
        ensures
            out == self@.extensions.contains(extension@),
    {
        contains_text(&self.extensions, extension.as_str())
    }
}

/// Collects the name and the extensions of a formatter.
pub struct FormatterBuilder {
    name: String,
    extensions: Vec<String>,
}

impl View for FormatterBuilder {
    type V = FormatterView;

    closed spec fn view(&self) -> FormatterView {
        FormatterView { name: self.name@, extensions: texts(self.extensions@).to_set() }
    }
}

impl FormatterBuilder {
    /// Whether the builder is well formed: no extension is held twice.
    pub closed spec fn wf(&self) -> bool {
        texts(self.extensions@).no_duplicates()
    }

    /// A builder for a formatter of the given name that claims no extension
    /// yet.
    pub fn new(name: &str) -> (out: Self)
        ensures
            out.wf(),
            out@.name == name@,
            out@.extensions == Set::<Seq<char>>::empty(),
    {
        let extensions: Vec<String> = Vec::new();
        assert(texts(extensions@) =~= Seq::<Seq<char>>::empty());
        assert(texts(extensions@).to_set() =~= Set::<Seq<char>>::empty());
        FormatterBuilder { name: String::from_str(name), extensions }
    }

    /// The name that the formatter will have.
    pub fn name(&self) -> (out: &str)
        ensures
            out@ == self@.name,
    {
        self.name.as_str()
    }

    /// The number of extensions claimed so far.
    pub fn extension_count(&self) -> (out: usize)
        requires
            self.wf(),
        ensures
            out == self@.extensions.len(),
            self@.extensions.finite(),
    {
        proof {
            texts(self.extensions@).unique_seq_to_set();
        }
        self.extensions.len()
    }

    /// Claims an extension, in its normal form. Claiming one twice changes
    /// nothing.
    pub fn ext(&mut self, ext: &str) -> (out: &mut Self)
        requires
            old(self).wf(),
        ensures
            out.wf(),
            out@.name == old(self)@.name,
            out@.extensions == old(self)@.extensions.insert(normalised(ext@)),
            *final(self) == *final(out),
    {
        let normal = normalise_extension(String::from_str(ext));
        if !contains_text(&self.extensions, normal.as_str()) {
            let ghost before = texts(self.extensions@);
            self.extensions.push(normal);
            assert(texts(self.extensions@) =~= before.push(normal@));
            assert(before.push(normal@).to_set() =~= before.to_set().insert(normal@)) by {
                assert forall|t: Seq<char>| before.push(normal@).contains(t) <==> (before.contains(
                    t,
                ) || t == normal@) by {
                    if before.push(normal@).contains(t) {
                        let i = choose|i: int|
                            0 <= i < before.push(normal@).len() && before.push(normal@)[i] == t;
                        if i < before.len() {
                            assert(before[i] == t);
                        }
                    }
                    if before.contains(t) {
                        let i = choose|i: int| 0 <= i < before.len() && before[i] == t;
                        assert(before.push(normal@)[i] == t);
                    }
                    if t == normal@ {
                        assert(before.push(normal@)[before.len() as int] == t);
                    }
                }
            }
        } else {
            assert(texts(self.extensions@).to_set().insert(normal@) =~= texts(
                self.extensions@,
            ).to_set());
        }
        self
    }

    /// Claims each of the given extensions.
    pub fn exts(&mut self, exts: &[&str]) -> (out: &mut Self)
        requires
            old(self).wf(),
        ensures
            out.wf(),
            out@.name == old(self)@.name,
            out@.extensions == with_all(old(self)@.extensions, exts@, exts@.len()),
            *final(self) == *final(out),
    {
        let mut i: usize = 0;
        while i < exts.len()
            invariant
                i <= exts@.len(),
                self.wf(),
                self@.name == old(self)@.name,
                self@.extensions == with_all(old(self)@.extensions, exts@, i as nat),
            decreases exts@.len() - i,
        {
            self.ext(exts[i]);
            i += 1;
        }
        self
    }

    /// The formatter that was described.
    pub fn build(self) -> (out: Result<Formatter, ()>)
        requires
            self.wf(),
        ensures
            out is Ok,
            out->Ok_0.wf(),
            out->Ok_0@ == self@,
    {
        Ok(Formatter { name: self.name, extensions: self.extensions })
    }
}

/// A set of extensions with the normal forms of the first `n` of a list of
/// extensions added.
pub open spec fn with_all(set: Set<Seq<char>>, exts: Seq<&str>, n: nat) -> Set<Seq<char>>
    decreases n,
{
    if n == 0 {
        set
    } else {
        with_all(set, exts, (n - 1) as nat).insert(normalised(exts[n - 1]@))
    }
}

} // verus!
