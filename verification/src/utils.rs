//! Small helpers shared by the formatter registry.

use vstd::prelude::*;
use vstd::string::*;
use crate::text::{chars_of, string_of};

verus! {

/// The normal form of a file extension: the text itself when it already
/// begins with a dot, otherwise the text with a dot put in front. Case is
/// kept and nothing else is changed.
pub open spec fn normalised(ext: Seq<char>) -> Seq<char> {
    if ext.len() > 0 && ext[0] == '.' {
        ext
    } else {
        seq!['.'] + ext
    }
}

/// Brings an extension into its normal form.
pub fn normalise_extension(ext: String) -> (out: String)
    ensures
        out@ == normalised(ext@),
{
    if !ext.as_str().is_empty() && ext.as_str().get_char(0) == '.' {
        ext
    } else {
        proof {
            reveal_strlit(".");
            assert("."@ =~= seq!['.']);
        }
        String::from_str(".").concat(ext.as_str())
    }
}

/// Where a character stands last in a text.
pub open spec fn last_index(text: Seq<char>, c: char) -> Option<int>
    decreases text.len(),
{
    if text.len() == 0 {
        None
    } else if text.last() == c {
        Some(text.len() - 1)
    } else {
        last_index(text.drop_last(), c)
    }
}

/// The file name of a path: what follows its last slash.
pub open spec fn file_name(path: Seq<char>) -> Seq<char> {
    match last_index(path, '/') {
        Some(i) => path.skip(i + 1),
        None => path,
    }
}

/// The extension of a path: what follows the last dot of its file name. A
/// file name without a dot has none, and neither has one whose only dot is
/// its first character.
pub open spec fn extension_of(path: Seq<char>) -> Option<Seq<char>> {
    match last_index(file_name(path), '.') {
        Some(i) => if i > 0 {
            Some(file_name(path).skip(i + 1))
        } else {
            None
        },
        None => None,
    }
}

/// Finds where a character stands last in `chars[from..]`; the index counts
/// from `from`.
fn find_last(chars: &Vec<char>, from: usize, c: char) -> (out: Option<usize>)
    requires
        from <= chars@.len(),
    ensures
        match out {
            Some(i) => from + i < chars@.len() && last_index(chars@.skip(from as int), c) == Some(
                i as int,
            ),
            None => last_index(chars@.skip(from as int), c) is None,
        },
{
    let ghost text = chars@.skip(from as int);
    let mut end: usize = chars.len();
    assert(text.take(text.len() as int) =~= text);
    while end > from
        invariant
            from <= end <= chars@.len(),
            text == chars@.skip(from as int),
            last_index(text, c) == last_index(text.take(end - from), c),
        decreases end,
    {
        let ghost part = text.take(end - from);
        assert(part.last() == chars@[end - 1]);
        assert(part.drop_last() =~= text.take(end - 1 - from));
        if chars[end - 1] == c {
            return Some(end - 1 - from);
        }
        end -= 1;
    }
    assert(text.take(0).len() == 0);
    None
}

/// The extension of a path, if it has one.
pub fn path_extension(path: &str) -> (out: Option<String>)
    ensures
        match out {
            Some(extension) => extension_of(path@) == Some(extension@),
            None => extension_of(path@) is None,
        },
{
    let chars = chars_of(path);
    let end = chars.len();
    let start = match find_last(&chars, 0, '/') {
        Some(i) => i + 1,
        None => 0,
    };
    assert(chars@.skip(0) =~= chars@);
    assert(chars@.skip(start as int) == file_name(path@));
    match find_last(&chars, start, '.') {
        Some(i) => {
            if i > 0 {
                assert(chars@.subrange(start + i + 1, chars@.len() as int) =~= chars@.skip(
                    start as int,
                ).skip(i + 1));
                Some(string_of(&chars, start + i + 1, end))
            } else {
                None
            }
        },
        None => None,
    }
}

} // verus!
