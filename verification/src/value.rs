//! The generic tree that a configuration document is read into.

use vstd::prelude::*;
use vstd::string::*;

verus! {

/// One value of a configuration document.
#[derive(Debug, PartialEq, Eq)]
pub enum Tree {
    /// A string.
    Text(String),
    /// An integer.
    Integer(i64),
    /// A floating-point number; the tree does not keep its value.
    Float,
    /// A boolean.
    Boolean(bool),
    /// A date or a time; the tree does not keep its value.
    Datetime,
    /// An array of values.
    List(Vec<Tree>),
    /// A table: keys with their values, in the order of the document's model.
    Table(Vec<Entry>),
}

/// One key of a table with its value.
#[derive(Debug, PartialEq, Eq)]
pub struct Entry {
    pub key: String,
    pub value: Tree,
}

/// The mathematical value of a [`Tree`].
pub enum Node {
    Text(Seq<char>),
    Integer(int),
    Float,
    Boolean(bool),
    Datetime,
    List(Seq<Node>),
    Table(Seq<Pair>),
}

/// One key of a table with the value under it.
pub struct Pair {
    pub key: Seq<char>,
    pub value: Node,
}

impl View for Tree {
    type V = Node;

    open spec fn view(&self) -> Node
        decreases self,
    {
        match self {
            Tree::Text(text) => Node::Text(text@),
            Tree::Integer(number) => Node::Integer(*number as int),
            Tree::Float => Node::Float,
            Tree::Boolean(flag) => Node::Boolean(*flag),
            Tree::Datetime => Node::Datetime,
            Tree::List(items) => Node::List(
                Seq::new(
                    items@.len(),
                    |i: int|
                        if 0 <= i < items@.len() {
                            items[i]@
                        } else {
                            Node::Float
                        },
                ),
            ),
            Tree::Table(entries) => Node::Table(
                Seq::new(
                    entries@.len(),
                    |i: int|
                        if 0 <= i < entries@.len() {
                            Pair { key: entries[i].key@, value: entries[i].value@ }
                        } else {
                            Pair { key: Seq::empty(), value: Node::Float }
                        },
                ),
            ),
        }
    }
}


/// The kinds of value that a document can hold.
#[derive(Debug, PartialEq, Eq, Clone, Copy, Structural)]
pub enum ValueKind {
    Text,
    Integer,
    Float,
    Boolean,
    Datetime,
    List,
    Table,
}

/// The kind of a value.
pub open spec fn kind_of(node: Node) -> ValueKind {
    match node {
        Node::Text(_) => ValueKind::Text,
        Node::Integer(_) => ValueKind::Integer,
        Node::Float => ValueKind::Float,
        Node::Boolean(_) => ValueKind::Boolean,
        Node::Datetime => ValueKind::Datetime,
        Node::List(_) => ValueKind::List,
        Node::Table(_) => ValueKind::Table,
    }
}

/// The values of a sequence of trees.
pub open spec fn nodes(items: Seq<Tree>) -> Seq<Node> {
    items.map_values(|item: Tree| item@)
}

/// The keys and values of a sequence of entries.
pub open spec fn pairs(entries: Seq<Entry>) -> Seq<Pair> {
    entries.map_values(|entry: Entry| Pair { key: entry.key@, value: entry.value@ })
}

/// The value of a list is the list of its items' values.
pub proof fn list_view(items: Vec<Tree>)
    ensures
        Tree::List(items)@ == Node::List(nodes(items@)),
{
    assert(Tree::List(items)@->List_0 =~= nodes(items@));
}

/// The value of a table is the list of its entries' keys and values.
pub proof fn table_view(entries: Vec<Entry>)
    ensures
        Tree::Table(entries)@ == Node::Table(pairs(entries@)),
{
    let table = Tree::Table(entries)@->Table_0;
    assert(table.len() == entries@.len());
    assert(table.len() == pairs(entries@).len());
    assert forall|i: int| 0 <= i < table.len() implies table[i] == pairs(entries@)[i] by {
        assert(table[i] == Pair { key: entries[i].key@, value: entries[i].value@ });
    }
    assert(table =~= pairs(entries@));
}

/// The value that a table holds under a key: that of the first entry with
/// this key.
pub open spec fn lookup(entries: Seq<Pair>, key: Seq<char>) -> Option<Node>
    decreases entries.len(),
{
    if entries.len() == 0 {
        None
    } else if entries[0].key == key {
        Some(entries[0].value)
    } else {
        lookup(entries.skip(1), key)
    }
}

/// What reading a field of one type gives: nothing where the key is absent,
/// the value where it has the type, and otherwise the kind that was found.
#[derive(Debug, PartialEq, Eq)]
pub enum Field<T> {
    Absent,
    Present(T),
    Mismatch(ValueKind),
}

/// The string under a key.
pub open spec fn text_at(entries: Seq<Pair>, key: Seq<char>) -> Field<Seq<char>> {
    match lookup(entries, key) {
        None => Field::Absent,
        Some(Node::Text(text)) => Field::Present(text),
        Some(other) => Field::Mismatch(kind_of(other)),
    }
}

/// The boolean under a key.
pub open spec fn flag_at(entries: Seq<Pair>, key: Seq<char>) -> Field<bool> {
    match lookup(entries, key) {
        None => Field::Absent,
        Some(Node::Boolean(flag)) => Field::Present(flag),
        Some(other) => Field::Mismatch(kind_of(other)),
    }
}

/// The array under a key.
pub open spec fn list_at(entries: Seq<Pair>, key: Seq<char>) -> Field<Seq<Node>> {
    match lookup(entries, key) {
        None => Field::Absent,
        Some(Node::List(items)) => Field::Present(items),
        Some(other) => Field::Mismatch(kind_of(other)),
    }
}

/// The table under a key.
pub open spec fn table_at(entries: Seq<Pair>, key: Seq<char>) -> Field<
    Seq<Pair>,
> {
    match lookup(entries, key) {
        None => Field::Absent,
        Some(Node::Table(inner)) => Field::Present(inner),
        Some(other) => Field::Mismatch(kind_of(other)),
    }
}

impl Tree {
    /// The kind of this value.
    pub fn kind(&self) -> (out: ValueKind)
        ensures
            out == kind_of(self@),
    {
        match self {
            Tree::Text(_) => ValueKind::Text,
            Tree::Integer(_) => ValueKind::Integer,
            Tree::Float => ValueKind::Float,
            Tree::Boolean(_) => ValueKind::Boolean,
            Tree::Datetime => ValueKind::Datetime,
            Tree::List(_) => ValueKind::List,
            Tree::Table(_) => ValueKind::Table,
        }
    }

    /// The string that this value is, if it is one.
    pub fn as_str(&self) -> (out: Option<&str>)
        ensures
            match out {
                Some(text) => self@ == Node::Text(text@),
                None => !(self@ is Text),
            },
    {
        match self {
            Tree::Text(text) => Some(text.as_str()),
            _ => None,
        }
    }

    /// The boolean that this value is, if it is one.
    pub fn as_bool(&self) -> (out: Option<bool>)
        ensures
            match out {
                Some(flag) => self@ == Node::Boolean(flag),
                None => !(self@ is Boolean),
            },
    {
        match self {
            Tree::Boolean(flag) => Some(*flag),
            _ => None,
        }
    }

    /// The items of this value, if it is an array.
    pub fn as_array(&self) -> (out: Option<&Vec<Tree>>)
        ensures
            match out {
                Some(items) => self@ == Node::List(nodes(items@)),
                None => !(self@ is List),
            },
    {
        match self {
            Tree::List(items) => {
                proof {
                    list_view(*items);
                }
                Some(items)
            },
            _ => None,
        }
    }

    /// The entries of this value, if it is a table.
    pub fn as_table(&self) -> (out: Option<&Vec<Entry>>)
        ensures
            match out {
                Some(entries) => self@ == Node::Table(pairs(entries@)),
                None => !(self@ is Table),
            },
    {
        match self {
            Tree::Table(entries) => {
                proof {
                    table_view(*entries);
                }
                Some(entries)
            },
            _ => None,
        }
    }
}

/// The value under a key of a table.
pub fn get<'a>(entries: &'a Vec<Entry>, key: &str) -> (out: Option<&'a Tree>)
    ensures
        match out {
            Some(tree) => lookup(pairs(entries@), key@) == Some(tree@),
            None => lookup(pairs(entries@), key@) is None,
        },
{
    let wanted = String::from_str(key);
    let mut i: usize = 0;
    assert(pairs(entries@).skip(0) =~= pairs(entries@));
    while i < entries.len()
        invariant
            i <= entries@.len(),
            wanted@ == key@,
            lookup(pairs(entries@), key@) == lookup(pairs(entries@).skip(i as int), key@),
        decreases entries@.len() - i,
    {
        assert(pairs(entries@).skip(i as int).skip(1) =~= pairs(entries@).skip(i + 1));
        if entries[i].key == wanted {
            return Some(&entries[i].value);
        }
        i += 1;
    }
    None
}

/// The string under a key of a table.
pub fn get_string<'a>(entries: &'a Vec<Entry>, key: &str) -> (out: Field<&'a str>)
    ensures
        match out {
            Field::Absent => text_at(pairs(entries@), key@) == Field::<Seq<char>>::Absent,
            Field::Present(text) => text_at(pairs(entries@), key@) == Field::Present(text@),
            Field::Mismatch(found) => text_at(pairs(entries@), key@) == Field::<
                Seq<char>,
            >::Mismatch(found),
        },
{
    match get(entries, key) {
        None => Field::Absent,
        Some(tree) => match tree.as_str() {
            Some(text) => Field::Present(text),
            None => Field::Mismatch(tree.kind()),
        },
    }
}

/// The boolean under a key of a table.
pub fn get_bool(entries: &Vec<Entry>, key: &str) -> (out: Field<bool>)
    ensures
        out == flag_at(pairs(entries@), key@),
{
    match get(entries, key) {
        None => Field::Absent,
        Some(tree) => match tree.as_bool() {
            Some(flag) => Field::Present(flag),
            None => Field::Mismatch(tree.kind()),
        },
    }
}

/// The array under a key of a table.
pub fn get_array<'a>(entries: &'a Vec<Entry>, key: &str) -> (out: Field<&'a Vec<Tree>>)
    ensures
        match out {
            Field::Absent => list_at(pairs(entries@), key@) == Field::<Seq<Node>>::Absent,
            Field::Present(items) => list_at(pairs(entries@), key@) == Field::Present(
                nodes(items@),
            ),
            Field::Mismatch(found) => list_at(pairs(entries@), key@) == Field::<
                Seq<Node>,
            >::Mismatch(found),
        },
{
    match get(entries, key) {
        None => Field::Absent,
        Some(tree) => match tree.as_array() {
            Some(items) => Field::Present(items),
            None => Field::Mismatch(tree.kind()),
        },
    }
}

/// The table under a key of a table.
pub fn get_table<'a>(entries: &'a Vec<Entry>, key: &str) -> (out: Field<&'a Vec<Entry>>)
    ensures
        match out {
            Field::Absent => table_at(pairs(entries@), key@) == Field::<
                Seq<Pair>,
            >::Absent,
            Field::Present(inner) => table_at(pairs(entries@), key@) == Field::Present(
                pairs(inner@),
            ),
            Field::Mismatch(found) => table_at(pairs(entries@), key@) == Field::<
                Seq<Pair>,
            >::Mismatch(found),
        },
{
    match get(entries, key) {
        None => Field::Absent,
        Some(tree) => match tree.as_table() {
            Some(inner) => Field::Present(inner),
            None => Field::Mismatch(tree.kind()),
        },
    }
}

} // verus!
