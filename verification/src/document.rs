//! Reading a configuration document from TOML text.

use vstd::prelude::*;
use vstd::string::*;
use crate::value::{list_view, nodes, pairs, table_view, Entry, Node, Pair, Tree};

verus! {

/// A value of the `toml` crate.
#[verifier::external_type_specification]
#[verifier::external_body]
pub struct ExTomlValue(toml::Value);

/// What a `toml::Value` holds: its string, integer or boolean, its items in
/// their order where it is an array, its keys with their values where it is
/// a table, in the order in which `toml` walks a table. Of a float and of a
/// datetime only that it is one.
pub uninterp spec fn toml_node(value: toml::Value) -> Node;

/// The value that the `toml` crate reads a document into, or its message
/// where the text is no TOML document.
pub uninterp spec fn toml_document(text: Seq<char>) -> Result<Node, Seq<char>>;

/// One key of a `toml` table with the value under it.
struct Borrowed<'a> {
    key: &'a str,
    value: &'a toml::Value,
}

/// The outermost level of a `toml::Value`.
enum Peeled<'a> {
    Text(&'a str),
    Integer(i64),
    Float,
    Boolean(bool),
    Datetime,
    List(&'a Vec<toml::Value>),
    Table(Vec<Borrowed<'a>>),
}

/// What a peeled value holds, over what the values inside it hold.
spec fn peeled(level: Peeled) -> Node {
    match level {
        Peeled::Text(text) => Node::Text(text@),
        Peeled::Integer(number) => Node::Integer(number as int),
        Peeled::Float => Node::Float,
        Peeled::Boolean(flag) => Node::Boolean(flag),
        Peeled::Datetime => Node::Datetime,
        Peeled::List(items) => Node::List(items@.map_values(|item: toml::Value| toml_node(item))),
        Peeled::Table(entries) => Node::Table(
            entries@.map_values(
                |entry: Borrowed| Pair { key: entry.key@, value: toml_node(*entry.value) },
            ),
        ),
    }
}

/// Tells the variants of `toml::Value` apart and hands out what the variant
/// holds: a string, an integer or a boolean as it is, the items of an array
/// as they are, and the entries of a table as `toml::map::Map::iter` walks
/// them.
#[verifier::external_body]
fn peel(value: &toml::Value) -> (out: Peeled<'_>)
    ensures
        toml_node(*value) == peeled(out),
{
    match value {
        toml::Value::String(text) => Peeled::Text(text),
        toml::Value::Integer(number) => Peeled::Integer(*number),
        toml::Value::Float(_) => Peeled::Float,
        toml::Value::Boolean(flag) => Peeled::Boolean(*flag),
        toml::Value::Datetime(_) => Peeled::Datetime,
        toml::Value::Array(items) => Peeled::List(items),
        toml::Value::Table(table) => Peeled::Table(
            table.iter().map(|(key, value)| Borrowed { key, value }).collect(),
        ),
    }
}

/// `toml::from_str`, through `str::parse`, reads a whole document into a
/// table, or reports why the text is no TOML document; the error's `message`
/// is what is handed on. The result depends on the text alone.
#[verifier::external_body]
fn parse_toml(text: &str) -> (out: Result<toml::Value, String>)
    ensures
        match out {
            Ok(value) => toml_document(text@) == Ok::<Node, Seq<char>>(toml_node(value)),
            Err(message) => toml_document(text@) == Err::<Node, Seq<char>>(message@),
        },
{
    match text.parse::<toml::Table>() {
        Ok(table) => Ok(toml::Value::Table(table)),
        Err(error) => Err(error.message().to_string()),
    }
}

/// Copies a `toml::Value` into a tree.
fn lift(value: &toml::Value) -> (out: Tree)
    ensures
        out@ == toml_node(*value),
    decreases toml_node(*value),
{
    match peel(value) {
        Peeled::Text(text) => Tree::Text(String::from_str(text)),
        Peeled::Integer(number) => Tree::Integer(number),
        Peeled::Float => Tree::Float,
        Peeled::Boolean(flag) => Tree::Boolean(flag),
        Peeled::Datetime => Tree::Datetime,
        Peeled::List(items) => {
            let ghost inside = items@.map_values(|item: toml::Value| toml_node(item));
            let mut list: Vec<Tree> = Vec::new();
            let mut i: usize = 0;
            while i < items.len()
                invariant
                    i <= items@.len(),
                    toml_node(*value) == Node::List(inside),
                    inside == items@.map_values(|item: toml::Value| toml_node(item)),
                    nodes(list@) == inside.take(i as int),
                decreases items@.len() - i,
            {
                let ghost before = nodes(list@);
                assert(inside[i as int] == toml_node(items@[i as int]));
                let ghost node = toml_node(*value);
                assert(decreases_to!(node => node->List_0));
                assert(decreases_to!(node->List_0 => node->List_0[i as int]));
                let item = lift(&items[i]);
                list.push(item);
                assert(nodes(list@) =~= before.push(item@));
                assert(inside.take(i + 1) =~= inside.take(i as int).push(inside[i as int]));
                i += 1;
            }
            assert(inside.take(items@.len() as int) =~= inside);
            proof {
                list_view(list);
            }
            Tree::List(list)
        },
        Peeled::Table(entries) => {
            let ghost inside = entries@.map_values(
                |entry: Borrowed| Pair { key: entry.key@, value: toml_node(*entry.value) },
            );
            let mut table: Vec<Entry> = Vec::new();
            let mut i: usize = 0;
            while i < entries.len()
                invariant
                    i <= entries@.len(),
                    toml_node(*value) == Node::Table(inside),
                    inside == entries@.map_values(
                        |entry: Borrowed| Pair { key: entry.key@, value: toml_node(*entry.value) },
                    ),
                    pairs(table@) == inside.take(i as int),
                decreases entries@.len() - i,
            {
                let ghost before = pairs(table@);
                assert(inside[i as int] == Pair {
                    key: entries@[i as int].key@,
                    value: toml_node(*entries@[i as int].value),
                });
                let ghost node = toml_node(*value);
                assert(decreases_to!(node => node->Table_0));
                assert(decreases_to!(node->Table_0 => node->Table_0[i as int]));
                assert(decreases_to!(node->Table_0[i as int] => node->Table_0[i as int].value));
                let item = lift(entries[i].value);
                let entry = Entry { key: String::from_str(entries[i].key), value: item };
                table.push(entry);
                assert(pairs(table@) =~= before.push(
                    Pair { key: entry.key@, value: entry.value@ },
                ));
                assert(inside.take(i + 1) =~= inside.take(i as int).push(inside[i as int]));
                i += 1;
            }
            assert(inside.take(entries@.len() as int) =~= inside);
            proof {
                table_view(table);
            }
            Tree::Table(table)
        },
    }
}

/// Reads a TOML document into a tree.
pub fn read_document(text: &str) -> (out: Result<Tree, String>)
    ensures
        match out {
            Ok(tree) => toml_document(text@) == Ok::<Node, Seq<char>>(tree@),
            Err(message) => toml_document(text@) == Err::<Node, Seq<char>>(message@),
        },
{
    match parse_toml(text) {
        Ok(value) => Ok(lift(&value)),
        Err(message) => Err(message),
    }
}

} // verus!
