use completist::document::read_document;
use completist::value::{get, get_array, get_bool, get_string, get_table, Entry, Field, Tree, ValueKind};

fn entry(key: &str, value: Tree) -> Entry {
    Entry { key: key.to_string(), value }
}

#[test]
fn read_document_gives_the_tree() {
    let tree = read_document(
        "name = \"cat\"\ncount = 3\nratio = 1.5\nflag = true\nwhen = 1979-05-27\nlist = [\"a\", 2]\n[sub]\nkey = \"v\"\n",
    )
    .unwrap();
    let expected = Tree::Table(vec![
        entry("count", Tree::Integer(3)),
        entry("flag", Tree::Boolean(true)),
        entry("list", Tree::List(vec![Tree::Text("a".to_string()), Tree::Integer(2)])),
        entry("name", Tree::Text("cat".to_string())),
        entry("ratio", Tree::Float),
        entry("sub", Tree::Table(vec![entry("key", Tree::Text("v".to_string()))])),
        entry("when", Tree::Datetime),
    ]);
    assert_eq!(tree, expected);
}

#[test]
fn read_document_of_empty_text() {
    assert_eq!(read_document(""), Ok(Tree::Table(Vec::new())));
}

#[test]
fn read_document_refuses_bad_text() {
    assert!(read_document("name = ").is_err());
    assert!(read_document("[[a]\n").is_err());
    assert!(read_document("a = 1\na = 2\n").is_err());
}

#[test]
fn array_of_tables_keeps_its_order() {
    let tree = read_document("[[option]]\nopt = \"-b\"\n[[option]]\nopt = \"-a\"\n").unwrap();
    let expected = Tree::Table(vec![entry(
        "option",
        Tree::List(vec![
            Tree::Table(vec![entry("opt", Tree::Text("-b".to_string()))]),
            Tree::Table(vec![entry("opt", Tree::Text("-a".to_string()))]),
        ]),
    )]);
    assert_eq!(tree, expected);
}

#[test]
fn typed_reads() {
    let entries = vec![
        entry("name", Tree::Text("cat".to_string())),
        entry("flag", Tree::Boolean(false)),
        entry("list", Tree::List(vec![Tree::Integer(1)])),
        entry("sub", Tree::Table(vec![entry("k", Tree::Float)])),
        entry("name", Tree::Integer(7)),
    ];
    assert_eq!(get(&entries, "name"), Some(&Tree::Text("cat".to_string())));
    assert_eq!(get(&entries, "Name"), None);
    assert_eq!(get_string(&entries, "name"), Field::Present("cat"));
    assert_eq!(get_string(&entries, "flag"), Field::Mismatch(ValueKind::Boolean));
    assert_eq!(get_string(&entries, "nothing"), Field::Absent);
    assert_eq!(get_bool(&entries, "flag"), Field::Present(false));
    assert_eq!(get_bool(&entries, "list"), Field::Mismatch(ValueKind::List));
    assert_eq!(get_bool(&entries, "nothing"), Field::Absent);
    assert_eq!(get_array(&entries, "list"), Field::Present(&vec![Tree::Integer(1)]));
    assert_eq!(get_array(&entries, "sub"), Field::Mismatch(ValueKind::Table));
    assert_eq!(get_array(&entries, "nothing"), Field::Absent);
    assert_eq!(get_table(&entries, "sub"), Field::Present(&vec![entry("k", Tree::Float)]));
    assert_eq!(get_table(&entries, "name"), Field::Mismatch(ValueKind::Text));
    assert_eq!(get_table(&entries, "nothing"), Field::Absent);
}

#[test]
fn kinds_of_values() {
    assert_eq!(Tree::Text(String::new()).kind(), ValueKind::Text);
    assert_eq!(Tree::Integer(-1).kind(), ValueKind::Integer);
    assert_eq!(Tree::Float.kind(), ValueKind::Float);
    assert_eq!(Tree::Boolean(true).kind(), ValueKind::Boolean);
    assert_eq!(Tree::Datetime.kind(), ValueKind::Datetime);
    assert_eq!(Tree::List(Vec::new()).kind(), ValueKind::List);
    assert_eq!(Tree::Table(Vec::new()).kind(), ValueKind::Table);
    assert_eq!(Tree::Text("a".to_string()).as_str(), Some("a"));
    assert_eq!(Tree::Boolean(true).as_str(), None);
    assert_eq!(Tree::Boolean(true).as_bool(), Some(true));
    assert_eq!(Tree::Integer(1).as_bool(), None);
    assert_eq!(Tree::List(Vec::new()).as_array(), Some(&Vec::new()));
    assert_eq!(Tree::Table(Vec::new()).as_array(), None);
    assert_eq!(Tree::Table(Vec::new()).as_table(), Some(&Vec::new()));
    assert_eq!(Tree::List(Vec::new()).as_table(), None);
}
