use iceberg::{ErrorKind, NamespaceIdent, TableIdent};
use iceberg_register::table_id::{parse_table_id, TableId, TableIdError};

fn table(namespace: &[&str], name: &str) -> TableId {
    TableId {
        namespace: namespace.iter().map(|s| s.to_string()).collect(),
        name: name.to_string(),
    }
}

#[test]
fn nested_identifier_is_read() {
    assert_eq!(
        parse_table_id("my.namespace.nested.table").unwrap(),
        table(&["my", "namespace", "nested"], "table")
    );
    assert_eq!(parse_table_id("ns.rust_test.l2").unwrap(), table(&["ns", "rust_test"], "l2"));
}

#[test]
fn single_level_identifier_is_read() {
    assert_eq!(parse_table_id("ns.t").unwrap(), table(&["ns"], "t"));
}

#[test]
fn empty_parts_are_kept() {
    assert_eq!(parse_table_id(".").unwrap(), table(&[""], ""));
    assert_eq!(parse_table_id("a..b").unwrap(), table(&["a", ""], "b"));
    assert_eq!(parse_table_id("a.b.").unwrap(), table(&["a", "b"], ""));
    assert_eq!(parse_table_id(".t").unwrap(), table(&[""], "t"));
}

#[test]
fn parts_are_not_trimmed() {
    assert_eq!(parse_table_id(" a . b ").unwrap(), table(&[" a "], " b "));
    assert_eq!(parse_table_id("é.表").unwrap(), table(&["é"], "表"));
}

#[test]
fn identifier_without_namespace_is_refused() {
    for s in ["table", "", "a-b"] {
        let error = parse_table_id(s).unwrap_err();
        assert_eq!(error.message(), "invalid --table-id");
        match error {
            TableIdError::NoNamespace(source) => {
                assert_eq!(source.kind(), ErrorKind::DataInvalid);
                assert_eq!(
                    source.to_string(),
                    "DataInvalid => Namespace identifier can't be empty!"
                );
            }
        }
    }
}

#[test]
fn reading_agrees_with_iceberg() {
    for s in ["a.b", "a.b.c", "..", "x", "", "a b.c", "\u{1f}.\u{1f}"] {
        let expected = TableIdent::from_strs(s.split('.'));
        match parse_table_id(s) {
            Ok(t) => {
                let ident = expected.unwrap();
                assert_eq!(t.name, ident.name);
                assert_eq!(t.namespace, ident.namespace.inner());
            }
            Err(_) => assert!(expected.is_err()),
        }
    }
}

#[test]
fn writing_agrees_with_iceberg() {
    for t in [table(&["a"], "t"), table(&["a", "b"], "t"), table(&["", "x.y"], "")] {
        let ident = TableIdent::new(
            NamespaceIdent::from_vec(t.namespace.clone()).unwrap(),
            t.name.clone(),
        );
        assert_eq!(t.dotted(), ident.to_string());
    }
    assert_eq!(table(&["a", "b"], "t").dotted(), "a.b.t");
}

#[test]
fn written_as_read() {
    for s in ["a.b", "a.b.c", ".", "..", "a..b", "é.表"] {
        assert_eq!(parse_table_id(s).unwrap().dotted(), s);
    }
}

#[test]
fn read_as_written() {
    let t = table(&["ns", "", "deep"], "name");
    assert_eq!(parse_table_id(&t.dotted()).unwrap(), t);
}

#[test]
fn read_parts_hold_no_dot() {
    let t = parse_table_id("a..b.c").unwrap();
    assert!(!t.namespace.is_empty());
    assert!(t.namespace.iter().all(|level| !level.contains('.')));
    assert!(!t.name.contains('.'));
}

#[test]
fn clone_is_the_same_table() {
    let t = table(&["a", "b"], "t");
    assert_eq!(t.clone(), t);
}
