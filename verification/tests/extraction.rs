use php_ls::db::SymbolIndex;
use php_ls::indexer::class_declaration::{records_of_document, ClassDeclarationIndexer};
use php_ls::indexer::index::{Indexed, Indexer};
use php_ls::resolver::index_current_buffer;
use php_ls::syntax::{text_at, QueryError};

#[test]
fn namespace_class_and_method_give_two_records() {
    let source = b"namespace N; class C { function m(){} }";
    let records = records_of_document(source, "file:///tmp/c.php").unwrap();
    println!("{:?}", records);
    assert_eq!(records.len(), 2);
    assert_eq!(records[0].fqn, "\\N\\C");
    assert_eq!(records[1].fqn, "\\N\\C::m");
    assert_eq!(records[1].parameters.as_deref(), Some("()"));
    assert_eq!(records[1].return_type, None);
    assert_eq!(records[0].parameters, None);
}

#[test]
fn opening_tag_is_accepted() {
    let source = b"<?php\nnamespace N;\n/**\n * A thing.\n * @internal\n */\nclass C {\n    /**\n     * Does it.\n     * @return int\n     */\n    public function m(int $a): int { return 1; }\n}\n";
    let mut index = SymbolIndex::new();
    let done = ClassDeclarationIndexer::default().index(&mut index, source, "file:///tmp/c.php");
    assert_eq!(done, Ok(Indexed { records: 2, failed: 0 }));
    let all = index.get_all();
    println!("{:?}", all);
    assert_eq!(all[0].fqn, "\\N\\C");
    assert_eq!(all[0].description, "A thing.");
    assert_eq!(all[0].id, 1);
    assert_eq!(all[0].location.range.start.line, 6);
    assert_eq!(all[1].fqn, "\\N\\C::m");
    assert_eq!(all[1].description, "Does it.");
    assert_eq!(all[1].parameters.as_deref(), Some("(int $a)"));
    assert_eq!(all[1].return_type.as_deref(), Some("int"));
    assert_eq!(all[1].location.range.start.line, 11);
    assert_eq!(all[1].location.range.start.character, 20);
}

#[test]
fn documents_of_any_bytes_are_gone_through() {
    let mut index = SymbolIndex::new();
    let stage = ClassDeclarationIndexer::default();
    assert_eq!(stage.index(&mut index, &[0xff, 0x00, 0x7b], "u"), Ok(Indexed { records: 0, failed: 0 }));
    assert_eq!(stage.index(&mut index, b"class {", "u"), Ok(Indexed { records: 0, failed: 0 }));
    assert_ne!(records_of_document(b"class A {}", "u").err(), Some(QueryError::BadPattern));
    assert!(index_current_buffer(b"$x = new").is_some());
    assert!(index.get_all().is_empty());
}

#[test]
fn ranges_of_captures_give_their_text() {
    let source = "<?php\nnamespace Caf\u{e9};\nclass \u{c9}t\u{e9} { function \u{e9}(){} }".as_bytes();
    let records = records_of_document(source, "u").unwrap();
    assert_eq!(records[0].fqn, "\\Caf\u{e9}\\\u{c9}t\u{e9}");
    assert_eq!(records[1].fqn, "\\Caf\u{e9}\\\u{c9}t\u{e9}::\u{e9}");
    let name = records[1].location.range;
    assert_eq!((name.start.line, name.start.character, name.end.character), (2, 23, 25));
    let bytes = tree_sitter::Range {
        start_byte: 6,
        end_byte: 15,
        start_point: tree_sitter::Point { row: 1, column: 0 },
        end_point: tree_sitter::Point { row: 1, column: 9 },
    };
    assert_eq!(text_at(source, &bytes).as_deref(), Some("namespace"));
}
