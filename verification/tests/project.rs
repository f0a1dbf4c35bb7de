use php_ls::db::{ClassRecord, ClassRecordKind, IndexError, Saved, SymbolIndex};
use php_ls::indexer::class_declaration::{extract_records, records_of_document};
use php_ls::indexer::index::{Index, TextDocument};
use php_ls::indexer::{is_source_extension, reindex_files, SourceFile};
use php_ls::location::{Location, Position, TextRange};
use php_ls::syntax::{Captured, QueryMatch};
use php_ls::tables::NameTable;
use php_ls::{ParamsGetProjectPath, ProjectPathError, ProjectRoot, SymbolKind};
use tree_sitter::{Point, Range};

fn span(start_byte: usize, end_byte: usize) -> Range {
    Range {
        start_byte,
        end_byte,
        start_point: Point { row: 0, column: start_byte },
        end_point: Point { row: 0, column: end_byte },
    }
}

fn row(id: u32, fqn: &str, uri: &str) -> ClassRecord {
    ClassRecord {
        id,
        fqn: fqn.to_string(),
        description: String::new(),
        attributes: None,
        parameters: None,
        return_type: None,
        location: Location {
            uri: uri.to_string(),
            range: TextRange {
                start: Position { line: 0, character: 0 },
                end: Position { line: 0, character: 1 },
            },
        },
    }
}

fn names(index: &SymbolIndex) -> Vec<(u32, String, u32)> {
    index.get_all().iter().map(|r| (r.id, r.fqn.clone(), r.location.range.start.line)).collect()
}

#[test]
fn methods_belong_to_the_class_around_them() {
    let source = b"<?php\nnamespace App;\nclass A { function one() {} }\nclass B { function two(): void {} }\n";
    let records = records_of_document(source, "file:///x.php").unwrap();
    let fqns: Vec<&str> = records.iter().map(|r| r.fqn.as_str()).collect();
    assert_eq!(fqns, vec!["\\App\\A", "\\App\\B", "\\App\\A::one", "\\App\\B::two"]);
    assert_eq!(records[3].return_type.as_deref(), Some("void"));
    assert_eq!(records[2].location.range.start, Position { line: 2, character: 19 });
    assert_eq!(records[0].location.range.start, Position { line: 2, character: 0 });
    assert_eq!(records[0].location.range.end, Position { line: 2, character: 29 });
}

#[test]
fn without_a_namespace_the_class_is_at_the_root() {
    let records = records_of_document(b"<?php class C {}", "file:///x.php").unwrap();
    assert_eq!(records.len(), 1);
    assert_eq!(records[0].fqn, "\\C");
    assert_eq!(records[0].description, "");
}

#[test]
fn the_last_namespace_holds_for_the_document() {
    let source = b"<?php\nnamespace One;\nclass A {}\nnamespace Two;\nclass B {}\n";
    let records = records_of_document(source, "file:///x.php").unwrap();
    let fqns: Vec<&str> = records.iter().map(|r| r.fqn.as_str()).collect();
    assert_eq!(fqns, vec!["\\Two\\A", "\\Two\\B"]);
}

#[test]
fn a_document_without_declarations() {
    assert!(records_of_document(b"", "file:///x.php").unwrap().is_empty());
    assert!(records_of_document(b"<?php echo 1;", "file:///x.php").unwrap().is_empty());
    assert!(records_of_document(&[0xff, 0xfe, 0x00], "file:///x.php").unwrap().is_empty());
}

#[test]
fn records_from_given_matches() {
    let source = b"N C /** d */ m () int";
    let namespaces = vec![QueryMatch {
        pattern_index: 0,
        captures: vec![Captured { index: 0, range: span(0, 1), lead: None }],
    }];
    let classes = vec![
        QueryMatch {
            pattern_index: 0,
            captures: vec![
                Captured { index: 1, range: span(2, 21), lead: Some(("text".to_string(), span(4, 12))) },
                Captured { index: 0, range: span(2, 3), lead: None },
            ],
        },
        QueryMatch { pattern_index: 0, captures: vec![Captured { index: 0, range: span(2, 3), lead: None }] },
    ];
    let methods = vec![QueryMatch {
        pattern_index: 0,
        captures: vec![
            Captured { index: 0, range: span(2, 3), lead: None },
            Captured { index: 4, range: span(13, 21), lead: Some(("comment".to_string(), span(4, 12))) },
            Captured { index: 1, range: span(13, 14), lead: None },
            Captured { index: 2, range: span(15, 17), lead: None },
            Captured { index: 3, range: span(18, 21), lead: None },
        ],
    }];
    let records = extract_records(source, "u", &namespaces, &classes, &methods);
    assert_eq!(records.len(), 2);
    assert_eq!(records[0].fqn, "\\N\\C");
    assert_eq!(records[0].description, "");
    assert_eq!(records[0].location.range.end.character, 21);
    assert_eq!(records[1].fqn, "\\N\\C::m");
    assert_eq!(records[1].description, "");
    assert_eq!(records[1].parameters.as_deref(), Some("()"));
    assert_eq!(records[1].return_type.as_deref(), Some("int"));
    assert_eq!(records[1].location.range.start.character, 13);
    assert_eq!(records[1].location.range.end.character, 14);
    assert_eq!(records[1].id, 0);
}

#[test]
fn building_the_index_twice_gives_the_same_rows() {
    let files = vec![
        SourceFile {
            uri: "file:///a.php".to_string(),
            contents: b"namespace N; class C { function m(){} }".to_vec(),
        },
        SourceFile { uri: "file:///b.php".to_string(), contents: b"<?php class D {}".to_vec() },
    ];
    let mut index = SymbolIndex::new();
    index.save_row(&row(0, "Stale", "file:///gone.php")).unwrap();
    assert_eq!(reindex_files(&mut index, &files), Ok(0));
    let first = names(&index);
    assert_eq!(
        first,
        vec![(1, "\\N\\C".to_string(), 0), (2, "\\N\\C::m".to_string(), 0), (3, "\\D".to_string(), 0)]
    );
    assert_eq!(reindex_files(&mut index, &files), Ok(0));
    assert_eq!(names(&index), first);
    let mut other = SymbolIndex::new();
    assert_eq!(reindex_files(&mut other, &Vec::new()), Ok(0));
    assert!(other.get_all().is_empty());
    assert_eq!(reindex_files(&mut other, &files), Ok(0));
    assert_eq!(names(&other), first);
}

#[test]
fn a_failed_save_does_not_stop_the_others() {
    let mut index = SymbolIndex::from_rows(vec![row(u32::MAX, "A", "file:///a.php")]).unwrap();
    assert_eq!(index.save_row(&row(0, "B", "file:///a.php")), Err(IndexError::OutOfIds));
    assert_eq!(index.len(), 1);
    assert_eq!(index.save_row(&row(0, "A", "file:///a.php")), Ok(Saved::Updated(u32::MAX)));
    let mut moved = row(0, "A", "file:///a.php");
    moved.location.range.start.line = 4;
    assert_eq!(index.save_rows(&vec![row(0, "B", "file:///a.php"), moved]), 1);
    assert_eq!(names(&index), vec![(u32::MAX, "A".to_string(), 4)]);
    assert_eq!(index.save(&row(0, "C", "file:///a.php")), Err(IndexError::OutOfIds));
}

#[test]
fn rows_with_one_key_twice_make_no_index() {
    let rows = vec![row(1, "A", "file:///a.php"), row(2, "B", "file:///a.php"), row(3, "A", "file:///a.php")];
    assert_eq!(SymbolIndex::from_rows(rows).err(), Some(IndexError::DuplicateKey));
    let rows = vec![row(7, "A", "file:///a.php"), row(2, "A", "file:///b.php")];
    let mut index = SymbolIndex::from_rows(rows).unwrap();
    assert_eq!(index.save_row(&row(0, "B", "file:///a.php")), Ok(Saved::Inserted(8)));
    assert!(SymbolIndex::from_rows(vec![]).unwrap().get_all().is_empty());
}

#[test]
fn name_tables() {
    let mut table = NameTable::new();
    assert_eq!(table.get("x"), None);
    assert!(!table.contains("x"));
    table.insert("x".to_string(), "A".to_string());
    table.insert("y".to_string(), "B".to_string());
    table.insert("x".to_string(), "C".to_string());
    assert_eq!(table.get("x").as_deref(), Some("C"));
    assert_eq!(table.get("y").as_deref(), Some("B"));
    table.insert_if_absent("x".to_string(), "D".to_string());
    table.insert_if_absent("z".to_string(), "E".to_string());
    assert_eq!(table.get("x").as_deref(), Some("C"));
    assert_eq!(table.get("z").as_deref(), Some("E"));
    assert_eq!(table.resolve("z"), "E");
    assert_eq!(table.resolve("w"), "w");
    assert!(table.contains("z"));
}

#[test]
fn small_items() {
    assert_eq!(SymbolKind::default(), SymbolKind::Global);
    assert_eq!(ClassRecordKind::default(), ClassRecordKind::Class);
    let root = ProjectRoot { file_path: Some("/srv/project".to_string()) };
    assert_eq!(root.get_project_path(), Ok("/srv/project".to_string()));
    let none = ProjectRoot { file_path: None };
    assert_eq!(none.get_project_path(), Err(ProjectPathError::InvalidRootUri));
    let bytes: &[u8] = b"<?php";
    assert_eq!(TextDocument::as_bytes(&bytes), b"<?php");
    assert!(is_source_extension("php"));
    assert!(!is_source_extension("PHP"));
    assert!(!is_source_extension("php5"));
    assert!(!is_source_extension(""));
    let copy = row(3, "A", "u").clone();
    assert_eq!((copy.id, copy.fqn.as_str(), copy.location.uri.as_str()), (3, "A", "u"));
}
