use php_ls::db::{ClassRecord, IndexError, Saved, SymbolIndex};
use php_ls::like::like_matches;
use php_ls::location::{Location, Position, TextRange};

fn record(fqn: &str, uri: &str, line: u32) -> ClassRecord {
    ClassRecord {
        id: 0,
        fqn: fqn.to_string(),
        description: format!("about {}", fqn),
        attributes: None,
        parameters: Some("()".to_string()),
        return_type: None,
        location: Location {
            uri: uri.to_string(),
            range: TextRange {
                start: Position { line, character: 4 },
                end: Position { line, character: 9 },
            },
        },
    }
}

#[test]
fn prefix_lookup_keeps_to_the_class() {
    let mut index = SymbolIndex::new();
    index.save_row(&record("Foo::bar", "file:///a.php", 1)).unwrap();
    index.save_row(&record("FooBar::qux", "file:///a.php", 2)).unwrap();
    index.save_row(&record("Foo::baz", "file:///a.php", 3)).unwrap();
    let found = index.find_by_fqn_like("Foo::%");
    let names: Vec<&str> = found.iter().map(|r| r.fqn.as_str()).collect();
    assert_eq!(names, vec!["Foo::bar", "Foo::baz"]);
    assert_eq!(index.find_one_by_fqn_like("Foo::%").unwrap().fqn, "Foo::bar");
    assert_eq!(index.find_one_by_fqn_like("Nope::%").err(), Some(IndexError::RowNotFound));
}

#[test]
fn saving_twice_moves_the_row() {
    let mut index = SymbolIndex::new();
    assert_eq!(index.save_row(&record("\\N\\C", "file:///a.php", 1)), Ok(Saved::Inserted(1)));
    let mut again = record("\\N\\C", "file:///a.php", 7);
    again.description = "changed".to_string();
    again.parameters = None;
    assert_eq!(index.save_row(&again), Ok(Saved::Updated(1)));
    let found = index.find_by_fqn("\\N\\C");
    assert_eq!(found.len(), 1);
    assert_eq!(found[0].id, 1);
    assert_eq!(found[0].location.range.start.line, 7);
    assert_eq!(found[0].location.range.end, Position { line: 7, character: 9 });
    assert_eq!(found[0].description, "about \\N\\C");
    assert_eq!(found[0].parameters.as_deref(), Some("()"));
    assert_eq!(index.len(), 1);
}

#[test]
fn same_name_in_two_documents_gives_two_rows() {
    let mut index = SymbolIndex::new();
    assert_eq!(index.save_row(&record("\\N\\C", "file:///a.php", 1)), Ok(Saved::Inserted(1)));
    assert_eq!(index.save_row(&record("\\N\\C", "file:///b.php", 2)), Ok(Saved::Inserted(2)));
    let found = index.find_by_fqn("\\N\\C");
    assert_eq!(found.len(), 2);
    assert_eq!(found[0].location.uri, "file:///a.php");
    assert_eq!(found[1].location.uri, "file:///b.php");
    assert_eq!(index.find_one_by_fqn("\\N\\C").unwrap().id, 1);
    assert_eq!(index.find_one_by_fqn("\\N\\D").err(), Some(IndexError::RowNotFound));
    assert_eq!(index.get_all().len(), 2);
}

#[test]
fn no_id_left() {
    let mut index = SymbolIndex::new();
    let mut last = record("A", "file:///a.php", 1);
    last.id = 5;
    index.save_row(&last).unwrap();
    assert_eq!(index.get_all()[0].id, 1);
    let rows = vec![record("B", "file:///a.php", 1), record("A", "file:///a.php", 3)];
    assert_eq!(index.save_rows(&rows), 0);
    assert_eq!(index.len(), 2);
    assert_eq!(index.get_all()[1].id, 2);
}

#[test]
fn clean_then_repopulate_gives_the_same_rows() {
    let rows = vec![
        record("\\N\\C", "file:///a.php", 1),
        record("\\N\\C::m", "file:///a.php", 2),
        record("\\N\\C", "file:///a.php", 5),
    ];
    let mut index = SymbolIndex::new();
    index.save_rows(&rows);
    let first: Vec<(u32, String, u32)> =
        index.get_all().iter().map(|r| (r.id, r.fqn.clone(), r.location.range.start.line)).collect();
    index.clean_index();
    assert_eq!(index.len(), 0);
    index.save_rows(&rows);
    let second: Vec<(u32, String, u32)> =
        index.get_all().iter().map(|r| (r.id, r.fqn.clone(), r.location.range.start.line)).collect();
    assert_eq!(first, second);
    assert_eq!(first, vec![(1, "\\N\\C".to_string(), 5), (2, "\\N\\C::m".to_string(), 2)]);
}

#[test]
fn like_patterns() {
    assert!(like_matches("Foo::%", "Foo::bar"));
    assert!(like_matches("Foo::%", "Foo::"));
    assert!(!like_matches("Foo::%", "FooBar::qux"));
    assert!(like_matches("foo::%", "FOO::Bar"));
    assert!(like_matches("%", ""));
    assert!(like_matches("", ""));
    assert!(!like_matches("", "a"));
    assert!(like_matches("_", "a"));
    assert!(!like_matches("_", ""));
    assert!(!like_matches("_", "ab"));
    assert!(like_matches("%a%b%", "xxaxxbxx"));
    assert!(!like_matches("%a%b%", "xxbxxaxx"));
    assert!(like_matches("a_c", "abc"));
    assert!(like_matches("\\N\\C::%", "\\N\\C::m"));
    assert!(!like_matches("\u{e9}", "\u{c9}"));
    assert!(like_matches("\u{e9}%", "\u{e9}t\u{e9}"));
}

#[test]
fn the_class_around_a_method() {
    let mut index = SymbolIndex::new();
    let mut class = record("\\N\\C", "file:///a.php", 2);
    class.location.range.end.line = 10;
    index.save_row(&class).unwrap();
    index.save_row(&record("\\N\\C::m", "file:///a.php", 5)).unwrap();
    let method = record("\\N\\C::m", "file:///a.php", 5).location;
    assert_eq!(index.get_class_by_method_location(&method).unwrap().fqn, "\\N\\C");
    let below = record("x", "file:///a.php", 11).location;
    assert_eq!(index.get_class_by_method_location(&below).err(), Some(IndexError::RowNotFound));
    let elsewhere = record("x", "file:///b.php", 5).location;
    assert_eq!(index.get_class_by_method_location(&elsewhere).err(), Some(IndexError::RowNotFound));
}
