use php_ls::completion::{completion_item, completion_receiver, get_completions};
use php_ls::db::{ClassRecord, SymbolIndex};
use php_ls::hover::{get_hover, hover_target, HoverTarget};
use php_ls::location::{Location, Position, TextRange};
use php_ls::server::{
    classify_notification, classify_request, get_definition, NotificationKind, RequestKind,
    ServerState,
};

fn at(line: u32, character: u32) -> Position {
    Position { line, character }
}

fn method(fqn: &str, parameters: &str, return_type: Option<&str>, line: u32) -> ClassRecord {
    ClassRecord {
        id: 0,
        fqn: fqn.to_string(),
        description: format!("Does {}.", fqn),
        attributes: None,
        parameters: Some(parameters.to_string()),
        return_type: return_type.map(|t| t.to_string()),
        location: Location {
            uri: "file:///src/Foo.php".to_string(),
            range: TextRange { start: at(line, 20), end: at(line, 23) },
        },
    }
}

fn foo_index() -> SymbolIndex {
    let mut index = SymbolIndex::new();
    index.save_row(&method("Foo::bar", "(int $a)", Some("int"), 3)).unwrap();
    index.save_row(&method("Foo::baz", "()", None, 9)).unwrap();
    index.save_row(&method("FooBar::qux", "()", None, 1)).unwrap();
    index
}

#[test]
fn definition_of_a_method_on_a_typed_variable() {
    let index = foo_index();
    let source = b"$x = new Foo();\n$x->bar();";
    let found = get_definition(&index, source, &at(1, 5));
    assert_eq!(found.len(), 1);
    assert_eq!(found[0].uri, "file:///src/Foo.php");
    assert_eq!(found[0].range, TextRange { start: at(3, 20), end: at(3, 23) });
    assert!(get_definition(&index, source, &at(0, 1)).is_empty());
}

#[test]
fn completion_offers_the_methods_of_the_class() {
    let index = foo_index();
    let source = b"$x = new Foo();\n$x->";
    assert_eq!(completion_receiver(source, &at(1, 4)).as_deref(), Some("Foo"));
    let items = get_completions(&index, source, &at(1, 4));
    let labels: Vec<&str> = items.iter().map(|i| i.label.as_str()).collect();
    assert_eq!(labels, vec!["bar", "baz"]);
    assert_eq!(items[0].detail.as_deref(), Some("bar(int $a): int"));
    assert_eq!(items[0].insert_text, "bar()");
    assert_eq!(items[0].documentation, "Does Foo::bar.");
    assert_eq!(items[1].detail, None);
    assert!(get_completions(&index, source, &at(0, 1)).is_empty());
}

#[test]
fn completion_label_of_a_short_name_is_empty() {
    let item = completion_item("Foo", &method("Fo", "()", Some("void"), 0));
    assert_eq!(item.label, "");
    assert_eq!(item.insert_text, "()");
    assert_eq!(item.detail.as_deref(), Some("(): void"));
}

#[test]
fn hover_on_a_method_call() {
    let index = foo_index();
    let source = b"$x = new Foo();\n$x->bar(1);";
    let hover = get_hover(&index, source, &at(1, 1)).unwrap();
    assert_eq!(hover.language, "php");
    assert_eq!(hover.signature, "<?php function bar(int $a): int ?>\n\n---");
    assert_eq!(hover.description, "Does Foo::bar.");
    assert!(get_hover(&index, source, &at(0, 1)).is_none());
    let baz = get_hover(&index, b"$x = new Foo();\n$x->baz();", &at(1, 5)).unwrap();
    assert_eq!(baz.signature, "<?php function baz() ?>\n\n---");
    assert!(get_hover(&index, b"$x = new Foo();\n$x->nope();", &at(1, 5)).is_none());
}

#[test]
fn hover_on_a_class() {
    let mut index = SymbolIndex::new();
    let mut class = method("App\\Services\\Foo", "", None, 2);
    class.parameters = None;
    class.description = "A service.".to_string();
    index.save_row(&class).unwrap();
    let source = b"use App\\Services\\Foo;\n$x = new Foo();";
    match hover_target(source, &at(1, 10)) {
        Some(HoverTarget::Class { fqn }) => assert_eq!(fqn, "App\\Services\\Foo"),
        other => panic!("{:?}", other),
    }
    let hover = get_hover(&index, source, &at(1, 10)).unwrap();
    assert_eq!(hover.signature, "<?php\nnamespace App\\Services\nclass Foo\n---");
    assert_eq!(hover.description, "A service.");
    assert!(get_hover(&index, b"$x = new Foo();", &at(0, 10)).is_none());
}

#[test]
fn requests_and_notifications() {
    assert_eq!(classify_request("textDocument/hover"), RequestKind::Hover);
    assert_eq!(classify_request("textDocument/didSave"), RequestKind::DidSave);
    assert_eq!(classify_request("textDocument/completion"), RequestKind::Completion);
    assert_eq!(classify_request("textDocument/definition"), RequestKind::Definition);
    assert_eq!(classify_request("textDocument/rename"), RequestKind::Unsupported);
    assert_eq!(classify_notification("textDocument/didChange"), NotificationKind::DidChange);
    assert_eq!(classify_notification("textDocument/didOpen"), NotificationKind::DidOpen);
    assert_eq!(classify_notification("initialized"), NotificationKind::Other);
}

#[test]
fn a_change_replaces_the_buffer() {
    let index = foo_index();
    let mut state = ServerState::new();
    assert_eq!(state.current_buffer, "");
    state.on_did_open("$x = new Foo();\n$x->bar();".to_string());
    assert!(state.get_hover(&index, &at(1, 5)).is_some());
    state.on_did_change(&vec!["$x = new Foo();\n$x->".to_string(), "ignored".to_string()]);
    assert_eq!(state.current_buffer, "$x = new Foo();\n$x->");
    assert_eq!(state.get_completions(&index, &at(1, 4)).len(), 2);
    state.on_did_change(&vec![]);
    assert_eq!(state.current_buffer, "");
    assert_eq!(index.len(), 3);
}

#[test]
fn names_from_the_root_and_names_as_written() {
    let declaring = b"<?php\nnamespace App;\nclass Foo { function bar() {} }\n";
    let using = b"<?php\nuse App\\Foo;\n$x = new Foo();\n$x->bar();\n";
    let asking = b"<?php\nuse App\\Foo;\n$x = new Foo();\n$x->";
    assert_eq!(completion_receiver(asking, &at(3, 4)).as_deref(), Some("App\\Foo"));
    let mut index = SymbolIndex::new();
    let records =
        php_ls::indexer::class_declaration::records_of_document(declaring, "file:///src/Foo.php")
            .unwrap();
    assert_eq!(index.save_rows(&records), 0);
    assert_eq!(index.get_all()[1].fqn, "\\App\\Foo::bar");
    let name = php_ls::resolver::search_member_call_expressions(using, &at(3, 5));
    assert_eq!(name.as_deref(), Some("App\\Foo::bar"));
    assert!(get_definition(&index, using, &at(3, 5)).is_empty());
    assert!(get_hover(&index, using, &at(3, 5)).is_none());
    assert!(get_completions(&index, asking, &at(3, 4)).is_empty());
    index.save_row(&method("App\\Foo::bar", "()", None, 2)).unwrap();
    assert_eq!(get_definition(&index, using, &at(3, 5)).len(), 1);
    assert!(get_hover(&index, using, &at(3, 5)).is_some());
    assert_eq!(get_completions(&index, asking, &at(3, 4)).len(), 1);
}
