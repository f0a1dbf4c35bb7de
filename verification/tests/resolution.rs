use php_ls::location::Position;
use php_ls::resolver::{index_current_buffer, search_member_call_expressions};

fn at(line: u32, character: u32) -> Position {
    Position { line, character }
}

#[test]
fn alias_gives_the_type_of_a_variable() {
    let source = b"use App\\Services\\Foo as F;\n$x = new F();";
    let tables = index_current_buffer(source).unwrap();
    assert_eq!(tables.namespaces.get("F").as_deref(), Some("App\\Services\\Foo"));
    assert_eq!(tables.namespaces.get("Foo"), None);
    assert_eq!(tables.variables.get("x").as_deref(), Some("App\\Services\\Foo"));
}

#[test]
fn first_assignment_wins() {
    let source = b"$x = new A(); $x = new B();";
    let tables = index_current_buffer(source).unwrap();
    assert_eq!(tables.variables.get("x").as_deref(), Some("A"));
}

#[test]
fn qualified_construction_is_resolved_through_the_aliases() {
    let source = b"<?php\nuse App\\Services\\Foo as F;\n$a = new F\\Bar();\n$b = new Other\\Baz();\n";
    let tables = index_current_buffer(source).unwrap();
    assert_eq!(tables.variables.get("a").as_deref(), Some("App\\Services\\Foo\\Bar"));
    assert_eq!(tables.variables.get("b").as_deref(), Some("Other\\Baz"));
}

#[test]
fn cursor_on_method_of_typed_variable() {
    let source = b"$x = new Foo();\n$x->bar();";
    assert_eq!(search_member_call_expressions(source, &at(1, 5)).as_deref(), Some("Foo::bar"));
    assert_eq!(search_member_call_expressions(source, &at(1, 4)).as_deref(), Some("Foo::bar"));
    assert_eq!(search_member_call_expressions(source, &at(1, 7)).as_deref(), Some("Foo::bar"));
    assert_eq!(search_member_call_expressions(source, &at(1, 1)), None);
    assert_eq!(search_member_call_expressions(source, &at(1, 9)), None);
    assert_eq!(search_member_call_expressions(source, &at(3, 5)), None);
}

#[test]
fn inline_construction_and_static_calls() {
    let source = b"<?php\nuse App\\Foo;\n(new Foo())->bar();\nFoo::baz();\n(new \\Lib\\Qux())->run();\n$y = new Foo();\nnew Lib\\Thing();\nUnknown::call();\n";
    assert_eq!(search_member_call_expressions(source, &at(2, 6)).as_deref(), Some("App\\Foo"));
    assert_eq!(search_member_call_expressions(source, &at(2, 14)).as_deref(), Some("App\\Foo::bar"));
    assert_eq!(search_member_call_expressions(source, &at(3, 1)).as_deref(), Some("App\\Foo"));
    assert_eq!(search_member_call_expressions(source, &at(3, 6)).as_deref(), Some("App\\Foo::baz"));
    assert_eq!(search_member_call_expressions(source, &at(4, 11)).as_deref(), Some("Lib\\Qux"));
    assert_eq!(search_member_call_expressions(source, &at(4, 18)).as_deref(), Some("Lib\\Qux::run"));
    assert_eq!(search_member_call_expressions(source, &at(5, 10)).as_deref(), Some("App\\Foo"));
    assert_eq!(search_member_call_expressions(source, &at(6, 9)).as_deref(), Some("Lib\\Thing"));
    assert_eq!(search_member_call_expressions(source, &at(7, 2)), None);
    assert_eq!(search_member_call_expressions(source, &at(7, 10)), None);
}
