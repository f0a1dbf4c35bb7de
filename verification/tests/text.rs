use php_ls::comment::describe;
use php_ls::location::{to_location, Position, TextRange};
use php_ls::syntax::{text_at, text_or_empty};
use php_ls::text::{
    append, chars_of, has_prefix, is_whitespace, join, lines_of, same_text, trim_text,
};
use php_ls::utils::PositionInRange;
use tree_sitter::{Point, Range};

fn range(start_byte: usize, end_byte: usize, start: (usize, usize), end: (usize, usize)) -> Range {
    Range {
        start_byte,
        end_byte,
        start_point: Point { row: start.0, column: start.1 },
        end_point: Point { row: end.0, column: end.1 },
    }
}

fn by_std(comment: &str) -> String {
    let lines: Vec<&str> = comment
        .split("\n")
        .map(|x| x.trim())
        .filter(|&x| !x.starts_with("* @") && !x.starts_with("/**") && !x.starts_with("*/"))
        .map(|x| if x.len() > 1 { x[1..].trim() } else { "" })
        .collect();
    lines.join("\n")
}

#[test]
fn white_space_is_that_of_std() {
    let mut n: u32 = 0;
    while n <= 0x10FFFF {
        if let Some(c) = char::from_u32(n) {
            assert_eq!(is_whitespace(c), c.is_whitespace(), "U+{:04X}", n);
        }
        n += 1;
    }
}

#[test]
fn trimming() {
    assert_eq!(trim_text(" \t a b \n"), "a b");
    assert_eq!(trim_text("\u{3000}x\u{a0}"), "x");
    assert_eq!(trim_text("   "), "");
    assert_eq!(trim_text(""), "");
    assert_eq!(trim_text("a"), "a");
    assert_eq!(trim_text("\u{e9}t\u{e9} "), "\u{e9}t\u{e9}");
}

#[test]
fn lines_and_joining() {
    assert_eq!(lines_of("a\nb\n"), vec!["a", "b", ""]);
    assert_eq!(lines_of(""), vec![""]);
    assert_eq!(lines_of("\n"), vec!["", ""]);
    assert_eq!(lines_of("one"), vec!["one"]);
    assert_eq!(join(&vec!["a".to_string(), "b".to_string()]), "a\nb");
    assert_eq!(join(&vec![]), "");
    assert_eq!(join(&vec!["a".to_string()]), "a");
    assert_eq!(join(&vec!["".to_string(), "".to_string()]), "\n");
    assert_eq!(join(&lines_of("x\n\u{e9}\n\nz")), "x\n\u{e9}\n\nz");
}

#[test]
fn prefixes_and_small_things() {
    assert!(has_prefix("* @x", "* @"));
    assert!(!has_prefix("*", "* @"));
    assert!(!has_prefix("* x", "* @"));
    assert!(has_prefix("x", ""));
    assert!(has_prefix("", ""));
    assert!(same_text("comment", "comment"));
    assert!(!same_text("comment", "Comment"));
    assert_eq!(append("a", "::b"), "a::b");
    assert_eq!(chars_of("h\u{e9}"), vec!['h', '\u{e9}']);
}

#[test]
fn descriptions() {
    assert_eq!(describe("/**\n * A\n *\n * B\n * @param x\n */"), "A\n\nB");
    assert_eq!(describe(""), "");
    assert_eq!(describe("/** one line */"), "");
    assert_eq!(describe("// plain"), "/ plain");
    assert_eq!(describe("*"), "");
    assert_eq!(describe("ab"), "b");
    assert_eq!(describe("/**\n     * Indented.\n     *   More.  \n     */"), "Indented.\nMore.");
    assert_eq!(describe("\u{e9}"), "");
    for comment in [
        "/**\n * A\n *\n * B\n * @param x\n */",
        "/**\r\n * Windows\r\n * @return int\r\n */",
        "/*\n plain block\n*/",
        "# hash\n",
        "/**\n * @deprecated\n *@see x\n * * item\n*/",
        "",
        "\n\n",
    ] {
        assert_eq!(describe(comment), by_std(comment), "{:?}", comment);
    }
}

#[test]
fn text_of_a_range() {
    let source = "h\u{e9}llo".as_bytes();
    assert_eq!(text_at(source, &range(0, 3, (0, 0), (0, 3))).as_deref(), Some("h\u{e9}"));
    assert_eq!(text_at(source, &range(0, 2, (0, 0), (0, 2))), None);
    assert_eq!(text_at(source, &range(0, 7, (0, 0), (0, 7))), None);
    assert_eq!(text_at(source, &range(3, 1, (0, 0), (0, 0))), None);
    assert_eq!(text_at(source, &range(6, 6, (0, 6), (0, 6))).as_deref(), Some(""));
    assert_eq!(text_at(&[0xff, 0x41], &range(0, 2, (0, 0), (0, 2))), None);
    assert_eq!(text_at(&[0xed, 0xa0, 0x80], &range(0, 3, (0, 0), (0, 3))), None);
    assert_eq!(text_or_empty(source, &range(0, 2, (0, 0), (0, 2))), "");
    assert_eq!(text_or_empty(source, &range(3, 6, (0, 3), (0, 6))), "llo");
}

#[test]
fn locations_and_positions() {
    let r = range(10, 20, (3, 4), (5, 6));
    let location = to_location(&r, "file:///a.php");
    assert_eq!(location.uri, "file:///a.php");
    assert_eq!(
        location.range,
        TextRange {
            start: Position { line: 3, character: 4 },
            end: Position { line: 5, character: 6 }
        }
    );
    let token = range(0, 3, (2, 4), (2, 7));
    assert!(token.includes(&Position { line: 2, character: 4 }));
    assert!(token.includes(&Position { line: 2, character: 7 }));
    assert!(!token.includes(&Position { line: 2, character: 3 }));
    assert!(!token.includes(&Position { line: 2, character: 8 }));
    assert!(!token.includes(&Position { line: 1, character: 5 }));
    assert!(!r.includes(&Position { line: 3, character: 5 }));
    assert!(!r.includes(&Position { line: 4, character: 5 }));
}
