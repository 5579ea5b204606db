use line_editor::tree::{child_prefix, sort_entries, tree_line};
use line_editor::error::AppError;
use line_editor::parse::{parse_pos, parse_pos_usize, parse_range_spec, parse_usize, trim};
use line_editor::router::{command_of_words, parse_command, Router};

#[test]
fn parse_usize_reads_decimal() {
    assert_eq!(parse_usize("0"), Some(0));
    assert_eq!(parse_usize("42"), Some(42));
    assert_eq!(parse_usize("+7"), Some(7));
    assert_eq!(parse_usize("007"), Some(7));
    assert_eq!(parse_usize(""), None);
    assert_eq!(parse_usize("+"), None);
    assert_eq!(parse_usize("-1"), None);
    assert_eq!(parse_usize("1a"), None);
    assert_eq!(parse_usize(" 1"), None);
    assert_eq!(parse_usize("18446744073709551615"), Some(usize::MAX));
    assert_eq!(parse_usize("18446744073709551616"), None);
    assert_eq!(parse_usize("184467440737095516160x"), None);
}

#[test]
fn parse_pos_reads_line_and_column() {
    assert_eq!(parse_pos("3:4").unwrap(), (3, 4));
    assert_eq!(parse_pos("0:0").unwrap(), (0, 0));
    for bad in ["3", "3:", ":4", "3:4:5", "a:1", "1:b", ""] {
        assert!(matches!(parse_pos(bad), Err(AppError::InvalidArgs(_))), "{}", bad);
    }
}

#[test]
fn parse_pos_usize_rejects_zero() {
    assert_eq!(parse_pos_usize("5").unwrap(), 5);
    assert!(matches!(parse_pos_usize("0"), Err(AppError::InvalidArgs(_))));
    assert!(matches!(parse_pos_usize("x"), Err(AppError::InvalidArgs(_))));
}

#[test]
fn parse_range_spec_forms() {
    assert_eq!(parse_range_spec("4").unwrap(), (Some(4), None));
    assert_eq!(parse_range_spec(" 2:5 ").unwrap(), (Some(2), Some(5)));
    assert_eq!(parse_range_spec("2:").unwrap(), (Some(2), None));
    assert_eq!(parse_range_spec(":5").unwrap(), (None, Some(5)));
    assert_eq!(parse_range_spec(" 2 : 5").unwrap(), (Some(2), Some(5)));
    assert_eq!(parse_range_spec(":").unwrap(), (None, None));
    assert!(matches!(parse_range_spec("0:3"), Err(AppError::InvalidArgs(_))));
    assert!(matches!(parse_range_spec("a"), Err(AppError::InvalidArgs(_))));
    assert!(matches!(parse_range_spec(""), Err(AppError::InvalidArgs(_))));
}

#[test]
fn parse_command_splits_words() {
    let (cmd, args) = parse_command("insert 1:1 \"hello world\"").unwrap();
    assert_eq!(cmd, "insert");
    assert_eq!(args, vec!["1:1".to_string(), "hello world".to_string()]);
    let (cmd, args) = parse_command("   ").unwrap();
    assert_eq!(cmd, "");
    assert!(args.is_empty());
    assert!(matches!(parse_command("append \"open"), Err(AppError::InvalidArgs(_))));
}

#[test]
fn command_of_words_takes_first_word() {
    let (cmd, args) = command_of_words(vec!["a".to_string(), "b".to_string(), "c".to_string()]);
    assert_eq!(cmd, "a");
    assert_eq!(args, vec!["b".to_string(), "c".to_string()]);
    let (cmd, args) = command_of_words(Vec::new());
    assert_eq!(cmd, "");
    assert!(args.is_empty());
}

#[test]
fn router_resolves_known_commands() {
    let router = Router::new();
    let (cmd, args) = router.resolve("delete 2:3 4").unwrap();
    assert_eq!(cmd, "delete");
    assert_eq!(args, vec!["2:3".to_string(), "4".to_string()]);
    let (cmd, _) = router.resolve("editor-list").unwrap();
    assert_eq!(cmd, "editor-list");
    assert!(matches!(router.resolve("frobnicate x"), Err(AppError::UnknownCommand(_))));
    assert!(matches!(router.resolve(""), Err(AppError::UnknownCommand(_))));
    assert!(matches!(router.resolve("load 'a"), Err(AppError::InvalidArgs(_))));
}

#[test]
fn trim_removes_unicode_white_space() {
    assert_eq!(trim("  a b \t\n"), "a b");
    assert_eq!(trim("\u{3000}x\u{a0}"), "x");
    assert_eq!(trim(" \u{2003} "), "");
    assert_eq!(trim("\u{200b}y"), "\u{200b}y");
    assert_eq!(parse_range_spec("\u{3000}3 :\u{85}4").unwrap(), (Some(3), Some(4)));
}

#[test]
fn tree_entries_list_directories_first_then_by_name() {
    let entries = vec![
        ("b.txt".to_string(), false),
        ("src".to_string(), true),
        ("a.txt".to_string(), false),
        ("docs".to_string(), true),
        ("B".to_string(), false),
    ];
    let sorted: Vec<(String, bool)> = sort_entries(entries);
    let names: Vec<&str> = sorted.iter().map(|e| e.0.as_str()).collect();
    assert_eq!(names, vec!["docs", "src", "B", "a.txt", "b.txt"]);
    assert_eq!(tree_line("│   ", true, "x"), "│   └── x\n");
    assert_eq!(tree_line("", false, "y"), "├── y\n");
    assert_eq!(child_prefix("", true), "    ");
    assert_eq!(child_prefix("    ", false), "    │   ");
}
