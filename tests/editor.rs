use line_editor::commands::{
    AppendLineCommand, DeleteTextCommand, DocCommand, InsertTextCommand, ReplaceTextCommand,
};
use line_editor::editor::Editor;
use line_editor::error::AppError;

fn lines(ed: &Editor) -> Vec<String> {
    let text = ed.to_string();
    if ed.count_lines() == 0 {
        return Vec::new();
    }
    text.split('\n').map(|s| s.to_string()).collect()
}

fn insert(line: usize, col: usize, text: &str) -> DocCommand {
    DocCommand::Insert(InsertTextCommand::new(line, col, text.to_string()).unwrap())
}

fn append(text: &str) -> DocCommand {
    DocCommand::Append(AppendLineCommand::new(text.to_string()).unwrap())
}

fn delete(line: usize, col: usize, len: usize) -> DocCommand {
    DocCommand::Delete(DeleteTextCommand::new(line, col, len).unwrap())
}

fn replace(line: usize, col: usize, len: usize, text: &str) -> DocCommand {
    DocCommand::Replace(ReplaceTextCommand::new(line, col, len, text.to_string()).unwrap())
}

fn is_invalid<T>(r: &Result<T, AppError>) -> bool {
    matches!(r, Err(AppError::InvalidArgs(_)))
}

#[test]
fn insert_append_undo_redo_scenario() {
    let mut ed = Editor::new();
    ed.exec_doc(insert(1, 1, "hello")).unwrap();
    assert_eq!(lines(&ed), vec!["hello"]);
    ed.exec_doc(append("world")).unwrap();
    assert_eq!(lines(&ed), vec!["hello", "world"]);
    ed.undo().unwrap();
    assert_eq!(lines(&ed), vec!["hello"]);
    ed.undo().unwrap();
    assert_eq!(ed.count_lines(), 0);
    assert!(lines(&ed).is_empty());
    ed.redo().unwrap();
    ed.redo().unwrap();
    assert_eq!(lines(&ed), vec!["hello", "world"]);
}

#[test]
fn delete_scenario_with_peek() {
    let mut ed = Editor::new();
    ed.append_line("hello");
    assert_eq!(ed.peek_text(1, 1, 2).unwrap(), "he");
    ed.exec_doc(delete(1, 1, 2)).unwrap();
    assert_eq!(lines(&ed), vec!["llo"]);
    ed.undo().unwrap();
    assert_eq!(lines(&ed), vec!["hello"]);
}

#[test]
fn execute_then_undo_restores_every_command() {
    let mut ed = Editor::new();
    ed.load_from("alpha\nbeta\ngamma");
    let before = lines(&ed);
    for cmd in vec![
        insert(2, 3, "XY"),
        append("delta"),
        delete(3, 2, 3),
        replace(1, 1, 5, "omega!"),
    ] {
        ed.exec_doc(cmd).unwrap();
        assert_ne!(lines(&ed), before);
        ed.undo().unwrap();
        assert_eq!(lines(&ed), before);
    }
}

#[test]
fn replace_changes_exact_bytes() {
    let mut ed = Editor::new();
    ed.append_line("hello world");
    ed.exec_doc(replace(1, 7, 5, "there")).unwrap();
    assert_eq!(lines(&ed), vec!["hello there"]);
    ed.exec_doc(replace(1, 1, 1, "J")).unwrap();
    assert_eq!(lines(&ed), vec!["Jello there"]);
}

#[test]
fn redo_after_undo_replays_execute() {
    let mut ed = Editor::new();
    ed.load_from("one two");
    ed.exec_doc(replace(1, 5, 3, "2")).unwrap();
    let after = lines(&ed);
    assert_eq!(after, vec!["one 2"]);
    ed.undo().unwrap();
    assert_eq!(lines(&ed), vec!["one two"]);
    ed.redo().unwrap();
    assert_eq!(lines(&ed), after);
}

#[test]
fn stacks_move_in_step() {
    let mut ed = Editor::new();
    ed.exec_doc(append("a")).unwrap();
    ed.exec_doc(append("b")).unwrap();
    ed.undo().unwrap();
    assert_eq!(lines(&ed), vec!["a"]);
    // exactly one command to redo
    ed.redo().unwrap();
    assert!(is_invalid(&ed.redo()));
    ed.undo().unwrap();
    // exactly one command left to undo
    ed.undo().unwrap();
    assert!(is_invalid(&ed.undo()));
    ed.redo().unwrap();
    ed.exec_doc(append("c")).unwrap();
    assert!(is_invalid(&ed.redo()));
    assert_eq!(lines(&ed), vec!["a", "c"]);
}

#[test]
fn nothing_to_undo_or_redo() {
    let mut ed = Editor::new();
    assert!(is_invalid(&ed.undo()));
    assert!(is_invalid(&ed.redo()));
}

#[test]
fn insert_range_validation() {
    let mut ed = Editor::new();
    assert!(is_invalid(&ed.insert_text(1, 2, "x")));
    assert!(is_invalid(&ed.insert_text(2, 1, "x")));
    assert!(is_invalid(&ed.insert_text(1, 0, "x")));
    assert_eq!(ed.count_lines(), 0);
    ed.insert_text(1, 1, "abc").unwrap();
    assert_eq!(lines(&ed), vec!["abc"]);
    assert!(is_invalid(&ed.insert_text(1, 0, "x")));
    assert!(is_invalid(&ed.insert_text(1, 5, "x")));
    assert!(is_invalid(&ed.insert_text(0, 1, "x")));
    assert!(is_invalid(&ed.insert_text(2, 1, "x")));
    assert!(is_invalid(&ed.insert_text(1, 1, "a\nb")));
    ed.insert_text(1, 4, "!").unwrap();
    assert_eq!(lines(&ed), vec!["abc!"]);
    assert!(ed.is_modified());
}

#[test]
fn delete_boundary() {
    let mut ed = Editor::new();
    ed.append_line("hello");
    ed.set_modified(false);
    assert!(is_invalid(&ed.delete_text(1, 4, 3)));
    assert!(is_invalid(&ed.delete_text(1, 6, 1)));
    assert!(is_invalid(&ed.delete_text(1, 0, 1)));
    assert!(is_invalid(&ed.delete_text(2, 1, 1)));
    ed.delete_text(1, 2, 0).unwrap();
    assert!(!ed.is_modified());
    assert_eq!(lines(&ed), vec!["hello"]);
    ed.delete_text(1, 4, 2).unwrap();
    assert_eq!(lines(&ed), vec!["hel"]);
    assert!(ed.is_modified());
}

#[test]
fn peek_reads_without_change() {
    let mut ed = Editor::new();
    ed.append_line("abcdef");
    assert_eq!(ed.peek_text(1, 3, 0).unwrap(), "");
    assert_eq!(ed.peek_text(1, 3, 4).unwrap(), "cdef");
    assert!(is_invalid(&ed.peek_text(1, 3, 5)));
    assert_eq!(lines(&ed), vec!["abcdef"]);
}

#[test]
fn byte_offsets_respect_characters() {
    let mut ed = Editor::new();
    ed.append_line("héllo");
    // "é" takes bytes 1..3
    assert!(is_invalid(&ed.delete_text(1, 3, 1)));
    ed.delete_text(1, 2, 2).unwrap();
    assert_eq!(lines(&ed), vec!["hllo"]);
}

#[test]
fn pop_line_on_empty_is_internal_error() {
    let mut ed = Editor::new();
    assert!(matches!(ed.pop_line(), Err(AppError::InternalError(_))));
    ed.append_line("x");
    ed.pop_line().unwrap();
    assert_eq!(ed.count_lines(), 0);
}

#[test]
fn constructors_validate_arguments() {
    assert!(is_invalid(&AppendLineCommand::new(String::new())));
    assert!(is_invalid(&InsertTextCommand::new(1, 1, String::new())));
    assert!(is_invalid(&DeleteTextCommand::new(1, 1, 0)));
    assert!(is_invalid(&ReplaceTextCommand::new(1, 1, 0, "x".to_string())));
    assert!(is_invalid(&ReplaceTextCommand::new(1, 1, 1, String::new())));
}

#[test]
fn undo_before_execute_is_internal_error() {
    let mut ed = Editor::new();
    ed.append_line("abc");
    let cmd = delete(1, 1, 1);
    assert!(matches!(cmd.undo(&mut ed), Err(AppError::InternalError(_))));
    let cmd = replace(1, 1, 1, "z");
    assert!(matches!(cmd.undo(&mut ed), Err(AppError::InternalError(_))));
}

#[test]
fn failed_execute_is_not_recorded() {
    let mut ed = Editor::new();
    ed.append_line("abc");
    assert!(is_invalid(&ed.exec_doc(delete(1, 2, 5))));
    assert!(is_invalid(&ed.undo()));
    assert!(is_invalid(&ed.exec_doc(append("a\nb"))));
    assert_eq!(lines(&ed), vec!["abc"]);
}

#[test]
fn show_numbers_lines() {
    let mut ed = Editor::new();
    ed.load_from("hello\nworld");
    assert_eq!(ed.show(1, 2), "1: hello\n2: world");
    assert_eq!(ed.show(2, 2), "2: world");
    assert_eq!(ed.show(2, 3), "2: world\n3: ");
    assert_eq!(ed.show(3, 2), "");
    ed.load_from("a\nb\nc\nd\ne\nf\ng\nh\ni\nj\nk");
    assert_eq!(ed.show(10, 11), "10: j\n11: k");
}

#[test]
fn load_from_splits_lines() {
    let mut ed = Editor::new();
    ed.set_modified(true);
    ed.load_from("a\r\nb\n\nc\n");
    assert_eq!(ed.count_lines(), 4);
    assert_eq!(ed.to_string(), "a\r\nb\n\nc");
    assert_eq!(ed.peek_text(1, 2, 1).unwrap(), "\r");
    assert!(!ed.is_modified());
    assert!(!ed.logging_enabled());
    ed.load_from("");
    assert_eq!(ed.count_lines(), 0);
    ed.load_from("\n");
    assert_eq!(ed.count_lines(), 1);
    ed.load_from("x\r");
    assert_eq!(ed.to_string(), "x\r");
}

#[test]
fn load_from_reads_log_marker() {
    let mut ed = Editor::new();
    ed.load_from("# log\nbody");
    assert!(ed.logging_enabled());
    ed.load_from("body\n# log");
    assert!(!ed.logging_enabled());
    ed.set_logging(true);
    assert!(ed.logging_enabled());
}

#[test]
fn error_codes() {
    assert_eq!(AppError::UnknownCommand(String::new()).code(), 1001);
    assert_eq!(AppError::InvalidArgs(String::new()).code(), 1002);
    assert_eq!(AppError::InvalidCommand(String::new()).code(), 1003);
    assert_eq!(AppError::Io(String::new()).code(), 2001);
    assert_eq!(AppError::Json(String::new()).code(), 2002);
    assert_eq!(AppError::InternalError(String::new()).code(), 3001);
}

#[test]
fn undo_of_insertion_into_empty_document_removes_the_line() {
    let mut ed = Editor::new();
    ed.exec_doc(insert(1, 1, "x")).unwrap();
    assert_eq!(lines(&ed), vec!["x"]);
    ed.undo().unwrap();
    assert_eq!(ed.count_lines(), 0);
    ed.redo().unwrap();
    assert_eq!(lines(&ed), vec!["x"]);
}

#[test]
fn failing_undo_reports_its_error_kind() {
    let mut ed = Editor::new();
    ed.exec_doc(append("a")).unwrap();
    ed.pop_line().unwrap();
    // the appended line is gone, so taking the append back fails internally
    assert!(matches!(ed.undo(), Err(AppError::InternalError(_))));
    ed.append_line("abc");
    ed.exec_doc(insert(1, 2, "zz")).unwrap();
    ed.delete_text(1, 1, 4).unwrap();
    assert!(is_invalid(&ed.undo()));
    assert!(is_invalid(&ed.redo()));
}
