use line_editor::application::Application;
use line_editor::commands::{AppendLineCommand, DocCommand};
use line_editor::error::AppError;
use line_editor::event::{Event, EventBus, Subscriber};
use line_editor::handlers::{
    cmd_append, cmd_delete, cmd_edit, cmd_exit, cmd_init, cmd_insert, cmd_list, cmd_log_off,
    cmd_log_on, cmd_redo, cmd_replace, cmd_show, cmd_undo, resolve_log_target,
};
use line_editor::logging::Logger;
use line_editor::outcome::Outcome;
use line_editor::persist::{FileFlags, WorkspaceMemento};
use line_editor::router::Router;
use line_editor::session::step_after;
use line_editor::workspace::Workspace;
use std::sync::{Arc, Mutex};

fn args(words: &[&str]) -> Vec<String> {
    words.iter().map(|w| w.to_string()).collect()
}

fn new_app() -> Application {
    Application { router: Router::new(), workspace: Workspace::default(), bus: EventBus::new() }
}

#[test]
fn workspace_starts_empty() {
    let ws = Workspace::default();
    assert!(!ws.has_active());
    assert_eq!(ws.active_file_path(), None);
    assert_eq!(ws.active_modified(), None);
    assert_eq!(ws.get_base_dir(), "work_dir");
    assert_eq!(ws.list().unwrap(), "");
}

#[test]
fn resolve_path_joins_relative_paths() {
    let ws = Workspace::default();
    assert_eq!(ws.resolve_path(Some("foo.txt")), "work_dir/foo.txt");
    assert_eq!(ws.resolve_path(Some("/abs/x.txt")), "/abs/x.txt");
    assert_eq!(ws.resolve_path(None), "work_dir");
}

#[test]
fn init_edit_and_list() {
    let mut ws = Workspace::default();
    ws.init("a.txt", false).unwrap();
    ws.init("b.txt", true).unwrap();
    assert!(matches!(ws.init("a.txt", false), Err(AppError::InvalidArgs(_))));
    assert!(!ws.has_active());
    ws.edit("b.txt").unwrap();
    assert_eq!(ws.list().unwrap(), "  a.txt\n* b.txt [modified]\n");
    assert_eq!(ws.show(None, None).unwrap(), "1: # log");
    assert!(matches!(ws.edit("c.txt"), Err(AppError::InvalidArgs(_))));
    assert_eq!(ws.active_file_path(), Some("b.txt".to_string()));
}

#[test]
fn show_clamps_range() {
    let mut ws = Workspace::default();
    assert!(matches!(ws.show(None, None), Err(AppError::InternalError(_))));
    ws.load("f.txt", "");
    assert_eq!(ws.show(None, None).unwrap(), "<empty>");
    ws.load("f.txt", "a\nb\nc");
    assert_eq!(ws.show(Some(2), None).unwrap(), "2: b\n3: c");
    assert_eq!(ws.show(Some(0), Some(9)).unwrap(), "1: a\n2: b\n3: c");
    assert!(matches!(ws.show(Some(3), Some(2)), Err(AppError::InvalidArgs(_))));
}

#[test]
fn exec_undo_redo_act_on_active_document() {
    let mut ws = Workspace::default();
    let cmd = DocCommand::Append(AppendLineCommand::new("x".to_string()).unwrap());
    assert!(matches!(ws.exec_doc(cmd), Err(AppError::InternalError(_))));
    assert!(matches!(ws.undo(), Err(AppError::InternalError(_))));
    ws.load("f.txt", "first");
    let cmd = DocCommand::Append(AppendLineCommand::new("second".to_string()).unwrap());
    ws.exec_doc(cmd).unwrap();
    assert_eq!(ws.save_file("f.txt").unwrap(), "first\nsecond");
    assert_eq!(ws.active_modified(), Some(true));
    ws.undo().unwrap();
    assert_eq!(ws.save_file("f.txt").unwrap(), "first");
    ws.redo().unwrap();
    assert_eq!(ws.save_file("f.txt").unwrap(), "first\nsecond");
}

#[test]
fn save_and_mark_saved() {
    let mut ws = Workspace::default();
    ws.load("a", "AAAA");
    ws.load("b", "BBBB");
    let all = ws.save_all();
    assert_eq!(all, vec![("a".to_string(), "AAAA".to_string()), ("b".to_string(), "BBBB".to_string())]);
    assert!(matches!(ws.save_file("c"), Err(AppError::InvalidArgs(_))));
    ws.log_on("a").unwrap();
    let m = ws.to_memento();
    assert_eq!(m.open_files[0].1, FileFlags { modified: false, logging: true });
    ws.init("c", false).unwrap();
    ws.edit("c").unwrap();
    let cmd = DocCommand::Append(AppendLineCommand::new("x".to_string()).unwrap());
    ws.exec_doc(cmd).unwrap();
    assert_eq!(ws.active_modified(), Some(true));
    ws.mark_saved("c").unwrap();
    assert_eq!(ws.active_modified(), Some(false));
    assert!(matches!(ws.mark_saved("zz"), Err(AppError::InvalidArgs(_))));
}

#[test]
fn close_removes_active_document() {
    let mut ws = Workspace::default();
    assert!(matches!(ws.close(), Err(AppError::InternalError(_))));
    ws.load("a", "1");
    ws.load("b", "2");
    ws.close().unwrap();
    assert!(!ws.has_active());
    assert_eq!(ws.list().unwrap(), "  a\n");
}

#[test]
fn memento_round_trip() {
    let mut ws = Workspace::default();
    ws.load("a", "x");
    ws.load("b", "y\nz");
    ws.log_on("b").unwrap();
    ws.log_off("b").unwrap();
    ws.log_on("a").unwrap();
    let m = ws.to_memento();
    assert_eq!(m.active, Some("b".to_string()));
    let mut other = Workspace::default();
    other.from_memento(m, &vec!["x".to_string(), "y\nz".to_string()]);
    assert_eq!(other.active_file_path(), Some("b".to_string()));
    assert_eq!(other.save_file("b").unwrap(), "y\nz");
    let m2 = other.to_memento();
    assert_eq!(m2.open_files[0].1, FileFlags { modified: false, logging: true });
    assert_eq!(m2.open_files[1].1, FileFlags { modified: false, logging: false });
    let lost = WorkspaceMemento { open_files: vec![("q".to_string(), FileFlags { modified: true, logging: false })], active: Some("gone".to_string()) };
    other.from_memento(lost, &vec![String::new()]);
    assert!(!other.has_active());
    assert_eq!(other.list().unwrap(), "  q [modified]\n");
}

#[test]
fn log_path_is_hidden_file_in_base_dir() {
    let ws = Workspace::default();
    assert_eq!(ws.log_path("work_dir/main.rs").unwrap(), "work_dir/.main.rs.log");
    assert!(matches!(ws.log_path("/"), Err(AppError::InvalidArgs(_))));
}

#[test]
fn logger_routes_events() {
    let mut logger = Logger::new("base".to_string());
    assert_eq!(logger.logfile_for(&Some("dir/a.txt".to_string())), "base/.a.txt.log");
    assert_eq!(logger.logfile_for(&None), "base/.app.log");
    assert_eq!(logger.log_target(&Event::SessionStart), None);
    let e = Event::Command { file: Some("a.txt".to_string()), cmd: "load a.txt".to_string() };
    assert_eq!(logger.log_target(&e), Some(("base/.a.txt.log".to_string(), true)));
    assert_eq!(logger.log_target(&e), Some(("base/.a.txt.log".to_string(), false)));
    let e = Event::Error { code: 1002, message: "bad".to_string() };
    assert_eq!(logger.log_target(&e), Some(("base/.app.log".to_string(), false)));
}

struct Recorder {
    seen: Arc<Mutex<Vec<String>>>,
    tag: &'static str,
}

impl Subscriber for Recorder {
    fn on_event(&mut self, e: &Event) {
        let name = match e {
            Event::SessionStart => "start".to_string(),
            Event::Command { cmd, .. } => cmd.clone(),
            Event::Error { code, .. } => code.to_string(),
        };
        self.seen.lock().unwrap().push(format!("{}:{}", self.tag, name));
    }
}

#[test]
fn event_bus_reaches_every_subscriber_in_order() {
    let seen = Arc::new(Mutex::new(Vec::new()));
    let mut bus: EventBus = EventBus::new();
    bus.subscribe(Box::new(Recorder { seen: seen.clone(), tag: "a" }));
    bus.subscribe(Box::new(Recorder { seen: seen.clone(), tag: "b" }));
    bus.publish(Event::SessionStart);
    bus.publish(Event::Error { code: 1002, message: "m".to_string() });
    assert_eq!(*seen.lock().unwrap(), vec!["a:start", "b:start", "a:1002", "b:1002"]);
}

#[test]
fn outcomes() {
    let o = Outcome::exit();
    assert!(o.exit);
    assert_eq!(o.print, Some("Goodbye!".to_string()));
    assert_eq!(o.log, Some("exit".to_string()));
    let o = Outcome::print("p".to_string());
    assert_eq!((o.print, o.log, o.exit), (Some("p".to_string()), None, false));
    let o = Outcome::log("l".to_string());
    assert_eq!((o.print, o.log, o.exit), (None, Some("l".to_string()), false));
    let o = Outcome::default();
    assert_eq!((o.print, o.log, o.exit), (None, None, false));
}

#[test]
fn session_commands() {
    let mut app = new_app();
    let o = cmd_init(&mut app, &args(&["notes.txt"])).unwrap();
    assert_eq!(o.print, Some("Initialized notes.txt".to_string()));
    assert_eq!(o.log, Some("init notes.txt".to_string()));
    assert_eq!(app.workspace.active_file_path(), Some("work_dir/notes.txt".to_string()));
    let o = cmd_insert(&mut app, &args(&["1:1", "hello"])).unwrap();
    assert_eq!(o.log, Some("insert 1:1 \"hello\"".to_string()));
    let o = cmd_append(&mut app, &args(&["world"])).unwrap();
    assert_eq!(o.log, Some("append \"world\"".to_string()));
    let o = cmd_replace(&mut app, &args(&["2:1", "5", "there"])).unwrap();
    assert_eq!(o.log, Some("replace 2:1 5 \"there\"".to_string()));
    let o = cmd_delete(&mut app, &args(&["1:2", "+3"])).unwrap();
    assert_eq!(o.log, Some("delete 1:2 3".to_string()));
    let o = cmd_show(&mut app, &args(&[])).unwrap();
    assert_eq!(o.print, Some("1: ho\n2: there".to_string()));
    let o = cmd_undo(&mut app, &args(&[])).unwrap();
    assert_eq!(o.log, Some("undo".to_string()));
    let o = cmd_show(&mut app, &args(&["1"])).unwrap();
    assert_eq!(o.print, Some("1: hello\n2: there".to_string()));
    let o = cmd_redo(&mut app, &args(&[])).unwrap();
    assert_eq!(o.log, Some("redo".to_string()));
    let o = cmd_show(&mut app, &args(&[":1"])).unwrap();
    assert_eq!(o.print, Some("1: ho".to_string()));
    let o = cmd_list(&mut app, &args(&[])).unwrap();
    assert_eq!(o.print, Some("* work_dir/notes.txt [modified]\n".to_string()));
    let o = cmd_log_on(&mut app, &args(&[])).unwrap();
    assert_eq!(o.log, Some("log-on notes.txt".to_string()));
    let o = cmd_log_off(&mut app, &args(&["notes.txt"])).unwrap();
    assert_eq!(o.log, Some("log-off notes.txt".to_string()));
    assert!(cmd_exit(&mut app, &args(&[])).unwrap().exit);
}

#[test]
fn session_command_errors() {
    let mut app = new_app();
    assert!(matches!(cmd_append(&mut app, &args(&[])), Err(AppError::InvalidArgs(_))));
    assert!(matches!(cmd_append(&mut app, &args(&["x"])), Err(AppError::InternalError(_))));
    assert!(matches!(cmd_insert(&mut app, &args(&["1:1"])), Err(AppError::InvalidArgs(_))));
    assert!(matches!(cmd_insert(&mut app, &args(&["1-1", "x"])), Err(AppError::InvalidArgs(_))));
    assert!(matches!(cmd_delete(&mut app, &args(&["1:1", "n"])), Err(AppError::InvalidArgs(_))));
    assert!(matches!(cmd_delete(&mut app, &args(&["1:1", "0"])), Err(AppError::InvalidArgs(_))));
    assert!(matches!(cmd_replace(&mut app, &args(&["1:1", "1"])), Err(AppError::InvalidArgs(_))));
    assert!(matches!(cmd_show(&mut app, &args(&["x"])), Err(AppError::InvalidArgs(_))));
    assert!(matches!(cmd_edit(&mut app, &args(&["missing"])), Err(AppError::InvalidArgs(_))));
    assert!(matches!(resolve_log_target(&app, &args(&[])), Err(AppError::InvalidArgs(_))));
    cmd_init(&mut app, &args(&["a", "with-log"])).unwrap();
    assert!(matches!(cmd_init(&mut app, &args(&["a"])), Err(AppError::InvalidArgs(_))));
    let o = cmd_edit(&mut app, &args(&["a"])).unwrap();
    assert_eq!(o.print, Some("Switch to work_dir/a".to_string()));
    assert_eq!(o.log, Some("edit a".to_string()));
    assert_eq!(resolve_log_target(&app, &args(&[])).unwrap(), ("work_dir/a".to_string(), "a".to_string()));
    assert!(matches!(cmd_log_on(&mut app, &args(&["zz"])), Err(AppError::InvalidArgs(_))));
}

#[test]
fn session_steps_after_results() {
    let s = step_after(Ok(Outcome::log("undo".to_string())), Some("f".to_string()));
    assert!(s.print.is_none() && !s.exit);
    match s.event {
        Some(Event::Command { file, cmd }) => {
            assert_eq!(file, Some("f".to_string()));
            assert_eq!(cmd, "undo");
        }
        _ => panic!("expected a command event"),
    }
    let s = step_after(Ok(Outcome::print("p".to_string())), None);
    assert_eq!(s.print, Some("p".to_string()));
    assert!(s.event.is_none());
    assert!(step_after(Ok(Outcome::exit()), None).exit);
    let s = step_after(Err(AppError::InvalidArgs("bad args".to_string())), None);
    match s.event {
        Some(Event::Error { code, message }) => {
            assert_eq!(code, 1002);
            assert_eq!(message, "Invalid arguments: bad args");
        }
        _ => panic!("expected an error event"),
    }
    assert_eq!(AppError::UnknownCommand("x".to_string()).message(), "Unknown command: x");
}
