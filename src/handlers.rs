//! The editor's commands as they are typed: each reads its arguments, acts on
//! the workspace, and says what to print and what to log.

use vstd::prelude::*;

use crate::application::Application;
use crate::commands::{
    AppendLineCommand, DeleteTextCommand, DocCommand, InsertTextCommand, ReplaceTextCommand,
};
use crate::error::{invalid_args, AppResult};
use crate::model::is_invalid_args;
use crate::outcome::Outcome;
use crate::parse::{parse_pos, parse_range_spec, parse_usize, parsed_usize, pos_of, range_spec_of};
use crate::paths::{strip_prefix, stripped_of};
use crate::text::{decimal, decimal_digits, join2, join3, owned};
use crate::workspace::{
    exec_post, history_post, listing, new_doc, resolved, show_post, Workspace,
};

verus! {

/// An outcome that only logs `log`.
pub open spec fn logs(r: AppResult<Outcome>, log: Seq<char>) -> bool {
    r is Ok ==> r->Ok_0.print is None && !r->Ok_0.exit && r->Ok_0.log is Some
        && r->Ok_0.log->Some_0@ == log
}

/// An outcome that prints `print` and logs `log`.
pub open spec fn prints_and_logs(r: AppResult<Outcome>, print: Seq<char>, log: Seq<char>) -> bool {
    r is Ok ==> r->Ok_0.print is Some && r->Ok_0.print->Some_0@ == print && !r->Ok_0.exit
        && r->Ok_0.log is Some && r->Ok_0.log->Some_0@ == log
}

/// Only the workspace may have changed.
pub open spec fn same_parts(a: Application, b: Application) -> bool {
    a.router == b.router && a.bus == b.bus
}

/// The path argument of `edit`, `init` and `load`: the first argument, or `.`.
pub open spec fn path_arg(args: Seq<String>) -> Seq<char> {
    if args.len() > 0 {
        args[0]@
    } else {
        "."@
    }
}

/// The file and the label that `log-on`, `log-off` and `log-show` act on:
/// the argument resolved against the base directory, or else the active
/// document, labelled relative to the base directory where it lies inside.
pub open spec fn log_target_of(w: Workspace, args: Seq<String>) -> Option<(Seq<char>, Seq<char>)> {
    if args.len() > 0 {
        Some((resolved(w.base_dir(), Some(args[0]@)), args[0]@))
    } else {
        match w.active() {
            None => None,
            Some(p) => Some(
                (
                    p,
                    match stripped_of(p, w.base_dir()) {
                        Some(rel) => rel,
                        None => p,
                    },
                ),
            ),
        }
    }
}

/// What a printing command printed, or its error.
pub open spec fn printed(r: AppResult<Outcome>) -> AppResult<String> {
    match r {
        Ok(o) => Ok(o.print->Some_0),
        Err(e) => Err(e),
    }
}

/// `append <text>`: appends a line to the active document.
pub fn cmd_append(app: &mut Application, args: &[String]) -> (r: AppResult<Outcome>)
    ensures
        same_parts(*old(app), *final(app)),
        args@.len() == 0 || args@[0]@.len() == 0 ==> is_invalid_args(r) && *final(app) == *old(app),
        args@.len() > 0 && args@[0]@.len() > 0 ==> {
            &&& exec_post(
                old(app).workspace,
                DocCommand::Append(AppendLineCommand { line_index: 0, text: args@[0] }),
                r is Ok,
                final(app).workspace,
            )
            &&& logs(r, "append \""@ + args@[0]@ + "\""@)
        },
{
    if args.len() == 0 {
        return Err(invalid_args("append <text>"));
    }
    let text = args[0].clone();
    let cmd = match AppendLineCommand::new(text) {
        Ok(c) => c,
        Err(e) => return Err(e),
    };
    match app.workspace.exec_doc(DocCommand::Append(cmd)) {
        Ok(()) => {},
        Err(e) => return Err(e),
    }
    Ok(Outcome::log(join3("append \"", args[0].as_str(), "\"")))
}

/// `insert <line:col> <text>`: inserts text into the active document.
pub fn cmd_insert(app: &mut Application, args: &[String]) -> (r: AppResult<Outcome>)
    ensures
        same_parts(*old(app), *final(app)),
        args@.len() < 2 ==> is_invalid_args(r) && *final(app) == *old(app),
        args@.len() >= 2 ==> match pos_of(args@[0]@) {
            None => is_invalid_args(r) && *final(app) == *old(app),
            Some((line, col)) => if args@[1]@.len() == 0 {
                is_invalid_args(r) && *final(app) == *old(app)
            } else {
                &&& exec_post(
                    old(app).workspace,
                    DocCommand::Insert(InsertTextCommand { line, col, text: args@[1], created_line: false }),
                    r is Ok,
                    final(app).workspace,
                )
                &&& logs(r, "insert "@ + args@[0]@ + " \""@ + args@[1]@ + "\""@)
            },
        },
{
    if args.len() < 2 {
        return Err(invalid_args("insert <line:col> \"text\""));
    }
    let (line, col) = match parse_pos(args[0].as_str()) {
        Ok(p) => p,
        Err(e) => return Err(e),
    };
    let cmd = match InsertTextCommand::new(line, col, args[1].clone()) {
        Ok(c) => c,
        Err(e) => return Err(e),
    };
    match app.workspace.exec_doc(DocCommand::Insert(cmd)) {
        Ok(()) => {},
        Err(e) => return Err(e),
    }
    let head = join3("insert ", args[0].as_str(), " \"");
    Ok(Outcome::log(join3(head.as_str(), args[1].as_str(), "\"")))
}

/// `delete <line:col> <len>`: deletes bytes from the active document.
pub fn cmd_delete(app: &mut Application, args: &[String]) -> (r: AppResult<Outcome>)
    ensures
        same_parts(*old(app), *final(app)),
        args@.len() < 2 ==> is_invalid_args(r) && *final(app) == *old(app),
        args@.len() >= 2 ==> match (pos_of(args@[0]@), parsed_usize(args@[1]@)) {
            (Some((line, col)), Some(len)) => if len == 0 {
                is_invalid_args(r) && *final(app) == *old(app)
            } else {
                &&& exec_post(
                    old(app).workspace,
                    DocCommand::Delete(DeleteTextCommand { line, col, len, deleted_text: None }),
                    r is Ok,
                    final(app).workspace,
                )
                &&& logs(r, "delete "@ + args@[0]@ + " "@ + decimal_digits(len as nat))
            },
            _ => is_invalid_args(r) && *final(app) == *old(app),
        },
{
    if args.len() < 2 {
        return Err(invalid_args("delete <line:col> <len>"));
    }
    let (line, col) = match parse_pos(args[0].as_str()) {
        Ok(p) => p,
        Err(e) => return Err(e),
    };
    let len = match parse_usize(args[1].as_str()) {
        Some(n) => n,
        None => return Err(invalid_args("len must be a number")),
    };
    let cmd = match DeleteTextCommand::new(line, col, len) {
        Ok(c) => c,
        Err(e) => return Err(e),
    };
    match app.workspace.exec_doc(DocCommand::Delete(cmd)) {
        Ok(()) => {},
        Err(e) => return Err(e),
    }
    let head = join3("delete ", args[0].as_str(), " ");
    Ok(Outcome::log(join2(head.as_str(), decimal(len).as_str())))
}

/// `replace <line:col> <len> <text>`: replaces bytes of the active document.
pub fn cmd_replace(app: &mut Application, args: &[String]) -> (r: AppResult<Outcome>)
    ensures
        same_parts(*old(app), *final(app)),
        args@.len() < 3 ==> is_invalid_args(r) && *final(app) == *old(app),
        args@.len() >= 3 ==> match (pos_of(args@[0]@), parsed_usize(args@[1]@)) {
            (Some((line, col)), Some(len)) => if len == 0 || args@[2]@.len() == 0 {
                is_invalid_args(r) && *final(app) == *old(app)
            } else {
                &&& exec_post(
                    old(app).workspace,
                    DocCommand::Replace(
                        ReplaceTextCommand { line, col, len, old_text: None, new_text: args@[2] },
                    ),
                    r is Ok,
                    final(app).workspace,
                )
                &&& logs(
                    r,
                    "replace "@ + args@[0]@ + " "@ + decimal_digits(len as nat) + " \""@
                        + args@[2]@ + "\""@,
                )
            },
            _ => is_invalid_args(r) && *final(app) == *old(app),
        },
{
    if args.len() < 3 {
        return Err(invalid_args("replace <line:col> <len> \"text\""));
    }
    let (line, col) = match parse_pos(args[0].as_str()) {
        Ok(p) => p,
        Err(e) => return Err(e),
    };
    let len = match parse_usize(args[1].as_str()) {
        Some(n) => n,
        None => return Err(invalid_args("len must be a number")),
    };
    let cmd = match ReplaceTextCommand::new(line, col, len, args[2].clone()) {
        Ok(c) => c,
        Err(e) => return Err(e),
    };
    match app.workspace.exec_doc(DocCommand::Replace(cmd)) {
        Ok(()) => {},
        Err(e) => return Err(e),
    }
    let head = join3("replace ", args[0].as_str(), " ");
    let with_len = join3(head.as_str(), decimal(len).as_str(), " \"");
    Ok(Outcome::log(join3(with_len.as_str(), args[2].as_str(), "\"")))
}

/// `undo`: takes back the last command of the active document.
pub fn cmd_undo(app: &mut Application, _args: &[String]) -> (r: AppResult<Outcome>)
    ensures
        same_parts(*old(app), *final(app)),
        history_post(old(app).workspace, false, r is Ok, final(app).workspace),
        logs(r, "undo"@),
{
    match app.workspace.undo() {
        Ok(()) => Ok(Outcome::log(owned("undo"))),
        Err(e) => Err(e),
    }
}

/// `redo`: applies again the last undone command of the active document.
pub fn cmd_redo(app: &mut Application, _args: &[String]) -> (r: AppResult<Outcome>)
    ensures
        same_parts(*old(app), *final(app)),
        history_post(old(app).workspace, true, r is Ok, final(app).workspace),
        logs(r, "redo"@),
{
    match app.workspace.redo() {
        Ok(()) => Ok(Outcome::log(owned("redo"))),
        Err(e) => Err(e),
    }
}

/// The path argument of `edit`, `init` and `load`, as typed.
fn raw_path(args: &[String]) -> (r: String)
    ensures
        r@ == path_arg(args@),
{
    if args.len() > 0 {
        args[0].clone()
    } else {
        owned(".")
    }
}

/// `edit [path]`: makes an open document active.
pub fn cmd_edit(app: &mut Application, args: &[String]) -> (r: AppResult<Outcome>)
    ensures
        same_parts(*old(app), *final(app)),
        ({
            let path = resolved(old(app).workspace.base_dir(), Some(path_arg(args@)));
            &&& r is Ok <==> old(app).workspace.paths().contains(path)
            &&& r is Ok ==> final(app).workspace.active() == Some(path)
            &&& r is Err ==> is_invalid_args(r) && final(app).workspace.active() == old(
                app,
            ).workspace.active()
            &&& final(app).workspace.paths() == old(app).workspace.paths()
            &&& final(app).workspace.docs() == old(app).workspace.docs()
            &&& prints_and_logs(r, "Switch to "@ + path, "edit "@ + path_arg(args@))
        }),
{
    let raw = raw_path(args);
    let path = app.workspace.resolve_path(Some(raw.as_str()));
    match app.workspace.edit(path.as_str()) {
        Ok(()) => {},
        Err(e) => return Err(e),
    }
    Ok(
        Outcome {
            print: Some(join2("Switch to ", path.as_str())),
            log: Some(join2("edit ", raw.as_str())),
            exit: false,
        },
    )
}

/// `init [path] [with-log]`: creates a new document and makes it active;
/// `with-log` starts it with the log marker.
pub fn cmd_init(app: &mut Application, args: &[String]) -> (r: AppResult<Outcome>)
    ensures
        same_parts(*old(app), *final(app)),
        ({
            let path = resolved(old(app).workspace.base_dir(), Some(path_arg(args@)));
            let logging = args@.len() > 1 && args@[1]@ == "with-log"@;
            let w = old(app).workspace;
            let w2 = final(app).workspace;
            &&& r is Ok <==> !w.paths().contains(path)
            &&& r is Err ==> is_invalid_args(r) && w2.paths() == w.paths() && w2.docs() == w.docs()
                && w2.active() == w.active()
            &&& r is Ok ==> w2.paths() == w.paths().push(path) && w2.docs() == w.docs().push(
                new_doc(logging),
            ) && w2.active() == Some(path)
            &&& prints_and_logs(
                r,
                "Initialized "@ + path_arg(args@),
                "init "@ + path_arg(args@),
            )
        }),
{
    let raw = raw_path(args);
    let path = app.workspace.resolve_path(Some(raw.as_str()));
    let with_log = owned("with-log");
    let logging = args.len() > 1 && args[1] == with_log;
    match app.workspace.init(path.as_str(), logging) {
        Ok(()) => {},
        Err(e) => return Err(e),
    }
    proof {
        assert(app.workspace.paths()[app.workspace.paths().len() - 1] == path@);
    }
    match app.workspace.edit(path.as_str()) {
        Ok(()) => {},
        Err(e) => return Err(e),
    }
    Ok(
        Outcome {
            print: Some(join2("Initialized ", raw.as_str())),
            log: Some(join2("init ", raw.as_str())),
            exit: false,
        },
    )
}

/// `editor-list`: one line per open document.
pub fn cmd_list(app: &mut Application, _args: &[String]) -> (r: AppResult<Outcome>)
    ensures
        *final(app) == *old(app),
        r is Ok,
        r->Ok_0.print is Some && r->Ok_0.print->Some_0@ == listing(
            old(app).workspace.paths(),
            old(app).workspace.docs(),
            old(app).workspace.active(),
            old(app).workspace.paths().len() as int,
        ),
        r->Ok_0.log is None && !r->Ok_0.exit,
{
    let editors = match app.workspace.list() {
        Ok(s) => s,
        Err(e) => return Err(e),
    };
    Ok(Outcome::print(editors))
}

/// `show [range]`: lines of the active document.
pub fn cmd_show(app: &mut Application, args: &[String]) -> (r: AppResult<Outcome>)
    ensures
        *final(app) == *old(app),
        r is Ok ==> r->Ok_0.print is Some && r->Ok_0.log is None && !r->Ok_0.exit,
        args@.len() == 0 ==> show_post(old(app).workspace, None, None, printed(r)),
        args@.len() > 0 ==> match range_spec_of(args@[0]@) {
            None => is_invalid_args(r),
            Some((start, end)) => show_post(old(app).workspace, start, end, printed(r)),
        },
{
    let (start, end) = if args.len() == 0 {
        (None, None)
    } else {
        match parse_range_spec(args[0].as_str()) {
            Ok(p) => p,
            Err(e) => return Err(e),
        }
    };
    match app.workspace.show(start, end) {
        Ok(content) => Ok(Outcome::print(content)),
        Err(e) => Err(e),
    }
}

/// The file and label that the log commands act on; fails without an
/// argument when no document is active.
pub fn resolve_log_target(app: &Application, args: &[String]) -> (r: AppResult<(String, String)>)
    ensures
        r is Ok <==> log_target_of(app.workspace, args@) is Some,
        r is Ok ==> r->Ok_0.0@ == log_target_of(app.workspace, args@)->Some_0.0 && r->Ok_0.1@
            == log_target_of(app.workspace, args@)->Some_0.1,
        r is Err ==> is_invalid_args(r),
{
    if args.len() > 0 {
        let path = app.workspace.resolve_path(Some(args[0].as_str()));
        return Ok((path, args[0].clone()));
    }
    let path = match app.workspace.active_file_path() {
        Some(p) => p,
        None => return Err(invalid_args("no file specified and no active file")),
    };
    let base = app.workspace.get_base_dir();
    let label = match strip_prefix(path.as_str(), base.as_str()) {
        Some(rel) => rel,
        None => owned(path.as_str()),
    };
    Ok((path, label))
}

/// `log-on [path]`: turns logging on for a document.
pub fn cmd_log_on(app: &mut Application, args: &[String]) -> (r: AppResult<Outcome>)
    ensures
        same_parts(*old(app), *final(app)),
        final(app).workspace.paths() == old(app).workspace.paths(),
        final(app).workspace.active() == old(app).workspace.active(),
        log_target_of(old(app).workspace, args@) is None ==> is_invalid_args(r)
            && final(app).workspace.docs() == old(app).workspace.docs(),
        log_target_of(old(app).workspace, args@) matches Some((path, label)) ==> {
            let w = old(app).workspace;
            &&& r is Ok <==> w.paths().contains(path)
            &&& r is Ok ==> final(app).workspace.docs() == w.docs().update(
                w.index_of(path),
                crate::model::EditorModel { logging: true, ..w.docs()[w.index_of(path)] },
            )
            &&& r is Err ==> final(app).workspace.docs() == w.docs()
            &&& logs(r, "log-on "@ + label)
        },
{
    let (path, label) = match resolve_log_target(app, args) {
        Ok(p) => p,
        Err(e) => return Err(e),
    };
    match app.workspace.log_on(path.as_str()) {
        Ok(()) => {},
        Err(e) => return Err(e),
    }
    Ok(Outcome::log(join2("log-on ", label.as_str())))
}

/// `log-off [path]`: turns logging off for a document.
pub fn cmd_log_off(app: &mut Application, args: &[String]) -> (r: AppResult<Outcome>)
    ensures
        same_parts(*old(app), *final(app)),
        final(app).workspace.paths() == old(app).workspace.paths(),
        final(app).workspace.active() == old(app).workspace.active(),
        log_target_of(old(app).workspace, args@) is None ==> is_invalid_args(r)
            && final(app).workspace.docs() == old(app).workspace.docs(),
        log_target_of(old(app).workspace, args@) matches Some((path, label)) ==> {
            let w = old(app).workspace;
            &&& r is Ok <==> w.paths().contains(path)
            &&& r is Ok ==> final(app).workspace.docs() == w.docs().update(
                w.index_of(path),
                crate::model::EditorModel { logging: false, ..w.docs()[w.index_of(path)] },
            )
            &&& r is Err ==> final(app).workspace.docs() == w.docs()
            &&& logs(r, "log-off "@ + label)
        },
{
    let (path, label) = match resolve_log_target(app, args) {
        Ok(p) => p,
        Err(e) => return Err(e),
    };
    match app.workspace.log_off(path.as_str()) {
        Ok(()) => {},
        Err(e) => return Err(e),
    }
    Ok(Outcome::log(join2("log-off ", label.as_str())))
}

/// `exit`: ends the session.
pub fn cmd_exit(app: &mut Application, _args: &[String]) -> (r: AppResult<Outcome>)
    ensures
        *final(app) == *old(app),
        r is Ok && r->Ok_0.exit,
{
    Ok(Outcome::exit())
}

} // verus!
