//! Reversible commands: each change to a document is a value that knows how
//! to apply itself and how to take itself back.

use vstd::prelude::*;

use crate::editor::Editor;
use crate::error::{internal_error, invalid_args, AppResult};
use crate::model::{
    append_model, delete_model, insert_model, is_internal_error, is_invalid_args, peeked,
    pop_model, span_ok,
    EditorModel,
};
use crate::text::{bytes_of, contains_newline, has_newline};

verus! {

/// Adds one line at the end of the document.
pub struct AppendLineCommand {
    /// The number of lines before the append; set when it is applied.
    pub line_index: usize,
    pub text: String,
}

/// Puts text in at `line:col`.
pub struct InsertTextCommand {
    pub line: usize,
    pub col: usize,
    pub text: String,
    /// Whether applying it created the line, the document being empty;
    /// set when it is applied.
    pub created_line: bool,
}

/// Removes `len` bytes at `line:col`.
pub struct DeleteTextCommand {
    pub line: usize,
    pub col: usize,
    pub len: usize,
    /// What was removed; `None` until the command is applied.
    pub deleted_text: Option<String>,
}

/// Replaces `len` bytes at `line:col` by new text.
pub struct ReplaceTextCommand {
    pub line: usize,
    pub col: usize,
    pub len: usize,
    /// What was replaced; `None` until the command is applied.
    pub old_text: Option<String>,
    pub new_text: String,
}

/// A reversible change to a document.
pub enum DocCommand {
    Append(AppendLineCommand),
    Insert(InsertTextCommand),
    Delete(DeleteTextCommand),
    Replace(ReplaceTextCommand),
}

/// A command as its constructor admits it: text is never empty and a length
/// is always positive.
pub open spec fn command_valid(c: DocCommand) -> bool {
    match c {
        DocCommand::Append(a) => a.text@.len() > 0,
        DocCommand::Insert(i) => i.text@.len() > 0,
        DocCommand::Delete(d) => d.len > 0,
        DocCommand::Replace(r) => r.len > 0 && r.new_text@.len() > 0,
    }
}

/// Applying `c` to `m`: whether it succeeds, and the model after.
pub open spec fn run(c: DocCommand, m: EditorModel) -> (bool, EditorModel) {
    match c {
        DocCommand::Append(a) => if has_newline(bytes_of(a.text@)) {
            (false, m)
        } else {
            (true, append_model(m, bytes_of(a.text@)))
        },
        DocCommand::Insert(i) => insert_model(m, i.line as int, i.col as int, bytes_of(i.text@)),
        DocCommand::Delete(d) => if span_ok(m.lines, d.line as int, d.col as int, d.len as int) {
            delete_model(m, d.line as int, d.col as int, d.len as int)
        } else {
            (false, m)
        },
        DocCommand::Replace(r) => if span_ok(m.lines, r.line as int, r.col as int, r.len as int) {
            let m1 = delete_model(m, r.line as int, r.col as int, r.len as int).1;
            insert_model(m1, r.line as int, r.col as int, bytes_of(r.new_text@))
        } else {
            (false, m)
        },
    }
}

/// `c2` is `c` as applying it to `m` leaves it: with what it needs to be taken back.
pub open spec fn recorded(c: DocCommand, m: EditorModel, c2: DocCommand) -> bool {
    match c {
        DocCommand::Append(a) => c2 == DocCommand::Append(
            AppendLineCommand { line_index: m.lines.len() as usize, text: a.text },
        ),
        DocCommand::Insert(i) => c2 == DocCommand::Insert(
            InsertTextCommand { created_line: m.lines.len() == 0, ..i },
        ),
        DocCommand::Delete(d) => match c2 {
            DocCommand::Delete(d2) => {
                &&& d2.line == d.line
                &&& d2.col == d.col
                &&& d2.len == d.len
                &&& d2.deleted_text is Some
                &&& bytes_of(d2.deleted_text->Some_0@) == peeked(
                    m.lines,
                    d.line as int,
                    d.col as int,
                    d.len as int,
                )
            },
            _ => false,
        },
        DocCommand::Replace(r) => match c2 {
            DocCommand::Replace(r2) => {
                &&& r2.line == r.line
                &&& r2.col == r.col
                &&& r2.len == r.len
                &&& r2.new_text == r.new_text
                &&& r2.old_text is Some
                &&& bytes_of(r2.old_text->Some_0@) == peeked(
                    m.lines,
                    r.line as int,
                    r.col as int,
                    r.len as int,
                )
            },
            _ => false,
        },
    }
}

/// Whether taking `c` back can only fail as an internal error: it removes a
/// line, or it was never applied. Other failures are invalid arguments.
pub open spec fn undo_fails_internally(c: DocCommand) -> bool {
    match c {
        DocCommand::Append(_) => true,
        DocCommand::Insert(i) => i.created_line,
        DocCommand::Delete(d) => d.deleted_text is None,
        DocCommand::Replace(r) => r.old_text is None,
    }
}

/// The kind of error taking `c` back returns when it fails.
pub open spec fn undo_error_kind(c: DocCommand, r: AppResult<()>) -> bool {
    r is Err ==> if undo_fails_internally(c) {
        is_internal_error(r)
    } else {
        is_invalid_args(r)
    }
}

/// Taking `c` back from `m`: whether it succeeds, and the model after.
pub open spec fn run_back(c: DocCommand, m: EditorModel) -> (bool, EditorModel) {
    match c {
        DocCommand::Append(_) => pop_model(m),
        DocCommand::Insert(i) => if i.created_line {
            pop_model(m)
        } else {
            delete_model(m, i.line as int, i.col as int, bytes_of(i.text@).len() as int)
        },
        DocCommand::Delete(d) => match d.deleted_text {
            None => (false, m),
            Some(s) => insert_model(m, d.line as int, d.col as int, bytes_of(s@)),
        },
        DocCommand::Replace(r) => match r.old_text {
            None => (false, m),
            Some(s) => {
                let (ok, m1) = delete_model(
                    m,
                    r.line as int,
                    r.col as int,
                    bytes_of(r.new_text@).len() as int,
                );
                if ok {
                    insert_model(m1, r.line as int, r.col as int, bytes_of(s@))
                } else {
                    (false, m1)
                }
            },
        },
    }
}

/// Whether a string is empty.
fn is_empty_text(s: &String) -> (r: bool)
    ensures
        r == (s@.len() == 0),
{
    s.as_str().is_empty()
}

impl AppendLineCommand {
    /// A command that appends `text`, which must not be empty.
    pub fn new(text: String) -> (r: AppResult<Self>)
        ensures
            r is Ok <==> text@.len() > 0,
            r is Ok ==> r->Ok_0 == (AppendLineCommand { line_index: 0, text }),
            r is Err ==> is_invalid_args(r),
    {
        if is_empty_text(&text) {
            return Err(invalid_args("append: text must not be empty"));
        }
        Ok(AppendLineCommand { line_index: 0, text })
    }

    /// Remembers the line count and appends the text as a new last line.
    pub fn execute(&mut self, ed: &mut Editor) -> (r: AppResult<()>)
        ensures
            (r is Ok, final(ed)@) == run(DocCommand::Append(*old(self)), old(ed)@),
            r is Ok ==> recorded(
                DocCommand::Append(*old(self)),
                old(ed)@,
                DocCommand::Append(*final(self)),
            ),
            r is Err ==> is_invalid_args(r),
    {
        if contains_newline(self.text.as_str()) {
            return Err(invalid_args("append: text must not contain newline"));
        }
        self.line_index = ed.count_lines();
        ed.append_line(self.text.as_str());
        Ok(())
    }

    /// Removes the last line again.
    pub fn undo(&self, ed: &mut Editor) -> (r: AppResult<()>)
        ensures
            (r is Ok, final(ed)@) == run_back(DocCommand::Append(*self), old(ed)@),
            undo_error_kind(DocCommand::Append(*self), r),
    {
        ed.pop_line()
    }
}

impl InsertTextCommand {
    /// A command that inserts `text`, which must not be empty, at `line:col`.
    pub fn new(line: usize, col: usize, text: String) -> (r: AppResult<Self>)
        ensures
            r is Ok <==> text@.len() > 0,
            r is Ok ==> r->Ok_0 == (InsertTextCommand { line, col, text, created_line: false }),
            r is Err ==> is_invalid_args(r),
    {
        if is_empty_text(&text) {
            return Err(invalid_args("insert: text must not be empty"));
        }
        Ok(InsertTextCommand { line, col, text, created_line: false })
    }

    /// Inserts the text, remembering whether that created the first line.
    pub fn execute(&mut self, ed: &mut Editor) -> (r: AppResult<()>)
        ensures
            (r is Ok, final(ed)@) == run(DocCommand::Insert(*old(self)), old(ed)@),
            r is Ok ==> recorded(
                DocCommand::Insert(*old(self)),
                old(ed)@,
                DocCommand::Insert(*final(self)),
            ),
            r is Err ==> is_invalid_args(r),
    {
        let was_empty = ed.count_lines() == 0;
        match ed.insert_text(self.line, self.col, self.text.as_str()) {
            Ok(()) => {},
            Err(e) => return Err(e),
        }
        self.created_line = was_empty;
        Ok(())
    }

    /// Removes the line it created, or else deletes as many bytes as the text
    /// has, at the same place.
    pub fn undo(&self, ed: &mut Editor) -> (r: AppResult<()>)
        ensures
            (r is Ok, final(ed)@) == run_back(DocCommand::Insert(*self), old(ed)@),
            undo_error_kind(DocCommand::Insert(*self), r),
    {
        if self.created_line {
            ed.pop_line()
        } else {
            ed.delete_text(self.line, self.col, self.text.as_str().as_bytes().len())
        }
    }
}

impl DeleteTextCommand {
    /// A command that deletes `len` bytes at `line:col`; `len` must be positive.
    pub fn new(line: usize, col: usize, len: usize) -> (r: AppResult<Self>)
        ensures
            r is Ok <==> len > 0,
            r is Ok ==> r->Ok_0 == (DeleteTextCommand { line, col, len, deleted_text: None }),
            r is Err ==> is_invalid_args(r),
    {
        if len == 0 {
            return Err(invalid_args("delete: length must be positive"));
        }
        Ok(DeleteTextCommand { line, col, len, deleted_text: None })
    }

    /// Keeps the bytes it is about to delete, then deletes them.
    pub fn execute(&mut self, ed: &mut Editor) -> (r: AppResult<()>)
        ensures
            (r is Ok, final(ed)@) == run(DocCommand::Delete(*old(self)), old(ed)@),
            r is Ok ==> recorded(
                DocCommand::Delete(*old(self)),
                old(ed)@,
                DocCommand::Delete(*final(self)),
            ),
            r is Err ==> is_invalid_args(r),
    {
        let s = match ed.peek_text(self.line, self.col, self.len) {
            Ok(s) => s,
            Err(e) => return Err(e),
        };
        self.deleted_text = Some(s);
        ed.delete_text(self.line, self.col, self.len)
    }

    /// Puts the deleted bytes back; fails if the command was never applied.
    pub fn undo(&self, ed: &mut Editor) -> (r: AppResult<()>)
        ensures
            (r is Ok, final(ed)@) == run_back(DocCommand::Delete(*self), old(ed)@),
            undo_error_kind(DocCommand::Delete(*self), r),
    {
        match &self.deleted_text {
            None => Err(internal_error("delete: undo before execute")),
            Some(s) => ed.insert_text(self.line, self.col, s.as_str()),
        }
    }
}

impl ReplaceTextCommand {
    /// A command that replaces `len` bytes at `line:col` by `new_text`; `len`
    /// must be positive and `new_text` not empty.
    pub fn new(line: usize, col: usize, len: usize, new_text: String) -> (r: AppResult<Self>)
        ensures
            r is Ok <==> len > 0 && new_text@.len() > 0,
            r is Ok ==> r->Ok_0 == (ReplaceTextCommand { line, col, len, old_text: None, new_text }),
            r is Err ==> is_invalid_args(r),
    {
        if len == 0 {
            return Err(invalid_args("replace: length must be positive"));
        }
        if is_empty_text(&new_text) {
            return Err(invalid_args("replace: text must not be empty"));
        }
        Ok(ReplaceTextCommand { line, col, len, old_text: None, new_text })
    }

    /// Keeps the bytes it replaces, deletes them and inserts the new text.
    pub fn execute(&mut self, ed: &mut Editor) -> (r: AppResult<()>)
        ensures
            (r is Ok, final(ed)@) == run(DocCommand::Replace(*old(self)), old(ed)@),
            r is Ok ==> recorded(
                DocCommand::Replace(*old(self)),
                old(ed)@,
                DocCommand::Replace(*final(self)),
            ),
            r is Err ==> is_invalid_args(r),
    {
        let s = match ed.peek_text(self.line, self.col, self.len) {
            Ok(s) => s,
            Err(e) => return Err(e),
        };
        self.old_text = Some(s);
        match ed.delete_text(self.line, self.col, self.len) {
            Ok(()) => {},
            Err(e) => return Err(e),
        }
        ed.insert_text(self.line, self.col, self.new_text.as_str())
    }

    /// Deletes the new text and puts the old bytes back; fails if the command
    /// was never applied.
    pub fn undo(&self, ed: &mut Editor) -> (r: AppResult<()>)
        ensures
            (r is Ok, final(ed)@) == run_back(DocCommand::Replace(*self), old(ed)@),
            undo_error_kind(DocCommand::Replace(*self), r),
    {
        match &self.old_text {
            None => Err(internal_error("replace: undo before execute")),
            Some(s) => {
                let n = self.new_text.as_str().as_bytes().len();
                match ed.delete_text(self.line, self.col, n) {
                    Ok(()) => {},
                    Err(e) => return Err(e),
                }
                ed.insert_text(self.line, self.col, s.as_str())
            },
        }
    }
}

impl DocCommand {
    /// Applies the command to `ed`, keeping what it needs to be taken back.
    pub fn execute(&mut self, ed: &mut Editor) -> (r: AppResult<()>)
        ensures
            (r is Ok, final(ed)@) == run(*old(self), old(ed)@),
            r is Ok ==> recorded(*old(self), old(ed)@, *final(self)),
            r is Err ==> is_invalid_args(r),
    {
        match self {
            DocCommand::Append(c) => c.execute(ed),
            DocCommand::Insert(c) => c.execute(ed),
            DocCommand::Delete(c) => c.execute(ed),
            DocCommand::Replace(c) => c.execute(ed),
        }
    }

    /// Takes the command back from `ed`.
    pub fn undo(&self, ed: &mut Editor) -> (r: AppResult<()>)
        ensures
            (r is Ok, final(ed)@) == run_back(*self, old(ed)@),
            undo_error_kind(*self, r),
    {
        match self {
            DocCommand::Append(c) => c.undo(ed),
            DocCommand::Insert(c) => c.undo(ed),
            DocCommand::Delete(c) => c.undo(ed),
            DocCommand::Replace(c) => c.undo(ed),
        }
    }
}

} // verus!
