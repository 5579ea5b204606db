//! A document: its lines, its flags and its undo/redo history.

use vstd::prelude::*;
use vstd::string::*;
use vstd::utf8::*;

use crate::commands::{recorded, run, run_back, undo_error_kind, DocCommand};
use crate::error::{internal_error, invalid_args, AppError, AppResult};
use crate::model::{
    append_model, buffer_wf, delete_model, empty_model, deleted, insert_model, inserted, is_internal_error,
    is_invalid_args, joined, line_chars, loaded, log_marker, peeked, pop_model, range_ok, scan_lines,
    show_entry, shown, span_ok, split_lines, EditorModel,
};
use crate::text::{
    bytes_of, contains_newline, decimal, has_newline, join3, lemma_no_newline_cut,
    lemma_no_newline_spliced, owned, remove_range, slice, splice, NEWLINE,
};

verus! {

broadcast use vstd::utf8::group_utf8_lib;

/// One open document.
pub struct Editor {
    lines: Vec<String>,
    modified: bool,
    logging: bool,
    undo_stack: Vec<DocCommand>,
    redo_stack: Vec<DocCommand>,
}

/// The byte model of a list of lines.
pub open spec fn lines_model(lines: Seq<String>) -> Seq<Seq<u8>> {
    lines.map_values(|l: String| bytes_of(l@))
}

/// What executing `c` on a document modelled by `m` leads to: on success the
/// applied command goes on top of the undo stack and the redo stack is
/// cleared; on failure the stacks stay as they were.
pub open spec fn exec_doc_post(m: EditorModel, c: DocCommand, ok: bool, m2: EditorModel) -> bool {
    let (ok1, m1) = run(c, m);
    &&& ok == ok1
    &&& ok ==> {
        &&& m2.undo.len() > 0
        &&& recorded(c, m, m2.undo.last())
        &&& m2 == EditorModel {
            undo: m.undo.push(m2.undo.last()),
            redo: Seq::empty(),
            modified: true,
            ..m1
        }
    }
    &&& !ok ==> m2 == m1
}

/// What undoing on a document modelled by `m` leads to: the most recent
/// command is taken back and, on success, moves to the redo stack; on failure
/// it is dropped. With nothing to undo, nothing changes.
pub open spec fn undo_post(m: EditorModel, ok: bool, m2: EditorModel) -> bool {
    if m.undo.len() == 0 {
        !ok && m2 == m
    } else {
        let c = m.undo.last();
        let (ok1, m1) = run_back(c, EditorModel { undo: m.undo.drop_last(), ..m });
        &&& ok == ok1
        &&& ok ==> m2 == EditorModel { redo: m1.redo.push(c), modified: true, ..m1 }
        &&& !ok ==> m2 == m1
    }
}

/// What redoing on a document modelled by `m` leads to: the most recently
/// undone command is applied again and, on success, goes back on the undo
/// stack; on failure it is dropped. With nothing to redo, nothing changes.
pub open spec fn redo_post(m: EditorModel, ok: bool, m2: EditorModel) -> bool {
    if m.redo.len() == 0 {
        !ok && m2 == m
    } else {
        let c = m.redo.last();
        let m0 = EditorModel { redo: m.redo.drop_last(), ..m };
        let (ok1, m1) = run(c, m0);
        &&& ok == ok1
        &&& ok ==> {
            &&& m2.undo.len() > 0
            &&& recorded(c, m0, m2.undo.last())
            &&& m2 == EditorModel { undo: m1.undo.push(m2.undo.last()), modified: true, ..m1 }
        }
        &&& !ok ==> m2 == m1
    }
}

impl View for Editor {
    type V = EditorModel;

    closed spec fn view(&self) -> EditorModel {
        EditorModel {
            lines: lines_model(self.lines@),
            modified: self.modified,
            logging: self.logging,
            undo: self.undo_stack@,
            redo: self.redo_stack@,
        }
    }
}

/// `prefix`, then `n` in decimal, then `suffix`.
fn with_number(prefix: &str, n: usize, suffix: &str) -> (r: String) {
    join3(prefix, decimal(n).as_str(), suffix)
}

impl Editor {
    #[verifier::type_invariant]
    spec fn inv(&self) -> bool {
        forall|i: int| 0 <= i < self.lines@.len() ==> !has_newline(#[trigger] bytes_of(self.lines@[i]@))
    }

    /// Moves the lines out, leaving the document without any.
    fn take_lines(&mut self) -> (r: Vec<String>)
        ensures
            r@ == old(self).lines@,
            forall|i: int| 0 <= i < r@.len() ==> !has_newline(#[trigger] bytes_of(r@[i]@)),
            final(self).lines@.len() == 0,
            final(self).modified == old(self).modified,
            final(self).logging == old(self).logging,
            final(self).undo_stack@ == old(self).undo_stack@,
            final(self).redo_stack@ == old(self).redo_stack@,
    {
        proof {
            use_type_invariant(&*self);
        }
        let mut lines: Vec<String> = Vec::new();
        std::mem::swap(&mut self.lines, &mut lines);
        lines
    }

    /// Moves the undo stack out, leaving it empty.
    fn take_undo(&mut self) -> (r: Vec<DocCommand>)
        ensures
            r@ == old(self).undo_stack@,
            final(self).undo_stack@.len() == 0,
            final(self).lines == old(self).lines,
            final(self).modified == old(self).modified,
            final(self).logging == old(self).logging,
            final(self).redo_stack == old(self).redo_stack,
    {
        proof {
            use_type_invariant(&*self);
        }
        let mut v: Vec<DocCommand> = Vec::new();
        std::mem::swap(&mut self.undo_stack, &mut v);
        v
    }

    /// Moves the redo stack out, leaving it empty.
    fn take_redo(&mut self) -> (r: Vec<DocCommand>)
        ensures
            r@ == old(self).redo_stack@,
            final(self).redo_stack@.len() == 0,
            final(self).lines == old(self).lines,
            final(self).modified == old(self).modified,
            final(self).logging == old(self).logging,
            final(self).undo_stack == old(self).undo_stack,
    {
        proof {
            use_type_invariant(&*self);
        }
        let mut v: Vec<DocCommand> = Vec::new();
        std::mem::swap(&mut self.redo_stack, &mut v);
        v
    }

    /// Executes `cmd`; on success it becomes undoable and the redo stack is
    /// cleared.
    pub fn exec_doc(&mut self, cmd: DocCommand) -> (r: AppResult<()>)
        ensures
            exec_doc_post(old(self)@, cmd, r is Ok, final(self)@),
            r is Err ==> is_invalid_args(r),
    {
        let mut cmd = cmd;
        match cmd.execute(self) {
            Ok(()) => {},
            Err(e) => return Err(e),
        }
        let mut undo = self.take_undo();
        undo.push(cmd);
        let _ = self.take_redo();
        proof {
            use_type_invariant(&*self);
        }
        self.undo_stack = undo;
        self.modified = true;
        assert(self@.redo =~= Seq::<DocCommand>::empty());
        Ok(())
    }

    /// Takes back the most recent command; fails with `InvalidArgs` when there
    /// is nothing to undo.
    pub fn undo(&mut self) -> (r: AppResult<()>)
        ensures
            undo_post(old(self)@, r is Ok, final(self)@),
            old(self)@.undo.len() == 0 ==> is_invalid_args(r),
            old(self)@.undo.len() > 0 ==> undo_error_kind(old(self)@.undo.last(), r),
    {
        let mut undo = self.take_undo();
        let top = undo.pop();
        proof {
            use_type_invariant(&*self);
        }
        self.undo_stack = undo;
        match top {
            Some(cmd) => {
                match cmd.undo(self) {
                    Ok(()) => {},
                    Err(e) => return Err(e),
                }
                let mut redo = self.take_redo();
                redo.push(cmd);
                proof {
                    use_type_invariant(&*self);
                }
                self.redo_stack = redo;
                self.modified = true;
                Ok(())
            },
            None => Err(invalid_args("nothing to undo")),
        }
    }

    /// Applies again the most recently undone command; fails with
    /// `InvalidArgs` when there is nothing to redo.
    pub fn redo(&mut self) -> (r: AppResult<()>)
        ensures
            redo_post(old(self)@, r is Ok, final(self)@),
            r is Err ==> is_invalid_args(r),
    {
        let mut redo = self.take_redo();
        let top = redo.pop();
        proof {
            use_type_invariant(&*self);
        }
        self.redo_stack = redo;
        match top {
            Some(cmd) => {
                let mut cmd = cmd;
                match cmd.execute(self) {
                    Ok(()) => {},
                    Err(e) => return Err(e),
                }
                let mut undo = self.take_undo();
                undo.push(cmd);
                proof {
                    use_type_invariant(&*self);
                }
                self.undo_stack = undo;
                self.modified = true;
                Ok(())
            },
            None => Err(invalid_args("nothing to redo")),
        }
    }

    /// An empty document with an empty history.
    pub fn new() -> (r: Editor)
        ensures
            r@ == empty_model(),
    {
        let r = Editor {
            lines: Vec::new(),
            modified: false,
            logging: false,
            undo_stack: Vec::new(),
            redo_stack: Vec::new(),
        };
        assert(r@.lines =~= Seq::empty());
        r
    }

    /// Pushes `text` as the new last line.
    pub fn append_line(&mut self, text: &str)
        requires
            !has_newline(bytes_of(text@)),
        ensures
            final(self)@ == append_model(old(self)@, bytes_of(text@)),
    {
        let mut lines = self.take_lines();
        lines.push(owned(text));
        self.lines = lines;
        self.modified = true;
        assert(self@.lines =~= old(self)@.lines.push(bytes_of(text@)));
    }

    /// Removes the last line; fails on an empty document.
    pub fn pop_line(&mut self) -> (r: AppResult<()>)
        ensures
            (r is Ok, final(self)@) == pop_model(old(self)@),
            r is Err ==> is_internal_error(r),
    {
        let mut lines = self.take_lines();
        let last = lines.pop();
        self.lines = lines;
        match last {
            Some(_) => {
                assert(self@.lines =~= old(self)@.lines.drop_last());
                Ok(())
            },
            None => Err(internal_error("pop line failed")),
        }
    }

    /// Fails unless `line` names a line (1-based).
    fn check_line(&self, line: usize) -> (r: AppResult<()>)
        ensures
            r is Ok <==> 1 <= line <= self@.lines.len(),
            r is Err ==> is_invalid_args(r),
    {
        let n = self.lines.len();
        if line == 0 || line > n {
            let m1 = with_number("line ", line, " out of range (1..=");
            let m2 = with_number(m1.as_str(), n, ")");
            return Err(AppError::InvalidArgs(m2));
        }
        Ok(())
    }

    /// Inserts `text` at byte offset `col - 1` of `line`. On an empty document
    /// only `1:1` is accepted, and creates the first line.
    pub fn insert_text(&mut self, line: usize, col: usize, text: &str) -> (r: AppResult<()>)
        ensures
            (r is Ok, final(self)@) == insert_model(
                old(self)@,
                line as int,
                col as int,
                bytes_of(text@),
            ),
            r is Err ==> is_invalid_args(r),
    {
        if contains_newline(text) {
            return Err(invalid_args("insert_text: text must not contain newline"));
        }
        if self.lines.len() == 0 {
            if line != 1 || col != 1 {
                return Err(invalid_args("empty editor: can only insert at 1:1"));
            }
            let mut lines = self.take_lines();
            lines.push(owned(text));
            self.lines = lines;
            self.modified = true;
            assert(self@.lines =~= seq![bytes_of(text@)]);
            return Ok(());
        }
        match self.check_line(line) {
            Ok(()) => {},
            Err(e) => return Err(e),
        }
        let idx = line - 1;
        let len = self.lines[idx].as_str().as_bytes().len();
        assert(self@.lines[idx as int] == bytes_of(self.lines@[idx as int]@));
        if col == 0 || col - 1 > len {
            let m1 = with_number("column ", col, " out of range for line length ");
            let m2 = with_number(m1.as_str(), len, " (insert)");
            return Err(AppError::InvalidArgs(m2));
        }
        let off = col - 1;
        if !self.lines[idx].as_str().is_char_boundary(off) {
            return Err(invalid_args("insert position splits a character"));
        }
        let new_line = splice(self.lines[idx].as_str(), off, text);
        proof {
            use_type_invariant(&*self);
            let b = bytes_of(self.lines@[idx as int]@);
            lemma_no_newline_spliced(b, off as int, bytes_of(text@));
        }
        let mut lines = self.take_lines();
        lines.set(idx, new_line);
        self.lines = lines;
        self.modified = true;
        assert(self@.lines =~= inserted(
            old(self)@.lines,
            line as int,
            col as int,
            bytes_of(text@),
        ));
        Ok(())
    }

    /// Checks that the `len` bytes at `line:col` lie inside the line, between
    /// character boundaries, and gives their byte offsets.
    fn check_span(&self, line: usize, col: usize, len: usize) -> (r: AppResult<(usize, usize)>)
        requires
            len > 0,
        ensures
            r is Ok <==> range_ok(self@.lines, line as int, col as int, len as int),
            r is Ok ==> r->Ok_0.0 == col - 1 && r->Ok_0.1 == col - 1 + len,
            r is Err ==> is_invalid_args(r),
    {
        match self.check_line(line) {
            Ok(()) => {},
            Err(e) => return Err(e),
        }
        let idx = line - 1;
        let s = self.lines[idx].as_str();
        let n = s.as_bytes().len();
        assert(self@.lines[idx as int] == bytes_of(self.lines@[idx as int]@));
        if col == 0 || col > n {
            let m1 = with_number("column ", col, " out of range for line length ");
            return Err(AppError::InvalidArgs(m1));
        }
        let start = col - 1;
        if len > n - start {
            let m1 = with_number("range from column ", col, " runs past line length ");
            let m2 = with_number(m1.as_str(), n, "");
            return Err(AppError::InvalidArgs(m2));
        }
        let end = start + len;
        if !s.is_char_boundary(start) || !s.is_char_boundary(end) {
            return Err(invalid_args("range splits a character"));
        }
        Ok((start, end))
    }

    /// Removes `len` bytes starting at byte offset `col - 1` of `line`;
    /// deleting zero bytes does nothing and succeeds.
    pub fn delete_text(&mut self, line: usize, col: usize, len: usize) -> (r: AppResult<()>)
        ensures
            (r is Ok, final(self)@) == delete_model(old(self)@, line as int, col as int, len as int),
            r is Err ==> is_invalid_args(r),
    {
        if len == 0 {
            return Ok(());
        }
        let (start, end) = match self.check_span(line, col, len) {
            Ok(p) => p,
            Err(e) => return Err(e),
        };
        let idx = line - 1;
        let new_line = remove_range(self.lines[idx].as_str(), start, end);
        proof {
            use_type_invariant(&*self);
            let b = bytes_of(self.lines@[idx as int]@);
            lemma_no_newline_cut(b, start as int, end as int);
        }
        let mut lines = self.take_lines();
        lines.set(idx, new_line);
        self.lines = lines;
        self.modified = true;
        assert(self@.lines =~= deleted(old(self)@.lines, line as int, col as int, len as int));
        Ok(())
    }

    /// The `len` bytes at `line:col`, read without changing anything; zero
    /// bytes give an empty string.
    pub fn peek_text(&self, line: usize, col: usize, len: usize) -> (r: AppResult<String>)
        ensures
            r is Ok <==> span_ok(self@.lines, line as int, col as int, len as int),
            r is Ok ==> bytes_of(r->Ok_0@) == peeked(self@.lines, line as int, col as int, len as int),
            r is Err ==> is_invalid_args(r),
    {
        if len == 0 {
            let e = String::new();
            assert(bytes_of(e@) =~= Seq::<u8>::empty());
            return Ok(e);
        }
        let (start, end) = match self.check_span(line, col, len) {
            Ok(p) => p,
            Err(e) => return Err(e),
        };
        let idx = line - 1;
        Ok(slice(self.lines[idx].as_str(), start, end))
    }

    /// Appends the shown form of line `i` to `out`, after a newline when
    /// `sep` is set.
    fn push_entry(&self, out: &mut String, i: usize, sep: bool)
        requires
            i >= 1,
        ensures
            sep ==> final(out)@ == old(out)@ + seq!['\n'] + show_entry(self@.lines, i as nat),
            !sep ==> final(out)@ == old(out)@ + show_entry(self@.lines, i as nat),
    {
        let content: &str = if i - 1 < self.lines.len() {
            self.lines[i - 1].as_str()
        } else {
            ""
        };
        proof {
            reveal_strlit(": ");
            reveal_strlit("\n");
            reveal_strlit("");
            assert(": "@ =~= seq![':', ' ']);
            assert("\n"@ =~= seq!['\n']);
            if i - 1 < self.lines@.len() {
                assert(self@.lines[i - 1] == bytes_of(self.lines@[i - 1]@));
            } else {
                assert(content@ =~= Seq::<char>::empty());
            }
        }
        assert(content@ == line_chars(self@.lines, i as int));
        let ghost before = out@;
        if sep {
            out.append("\n");
        }
        let ghost head = out@;
        out.append(decimal(i).as_str());
        out.append(": ");
        out.append(content);
        assert(out@ =~= head + show_entry(self@.lines, i as nat));
        assert(sep ==> head =~= before + seq!['\n']);
    }

    /// Lines `start..=end`, each as `"{index}: {content}"`, joined by
    /// newlines; an index with no line shows as empty.
    pub fn show(&self, start: usize, end: usize) -> (r: String)
        requires
            1 <= start,
        ensures
            r@ == shown(self@.lines, start as nat, end as int),
    {
        let mut out = String::new();
        if start > end {
            return out;
        }
        self.push_entry(&mut out, start, false);
        let mut i: usize = start;
        while i < end
            invariant
                1 <= start <= i <= end,
                out@ == shown(self@.lines, start as nat, i as int),
            decreases end - i,
        {
            i = i + 1;
            self.push_entry(&mut out, i, true);
        }
        out
    }

    /// Replaces every line by the lines of `content`; clears the modified
    /// flag, and turns logging on exactly when the first line is `# log`.
    pub fn load_from(&mut self, content: &str)
        ensures
            final(self)@ == loaded(old(self)@, content@),
    {
        let lines = split_text(content);
        self.lines = lines;
        self.modified = false;
        let marker = String::from_str("# log");
        proof {
            reveal_strlit("# log");
            assert("# log"@ =~= log_marker());
            if self.lines@.len() > 0 {
                assert(self@.lines[0] == bytes_of(self.lines@[0]@));
            }
        }
        self.logging = self.lines.len() > 0 && self.lines[0] == marker;
    }

    /// All lines joined by newlines.
    pub fn to_string(&self) -> (r: String)
        ensures
            r@ == joined(self@.lines),
    {
        let mut out = String::new();
        let mut i: usize = 0;
        while i < self.lines.len()
            invariant
                i <= self.lines@.len(),
                out@ == joined(self@.lines.take(i as int)),
            decreases self.lines@.len() - i,
        {
            let ghost before = self@.lines.take(i as int);
            let ghost after = self@.lines.take(i + 1);
            assert(after.drop_last() =~= before);
            proof {
                reveal_strlit("\n");
                assert("\n"@ =~= seq!['\n']);
            }
            assert(after.last() == bytes_of(self.lines@[i as int]@));
            assert(decode_utf8(after.last()) == self.lines@[i as int]@);
            if i > 0 {
                out.append("\n");
            }
            out.append(self.lines[i].as_str());
            assert(out@ =~= joined(after));
            i = i + 1;
        }
        assert(self@.lines.take(self.lines@.len() as int) =~= self@.lines);
        out
    }

    /// The number of lines; every line is valid UTF-8 without a newline.
    pub fn count_lines(&self) -> (r: usize)
        ensures
            r == self@.lines.len(),
            buffer_wf(self@.lines),
    {
        proof {
            use_type_invariant(self);
            assert forall|i: int| 0 <= i < self@.lines.len() implies valid_utf8(
                #[trigger] self@.lines[i],
            ) && !has_newline(self@.lines[i]) by {
                assert(self@.lines[i] == bytes_of(self.lines@[i]@));
            }
        }
        self.lines.len()
    }

    pub fn set_modified(&mut self, modified: bool)
        ensures
            final(self)@ == (EditorModel { modified, ..old(self)@ }),
    {
        proof {
            use_type_invariant(&*self);
        }
        self.modified = modified;
    }

    pub fn set_logging(&mut self, logging: bool)
        ensures
            final(self)@ == (EditorModel { logging, ..old(self)@ }),
    {
        proof {
            use_type_invariant(&*self);
        }
        self.logging = logging;
    }

    pub fn is_modified(&self) -> (r: bool)
        ensures
            r == self@.modified,
    {
        self.modified
    }

    pub fn logging_enabled(&self) -> (r: bool)
        ensures
            r == self@.logging,
    {
        self.logging
    }
}

/// The lines of `content`, split at newlines.
fn split_text(content: &str) -> (r: Vec<String>)
    ensures
        lines_model(r@) == split_lines(bytes_of(content@)),
        forall|i: int| 0 <= i < r@.len() ==> !has_newline(#[trigger] bytes_of(r@[i]@)),
{
    let b = content.as_bytes();
    let mut lines: Vec<String> = Vec::new();
    let mut rest: &str = content;
    let mut start: usize = 0;
    let mut i: usize = 0;
    while i < b.len()
        invariant
            b@ == bytes_of(content@),
            start <= i <= b@.len(),
            bytes_of(rest@) == b@.skip(start as int),
            scan_lines(b@.take(i as int)) == (lines_model(lines@), b@.subrange(start as int, i as int)),
            forall|k: int| 0 <= k < lines@.len() ==> !has_newline(#[trigger] bytes_of(lines@[k]@)),
            forall|j: int| start <= j < i ==> b@[j] != NEWLINE,
        decreases b@.len() - i,
    {
        let ghost cur = b@.subrange(start as int, i as int);
        assert(b@.take(i + 1).drop_last() =~= b@.take(i as int));
        if b[i] == NEWLINE {
            let k = i - start;
            let ghost rb = bytes_of(rest@);
            proof {
                assert(rb[k as int] == NEWLINE);
                is_char_boundary_iff_not_is_continuation_byte(rb, k as int);
            }
            let piece = slice(rest, 0, k);
            proof {
                assert(bytes_of(piece@) =~= cur);
                assert forall|j: int| 0 <= j < bytes_of(piece@).len() implies bytes_of(piece@)[j]
                    != NEWLINE by {
                    assert(bytes_of(piece@)[j] == b@[start + j]);
                }
            }
            let ghost prev = lines@;
            lines.push(piece);
            let (_head, tail) = rest.split_at(k);
            proof {
                assert(tail.spec_bytes() =~= rb.skip(k as int));
                lemma_boundary_after_ascii(tail.spec_bytes());
            }
            let (_nl, after) = tail.split_at(1);
            rest = after;
            start = i + 1;
            proof {
                assert(bytes_of(rest@) =~= b@.skip(start as int));
                assert(lines_model(lines@) =~= lines_model(prev).push(cur));
            }
        } else {
            assert(b@.subrange(start as int, i + 1) =~= cur.push(b@[i as int]));
        }
        i = i + 1;
    }
    assert(b@.take(b@.len() as int) =~= b@);
    if start < b.len() {
        let ghost cur = b@.subrange(start as int, b@.len() as int);
        proof {
            assert(bytes_of(rest@) =~= cur);
            assert forall|j: int| 0 <= j < cur.len() implies cur[j] != NEWLINE by {
                assert(cur[j] == b@[start + j]);
            }
        }
        lines.push(owned(rest));
        assert(lines_model(lines@) =~= split_lines(bytes_of(content@)));
    } else {
        assert(b@.subrange(start as int, b@.len() as int) =~= Seq::<u8>::empty());
    }
    lines
}

/// After a one-byte character at the front there is a boundary.
proof fn lemma_boundary_after_ascii(b: Seq<u8>)
    requires
        valid_utf8(b),
        b.len() > 0,
        b[0] < 0x80,
    ensures
        is_char_boundary(b, 1),
{
    reveal_with_fuel(is_char_boundary, 2);
}

} // verus!
