//! The mathematical model of a document: its lines as byte sequences, its
//! flags and its two history stacks, and what each operation does to it.

use vstd::prelude::*;
use vstd::utf8::*;

use crate::commands::DocCommand;
use crate::error::{AppError, AppResult};
use crate::text::{bytes_of, cut, decimal_digits, has_newline, spliced};

verus! {

/// What a document is: its lines, its two flags and its history.
pub struct EditorModel {
    pub lines: Seq<Seq<u8>>,
    pub modified: bool,
    pub logging: bool,
    /// Executed commands, most recent last.
    pub undo: Seq<DocCommand>,
    /// Undone commands, most recent last.
    pub redo: Seq<DocCommand>,
}

/// A document with no lines, no flags and no history.
pub open spec fn empty_model() -> EditorModel {
    EditorModel {
        lines: Seq::empty(),
        modified: false,
        logging: false,
        undo: Seq::empty(),
        redo: Seq::empty(),
    }
}

/// Each line is valid UTF-8 and holds no newline.
pub open spec fn buffer_wf(lines: Seq<Seq<u8>>) -> bool {
    forall|i: int| 0 <= i < lines.len() ==> valid_utf8(#[trigger] lines[i]) && !has_newline(lines[i])
}

/// Whether a result is an `InvalidArgs` error.
pub open spec fn is_invalid_args<T>(r: AppResult<T>) -> bool {
    r matches Err(AppError::InvalidArgs(_))
}

/// Whether a result is an `InternalError`.
pub open spec fn is_internal_error<T>(r: AppResult<T>) -> bool {
    r matches Err(AppError::InternalError(_))
}

/// Whether `text` may be inserted at `line:col` (1-based, `col` counting bytes).
pub open spec fn insert_ok(lines: Seq<Seq<u8>>, line: int, col: int, t: Seq<u8>) -> bool {
    &&& !has_newline(t)
    &&& if lines.len() == 0 {
        line == 1 && col == 1
    } else {
        &&& 1 <= line <= lines.len()
        &&& 1 <= col <= lines[line - 1].len() + 1
        &&& is_char_boundary(lines[line - 1], col - 1)
    }
}

/// The lines after inserting `t` at `line:col`; an empty buffer gets `t` as its only line.
pub open spec fn inserted(lines: Seq<Seq<u8>>, line: int, col: int, t: Seq<u8>) -> Seq<Seq<u8>> {
    if lines.len() == 0 {
        seq![t]
    } else {
        lines.update(line - 1, spliced(lines[line - 1], col - 1, t))
    }
}

/// Whether the `len` bytes from `line:col` lie inside the line, between character boundaries.
pub open spec fn range_ok(lines: Seq<Seq<u8>>, line: int, col: int, len: int) -> bool {
    &&& 1 <= line <= lines.len()
    &&& 1 <= col <= lines[line - 1].len()
    &&& col - 1 + len <= lines[line - 1].len()
    &&& is_char_boundary(lines[line - 1], col - 1)
    &&& is_char_boundary(lines[line - 1], col - 1 + len)
}

/// Whether deleting or reading `len` bytes at `line:col` succeeds; zero bytes always do.
pub open spec fn span_ok(lines: Seq<Seq<u8>>, line: int, col: int, len: int) -> bool {
    len == 0 || range_ok(lines, line, col, len)
}

/// The lines after deleting `len` bytes at `line:col`.
pub open spec fn deleted(lines: Seq<Seq<u8>>, line: int, col: int, len: int) -> Seq<Seq<u8>> {
    if len == 0 {
        lines
    } else {
        lines.update(line - 1, cut(lines[line - 1], col - 1, col - 1 + len))
    }
}

/// The `len` bytes at `line:col`.
pub open spec fn peeked(lines: Seq<Seq<u8>>, line: int, col: int, len: int) -> Seq<u8> {
    if len == 0 {
        Seq::empty()
    } else {
        lines[line - 1].subrange(col - 1, col - 1 + len)
    }
}

/// Inserting into the model: whether it succeeds, and the model after.
pub open spec fn insert_model(m: EditorModel, line: int, col: int, t: Seq<u8>) -> (bool, EditorModel) {
    if insert_ok(m.lines, line, col, t) {
        (true, EditorModel { lines: inserted(m.lines, line, col, t), modified: true, ..m })
    } else {
        (false, m)
    }
}

/// Deleting from the model: whether it succeeds, and the model after.
pub open spec fn delete_model(m: EditorModel, line: int, col: int, len: int) -> (bool, EditorModel) {
    if !span_ok(m.lines, line, col, len) {
        (false, m)
    } else if len == 0 {
        (true, m)
    } else {
        (true, EditorModel { lines: deleted(m.lines, line, col, len), modified: true, ..m })
    }
}

/// Appending a line to the model.
pub open spec fn append_model(m: EditorModel, t: Seq<u8>) -> EditorModel {
    EditorModel { lines: m.lines.push(t), modified: true, ..m }
}

/// Removing the last line of the model: whether it succeeds, and the model after.
pub open spec fn pop_model(m: EditorModel) -> (bool, EditorModel) {
    if m.lines.len() == 0 {
        (false, m)
    } else {
        (true, EditorModel { lines: m.lines.drop_last(), ..m })
    }
}

/// The characters of line `i` (1-based), or nothing where there is no such line.
pub open spec fn line_chars(lines: Seq<Seq<u8>>, i: int) -> Seq<char> {
    if 1 <= i <= lines.len() {
        decode_utf8(lines[i - 1])
    } else {
        Seq::empty()
    }
}

/// One shown line: `"{i}: {content}"`.
pub open spec fn show_entry(lines: Seq<Seq<u8>>, i: nat) -> Seq<char> {
    decimal_digits(i) + seq![':', ' '] + line_chars(lines, i as int)
}

/// Lines `start..=end` as shown to a reader, joined by newlines.
pub open spec fn shown(lines: Seq<Seq<u8>>, start: nat, end: int) -> Seq<char>
    decreases end + 1 - start,
{
    if end < start {
        Seq::empty()
    } else if end == start {
        show_entry(lines, start)
    } else {
        shown(lines, start, end - 1) + seq!['\n'] + show_entry(lines, end as nat)
    }
}

/// All lines joined by newlines.
pub open spec fn joined(lines: Seq<Seq<u8>>) -> Seq<char>
    decreases lines.len(),
{
    if lines.len() == 0 {
        Seq::empty()
    } else if lines.len() == 1 {
        decode_utf8(lines[0])
    } else {
        joined(lines.drop_last()) + seq!['\n'] + decode_utf8(lines.last())
    }
}

/// Reading `b` from the left: the lines completed so far and the open piece.
pub open spec fn scan_lines(b: Seq<u8>) -> (Seq<Seq<u8>>, Seq<u8>)
    decreases b.len(),
{
    if b.len() == 0 {
        (Seq::empty(), Seq::empty())
    } else {
        let (done, cur) = scan_lines(b.drop_last());
        if b.last() == 10u8 {
            (done.push(cur), Seq::empty())
        } else {
            (done, cur.push(b.last()))
        }
    }
}

/// The lines of a text: the pieces between newlines, and no empty piece
/// after a final newline.
pub open spec fn split_lines(b: Seq<u8>) -> Seq<Seq<u8>> {
    let (done, cur) = scan_lines(b);
    if cur.len() == 0 {
        done
    } else {
        done.push(cur)
    }
}

/// A document after loading `content`: its lines replaced, not modified,
/// logging on exactly when the first line is the log marker, history kept.
pub open spec fn loaded(m: EditorModel, content: Seq<char>) -> EditorModel {
    let lines = split_lines(bytes_of(content));
    EditorModel {
        lines,
        modified: false,
        logging: lines.len() > 0 && decode_utf8(lines[0]) == log_marker(),
        ..m
    }
}

/// The first line that turns logging on.
pub open spec fn log_marker() -> Seq<char> {
    seq!['#', ' ', 'l', 'o', 'g']
}

} // verus!
