//! What holds of the history as a whole: executing and undoing are inverse,
//! redoing replays, the stacks move in step, and the buffer operations
//! validate their ranges.

use vstd::prelude::*;
use vstd::utf8::*;

use crate::commands::{command_valid, recorded, run, run_back, DocCommand};
use crate::editor::{exec_doc_post, redo_post, undo_post};
use crate::model::{
    buffer_wf, delete_model, deleted, insert_model, insert_ok, range_ok, span_ok, EditorModel,
};
use crate::text::{
    bytes_of, cut, has_newline, lemma_boundary_at_join, lemma_no_newline_cut,
    lemma_no_newline_spliced, lemma_no_newline_subrange, spliced,
};

verus! {

broadcast use vstd::utf8::group_utf8_lib;

/// The bytes of a non-empty text are not empty.
proof fn lemma_bytes_nonempty(s: Seq<char>)
    requires
        s.len() > 0,
    ensures
        bytes_of(s).len() > 0,
{
    assert(encode_scalar(s[0] as u32).len() > 0);
    assert(bytes_of(s) == encode_scalar(s[0] as u32) + encode_utf8(s.drop_first()));
}

/// Putting `t` in at a boundary and cutting it out again gives back `b`.
proof fn lemma_splice_then_cut(b: Seq<u8>, off: int, t: Seq<u8>)
    requires
        valid_utf8(b),
        valid_utf8(t),
        is_char_boundary(b, off),
    ensures
        valid_utf8(spliced(b, off, t)),
        spliced(b, off, t).len() == b.len() + t.len(),
        is_char_boundary(spliced(b, off, t), off),
        is_char_boundary(spliced(b, off, t), off + t.len()),
        cut(spliced(b, off, t), off, off + t.len()) == b,
{
    assert(off <= b.len());
    valid_utf8_split(b, off);
    let x = b.take(off);
    let y = b.skip(off);
    assert(x =~= b.subrange(0, off));
    assert(y =~= b.subrange(off, b.len() as int));
    let s = spliced(b, off, t);
    lemma_boundary_at_join(t, y);
    lemma_boundary_at_join(x, t + y);
    assert(s =~= x + (t + y));
    lemma_boundary_at_join(x, t);
    lemma_boundary_at_join(x + t, y);
    assert(s =~= (x + t) + y);
    assert(cut(s, off, off + t.len()) =~= b);
}

/// Cutting `[start, end)` out and putting those bytes back gives back `b`.
proof fn lemma_cut_then_splice(b: Seq<u8>, start: int, end: int)
    requires
        valid_utf8(b),
        is_char_boundary(b, start),
        is_char_boundary(b, end),
        start <= end,
    ensures
        valid_utf8(cut(b, start, end)),
        valid_utf8(b.subrange(start, end)),
        cut(b, start, end).len() == b.len() - (end - start),
        is_char_boundary(cut(b, start, end), start),
        spliced(cut(b, start, end), start, b.subrange(start, end)) == b,
{
    assert(end <= b.len());
    valid_utf8_split(b, start);
    valid_utf8_split(b, end);
    let x = b.take(start);
    let y = b.skip(end);
    assert(x =~= b.subrange(0, start));
    assert(y =~= b.subrange(end, b.len() as int));
    let tail = b.subrange(start, b.len() as int);
    assert(is_char_boundary(tail, end - start)) by {
        let p = b.take(end);
        assert(p =~= b.subrange(0, end));
        crate::text::lemma_boundary_in_prefix(b, end, start);
        valid_utf8_split(p, start);
        assert(p.subrange(start, end) =~= b.subrange(start, end));
        lemma_boundary_at_join(b.subrange(start, end), y);
        assert(tail =~= b.subrange(start, end) + y);
    }
    valid_utf8_split(tail, end - start);
    assert(tail.subrange(0, end - start) =~= b.subrange(start, end));
    lemma_boundary_at_join(x, y);
    assert(cut(b, start, end) =~= x + y);
    let c = cut(b, start, end);
    assert(spliced(c, start, b.subrange(start, end)) =~= b);
}

/// What applying a command does to the lines does not depend on what it
/// recorded in an earlier application.
proof fn lemma_run_ignores_record(c: DocCommand, m0: EditorModel, c1: DocCommand, m: EditorModel)
    requires
        recorded(c, m0, c1),
    ensures
        run(c1, m).0 == run(c, m).0,
        run(c1, m).1 == run(c, m).1,
{
}

/// A successful insertion keeps every line valid and without newlines.
proof fn lemma_insert_keeps_wf(m: EditorModel, line: int, col: int, t: Seq<u8>)
    requires
        buffer_wf(m.lines),
        valid_utf8(t),
        insert_ok(m.lines, line, col, t),
    ensures
        buffer_wf(insert_model(m, line, col, t).1.lines),
{
    let m1 = insert_model(m, line, col, t).1;
    if m.lines.len() > 0 {
        let idx = line - 1;
        let l = m.lines[idx];
        lemma_splice_then_cut(l, col - 1, t);
        lemma_no_newline_spliced(l, col - 1, t);
        assert forall|i: int| 0 <= i < m1.lines.len() implies valid_utf8(#[trigger] m1.lines[i])
            && !has_newline(m1.lines[i]) by {
            if i != idx {
                assert(m1.lines[i] == m.lines[i]);
            }
        }
    } else {
        assert(m1.lines =~= seq![t]);
        assert forall|i: int| 0 <= i < m1.lines.len() implies valid_utf8(#[trigger] m1.lines[i])
            && !has_newline(m1.lines[i]) by {
            assert(m1.lines[i] == t);
        }
    }
}

/// A successful deletion keeps every line valid and without newlines.
proof fn lemma_delete_keeps_wf(m: EditorModel, line: int, col: int, len: int)
    requires
        buffer_wf(m.lines),
        span_ok(m.lines, line, col, len),
        0 <= len,
    ensures
        buffer_wf(delete_model(m, line, col, len).1.lines),
{
    let m1 = delete_model(m, line, col, len).1;
    if len != 0 {
        let idx = line - 1;
        let l = m.lines[idx];
        let off = col - 1;
        lemma_cut_then_splice(l, off, off + len);
        lemma_no_newline_cut(l, off, off + len);
        assert forall|i: int| 0 <= i < m1.lines.len() implies valid_utf8(#[trigger] m1.lines[i])
            && !has_newline(m1.lines[i]) by {
            if i != idx {
                assert(m1.lines[i] == m.lines[i]);
            }
        }
    }
}

/// A successful command keeps every line valid and without newlines.
proof fn lemma_run_keeps_wf(c: DocCommand, m: EditorModel)
    requires
        buffer_wf(m.lines),
        run(c, m).0,
    ensures
        buffer_wf(run(c, m).1.lines),
{
    let m1 = run(c, m).1;
    match c {
        DocCommand::Append(a) => {
            let t = bytes_of(a.text@);
            encode_utf8_valid_utf8(a.text@);
            assert(m1.lines == m.lines.push(t));
            assert forall|i: int| 0 <= i < m1.lines.len() implies valid_utf8(#[trigger] m1.lines[i])
                && !has_newline(m1.lines[i]) by {
                if i < m.lines.len() {
                    assert(m1.lines[i] == m.lines[i]);
                } else {
                    assert(m1.lines[i] == t);
                }
            }
        },
        DocCommand::Insert(ins) => {
            encode_utf8_valid_utf8(ins.text@);
            lemma_insert_keeps_wf(m, ins.line as int, ins.col as int, bytes_of(ins.text@));
        },
        DocCommand::Delete(d) => {
            lemma_delete_keeps_wf(m, d.line as int, d.col as int, d.len as int);
        },
        DocCommand::Replace(r) => {
            lemma_delete_keeps_wf(m, r.line as int, r.col as int, r.len as int);
            let mid = delete_model(m, r.line as int, r.col as int, r.len as int).1;
            encode_utf8_valid_utf8(r.new_text@);
            lemma_insert_keeps_wf(mid, r.line as int, r.col as int, bytes_of(r.new_text@));
        },
    }
}

/// Taking back a command right after applying it restores the lines.
proof fn lemma_run_back_restores(c: DocCommand, m: EditorModel, c1: DocCommand, m1: EditorModel)
    requires
        buffer_wf(m.lines),
        command_valid(c),
        run(c, m).0,
        recorded(c, m, c1),
        m1.lines == run(c, m).1.lines,
    ensures
        run_back(c1, m1).0,
        run_back(c1, m1).1.lines == m.lines,
        run_back(c1, m1).1.undo == m1.undo,
        run_back(c1, m1).1.redo == m1.redo,
{
    match c {
        DocCommand::Append(a) => {
            assert(m1.lines.drop_last() =~= m.lines);
        },
        DocCommand::Insert(i) => if m.lines.len() == 0 {
            assert(m1.lines.drop_last() =~= m.lines);
        } else {
            let t = bytes_of(i.text@);
            let idx = i.line - 1;
            let off = i.col - 1;
            let l = m.lines[idx];
            lemma_bytes_nonempty(i.text@);
            lemma_splice_then_cut(l, off, t);
            let l1 = spliced(l, off, t);
            assert(m1.lines[idx] == l1);
            assert(range_ok(m1.lines, i.line as int, i.col as int, t.len() as int));
            assert(deleted(m1.lines, i.line as int, i.col as int, t.len() as int) =~= m.lines);
        },
        DocCommand::Delete(d) => {
            let idx = d.line - 1;
            let off = d.col - 1;
            let end = off + d.len;
            let l = m.lines[idx];
            lemma_cut_then_splice(l, off, end);
            lemma_no_newline_subrange(l, off, end);
            let snap = match c1 {
                DocCommand::Delete(d1) => d1.deleted_text->Some_0,
                _ => arbitrary(),
            };
            assert(bytes_of(snap@) == l.subrange(off, end));
            assert(m1.lines[idx] == cut(l, off, end));
            assert(insert_ok(m1.lines, d.line as int, d.col as int, bytes_of(snap@)));
            assert(m1.lines.update(idx, spliced(cut(l, off, end), off, l.subrange(off, end)))
                =~= m.lines);
        },
        DocCommand::Replace(r) => {
            let idx = r.line - 1;
            let off = r.col - 1;
            let end = off + r.len;
            let l = m.lines[idx];
            let n = bytes_of(r.new_text@);
            lemma_bytes_nonempty(r.new_text@);
            lemma_cut_then_splice(l, off, end);
            lemma_no_newline_subrange(l, off, end);
            let d = cut(l, off, end);
            lemma_splice_then_cut(d, off, n);
            let y = spliced(d, off, n);
            let snap = match c1 {
                DocCommand::Replace(r1) => r1.old_text->Some_0,
                _ => arbitrary(),
            };
            assert(bytes_of(snap@) == l.subrange(off, end));
            assert(m1.lines[idx] == y);
            assert(range_ok(m1.lines, r.line as int, r.col as int, n.len() as int));
            let mid = delete_model(m1, r.line as int, r.col as int, n.len() as int).1;
            assert(mid.lines =~= m1.lines.update(idx, d));
            assert(insert_ok(mid.lines, r.line as int, r.col as int, bytes_of(snap@)));
            assert(mid.lines.update(idx, spliced(d, off, l.subrange(off, end))) =~= m.lines);
        },
    }
}

/// Executing a command and then undoing it restores every line, byte for
/// byte, and leaves the applied command alone on top of the redo stack. This
/// holds for every command its constructor admits.
pub proof fn lemma_undo_after_execute(
    m0: EditorModel,
    c: DocCommand,
    m1: EditorModel,
    ok2: bool,
    m2: EditorModel,
)
    requires
        buffer_wf(m0.lines),
        command_valid(c),
        exec_doc_post(m0, c, true, m1),
        undo_post(m1, ok2, m2),
    ensures
        ok2,
        m2.lines == m0.lines,
        m2.undo == m0.undo,
        m2.redo == seq![m1.undo.last()],
{
    let c1 = m1.undo.last();
    let m1b = EditorModel { undo: m1.undo.drop_last(), ..m1 };
    assert(m1.undo.drop_last() =~= m0.undo);
    lemma_run_back_restores(c, m0, c1, m1b);
    assert(m2.redo =~= seq![c1]);
}

/// Executing, undoing and redoing a command leaves the lines as executing it
/// alone did.
pub proof fn lemma_redo_after_undo(
    m0: EditorModel,
    c: DocCommand,
    m1: EditorModel,
    ok2: bool,
    m2: EditorModel,
    ok3: bool,
    m3: EditorModel,
)
    requires
        buffer_wf(m0.lines),
        command_valid(c),
        exec_doc_post(m0, c, true, m1),
        undo_post(m1, ok2, m2),
        redo_post(m2, ok3, m3),
    ensures
        ok2,
        ok3,
        m3.lines == m1.lines,
{
    let c1 = m1.undo.last();
    lemma_undo_after_execute(m0, c, m1, ok2, m2);
    let m2b = EditorModel { redo: m2.redo.drop_last(), ..m2 };
    assert(m2.redo.last() == c1);
    lemma_run_ignores_record(c, m0, c1, m2b);
    assert(m2b.lines == m0.lines);
    assert(run(c, m2b).1.lines == run(c, m0).1.lines);
}

/// After two executions and one undo, the undo succeeds, the undo stack
/// holds the first command and the redo stack holds the second alone; a
/// further successful execution empties the redo stack.
pub proof fn lemma_stack_discipline(
    m0: EditorModel,
    c1: DocCommand,
    m1: EditorModel,
    c2: DocCommand,
    m2: EditorModel,
    ok3: bool,
    m3: EditorModel,
    c3: DocCommand,
    m4: EditorModel,
)
    requires
        buffer_wf(m0.lines),
        command_valid(c2),
        exec_doc_post(m0, c1, true, m1),
        exec_doc_post(m1, c2, true, m2),
        undo_post(m2, ok3, m3),
        ok3 ==> exec_doc_post(m3, c3, true, m4),
    ensures
        ok3,
        m3.undo == m0.undo.push(m1.undo.last()),
        m3.redo == seq![m2.undo.last()],
        m0.undo.len() == 0 ==> m3.undo.len() == 1,
        m3.redo.len() == 1,
        m4.redo.len() == 0,
{
    lemma_run_keeps_wf(c1, m0);
    lemma_undo_after_execute(m1, c2, m2, ok3, m3);
    assert(m2.undo.drop_last() =~= m1.undo);
    assert(m3.redo =~= seq![m2.undo.last()]);
}

/// Insertion fails for a column of zero, for a column past one after the
/// end of its line, and for a line outside a non-empty document, and then
/// changes nothing; into an empty document `1:1` succeeds and creates
/// exactly one line, equal to the text.
pub proof fn lemma_insert_validation(m: EditorModel, line: int, col: int, t: Seq<u8>)
    ensures
        col == 0 ==> !insert_model(m, line, col, t).0,
        m.lines.len() > 0 && 1 <= line <= m.lines.len() && col > m.lines[line - 1].len() + 1
            ==> !insert_model(m, line, col, t).0,
        m.lines.len() > 0 && (line < 1 || line > m.lines.len()) ==> !insert_model(
            m,
            line,
            col,
            t,
        ).0,
        !insert_model(m, line, col, t).0 ==> insert_model(m, line, col, t).1 == m,
        m.lines.len() == 0 && !has_newline(t) ==> insert_model(m, 1, 1, t).0 && insert_model(
            m,
            1,
            1,
            t,
        ).1.lines == seq![t],
{
}

/// Deleting `len > 0` bytes fails, changing nothing, when `col - 1 + len`
/// runs past the end of the line; otherwise, where both ends fall on
/// character boundaries, it succeeds and removes exactly those `len` bytes.
/// Deleting zero bytes succeeds and changes nothing.
pub proof fn lemma_delete_boundary(m: EditorModel, line: int, col: int, len: int)
    requires
        1 <= line <= m.lines.len(),
        1 <= col,
        0 <= len,
        col - 1 + len <= m.lines[line - 1].len() ==> is_char_boundary(m.lines[line - 1], col - 1)
            && is_char_boundary(m.lines[line - 1], col - 1 + len),
    ensures
        len > 0 && col - 1 + len > m.lines[line - 1].len() ==> delete_model(m, line, col, len) == (
        false, m),
        len > 0 && col - 1 + len <= m.lines[line - 1].len() ==> {
            let (ok, m2) = delete_model(m, line, col, len);
            &&& ok
            &&& m2.lines.len() == m.lines.len()
            &&& m2.lines[line - 1].len() == m.lines[line - 1].len() - len
            &&& m2.lines[line - 1] == cut(m.lines[line - 1], col - 1, col - 1 + len)
            &&& forall|i: int| 0 <= i < m.lines.len() && i != line - 1 ==> m2.lines[i] == m.lines[i]
        },
        len == 0 ==> delete_model(m, line, col, len) == (true, m),
{
}

} // verus!
