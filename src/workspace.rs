//! The workspace: the open documents by path, which one is active, and the
//! directory that relative paths are resolved against.

use vstd::prelude::*;
use vstd::string::*;
use vstd::utf8::*;

use crate::commands::DocCommand;
use crate::editor::{exec_doc_post, redo_post, undo_post, Editor};
use crate::error::{internal_error, invalid_args, AppError, AppResult};
use crate::logging::log_name;
use crate::model::{
    empty_model, is_internal_error, is_invalid_args, joined, loaded, log_marker, shown,
    EditorModel,
};
use crate::paths::{file_name, file_name_of, is_absolute, is_absolute_of, path_join, path_join_of};
use crate::persist::{memento_paths, memento_wf, FileFlags, WorkspaceMemento};
use crate::text::{bytes_of, join3, owned};

verus! {

broadcast use vstd::utf8::group_utf8_lib;

/// No path occurs twice.
pub open spec fn unique(s: Seq<Seq<char>>) -> bool {
    forall|i: int, j: int| 0 <= i < j < s.len() ==> #[trigger] s[i] != #[trigger] s[j]
}

/// Where `p` stands in `s`.
pub open spec fn position(s: Seq<Seq<char>>, p: Seq<char>) -> int {
    choose|i: int| 0 <= i < s.len() && s[i] == p
}

/// In a sequence without repeats, `p` stands at the one index that holds it.
pub proof fn lemma_position(s: Seq<Seq<char>>, p: Seq<char>, i: int)
    requires
        unique(s),
        0 <= i < s.len(),
        s[i] == p,
    ensures
        position(s, p) == i,
{
    let k = position(s, p);
    assert(0 <= k < s.len() && s[k] == p);
    if k < i {
        assert(s[k] != s[i]);
    } else if k > i {
        assert(s[i] != s[k]);
    }
}

/// A freshly created document: empty, or holding the log marker when
/// logging is asked for.
pub open spec fn new_doc(logging: bool) -> EditorModel {
    if logging {
        EditorModel {
            lines: seq![bytes_of(log_marker())],
            modified: true,
            logging: true,
            undo: Seq::empty(),
            redo: Seq::empty(),
        }
    } else {
        EditorModel {
            lines: Seq::empty(),
            modified: false,
            logging: false,
            undo: Seq::empty(),
            redo: Seq::empty(),
        }
    }
}

/// `v` brought into `[lo, hi]`.
pub open spec fn clamp(v: int, lo: int, hi: int) -> int {
    if v < lo {
        lo
    } else if v > hi {
        hi
    } else {
        v
    }
}

/// The text shown for a document without lines.
pub open spec fn empty_text() -> Seq<char> {
    seq!['<', 'e', 'm', 'p', 't', 'y', '>']
}

/// The mark after a modified document in a listing.
pub open spec fn modified_tag() -> Seq<char> {
    seq![' ', '[', 'm', 'o', 'd', 'i', 'f', 'i', 'e', 'd', ']']
}

/// One line of a listing: `* ` before the active document, two spaces
/// before the others, and the mark after a modified one.
pub open spec fn editor_line(p: Seq<char>, is_active: bool, modified: bool) -> Seq<char> {
    (if is_active {
        seq!['*', ' ']
    } else {
        seq![' ', ' ']
    }) + p + (if modified {
        modified_tag()
    } else {
        Seq::empty()
    })
}

/// The listing of the first `k` documents, one line each.
pub open spec fn listing(
    paths: Seq<Seq<char>>,
    docs: Seq<EditorModel>,
    active: Option<Seq<char>>,
    k: int,
) -> Seq<char>
    decreases k,
{
    if k <= 0 {
        Seq::empty()
    } else {
        listing(paths, docs, active, k - 1) + editor_line(
            paths[k - 1],
            active == Some(paths[k - 1]),
            docs[k - 1].modified,
        ) + seq!['\n']
    }
}

/// Where a relative path argument leads: nowhere given means the base
/// directory, an absolute path stays as it is, and a relative one is joined
/// onto the base directory.
pub open spec fn resolved(base: Seq<char>, arg: Option<Seq<char>>) -> Seq<char> {
    match arg {
        None => base,
        Some(s) => if is_absolute_of(s) {
            s
        } else {
            path_join_of(base, s)
        },
    }
}

/// What executing `cmd` on the active document of `w` leads to.
pub open spec fn exec_post(w: Workspace, cmd: DocCommand, ok: bool, w2: Workspace) -> bool {
    &&& w2.paths() == w.paths()
    &&& w2.active() == w.active()
    &&& w2.base_dir() == w.base_dir()
    &&& w.active() is None ==> !ok && w2.docs() == w.docs()
    &&& w.active() is Some ==> {
        let i = w.active_index();
        &&& exec_doc_post(w.docs()[i], cmd, ok, w2.docs()[i])
        &&& w2.docs() == w.docs().update(i, w2.docs()[i])
    }
}

/// What undoing (`redo` false) or redoing on the active document of `w`
/// leads to.
pub open spec fn history_post(w: Workspace, redo: bool, ok: bool, w2: Workspace) -> bool {
    &&& w2.paths() == w.paths()
    &&& w2.active() == w.active()
    &&& w2.base_dir() == w.base_dir()
    &&& w.active() is None ==> !ok && w2.docs() == w.docs()
    &&& w.active() is Some ==> {
        let i = w.active_index();
        &&& if redo {
            redo_post(w.docs()[i], ok, w2.docs()[i])
        } else {
            undo_post(w.docs()[i], ok, w2.docs()[i])
        }
        &&& w2.docs() == w.docs().update(i, w2.docs()[i])
    }
}

/// What `show(start, end)` gives on `w`.
pub open spec fn show_post(
    w: Workspace,
    start: Option<usize>,
    end: Option<usize>,
    r: AppResult<String>,
) -> bool {
    &&& w.active() is None ==> is_internal_error(r)
    &&& w.active() is Some ==> {
        let d = w.docs()[w.active_index()];
        let n = d.lines.len() as int;
        let s = clamp(
            match start {
                Some(v) => v as int,
                None => 1,
            },
            1,
            n,
        );
        let e = clamp(
            match end {
                Some(v) => v as int,
                None => n,
            },
            1,
            n,
        );
        &&& n == 0 ==> r is Ok && r->Ok_0@ == empty_text()
        &&& n > 0 && e < s ==> is_invalid_args(r)
        &&& n > 0 && s <= e ==> r is Ok && r->Ok_0@ == shown(d.lines, s as nat, e)
    }
}

/// The open documents of a session.
pub struct Workspace {
    paths: Vec<String>,
    editors: Vec<Editor>,
    active: Option<String>,
    base_dir: String,
}

/// The index of `key` in `paths`.
fn find_in(paths: &Vec<String>, key: &String) -> (r: Option<usize>)
    ensures
        r is Some ==> r->Some_0 < paths@.len() && paths@[r->Some_0 as int]@ == key@,
        r is None ==> forall|j: int| 0 <= j < paths@.len() ==> paths@[j]@ != key@,
{
    let mut i: usize = 0;
    while i < paths.len()
        invariant
            i <= paths@.len(),
            forall|j: int| 0 <= j < i ==> paths@[j]@ != key@,
        decreases paths@.len() - i,
    {
        if paths[i] == *key {
            return Some(i);
        }
        i += 1;
    }
    None
}

/// One line of a listing.
fn write_editor(p: &str, is_active: bool, modified: bool) -> (r: String)
    ensures
        r@ == editor_line(p@, is_active, modified),
{
    proof {
        reveal_strlit("* ");
        reveal_strlit("  ");
        reveal_strlit(" [modified]");
        reveal_strlit("");
        assert("* "@ =~= seq!['*', ' ']);
        assert("  "@ =~= seq![' ', ' ']);
        assert(" [modified]"@ =~= modified_tag());
    }
    let lead = if is_active {
        "* "
    } else {
        "  "
    };
    let tail = if modified {
        " [modified]"
    } else {
        ""
    };
    join3(lead, p, tail)
}

impl Workspace {
    /// The paths of the open documents, in the order they were opened.
    pub closed spec fn paths(&self) -> Seq<Seq<char>> {
        self.paths@.map_values(|p: String| p@)
    }

    /// The open documents, in the same order as their paths.
    pub closed spec fn docs(&self) -> Seq<EditorModel> {
        self.editors@.map_values(|e: Editor| e@)
    }

    /// The path of the active document, if any.
    pub closed spec fn active(&self) -> Option<Seq<char>> {
        match self.active {
            Some(p) => Some(p@),
            None => None,
        }
    }

    pub closed spec fn base_dir(&self) -> Seq<char> {
        self.base_dir@
    }

    /// Where the active document stands.
    pub open spec fn active_index(&self) -> int {
        position(self.paths(), self.active()->Some_0)
    }

    /// The index of the document at `p`.
    pub open spec fn index_of(&self, p: Seq<char>) -> int {
        position(self.paths(), p)
    }

    #[verifier::type_invariant]
    spec fn inv(&self) -> bool {
        &&& self.paths@.len() == self.editors@.len()
        &&& unique(self.paths())
        &&& self.active() is Some ==> self.paths().contains(self.active()->Some_0)
    }

    /// Moves everything out, leaving an empty workspace.
    fn take_all(&mut self) -> (r: Workspace)
        ensures
            r == *old(self),
    {
        let mut other = Workspace {
            paths: Vec::new(),
            editors: Vec::new(),
            active: None,
            base_dir: String::new(),
        };
        proof {
            assert(other.paths() =~= Seq::<Seq<char>>::empty());
        }
        std::mem::swap(self, &mut other);
        other
    }

    /// Exchanges the document at `i` with `ed`.
    fn swap_editor(&mut self, i: usize, ed: &mut Editor)
        requires
            i < old(self).editors@.len(),
        ensures
            final(self).editors@ == old(self).editors@.update(i as int, *old(ed)),
            *final(ed) == old(self).editors@[i as int],
            final(self).paths == old(self).paths,
            final(self).active == old(self).active,
            final(self).base_dir == old(self).base_dir,
    {
        proof {
            use_type_invariant(&*self);
        }
        std::mem::swap(&mut self.editors[i], ed);
    }

    /// The index of the document at `key`.
    fn find(&self, key: &String) -> (r: Option<usize>)
        ensures
            r is Some ==> r->Some_0 < self.editors@.len() && self.paths()[r->Some_0 as int] == key@
                && r->Some_0 == self.index_of(key@),
            r is Some ==> self.paths().contains(key@),
            r is None ==> !self.paths().contains(key@),
    {
        proof {
            use_type_invariant(self);
        }
        let r = find_in(&self.paths, key);
        proof {
            match r {
                Some(i) => {
                    assert(self.paths()[i as int] == key@);
                    assert(self.paths().contains(key@));
                    lemma_position(self.paths(), key@, i as int);
                },
                None => {
                    assert forall|j: int| 0 <= j < self.paths().len() implies self.paths()[j]
                        != key@ by {
                        assert(self.paths()[j] == self.paths@[j]@);
                    }
                },
            }
        }
        r
    }

    /// The index of the active document; fails when none is active.
    fn active_slot(&self) -> (r: AppResult<usize>)
        ensures
            self.active() is None ==> is_internal_error(r),
            self.active() is Some ==> r is Ok && r->Ok_0 == self.active_index() && r->Ok_0
                < self.editors@.len(),
    {
        proof {
            use_type_invariant(self);
        }
        match &self.active {
            None => Err(internal_error("no active file.")),
            Some(p) => match self.find(p) {
                Some(i) => Ok(i),
                None => Err(invalid_args("active editor not found")),
            },
        }
    }

    /// A workspace with no documents, based in `work_dir`.
    pub fn default() -> (r: Self)
        ensures
            r.paths() == Seq::<Seq<char>>::empty(),
            r.docs() == Seq::<EditorModel>::empty(),
            r.active() is None,
            r.base_dir() == seq!['w', 'o', 'r', 'k', '_', 'd', 'i', 'r'],
    {
        proof {
            reveal_strlit("work_dir");
        }
        let r = Workspace {
            paths: Vec::new(),
            editors: Vec::new(),
            active: None,
            base_dir: owned("work_dir"),
        };
        assert(r.paths() =~= Seq::<Seq<char>>::empty());
        assert(r.docs() =~= Seq::<EditorModel>::empty());
        assert(r.base_dir() =~= seq!['w', 'o', 'r', 'k', '_', 'd', 'i', 'r']);
        r
    }

    /// Executes `cmd` on the active document.
    pub fn exec_doc(&mut self, cmd: DocCommand) -> (r: AppResult<()>)
        ensures
            exec_post(*old(self), cmd, r is Ok, *final(self)),
            old(self).active() is None ==> is_internal_error(r),
    {
        let i = match self.active_slot() {
            Ok(i) => i,
            Err(e) => return Err(e),
        };
        let mut ed = Editor::new();
        self.swap_editor(i, &mut ed);
        let r = ed.exec_doc(cmd);
        self.swap_editor(i, &mut ed);
        assert(self.docs() =~= old(self).docs().update(i as int, self.docs()[i as int]));
        r
    }

    /// Undoes the last command of the active document.
    pub fn undo(&mut self) -> (r: AppResult<()>)
        ensures
            history_post(*old(self), false, r is Ok, *final(self)),
            old(self).active() is None ==> is_internal_error(r),
    {
        let i = match self.active_slot() {
            Ok(i) => i,
            Err(e) => return Err(e),
        };
        let mut ed = Editor::new();
        self.swap_editor(i, &mut ed);
        let r = ed.undo();
        self.swap_editor(i, &mut ed);
        assert(self.docs() =~= old(self).docs().update(i as int, self.docs()[i as int]));
        r
    }

    /// Redoes the last undone command of the active document.
    pub fn redo(&mut self) -> (r: AppResult<()>)
        ensures
            history_post(*old(self), true, r is Ok, *final(self)),
            old(self).active() is None ==> is_internal_error(r),
    {
        let i = match self.active_slot() {
            Ok(i) => i,
            Err(e) => return Err(e),
        };
        let mut ed = Editor::new();
        self.swap_editor(i, &mut ed);
        let r = ed.redo();
        self.swap_editor(i, &mut ed);
        assert(self.docs() =~= old(self).docs().update(i as int, self.docs()[i as int]));
        r
    }

    /// Adds `ed` under a path not yet open.
    fn push_doc(&mut self, key: String, ed: Editor)
        requires
            !old(self).paths().contains(key@),
        ensures
            final(self).paths() == old(self).paths().push(key@),
            final(self).docs() == old(self).docs().push(ed@),
            final(self).active() == old(self).active(),
            final(self).base_dir() == old(self).base_dir(),
    {
        let all = self.take_all();
        proof {
            use_type_invariant(&all);
        }
        let Workspace { mut paths, mut editors, active, base_dir } = all;
        let ghost before = paths@.map_values(|p: String| p@);
        paths.push(key);
        editors.push(ed);
        let ghost after = paths@.map_values(|p: String| p@);
        assert(after =~= before.push(key@));
        assert(unique(after)) by {
            assert forall|i: int, j: int| 0 <= i < j < after.len() implies #[trigger] after[i]
                != #[trigger] after[j] by {
                if j == before.len() {
                    assert(before[i] == after[i]);
                }
            }
        }
        proof {
            if active is Some {
                let a = active->Some_0@;
                let k = choose|k: int| 0 <= k < before.len() && before[k] == a;
                assert(after[k] == a);
            }
        }
        *self = Workspace { paths, editors, active, base_dir };
        assert(self.docs() =~= old(self).docs().push(ed@));
    }

    /// Creates an empty document at `path`, holding the log marker when
    /// `logging` is set; fails when `path` is already open. The new document
    /// does not become active.
    pub fn init(&mut self, path: &str, logging: bool) -> (r: AppResult<()>)
        ensures
            r is Err <==> old(self).paths().contains(path@),
            r is Err ==> is_invalid_args(r) && final(self).paths() == old(self).paths()
                && final(self).docs() == old(self).docs(),
            r is Ok ==> final(self).paths() == old(self).paths().push(path@) && final(self).docs()
                == old(self).docs().push(new_doc(logging)),
            final(self).active() == old(self).active(),
            final(self).base_dir() == old(self).base_dir(),
    {
        let key = owned(path);
        if self.find(&key).is_some() {
            return Err(invalid_args("file already exists!"));
        }
        let mut ed = Editor::new();
        if logging {
            ed.set_logging(true);
            proof {
                reveal_strlit("# log");
                assert("# log"@ =~= log_marker());
                assert(is_ascii_chars(log_marker()));
                let b = bytes_of(log_marker());
                assert forall|j: int| 0 <= j < b.len() implies b[j] != 10u8 by {
                    assert(b[j] == log_marker()[j] as u8);
                }
            }
            ed.append_line("# log");
        }
        proof {
            if logging {
                assert(ed@ =~= new_doc(true));
            } else {
                assert(ed@ =~= new_doc(false));
            }
        }
        self.push_doc(key, ed);
        Ok(())
    }

    /// Loads `content` into the document at `path`, opening it first when it
    /// is not open, and makes it active.
    pub fn load(&mut self, path: &str, content: &str)
        ensures
            final(self).active() == Some(path@),
            final(self).base_dir() == old(self).base_dir(),
            old(self).paths().contains(path@) ==> {
                let i = old(self).index_of(path@);
                &&& final(self).paths() == old(self).paths()
                &&& final(self).docs() == old(self).docs().update(
                    i,
                    loaded(old(self).docs()[i], content@),
                )
            },
            !old(self).paths().contains(path@) ==> {
                &&& final(self).paths() == old(self).paths().push(path@)
                &&& final(self).docs() == old(self).docs().push(loaded(empty_model(), content@))
            },
    {
        let key = owned(path);
        match self.find(&key) {
            Some(i) => {
                let mut ed = Editor::new();
                self.swap_editor(i, &mut ed);
                ed.load_from(content);
                self.swap_editor(i, &mut ed);
                assert(self.docs() =~= old(self).docs().update(
                    i as int,
                    loaded(old(self).docs()[i as int], content@),
                ));
            },
            None => {
                let mut ed = Editor::new();
                ed.load_from(content);
                self.push_doc(owned(path), ed);
            },
        }
        proof {
            use_type_invariant(&*self);
            let k = self.index_of(path@);
            if old(self).paths().contains(path@) {
                let j = choose|j: int| 0 <= j < old(self).paths().len() && old(self).paths()[j] == path@;
                assert(self.paths()[j] == path@);
            } else {
                assert(self.paths()[self.paths().len() - 1] == path@);
            }
        }
        self.active = Some(key);
    }

    /// Makes the document at `path` active; fails when it is not open.
    pub fn edit(&mut self, path: &str) -> (r: AppResult<()>)
        ensures
            r is Ok <==> old(self).paths().contains(path@),
            r is Ok ==> final(self).active() == Some(path@),
            r is Err ==> is_invalid_args(r) && final(self).active() == old(self).active(),
            final(self).paths() == old(self).paths(),
            final(self).docs() == old(self).docs(),
            final(self).base_dir() == old(self).base_dir(),
    {
        let key = owned(path);
        match self.find(&key) {
            Some(_) => {
                proof {
                    use_type_invariant(&*self);
                }
                self.active = Some(key);
                Ok(())
            },
            None => Err(invalid_args("target file hasn't been opened")),
        }
    }

    /// Closes the active document; fails when none is active.
    pub fn close(&mut self) -> (r: AppResult<()>)
        ensures
            old(self).active() is None ==> is_internal_error(r) && final(self).paths() == old(
                self,
            ).paths() && final(self).docs() == old(self).docs() && final(self).active() is None,
            old(self).active() is Some ==> {
                let i = old(self).active_index();
                &&& r is Ok
                &&& final(self).active() is None
                &&& final(self).paths() == old(self).paths().remove(i)
                &&& final(self).docs() == old(self).docs().remove(i)
            },
            final(self).base_dir() == old(self).base_dir(),
    {
        let i = match self.active_slot() {
            Ok(i) => i,
            Err(_) => return Err(internal_error("no file to be closed")),
        };
        let all = self.take_all();
        proof {
            use_type_invariant(&all);
        }
        let Workspace { mut paths, mut editors, active: _, base_dir } = all;
        let ghost before = paths@.map_values(|p: String| p@);
        paths.remove(i);
        editors.remove(i);
        let ghost after = paths@.map_values(|p: String| p@);
        assert(after =~= before.remove(i as int));
        assert(unique(after)) by {
            assert forall|a: int, b: int| 0 <= a < b < after.len() implies #[trigger] after[a]
                != #[trigger] after[b] by {
                if a < i && b < i {
                    assert(before[a] != before[b]);
                } else if a < i {
                    assert(before[a] != before[b + 1]);
                } else {
                    assert(before[a + 1] != before[b + 1]);
                }
            }
        }
        *self = Workspace { paths, editors, active: None, base_dir };
        assert(self.docs() =~= old(self).docs().remove(i as int));
        Ok(())
    }

    /// Lines `start..=end` of the active document as `show` renders them,
    /// after clamping both into `[1, line count]`; `start` defaults to the
    /// first line and `end` to the last. A document without lines shows as
    /// `<empty>`. Fails when none is active or the clamped range is empty.
    pub fn show(&self, start: Option<usize>, end: Option<usize>) -> (r: AppResult<String>)
        ensures
            show_post(*self, start, end, r),
    {
        let i = match self.active_slot() {
            Ok(i) => i,
            Err(_) => return Err(internal_error("no active file")),
        };
        let ed = &self.editors[i];
        assert(self.docs()[i as int] == self.editors@[i as int]@);
        let n = ed.count_lines();
        if n == 0 {
            proof {
                reveal_strlit("<empty>");
                assert("<empty>"@ =~= empty_text());
            }
            return Ok(owned("<empty>"));
        }
        let s0 = match start {
            Some(v) => v,
            None => 1,
        };
        let e0 = match end {
            Some(v) => v,
            None => n,
        };
        let s = if s0 < 1 {
            1
        } else if s0 > n {
            n
        } else {
            s0
        };
        let e = if e0 < 1 {
            1
        } else if e0 > n {
            n
        } else {
            e0
        };
        if e < s {
            return Err(invalid_args("invalid range"));
        }
        Ok(ed.show(s, e))
    }

    /// One line per open document: `* ` before the active one, two spaces
    /// before the others, the path, and ` [modified]` after a modified one.
    pub fn list(&self) -> (r: AppResult<String>)
        ensures
            r is Ok,
            r->Ok_0@ == listing(self.paths(), self.docs(), self.active(), self.paths().len() as int),
    {
        proof {
            use_type_invariant(self);
        }
        let mut out = String::new();
        let mut i: usize = 0;
        while i < self.paths.len()
            invariant
                i <= self.paths@.len(),
                self.paths@.len() == self.editors@.len(),
                out@ == listing(self.paths(), self.docs(), self.active(), i as int),
            decreases self.paths@.len() - i,
        {
            let is_active = self.is_active_equal_to(&self.paths[i]);
            let modified = self.editors[i].is_modified();
            let line = write_editor(self.paths[i].as_str(), is_active, modified);
            proof {
                reveal_strlit("\n");
                assert("\n"@ =~= seq!['\n']);
                assert(self.paths()[i as int] == self.paths@[i as int]@);
                assert(self.docs()[i as int] == self.editors@[i as int]@);
            }
            out.append(line.as_str());
            out.append("\n");
            assert(out@ =~= listing(self.paths(), self.docs(), self.active(), i + 1));
            i += 1;
        }
        Ok(out)
    }

    /// Whether `p` is the active document's path.
    fn is_active_equal_to(&self, p: &String) -> (r: bool)
        ensures
            r == (self.active() == Some(p@)),
    {
        match &self.active {
            Some(a) => *a == *p,
            None => false,
        }
    }

    /// The text that saving the document at `path` writes; fails when no
    /// such document is open.
    pub fn save_file(&self, path: &str) -> (r: AppResult<String>)
        ensures
            r is Ok <==> self.paths().contains(path@),
            r is Ok ==> r->Ok_0@ == joined(self.docs()[self.index_of(path@)].lines),
            r is Err ==> is_invalid_args(r),
    {
        let key = owned(path);
        match self.find(&key) {
            Some(i) => {
                assert(self.docs()[i as int] == self.editors@[i as int]@);
                Ok(self.editors[i].to_string())
            },
            None => Err(invalid_args("no such path")),
        }
    }

    /// Records that the document at `path` was written out: it is no longer
    /// modified. Fails when no such document is open.
    pub fn mark_saved(&mut self, path: &str) -> (r: AppResult<()>)
        ensures
            r is Ok <==> old(self).paths().contains(path@),
            r is Ok ==> {
                let i = old(self).index_of(path@);
                final(self).docs() == old(self).docs().update(
                    i,
                    EditorModel { modified: false, ..old(self).docs()[i] },
                )
            },
            r is Err ==> is_invalid_args(r) && final(self).docs() == old(self).docs(),
            final(self).paths() == old(self).paths(),
            final(self).active() == old(self).active(),
            final(self).base_dir() == old(self).base_dir(),
    {
        self.set_flag(path, false, false)
    }

    /// Sets the modified flag (`which_logging` false) or the logging flag of
    /// the document at `path`.
    fn set_flag(&mut self, path: &str, which_logging: bool, value: bool) -> (r: AppResult<()>)
        ensures
            r is Ok <==> old(self).paths().contains(path@),
            r is Ok ==> {
                let i = old(self).index_of(path@);
                final(self).docs() == old(self).docs().update(
                    i,
                    if which_logging {
                        EditorModel { logging: value, ..old(self).docs()[i] }
                    } else {
                        EditorModel { modified: value, ..old(self).docs()[i] }
                    },
                )
            },
            r is Err ==> is_invalid_args(r) && final(self).docs() == old(self).docs(),
            final(self).paths() == old(self).paths(),
            final(self).active() == old(self).active(),
            final(self).base_dir() == old(self).base_dir(),
    {
        let key = owned(path);
        match self.find(&key) {
            Some(i) => {
                let mut ed = Editor::new();
                self.swap_editor(i, &mut ed);
                if which_logging {
                    ed.set_logging(value);
                } else {
                    ed.set_modified(value);
                }
                self.swap_editor(i, &mut ed);
                assert(self.docs() =~= old(self).docs().update(i as int, self.docs()[i as int]));
                Ok(())
            },
            None => Err(invalid_args("no such path")),
        }
    }

    /// The path and the text to write of every open document, in order.
    pub fn save_all(&self) -> (r: Vec<(String, String)>)
        ensures
            r@.len() == self.paths().len(),
            forall|i: int|
                0 <= i < r@.len() ==> (#[trigger] r@[i]).0@ == self.paths()[i] && r@[i].1@
                    == joined(self.docs()[i].lines),
    {
        proof {
            use_type_invariant(self);
        }
        let mut out: Vec<(String, String)> = Vec::new();
        let mut i: usize = 0;
        while i < self.paths.len()
            invariant
                i <= self.paths@.len(),
                self.paths@.len() == self.editors@.len(),
                out@.len() == i,
                forall|k: int|
                    0 <= k < i ==> (#[trigger] out@[k]).0@ == self.paths()[k] && out@[k].1@
                        == joined(self.docs()[k].lines),
            decreases self.paths@.len() - i,
        {
            assert(self.paths()[i as int] == self.paths@[i as int]@);
            assert(self.docs()[i as int] == self.editors@[i as int]@);
            out.push((owned(self.paths[i].as_str()), self.editors[i].to_string()));
            i += 1;
        }
        out
    }

    /// The path of the active document.
    pub fn active_file_path(&self) -> (r: Option<String>)
        ensures
            r is Some <==> self.active() is Some,
            r is Some ==> r->Some_0@ == self.active()->Some_0,
    {
        match &self.active {
            Some(p) => Some(owned(p.as_str())),
            None => None,
        }
    }

    pub fn has_active(&self) -> (r: bool)
        ensures
            r == self.active() is Some,
    {
        self.active.is_some()
    }

    /// Whether the active document is modified; `None` when none is active.
    pub fn active_modified(&self) -> (r: Option<bool>)
        ensures
            r is Some <==> self.active() is Some,
            r is Some ==> r->Some_0 == self.docs()[self.active_index()].modified,
    {
        match self.active_slot() {
            Ok(i) => {
                assert(self.docs()[i as int] == self.editors@[i as int]@);
                Some(self.editors[i].is_modified())
            },
            Err(_) => None,
        }
    }

    /// Turns logging on for the document at `path`.
    pub fn log_on(&mut self, path: &str) -> (r: AppResult<()>)
        ensures
            r is Ok <==> old(self).paths().contains(path@),
            r is Ok ==> {
                let i = old(self).index_of(path@);
                final(self).docs() == old(self).docs().update(
                    i,
                    EditorModel { logging: true, ..old(self).docs()[i] },
                )
            },
            r is Err ==> is_invalid_args(r) && final(self).docs() == old(self).docs(),
            final(self).paths() == old(self).paths(),
            final(self).active() == old(self).active(),
    {
        self.set_flag(path, true, true)
    }

    /// Turns logging off for the document at `path`.
    pub fn log_off(&mut self, path: &str) -> (r: AppResult<()>)
        ensures
            r is Ok <==> old(self).paths().contains(path@),
            r is Ok ==> {
                let i = old(self).index_of(path@);
                final(self).docs() == old(self).docs().update(
                    i,
                    EditorModel { logging: false, ..old(self).docs()[i] },
                )
            },
            r is Err ==> is_invalid_args(r) && final(self).docs() == old(self).docs(),
            final(self).paths() == old(self).paths(),
            final(self).active() == old(self).active(),
    {
        self.set_flag(path, true, false)
    }

    /// Where a path argument leads: see [`resolved`].
    pub fn resolve_path(&self, arg: Option<&str>) -> (r: String)
        ensures
            r@ == resolved(
                self.base_dir(),
                match arg {
                    Some(s) => Some(s@),
                    None => None,
                },
            ),
    {
        match arg {
            Some(s) => if is_absolute(s) {
                owned(s)
            } else {
                path_join(self.base_dir.as_str(), s)
            },
            None => owned(self.base_dir.as_str()),
        }
    }

    pub fn get_base_dir(&self) -> (r: String)
        ensures
            r@ == self.base_dir(),
    {
        owned(self.base_dir.as_str())
    }

    /// The log file of the document at `path`: `.{file name}.log` in the
    /// base directory. Fails when `path` has no file name.
    pub fn log_path(&self, path: &str) -> (r: AppResult<String>)
        ensures
            r is Ok <==> file_name_of(path@) is Some,
            r is Ok ==> r->Ok_0@ == path_join_of(
                self.base_dir(),
                log_name(file_name_of(path@)->Some_0),
            ),
            r is Err ==> is_invalid_args(r),
    {
        match file_name(path) {
            None => Err(AppError::InvalidArgs(join3("invalid file path for log-show: ", path, ""))),
            Some(name) => {
                let log = join3(".", name.as_str(), ".log");
                proof {
                    reveal_strlit(".");
                    reveal_strlit(".log");
                    assert("."@ =~= seq!['.']);
                    assert(".log"@ =~= seq!['.', 'l', 'o', 'g']);
                    assert(log@ =~= log_name(name@));
                }
                Ok(path_join(self.base_dir.as_str(), log.as_str()))
            },
        }
    }

    /// The memento of this session: each open document's path and flags, in
    /// order, and the active path.
    pub fn to_memento(&self) -> (r: WorkspaceMemento)
        ensures
            memento_paths(&r) == self.paths(),
            forall|i: int|
                0 <= i < r.open_files@.len() ==> (#[trigger] r.open_files@[i]).1 == (FileFlags {
                    modified: self.docs()[i].modified,
                    logging: self.docs()[i].logging,
                }),
            r.active is Some <==> self.active() is Some,
            r.active is Some ==> r.active->Some_0@ == self.active()->Some_0,
    {
        proof {
            use_type_invariant(self);
        }
        let mut open_files: Vec<(String, FileFlags)> = Vec::new();
        let mut i: usize = 0;
        while i < self.paths.len()
            invariant
                i <= self.paths@.len(),
                self.paths@.len() == self.editors@.len(),
                open_files@.len() == i,
                forall|k: int|
                    0 <= k < i ==> (#[trigger] open_files@[k]).0@ == self.paths()[k]
                        && open_files@[k].1 == (FileFlags {
                        modified: self.docs()[k].modified,
                        logging: self.docs()[k].logging,
                    }),
            decreases self.paths@.len() - i,
        {
            assert(self.paths()[i as int] == self.paths@[i as int]@);
            assert(self.docs()[i as int] == self.editors@[i as int]@);
            let flags = FileFlags {
                modified: self.editors[i].is_modified(),
                logging: self.editors[i].logging_enabled(),
            };
            open_files.push((owned(self.paths[i].as_str()), flags));
            i += 1;
        }
        let r = WorkspaceMemento { open_files, active: self.active_file_path() };
        assert(memento_paths(&r) =~= self.paths());
        r
    }

    /// Replaces every document by those of `m`: the `i`-th file is loaded
    /// from `contents[i]` and gets its saved flags, with an empty history.
    /// The saved active path becomes active again when it is among them.
    pub fn from_memento(&mut self, m: WorkspaceMemento, contents: &Vec<String>)
        requires
            memento_wf(&m),
            contents@.len() == m.open_files@.len(),
        ensures
            final(self).paths() == memento_paths(&m),
            final(self).docs().len() == m.open_files@.len(),
            forall|i: int|
                0 <= i < m.open_files@.len() ==> #[trigger] final(self).docs()[i] == (EditorModel {
                    modified: m.open_files@[i].1.modified,
                    logging: m.open_files@[i].1.logging,
                    ..loaded(empty_model(), contents@[i]@)
                }),
            final(self).active() == (match m.active {
                Some(a) => if memento_paths(&m).contains(a@) {
                    Some(a@)
                } else {
                    None
                },
                None => None,
            }),
            final(self).base_dir() == old(self).base_dir(),
    {
        let ghost mp = memento_paths(&m);
        let WorkspaceMemento { open_files, active } = m;
        assert(mp == open_files@.map_values(|e: (String, FileFlags)| e.0@));
        let mut paths: Vec<String> = Vec::new();
        let mut editors: Vec<Editor> = Vec::new();
        let mut i: usize = 0;
        while i < open_files.len()
            invariant
                i <= open_files@.len(),
                contents@.len() == open_files@.len(),
                mp == open_files@.map_values(|e: (String, FileFlags)| e.0@),
                forall|a: int, b: int| 0 <= a < b < open_files@.len() ==> #[trigger] mp[a] != #[trigger] mp[b],
                paths@.len() == i,
                editors@.len() == i,
                forall|k: int| 0 <= k < i ==> (#[trigger] paths@[k])@ == mp[k],
                forall|k: int|
                    0 <= k < i ==> (#[trigger] editors@[k])@ == (EditorModel {
                        modified: open_files@[k].1.modified,
                        logging: open_files@[k].1.logging,
                        ..loaded(empty_model(), contents@[k]@)
                    }),
            decreases open_files@.len() - i,
        {
            let mut ed = Editor::new();
            ed.load_from(contents[i].as_str());
            ed.set_modified(open_files[i].1.modified);
            ed.set_logging(open_files[i].1.logging);
            assert(mp[i as int] == open_files@[i as int].0@);
            paths.push(owned(open_files[i].0.as_str()));
            editors.push(ed);
            i += 1;
        }
        let ghost pv = paths@.map_values(|p: String| p@);
        assert(pv =~= mp);
        let mut keep: Option<String> = None;
        match active {
            Some(a) => match find_in(&paths, &a) {
                Some(k) => {
                    keep = Some(a);
                    assert(pv[k as int] == a@);
                },
                None => {
                    assert(!pv.contains(a@)) by {
                        if pv.contains(a@) {
                            let k = choose|k: int| 0 <= k < pv.len() && pv[k] == a@;
                            assert(paths@[k]@ == a@);
                        }
                    }
                },
            },
            None => {},
        }
        let base_dir = owned(self.base_dir.as_str());
        *self = Workspace { paths, editors, active: keep, base_dir };
        assert(self.docs().len() == open_files@.len());
    }
}

} // verus!
