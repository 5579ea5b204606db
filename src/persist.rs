//! What a saved session remembers: which files were open, their flags, and
//! which one was active.

use vstd::prelude::*;

verus! {

/// The flags of one open file.
#[derive(Clone, Copy, Debug, PartialEq, Eq, Structural)]
pub struct FileFlags {
    pub modified: bool,
    pub logging: bool,
}

/// A saved session: the open files with their flags, and the active one.
#[derive(Debug)]
pub struct WorkspaceMemento {
    /// Each open file once, with its flags.
    pub open_files: Vec<(String, FileFlags)>,
    pub active: Option<String>,
}

/// The paths of a memento's open files.
pub open spec fn memento_paths(m: &WorkspaceMemento) -> Seq<Seq<char>> {
    m.open_files@.map_values(|e: (String, FileFlags)| e.0@)
}

/// Each file of a memento appears once.
pub open spec fn memento_wf(m: &WorkspaceMemento) -> bool {
    forall|i: int, j: int|
        0 <= i < j < m.open_files@.len() ==> #[trigger] memento_paths(m)[i] != #[trigger] memento_paths(m)[j]
}

/// Whether each file of `m` appears once.
pub fn memento_paths_unique(m: &WorkspaceMemento) -> (r: bool)
    ensures
        r == memento_wf(m),
{
    let n = m.open_files.len();
    let mut i: usize = 0;
    while i < n
        invariant
            n == m.open_files@.len(),
            i <= n,
            forall|a: int, b: int|
                0 <= a < i && a < b < n ==> #[trigger] memento_paths(m)[a] != #[trigger] memento_paths(
                    m,
                )[b],
        decreases n - i,
    {
        let mut j: usize = i + 1;
        while j < n
            invariant
                n == m.open_files@.len(),
                i < n,
                i < j <= n,
                forall|a: int, b: int|
                    0 <= a < i && a < b < n ==> #[trigger] memento_paths(m)[a]
                        != #[trigger] memento_paths(m)[b],
                forall|b: int| i < b < j ==> memento_paths(m)[i as int] != #[trigger] memento_paths(m)[b],
            decreases n - j,
        {
            assert(memento_paths(m)[i as int] == m.open_files@[i as int].0@);
            assert(memento_paths(m)[j as int] == m.open_files@[j as int].0@);
            if m.open_files[i].0 == m.open_files[j].0 {
                return false;
            }
            j += 1;
        }
        i += 1;
    }
    true
}

} // verus!
