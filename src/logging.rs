//! Where the audit log of a session goes: one file per document, under the
//! workspace's base directory, and one for the session itself.

use vstd::prelude::*;

use crate::event::Event;
use crate::paths::{file_name, file_name_of, path_join, path_join_of};
use crate::text::{join3, owned};

verus! {

/// The name of the log of a document named `name`: `.{name}.log`.
pub open spec fn log_name(name: Seq<char>) -> Seq<char> {
    seq!['.'] + name + seq!['.', 'l', 'o', 'g']
}

/// The name of the session's own log.
pub open spec fn app_log_name() -> Seq<char> {
    seq!['.', 'a', 'p', 'p', '.', 'l', 'o', 'g']
}

/// Decides which log file an event goes to, and whether that file still
/// needs its session header.
pub struct Logger {
    written: Vec<String>,
    base_dir: String,
}

impl Logger {
    /// The log files already begun in this session.
    pub closed spec fn written(&self) -> Set<Seq<char>> {
        self.written@.map_values(|p: String| p@).to_set()
    }

    pub closed spec fn base_dir(&self) -> Seq<char> {
        self.base_dir@
    }

    /// The log file for events about `path`, or for the session when there is none.
    pub open spec fn logfile_spec(&self, path: Option<Seq<char>>) -> Seq<char> {
        match path {
            Some(p) => path_join_of(
                self.base_dir(),
                log_name(
                    match file_name_of(p) {
                        Some(n) => n,
                        None => Seq::empty(),
                    },
                ),
            ),
            None => path_join_of(self.base_dir(), app_log_name()),
        }
    }

    /// A logger writing under `base_dir`, with no file begun.
    pub fn new(base_dir: String) -> (r: Self)
        ensures
            r.base_dir() == base_dir@,
            r.written() == Set::<Seq<char>>::empty(),
    {
        let r = Logger { written: Vec::new(), base_dir };
        assert(r.written() =~= Set::<Seq<char>>::empty());
        r
    }

    /// The log file for events about `path`.
    pub fn logfile_for(&self, path: &Option<String>) -> (r: String)
        ensures
            r@ == self.logfile_spec(
                match path {
                    Some(p) => Some(p@),
                    None => None,
                },
            ),
    {
        match path {
            Some(p) => {
                let name = match file_name(p.as_str()) {
                    Some(n) => n,
                    None => String::new(),
                };
                let log = join3(".", name.as_str(), ".log");
                proof {
                    reveal_strlit(".");
                    reveal_strlit(".log");
                    assert("."@ =~= seq!['.']);
                    assert(".log"@ =~= seq!['.', 'l', 'o', 'g']);
                    assert(log@ =~= log_name(name@));
                }
                path_join(self.base_dir.as_str(), log.as_str())
            },
            None => {
                proof {
                    reveal_strlit(".app.log");
                    assert(".app.log"@ =~= app_log_name());
                }
                path_join(self.base_dir.as_str(), ".app.log")
            },
        }
    }

    /// Notes `path` as begun; true when it was not begun before.
    fn begin(&mut self, path: &String) -> (r: bool)
        ensures
            r == !old(self).written().contains(path@),
            final(self).written() == old(self).written().insert(path@),
            final(self).base_dir() == old(self).base_dir(),
    {
        let mut i: usize = 0;
        while i < self.written.len()
            invariant
                i <= self.written@.len(),
                forall|j: int| 0 <= j < i ==> self.written@[j]@ != path@,
            decreases self.written@.len() - i,
        {
            if self.written[i] == *path {
                assert(self.written@.map_values(|p: String| p@)[i as int] == path@);
                assert(self.written().insert(path@) =~= self.written());
                return false;
            }
            i += 1;
        }
        let ghost before = self.written@;
        self.written.push(owned(path.as_str()));
        proof {
            assert(self.written@.map_values(|p: String| p@) =~= before.map_values(
                |p: String| p@,
            ).push(path@));
            let ghost views = before.map_values(|p: String| p@);
            assert forall|k: int| 0 <= k < views.len() implies #[trigger] views[k] != path@ by {
                assert(views[k] == before[k]@);
            }
            assert(!views.contains(path@));
            let ghost after = self.written@.map_values(|p: String| p@);
            assert(after =~= views.push(path@));
            assert forall|x: Seq<char>| after.contains(x) <==> (views.contains(x) || x == path@) by {
                if after.contains(x) {
                    let k = choose|k: int| 0 <= k < after.len() && #[trigger] after[k] == x;
                    if k < views.len() {
                        assert(views[k] == x);
                    }
                }
                if views.contains(x) {
                    let k = choose|k: int| 0 <= k < views.len() && #[trigger] views[k] == x;
                    assert(after[k] == x);
                }
                if x == path@ {
                    assert(after[views.len() as int] == x);
                }
            }
            assert(self.written() =~= old(self).written().insert(path@));
        }
        true
    }

    /// Where `e` is to be logged: the file, and whether the session header
    /// goes first. A session start is not logged; a command goes to the log
    /// of its document, with a header the first time; an error goes to the
    /// session's log without one.
    pub fn log_target(&mut self, e: &Event) -> (r: Option<(String, bool)>)
        ensures
            final(self).base_dir() == old(self).base_dir(),
            match e {
                Event::SessionStart => r is None && final(self).written() == old(self).written(),
                Event::Command { file, cmd: _ } => {
                    let p = old(self).logfile_spec(
                        match file {
                            Some(f) => Some(f@),
                            None => None,
                        },
                    );
                    &&& r is Some
                    &&& r->Some_0.0@ == p
                    &&& r->Some_0.1 == !old(self).written().contains(p)
                    &&& final(self).written() == old(self).written().insert(p)
                },
                Event::Error { code: _, message: _ } => {
                    &&& r is Some
                    &&& r->Some_0.0@ == old(self).logfile_spec(None)
                    &&& !r->Some_0.1
                    &&& final(self).written() == old(self).written()
                },
            },
    {
        match e {
            Event::SessionStart => None,
            Event::Command { file, cmd: _ } => {
                let path = self.logfile_for(file);
                let header = self.begin(&path);
                Some((path, header))
            },
            Event::Error { code: _, message: _ } => {
                let path = self.logfile_for(&None);
                Some((path, false))
            },
        }
    }
}

} // verus!
