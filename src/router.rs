//! Turning an input line into a command name and its arguments.

use vstd::prelude::*;

use crate::error::{invalid_args, AppError, AppResult};
use crate::model::is_invalid_args;
use crate::text::owned;

verus! {

/// The words of a line as a POSIX shell splits them, or `None` where its
/// quoting is unbalanced.
pub uninterp spec fn shell_words_of(line: Seq<char>) -> Option<Seq<Seq<char>>>;

/// The views of a list of strings.
pub open spec fn views(v: Seq<String>) -> Seq<Seq<char>> {
    v.map_values(|s: String| s@)
}

/// Relies on `shell_words::split`: the words of `line`, quotes and escapes
/// resolved; an error where a quote or escape is left open.
#[verifier::external_body]
fn shell_split(line: &str) -> (r: Option<Vec<String>>)
    ensures
        r is Some <==> shell_words_of(line@) is Some,
        r is Some ==> views(r->Some_0@) == shell_words_of(line@)->Some_0,
{
    shell_words::split(line).ok()
}

/// The name of every command the editor knows.
pub open spec fn command_names() -> Seq<Seq<char>> {
    seq![
        "append"@,
        "close"@,
        "delete"@,
        "dir-tree"@,
        "load"@,
        "log-on"@,
        "log-off"@,
        "log-show"@,
        "show"@,
        "edit"@,
        "editor-list"@,
        "exit"@,
        "init"@,
        "insert"@,
        "save"@,
        "undo"@,
        "redo"@,
        "replace"@,
    ]
}

/// The command name and arguments of a line's words: the first word and the
/// rest, or an empty name and no arguments for no words.
pub fn command_of_words(words: Vec<String>) -> (r: (String, Vec<String>))
    ensures
        words@.len() == 0 ==> r.0@.len() == 0 && r.1@.len() == 0,
        words@.len() > 0 ==> r.0 == words@[0] && r.1@ == words@.skip(1),
{
    if words.len() == 0 {
        return (String::new(), Vec::new());
    }
    let mut rest: Vec<String> = Vec::new();
    let mut i: usize = 1;
    while i < words.len()
        invariant
            1 <= i <= words@.len(),
            rest@ == words@.subrange(1, i as int),
        decreases words@.len() - i,
    {
        rest.push(words[i].clone());
        assert(rest@ =~= words@.subrange(1, i + 1));
        i += 1;
    }
    assert(words@.subrange(1, words@.len() as int) =~= words@.skip(1));
    (words[0].clone(), rest)
}

/// Splits `line` into a command name and its arguments.
pub fn parse_command(line: &str) -> (r: AppResult<(String, Vec<String>)>)
    ensures
        r is Ok <==> shell_words_of(line@) is Some,
        r is Err ==> is_invalid_args(r),
        r is Ok ==> {
            let w = shell_words_of(line@)->Some_0;
            &&& w.len() == 0 ==> r->Ok_0.0@.len() == 0 && r->Ok_0.1@.len() == 0
            &&& w.len() > 0 ==> r->Ok_0.0@ == w[0] && views(r->Ok_0.1@) == w.skip(1)
        },
{
    match shell_split(line) {
        None => Err(invalid_args("parse failed")),
        Some(words) => {
            let ghost w = views(words@);
            let r = command_of_words(words);
            proof {
                if w.len() > 0 {
                    assert(views(r.1@) =~= w.skip(1));
                }
            }
            Ok(r)
        },
    }
}

/// Knows the command names and resolves input lines against them.
pub struct Router {
    names: Vec<String>,
}

impl Router {
    /// The names this router resolves.
    pub closed spec fn names(&self) -> Seq<Seq<char>> {
        views(self.names@)
    }

    /// A router that knows every command of the editor.
    pub fn new() -> (r: Self)
        ensures
            r.names() == command_names(),
    {
        let mut names: Vec<String> = Vec::new();
        names.push(owned("append"));
        names.push(owned("close"));
        names.push(owned("delete"));
        names.push(owned("dir-tree"));
        names.push(owned("load"));
        names.push(owned("log-on"));
        names.push(owned("log-off"));
        names.push(owned("log-show"));
        names.push(owned("show"));
        names.push(owned("edit"));
        names.push(owned("editor-list"));
        names.push(owned("exit"));
        names.push(owned("init"));
        names.push(owned("insert"));
        names.push(owned("save"));
        names.push(owned("undo"));
        names.push(owned("redo"));
        names.push(owned("replace"));
        proof {
            assert(views(names@) =~= command_names());
        }
        Router { names }
    }

    /// The command name of `line`, checked against the known names, and its
    /// arguments.
    pub fn resolve(&self, line: &str) -> (r: AppResult<(String, Vec<String>)>)
        ensures
            shell_words_of(line@) is None ==> is_invalid_args(r),
            shell_words_of(line@) is Some ==> {
                let w = shell_words_of(line@)->Some_0;
                let name = if w.len() == 0 {
                    Seq::<char>::empty()
                } else {
                    w[0]
                };
                &&& r is Ok <==> self.names().contains(name)
                &&& r is Err ==> (r matches Err(AppError::UnknownCommand(_)))
                &&& r is Ok ==> r->Ok_0.0@ == name && views(r->Ok_0.1@) == (if w.len() == 0 {
                    Seq::<Seq<char>>::empty()
                } else {
                    w.skip(1)
                })
            },
    {
        let (cmd, args) = match parse_command(line) {
            Ok(p) => p,
            Err(e) => return Err(e),
        };
        let ghost w = shell_words_of(line@)->Some_0;
        let mut i: usize = 0;
        while i < self.names.len()
            invariant
                i <= self.names@.len(),
                forall|j: int| 0 <= j < i ==> self.names@[j]@ != cmd@,
                shell_words_of(line@) is Some,
                w == shell_words_of(line@)->Some_0,
                w.len() == 0 ==> cmd@.len() == 0 && args@.len() == 0,
                w.len() > 0 ==> cmd@ == w[0] && views(args@) == w.skip(1),
            decreases self.names@.len() - i,
        {
            if self.names[i] == cmd {
                proof {
                    assert(self.names()[i as int] == cmd@);
                    if shell_words_of(line@)->Some_0.len() == 0 {
                        assert(cmd@ =~= Seq::<char>::empty());
                        assert(views(args@) =~= Seq::<Seq<char>>::empty());
                    }
                }
                return Ok((cmd, args));
            }
            i += 1;
        }
        proof {
            if shell_words_of(line@)->Some_0.len() == 0 {
                assert(cmd@ =~= Seq::<char>::empty());
            }
            assert forall|j: int| 0 <= j < self.names().len() implies self.names()[j] != cmd@ by {
                assert(self.names()[j] == self.names@[j]@);
            }
        }
        Err(AppError::UnknownCommand(cmd))
    }
}

} // verus!
