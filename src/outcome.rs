//! What a command hands back to the session: text to print, a line for the
//! log, and whether the session ends.

use vstd::prelude::*;

use crate::text::owned;

verus! {

pub struct Outcome {
    pub print: Option<String>,
    pub log: Option<String>,
    pub exit: bool,
}

impl Outcome {
    /// An outcome that only prints `s`.
    pub fn print(s: String) -> (r: Self)
        ensures
            r.print == Some(s),
            r.log is None,
            !r.exit,
    {
        Outcome { print: Some(s), log: None, exit: false }
    }

    /// The outcome that ends the session: it says goodbye and logs `exit`.
    pub fn exit() -> (r: Self)
        ensures
            r.print is Some && r.print->Some_0@ == seq!['G', 'o', 'o', 'd', 'b', 'y', 'e', '!'],
            r.log is Some && r.log->Some_0@ == seq!['e', 'x', 'i', 't'],
            r.exit,
    {
        proof {
            reveal_strlit("Goodbye!");
            reveal_strlit("exit");
        }
        let r = Outcome { print: Some(owned("Goodbye!")), log: Some(owned("exit")), exit: true };
        assert(r.print->Some_0@ =~= seq!['G', 'o', 'o', 'd', 'b', 'y', 'e', '!']);
        assert(r.log->Some_0@ =~= seq!['e', 'x', 'i', 't']);
        r
    }

    /// An outcome that only logs `s`.
    pub fn log(s: String) -> (r: Self)
        ensures
            r.print is None,
            r.log == Some(s),
            !r.exit,
    {
        Outcome { print: None, log: Some(s), exit: false }
    }
}

impl Default for Outcome {
    fn default() -> (r: Self)
        ensures
            r.print is None && r.log is None && !r.exit,
    {
        Outcome { print: None, log: None, exit: false }
    }
}

} // verus!
