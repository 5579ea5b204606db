//! What a session does after each command: what to print, what to publish
//! on the event bus, and whether to stop.

use vstd::prelude::*;

use crate::error::{code_of, message_of, AppResult};
use crate::event::Event;
use crate::outcome::Outcome;

verus! {

/// The session's next actions.
pub struct Step {
    pub print: Option<String>,
    pub event: Option<Event>,
    pub exit: bool,
}

/// Decides what follows a command's result: a success prints what it asks
/// for, publishes its log line with the active file, and ends the session
/// when it asks to; a failure publishes its code and message.
pub fn step_after(r: AppResult<Outcome>, active: Option<String>) -> (s: Step)
    ensures
        r is Ok ==> {
            let o = r->Ok_0;
            &&& s.print == o.print
            &&& s.exit == o.exit
            &&& o.log is None ==> s.event is None
            &&& o.log is Some ==> s.event == Some(Event::Command { file: active, cmd: o.log->Some_0 })
        },
        r is Err ==> {
            let e = r->Err_0;
            &&& s.print is None
            &&& !s.exit
            &&& s.event is Some
            &&& s.event->Some_0 matches Event::Error { code, message } && code == code_of(e)
                && message@ == message_of(e)
        },
{
    match r {
        Ok(o) => {
            let event = match o.log {
                Some(cmd) => Some(Event::Command { file: active, cmd }),
                None => None,
            };
            Step { print: o.print, event, exit: o.exit }
        },
        Err(e) => {
            let code = e.code();
            let message = e.message();
            Step { print: None, event: Some(Event::Error { code, message }), exit: false }
        },
    }
}

} // verus!
