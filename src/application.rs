//! The parts of a running session: the command router, the workspace of
//! open documents and the event bus.

use vstd::prelude::*;

use crate::event::EventBus;
use crate::router::Router;
use crate::workspace::Workspace;

verus! {

pub struct Application {
    pub router: Router,
    pub workspace: Workspace,
    pub bus: EventBus,
}

} // verus!
