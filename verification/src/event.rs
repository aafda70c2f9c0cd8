use vstd::prelude::*;

use crate::actions::Action;
use crate::motion::Motion;

verus! {

/// A record of a resolved motion or action, appended to the buffer's
/// event log whenever normal mode resolves a key sequence.
#[derive(Clone, Copy, Debug, PartialEq, Eq)]
pub enum Event {
    Motion(Motion),
    Action(Action),
}

} // verus!
