use vstd::prelude::*;

verus! {

/// What a listener tells the pool once it has handled an event.
#[derive(Debug, Clone, Copy, PartialEq, Eq, Structural)]
pub enum ListenerResult {
    /// The event goes on to the next listener.
    Propagate,
    /// No further listener gets the event.
    Stop,
}

/// A loaded mod.
pub struct Mod;

/// Something that happened, and the mod that made it happen.
pub struct Event {
    pub sender: Option<Mod>,
}

impl Event {
    /// Posts an event in the name of `sender`. No listener is registered
    /// with an event of its own, so the event always goes on.
    pub fn post_from_mod(_sender: Option<Mod>) -> (result: ListenerResult)
        ensures
            result == ListenerResult::Propagate,
    {
        ListenerResult::Propagate
    }

    /// Posts the event. No listener is registered with an event of its own,
    /// so the event always goes on.
    pub fn post(&self) -> (result: ListenerResult)
        ensures
            result == ListenerResult::Propagate,
    {
        ListenerResult::Propagate
    }
}

} // verus!
