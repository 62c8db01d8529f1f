use vstd::prelude::*;

verus! {

/// Holds new dispatches back while the strategy is being
/// switched.
///
/// It has two states. While it is open, dispatches proceed. While a switch
/// is in progress, a dispatch is told to wait; the caller suspends it and
/// asks again when it is woken. The caller wakes the waiting dispatches
/// after every change of state.
pub struct SwitchBarrier {
    switching: bool,
}

impl SwitchBarrier {
    /// Whether a switch is in progress.
    pub closed spec fn switching(&self) -> bool {
        self.switching
    }

    /// An open barrier.
    pub fn new() -> (barrier: SwitchBarrier)
        ensures
            !barrier.switching(),
    {
        SwitchBarrier { switching: false }
    }

    /// Closes the barrier: a switch begins.
    pub fn begin_switch(&mut self)
        ensures
            final(self).switching(),
    {
        self.switching = true;
    }

    /// Opens the barrier: the switch is over.
    pub fn end_switch(&mut self)
        ensures
            !final(self).switching(),
    {
        self.switching = false;
    }

    /// Whether a dispatch has to wait.
    pub fn is_switching(&self) -> (waiting: bool)
        ensures
            waiting == self.switching(),
    {
        self.switching
    }
}

} // verus!
