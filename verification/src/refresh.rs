//! A refresh signal shared between threads: a one-bit state that flips on
//! every signal, and listeners that notice when it has flipped since they
//! last looked.
use vstd::prelude::*;
use std::sync::Arc;
use std::sync::atomic::AtomicU8;

verus! {

/// The state after a signal: 1 from 0, 0 from anything else.
pub open spec fn next_signal_state(current: u8) -> u8 {
    if current == 0 {
        1
    } else {
        0
    }
}

/// Watches a [`Refresher`] for signals.
#[derive(Clone)]
pub struct RefreshListener {
    prev_refresh: u8,
    listen: Arc<AtomicU8>,
}

impl RefreshListener {
    /// The state this listener saw last.
    pub closed spec fn seen(&self) -> u8 {
        self.prev_refresh
    }

    /// The shared state this listener watches.
    pub closed spec fn watched(&self) -> Arc<AtomicU8> {
        self.listen
    }

    /// Whether a refresh is pending, without consuming it. The answer depends
    /// on the shared state at the moment of the call.
    pub fn peek(&self) -> (r: bool) {
        let current = self.listen.load(std::sync::atomic::Ordering::Relaxed);
        self.pending(current)
    }

    /// Whether the shared state `current` differs from the one last seen,
    /// that is, whether a refresh is due.
    pub fn pending(&self, current: u8) -> (r: bool)
        ensures
            r == (current != self.seen()),
    {
        current != self.prev_refresh
    }

    /// Records `current` as the last state seen.
    pub fn reset(&mut self, current: u8)
        ensures
            final(self).seen() == current,
            final(self).watched() == old(self).watched(),
    {
        self.prev_refresh = current;
    }

    /// Compares an observed state with the last one seen and records it:
    /// true when the state changed, that is, when a refresh is due.
    pub fn observe(&mut self, current: u8) -> (r: bool)
        ensures
            r == (old(self).seen() != current),
            final(self).seen() == current,
            final(self).watched() == old(self).watched(),
    {
        if self.prev_refresh == current {
            false
        } else {
            self.reset(current);
            true
        }
    }

    /// Consumes a pending refresh: true when the shared state changed since
    /// it was last seen.
    pub fn do_refresh(&mut self) -> (r: bool)
        ensures
            r ==> final(self).seen() != old(self).seen(),
            !r ==> final(self).seen() == old(self).seen(),
            final(self).watched() == old(self).watched(),
    {
        let current = self.listen.load(std::sync::atomic::Ordering::Relaxed);
        self.observe(current)
    }
}

/// Sends refresh signals to all of its listeners.
pub struct Refresher {
    state: Arc<AtomicU8>,
}

impl Refresher {
    /// A refresher whose state starts at 0.
    pub fn new() -> Self {
        Refresher { state: Arc::new(AtomicU8::new(0)) }
    }

    /// The state after a signal given the state before it.
    pub fn next_state(current: u8) -> (r: u8)
        ensures
            r == next_signal_state(current),
            r != current,
    {
        if current == 0 {
            1
        } else {
            0
        }
    }

    /// Flips the shared state, so that every listener sees a refresh.
    pub fn signal(&self) {
        let current = self.state.load(std::sync::atomic::Ordering::SeqCst);
        let new = Self::next_state(current);
        self.state.store(new, std::sync::atomic::Ordering::SeqCst);
    }

    /// The shared state this refresher flips.
    pub closed spec fn cell(&self) -> Arc<AtomicU8> {
        self.state
    }

    /// A listener that watches this refresher's state and has seen its
    /// present value.
    pub fn listen(&self) -> (r: RefreshListener)
        ensures
            r.watched() == self.cell(),
    {
        RefreshListener {
            prev_refresh: self.state.load(std::sync::atomic::Ordering::Relaxed),
            listen: self.state.clone(),
        }
    }
}

impl Default for Refresher {
    fn default() -> Self {
        Self::new()
    }
}

/// A signal always changes the shared state, so a listener that saw the
/// state before the signal sees a refresh after it.
pub proof fn lemma_signal_is_observed(seen: u8)
    ensures
        next_signal_state(seen) != seen,
        next_signal_state(next_signal_state(seen)) == if seen == 0 { 0u8 } else { 1u8 },
{
}

} // verus!
