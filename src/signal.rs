use vstd::prelude::*;

verus! {

/// What a signal holds: the pending value, if any, and whether a reader is
/// parked waiting for one.
pub struct SignalView<T> {
    pub slot: Option<T>,
    pub waiting: bool,
}

/// The signal after `write(value)`.
pub open spec fn written<T>(s: SignalView<T>, value: T) -> SignalView<T> {
    SignalView { slot: Some(value), waiting: false }
}

/// The signal after `clear()`.
pub open spec fn cleared<T>(s: SignalView<T>) -> SignalView<T> {
    SignalView { slot: None, waiting: s.waiting }
}

/// The signal after `try_read()`, with what it returns.
pub open spec fn taken<T>(s: SignalView<T>) -> (SignalView<T>, Option<T>) {
    (SignalView { slot: None, waiting: s.waiting }, s.slot)
}

/// The signal after `poll_fresh()`, with what it returns: a pending value is
/// consumed; without one the reader is recorded as waiting.
pub open spec fn polled<T>(s: SignalView<T>) -> (SignalView<T>, Option<T>) {
    match s.slot {
        Some(v) => (SignalView { slot: None, waiting: false }, Some(v)),
        None => (SignalView { slot: None, waiting: true }, None),
    }
}

/// A single-slot handoff cell between one writer and one reader.
///
/// A write never blocks and overwrites any value not yet read; a read consumes
/// the value, so that each written value is observed at most once. A reader that
/// finds the cell empty may park itself with `poll_fresh`; the next `write` then
/// reports that the reader must be woken, so that waiting needs no polling loop.
pub struct Signal<T> {
    slot: Option<T>,
    waiting: bool,
}

impl<T> View for Signal<T> {
    type V = SignalView<T>;

    closed spec fn view(&self) -> SignalView<T> {
        SignalView { slot: self.slot, waiting: self.waiting }
    }
}

impl<T> Signal<T> {
    /// An empty signal with no reader waiting.
    pub fn new() -> (r: Self)
        ensures
            r@ == (SignalView::<T> { slot: None, waiting: false }),
    {
        Signal { slot: None, waiting: false }
    }

    /// Stores `value`, replacing any unread one. Returns whether a reader was
    /// waiting and must now be woken.
    pub fn write(&mut self, value: T) -> (wake: bool)
        ensures
            final(self)@ == written(old(self)@, value),
            wake == old(self)@.waiting,
    {
        let wake = self.waiting;
        self.slot = Some(value);
        self.waiting = false;
        wake
    }

    /// Marks the signal empty without producing a value.
    pub fn clear(&mut self)
        ensures
            final(self)@ == cleared(old(self)@),
    {
        self.slot = None;
    }

    /// Takes the pending value, if any, leaving the signal empty.
    pub fn try_read(&mut self) -> (r: Option<T>)
        ensures
            (final(self)@, r) == taken(old(self)@),
    {
        self.slot.take()
    }

    /// The non-blocking half of waiting for a fresh value: takes the pending
    /// value if there is one, and otherwise records that the reader is waiting,
    /// to be woken by the next `write`.
    pub fn poll_fresh(&mut self) -> (r: Option<T>)
        ensures
            (final(self)@, r) == polled(old(self)@),
    {
        match self.slot.take() {
            Some(v) => {
                self.waiting = false;
                Some(v)
            },
            None => {
                self.waiting = true;
                None
            },
        }
    }

    /// Whether a value is pending.
    pub fn is_pending(&self) -> (r: bool)
        ensures
            r == self@.slot.is_some(),
    {
        self.slot.is_some()
    }
}

/// Two writes before a read leave only the second value to be read; reading it
/// empties the signal, so a second read finds nothing; and a reader that polls
/// for a fresh value after a write gets that value at once.
pub proof fn lemma_latest_value_wins<T>(s: SignalView<T>, first: T, second: T)
    ensures
        taken(written(written(s, first), second)).1 == Some(second),
        taken(taken(written(written(s, first), second)).0).1 == None::<T>,
        polled(written(s, second)).1 == Some(second),
        taken(polled(written(s, second)).0).1 == None::<T>,
{
}

} // verus!
