use vstd::prelude::*;

verus! {

/// Position of the oldest entry still retained by a bus that has published
/// `len` entries and keeps at most `cap` of them.
pub open spec fn bus_oldest(len: nat, cap: nat) -> nat {
    if len > cap {
        (len - cap) as nat
    } else {
        0
    }
}

/// One non-blocking read, as arithmetic over the bus model: given the number
/// of published entries, the capacity and a reader position, yields the index
/// of the entry delivered, the number of entries the reader missed, and the
/// reader's new position; `None` when the reader has caught up.
pub open spec fn spec_read(len: nat, cap: nat, pos: nat) -> Option<(nat, nat, nat)> {
    let oldest = bus_oldest(len, cap);
    if pos >= len {
        None
    } else if pos >= oldest {
        Some((pos, 0nat, (pos + 1) as nat))
    } else {
        Some((oldest, (oldest - pos) as nat, (oldest + 1) as nat))
    }
}

/// The sequence of entry indices a reader at `pos` observes by reading until
/// it has caught up with a bus of `len` published entries.
pub open spec fn spec_drain(len: nat, cap: nat, pos: nat) -> Seq<nat>
    decreases len - pos,
{
    if pos >= len {
        Seq::empty()
    } else {
        match spec_read(len, cap, pos) {
            None => Seq::empty(),
            Some((idx, skipped, newpos)) => if pos < newpos <= len {
                seq![idx] + spec_drain(len, cap, newpos)
            } else {
                Seq::empty()
            },
        }
    }
}

/// A read handle into a `FanoutBus`. It owns no entries, only a position in
/// the bus's publish history.
pub struct BusCursor {
    /// Index into the publish history of the next entry to read.
    pub pos: u64,
}

/// Single-writer, multi-reader bounded broadcast primitive. `publish` appends
/// to a ring of at most `capacity` retained entries, evicting the oldest when
/// full, and never blocks or fails on account of readers; each `BusCursor`
/// advances independently through the retained window.
pub struct FanoutBus<T> {
    /// Retained entries: the most recent published entries, oldest first.
    entries: Vec<T>,
    /// Publish-history index of `entries[0]`.
    base: u64,
    /// Bound on how many entries are retained.
    capacity: usize,
    /// Set once the producer side has been torn down.
    closed: bool,
    /// The whole publish history, for specification only.
    history: Ghost<Seq<T>>,
}

impl<T> FanoutBus<T> {
    /// The complete sequence of entries ever published on this bus.
    pub closed spec fn hist(&self) -> Seq<T> {
        self.history@
    }

    /// The configured retention bound.
    pub closed spec fn cap(&self) -> nat {
        self.capacity as nat
    }

    /// Whether the producer side has been torn down.
    pub closed spec fn is_closed_spec(&self) -> bool {
        self.closed
    }

    /// Internal consistency: the retained entries are exactly the most recent
    /// published ones, at most `capacity` of them.
    pub closed spec fn wf(&self) -> bool {
        &&& self.capacity >= 1
        &&& self.history@.len() <= u64::MAX
        &&& self.base as int == bus_oldest(self.history@.len(), self.capacity as nat)
        &&& self.base + self.entries@.len() == self.history@.len()
        &&& forall|i: int|
            self.base <= i < self.history@.len() ==> self.entries@[i - self.base]
                == self.history@[i]
    }

    /// Create an empty bus that will retain at most `capacity` entries.
    pub fn new(capacity: usize) -> (r: Self)
        requires
            capacity >= 1,
        ensures
            r.wf(),
            r.hist() == Seq::<T>::empty(),
            r.cap() == capacity,
            !r.is_closed_spec(),
    {
        FanoutBus {
            entries: Vec::new(),
            base: 0,
            capacity,
            closed: false,
            history: Ghost(Seq::empty()),
        }
    }

    /// Number of entries ever published.
    pub fn seq_now(&self) -> (r: u64)
        requires
            self.wf(),
        ensures
            r == self.hist().len(),
    {
        self.base + self.entries.len() as u64
    }

    /// Whether the producer side has been torn down.
    pub fn is_closed(&self) -> (r: bool)
        ensures
            r == self.is_closed_spec(),
    {
        self.closed
    }

    /// Tear the bus down: readers that catch up afterwards observe the end of
    /// the stream rather than a wait.
    pub fn close(&mut self)
        requires
            old(self).wf(),
        ensures
            final(self).wf(),
            final(self).is_closed_spec(),
            final(self).hist() == old(self).hist(),
            final(self).cap() == old(self).cap(),
    {
        self.closed = true;
    }

    /// Append one entry, evicting the oldest retained one when the ring is
    /// full. Succeeds whatever the number of readers; a reader is never
    /// consulted and never slows this down.
    pub fn publish(&mut self, x: T)
        requires
            old(self).wf(),
            old(self).hist().len() < u64::MAX,
        ensures
            final(self).wf(),
            final(self).hist() == old(self).hist().push(x),
            final(self).cap() == old(self).cap(),
            final(self).is_closed_spec() == old(self).is_closed_spec(),
    {
        self.entries.push(x);
        proof {
            self.history@ = self.history@.push(x);
        }
        if self.entries.len() > self.capacity {
            self.entries.remove(0);
            self.base = self.base + 1;
        }
    }

    /// A new reader starts at the current end of the history: it sees only
    /// entries published after this call.
    pub fn subscribe(&self) -> (c: BusCursor)
        requires
            self.wf(),
        ensures
            c.pos == self.hist().len(),
    {
        BusCursor { pos: self.seq_now() }
    }

    /// One non-blocking read. Returns the next unread entry and the number of
    /// entries this reader missed because they were evicted before it read
    /// them (0 when it kept pace), or `None` when the reader has caught up.
    /// A reader that fell behind is fast-forwarded to the oldest retained
    /// entry; it is never an error and never a wait.
    pub fn try_next<'a>(&'a self, c: &mut BusCursor) -> (r: Option<(&'a T, u64)>)
        requires
            self.wf(),
        ensures
            match spec_read(self.hist().len(), self.cap(), old(c).pos as nat) {
                None => r is None && final(c).pos == old(c).pos,
                Some((idx, skipped, newpos)) => {
                    &&& r matches Some(p)
                    &&& *p.0 == self.hist()[idx as int]
                    &&& p.1 == skipped
                    &&& final(c).pos == newpos
                },
            },
    {
        let seq_now = self.base + self.entries.len() as u64;
        if c.pos >= seq_now {
            None
        } else if c.pos >= self.base {
            let idx: usize = (c.pos - self.base) as usize;
            let out = &self.entries[idx];
            c.pos = c.pos + 1;
            Some((out, 0))
        } else {
            let skipped = self.base - c.pos;
            let out = &self.entries[0];
            c.pos = self.base + 1;
            Some((out, skipped))
        }
    }
}

/// A reader that kept pace — its backlog is within capacity — is handed
/// exactly the entry at its own position, with no gap.
pub proof fn lemma_keeping_pace_read(len: nat, cap: nat, pos: nat)
    requires
        pos < len,
        len - pos <= cap,
    ensures
        spec_read(len, cap, pos) == Some((pos, 0nat, (pos + 1) as nat)),
{
}

/// Every reader whose backlog is within capacity observes every published
/// entry from its position on, exactly once and in publish order.
pub proof fn lemma_keeping_pace_drain(len: nat, cap: nat, pos: nat)
    requires
        pos <= len,
        len - pos <= cap,
    ensures
        spec_drain(len, cap, pos) == Seq::new((len - pos) as nat, |i: int| (pos + i) as nat),
    decreases len - pos,
{
    if pos >= len {
        assert(spec_drain(len, cap, pos) =~= Seq::new((len - pos) as nat, |i: int| (pos + i) as nat));
    } else {
        lemma_keeping_pace_read(len, cap, pos);
        lemma_keeping_pace_drain(len, cap, (pos + 1) as nat);
        assert(spec_drain(len, cap, pos) =~= Seq::new(
            (len - pos) as nat,
            |i: int| (pos + i) as nat,
        ));
    }
}

/// A reader paused for longer than the retention window is fast-forwarded:
/// its next read observes the oldest still-retained entry together with the
/// count of what it missed — never an error and never a wait.
pub proof fn lemma_lagging_read(len: nat, cap: nat, pos: nat)
    requires
        pos < bus_oldest(len, cap),
    ensures
        ({
            let oldest = bus_oldest(len, cap);
            &&& spec_read(len, cap, pos) == Some(
                (oldest, (oldest - pos) as nat, (oldest + 1) as nat),
            )
            &&& (oldest - pos) as nat > 0
        }),
{
}

} // verus!
