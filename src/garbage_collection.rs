use vstd::prelude::*;

verus! {

/// What the task that drives the collector reports to it.
#[derive(Debug, PartialEq, Eq)]
pub enum GcEvent {
    /// A committed block arrived; carries the block's digest.
    Block(Vec<u8>),
    /// The delete issued last has completed; `true` when the store reported success.
    Deleted(bool),
    /// The input channel closed: the upstream consensus instance has terminated.
    Closed,
}

/// What the collector asks the driving task to do next.
#[derive(Debug, PartialEq, Eq)]
pub enum GcAction {
    /// Wait for the next committed block.
    Receive,
    /// Delete this key from the store, then report `GcEvent::Deleted`.
    Delete(Vec<u8>),
    /// Terminate the task.
    Stop,
}

/// Mathematical form of a `GcEvent`.
pub enum GcInput {
    Block(Seq<u8>),
    Deleted(bool),
    Closed,
}

/// Mathematical form of a `GcAction`.
pub enum GcOutput {
    Receive,
    Delete(Seq<u8>),
    Stop,
}

impl View for GcEvent {
    type V = GcInput;

    open spec fn view(&self) -> GcInput {
        match self {
            GcEvent::Block(d) => GcInput::Block(d@),
            GcEvent::Deleted(ok) => GcInput::Deleted(*ok),
            GcEvent::Closed => GcInput::Closed,
        }
    }
}

impl View for GcAction {
    type V = GcOutput;

    open spec fn view(&self) -> GcOutput {
        match self {
            GcAction::Receive => GcOutput::Receive,
            GcAction::Delete(k) => GcOutput::Delete(k@),
            GcAction::Stop => GcOutput::Stop,
        }
    }
}

/// Abstract state of the collector.
pub struct GcState {
    /// Number of blocks that triggers a flush (`0`: never).
    pub threshold: nat,
    /// Digests accumulated since the last flush, oldest first.
    pub window: Seq<Seq<u8>>,
    /// A flush is in progress: the window is being emptied.
    pub flushing: bool,
    /// The input closed; the task is over.
    pub stopped: bool,
}

/// The state of a collector that has just started.
pub open spec fn initial(threshold: nat) -> GcState {
    GcState { threshold, window: Seq::empty(), flushing: false, stopped: false }
}

/// The window never reaches the threshold outside the step that triggers a flush.
pub open spec fn window_bounded(s: GcState) -> bool {
    s.threshold == 0 || s.window.len() < s.threshold
}

/// One step of a flush: remove the most recently added digest and delete it, or
/// finish the flush once the window is empty.
pub open spec fn drain(s: GcState) -> (GcState, GcOutput) {
    if s.window.len() > 0 {
        (
            GcState { window: s.window.drop_last(), flushing: true, ..s },
            GcOutput::Delete(s.window.last()),
        )
    } else {
        (GcState { flushing: false, ..s }, GcOutput::Receive)
    }
}

/// The transition of the collector on one event: next state and action.
pub open spec fn step(s: GcState, e: GcInput) -> (GcState, GcOutput) {
    if s.stopped {
        (s, GcOutput::Stop)
    } else if s.flushing {
        drain(s)
    } else {
        match e {
            GcInput::Block(d) => {
                let w = s.window.push(d);
                if w.len() == s.threshold {
                    drain(GcState { window: w, ..s })
                } else {
                    (GcState { window: w, ..s }, GcOutput::Receive)
                }
            },
            GcInput::Deleted(_) => (s, GcOutput::Receive),
            GcInput::Closed => (
                GcState { window: Seq::empty(), stopped: true, ..s },
                GcOutput::Stop,
            ),
        }
    }
}

/// Only a completed delete may be reported while a flush is in progress.
pub open spec fn accepts(s: GcState, e: GcInput) -> bool {
    s.flushing ==> e is Deleted
}

/// The collector: accumulates the digests of committed blocks and, each time
/// `gc_round` of them have arrived, deletes them all from the store.
pub struct GarbageCollection {
    gc_round: u64,
    block_key: Vec<Vec<u8>>,
    flushing: bool,
    stopped: bool,
}

impl View for GarbageCollection {
    type V = GcState;

    closed spec fn view(&self) -> GcState {
        GcState {
            threshold: self.gc_round as nat,
            window: self.block_key@.map_values(|k: Vec<u8>| k@),
            flushing: self.flushing,
            stopped: self.stopped,
        }
    }
}

impl GarbageCollection {
    /// A collector that flushes every `gc_round` blocks.
    pub fn new(gc_round: u64) -> (r: Self)
        ensures
            r@ == initial(gc_round as nat),
    {
        let r = GarbageCollection { gc_round, block_key: Vec::new(), flushing: false, stopped: false };
        assert(r@.window =~= Seq::<Seq<u8>>::empty());
        r
    }

    fn drain(&mut self) -> (action: GcAction)
        ensures
            (final(self)@, action@) == drain(old(self)@),
    {
        let ghost w = old(self)@.window;
        match self.block_key.pop() {
            Some(key) => {
                self.flushing = true;
                assert(self@.window =~= w.drop_last());
                GcAction::Delete(key)
            },
            None => {
                self.flushing = false;
                GcAction::Receive
            },
        }
    }

    /// Takes one event and returns what the driving task must do next.
    pub fn step(&mut self, event: GcEvent) -> (action: GcAction)
        requires
            accepts(old(self)@, event@),
        ensures
            (final(self)@, action@) == step(old(self)@, event@),
            window_bounded(old(self)@) ==> window_bounded(final(self)@),
    {
        if self.stopped {
            return GcAction::Stop;
        }
        if self.flushing {
            return self.drain();
        }
        match event {
            GcEvent::Block(digest) => {
                let ghost w = self@.window;
                let ghost d = digest@;
                self.block_key.push(digest);
                assert(self@.window =~= w.push(d));
                if self.block_key.len() as u64 == self.gc_round {
                    self.drain()
                } else {
                    GcAction::Receive
                }
            },
            GcEvent::Deleted(_) => GcAction::Receive,
            GcEvent::Closed => {
                self.block_key = Vec::new();
                self.stopped = true;
                assert(self@.window =~= Seq::<Seq<u8>>::empty());
                GcAction::Stop
            },
        }
    }


    /// The number of blocks that triggers a flush.
    pub fn gc_round(&self) -> (r: u64)
        ensures
            r as nat == self@.threshold,
    {
        self.gc_round
    }

    /// The digests accumulated and not yet deleted, oldest first.
    pub fn pending(&self) -> (r: &Vec<Vec<u8>>)
        ensures
            r@.map_values(|k: Vec<u8>| k@) == self@.window,
    {
        &self.block_key
    }

    /// Whether a flush is in progress.
    pub fn is_flushing(&self) -> (r: bool)
        ensures
            r == self@.flushing,
    {
        self.flushing
    }

    /// Whether the input has closed.
    pub fn is_stopped(&self) -> (r: bool)
        ensures
            r == self@.stopped,
    {
        self.stopped
    }
}

/// Runs the collector from `s`, having just produced `a`, reporting each
/// requested delete as completed, until it asks for something other than a
/// delete. Returns the state reached and the keys deleted, in order.
pub open spec fn settle(s: GcState, a: GcOutput) -> (GcState, Seq<Seq<u8>>)
    decreases s.window.len() + (if a is Delete { 1int } else { 0int }),
{
    match a {
        GcOutput::Delete(k) => {
            let (s2, a2) = step(s, GcInput::Deleted(true));
            let (s3, ks) = settle(s2, a2);
            (s3, seq![k] + ks)
        },
        _ => (s, Seq::empty()),
    }
}

/// Delivers the digests `ds` one block at a time, carrying out every delete
/// requested in between. Returns the state reached and all keys deleted, in order.
pub open spec fn feed(s: GcState, ds: Seq<Seq<u8>>) -> (GcState, Seq<Seq<u8>>)
    decreases ds.len(),
{
    if ds.len() == 0 {
        (s, Seq::empty())
    } else {
        let (s1, a1) = step(s, GcInput::Block(ds[0]));
        let (s2, k1) = settle(s1, a1);
        let (s3, k2) = feed(s2, ds.drop_first());
        (s3, k1 + k2)
    }
}

/// Cuts `ds` into consecutive batches of `t`: returns the batches, each reversed,
/// concatenated, and the trailing part shorter than `t`.
pub open spec fn batches(ds: Seq<Seq<u8>>, t: nat) -> (Seq<Seq<u8>>, Seq<Seq<u8>>)
    decreases ds.len(),
{
    if t == 0 || ds.len() < t {
        (Seq::empty(), ds)
    } else {
        let (d, r) = batches(ds.skip(t as int), t);
        (ds.take(t as int).reverse() + d, r)
    }
}

proof fn lemma_settle_empties(s: GcState, k: Seq<u8>)
    requires
        s.flushing,
        !s.stopped,
    ensures
        settle(s, GcOutput::Delete(k)) == (
            GcState { window: Seq::empty(), flushing: false, ..s },
            seq![k] + s.window.reverse(),
        ),
    decreases s.window.len(),
{
    let (s2, a2) = step(s, GcInput::Deleted(true));
    if s.window.len() == 0 {
        assert(s.window =~= Seq::<Seq<u8>>::empty());
        assert(settle(s2, a2) == (s2, Seq::<Seq<u8>>::empty()));
        assert(seq![k] + Seq::<Seq<u8>>::empty() =~= seq![k]);
        assert(seq![k] + s.window.reverse() =~= seq![k]);
    } else {
        lemma_settle_empties(s2, s.window.last());
        assert(s2.window == s.window.drop_last());
        assert(s.window.reverse() =~= seq![s.window.last()] + s.window.drop_last().reverse());
        assert(seq![k] + (seq![s.window.last()] + s.window.drop_last().reverse())
            =~= seq![k] + s.window.reverse());
    }
}

proof fn lemma_feed_from(s: GcState, ds: Seq<Seq<u8>>)
    requires
        s.threshold > 0,
        s.window.len() < s.threshold,
        !s.flushing,
        !s.stopped,
    ensures
        feed(s, ds) == (
            GcState { window: batches(s.window + ds, s.threshold).1, ..s },
            batches(s.window + ds, s.threshold).0,
        ),
    decreases ds.len(),
{
    let t = s.threshold;
    let w = s.window;
    if ds.len() == 0 {
        assert(w + ds =~= w);
    } else {
        let w2 = w.push(ds[0]);
        let rest = ds.drop_first();
        let (s1, a1) = step(s, GcInput::Block(ds[0]));
        if w2.len() == t {
            let sd = GcState { window: w2, ..s };
            assert(sd.window.drop_last() =~= w);
            lemma_settle_empties(s1, w2.last());
            assert(seq![w2.last()] + w.reverse() =~= w2.reverse());
            let s2 = GcState { window: Seq::empty(), ..s };
            lemma_feed_from(s2, rest);
            assert(s2.window + rest =~= rest);
            assert((w + ds).take(t as int) =~= w2);
            assert((w + ds).skip(t as int) =~= rest);
        } else {
            let s2 = GcState { window: w2, ..s };
            lemma_feed_from(s2, rest);
            assert(w2 + rest =~= w + ds);
        }
    }
}

/// Delivering any sequence of `k` digests to a collector with threshold `t > 0`
/// deletes them in consecutive batches of `t`, each batch most recent first,
/// flushed as soon as its last block arrives: `k - k % t` deletes in all, while
/// the last `k % t` digests stay pending.
pub proof fn lemma_feed_flushes_in_batches(t: nat, ds: Seq<Seq<u8>>)
    requires
        t > 0,
    ensures
        feed(initial(t), ds) == (
            GcState { window: batches(ds, t).1, ..initial(t) },
            batches(ds, t).0,
        ),
        feed(initial(t), ds).1.len() == ds.len() - ds.len() % t,
        feed(initial(t), ds).0.window == ds.skip(ds.len() - ds.len() % t),
{
    lemma_feed_from(initial(t), ds);
    assert(initial(t).window + ds =~= ds);
    lemma_batch_counts(ds, t);
}

/// Of `k` digests cut into batches of `t > 0`, exactly `k - k % t` are deleted
/// and the last `k % t` stay pending.
pub proof fn lemma_batch_counts(ds: Seq<Seq<u8>>, t: nat)
    requires
        t > 0,
    ensures
        batches(ds, t).0.len() == ds.len() - ds.len() % t,
        batches(ds, t).1 == ds.skip(ds.len() - ds.len() % t),
    decreases ds.len(),
{
    let k = ds.len();
    if k < t {
        vstd::arithmetic::div_mod::lemma_small_mod(k as nat, t);
        assert(ds.skip(0) =~= ds);
    } else {
        let rest = ds.skip(t as int);
        lemma_batch_counts(rest, t);
        vstd::arithmetic::div_mod::lemma_mod_add_multiples_vanish((k - t) as int, t as int);
        assert(rest.skip(rest.len() - rest.len() % t)
            =~= ds.skip(k - k % t));
    }
}

/// The outcome of a delete never changes what the collector does next: during a
/// flush, a failed delete is followed by the delete of the next pending key, as a
/// successful one is.
pub proof fn lemma_delete_outcome_ignored(s: GcState, ok: bool)
    ensures
        step(s, GcInput::Deleted(ok)) == step(s, GcInput::Deleted(true)),
        s.flushing && !s.stopped && s.window.len() > 0 ==> step(s, GcInput::Deleted(ok)) == (
            GcState { window: s.window.drop_last(), ..s },
            GcOutput::Delete(s.window.last()),
        ),
{
}

} // verus!
