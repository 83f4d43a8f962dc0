//! Single-use cancellation signals and the interrupt listener that fires them.
use vstd::prelude::*;
use tokio::sync::oneshot::{Receiver, Sender};
use crate::delivery::{accepted_count, send_stop, Delivery};

verus! {

/// What a listener is, as far as its contracts are concerned: whether the
/// interrupt has been handled, and how many producers it still holds.
pub struct ListenerView {
    pub fired: bool,
    pub pending: nat,
}

impl ListenerView {
    /// A listener that has fired holds no producer any more.
    pub open spec fn wf(self) -> bool {
        self.fired ==> self.pending == 0
    }
}

/// The number of sends that one interrupt makes on a listener in state `v`.
pub open spec fn attempts_on_interrupt(v: ListenerView) -> nat {
    if v.fired { 0 } else { v.pending }
}

/// The state of a listener once it has handled an interrupt.
pub open spec fn fired_listener() -> ListenerView {
    ListenerView { fired: true, pending: 0 }
}

/// The total number of sends made by `k` interrupts in a row.
pub open spec fn attempts_after(v: ListenerView, k: nat) -> nat
    decreases k,
{
    if k == 0 {
        0
    } else {
        attempts_on_interrupt(v) + attempts_after(fired_listener(), (k - 1) as nat)
    }
}

/// Outcome of handling one interrupt: the receipt of every send it made.
pub struct FanOut {
    receipts: Vec<Delivery>,
}

impl View for FanOut {
    type V = Seq<Delivery>;

    closed spec fn view(&self) -> Seq<Delivery> {
        self.receipts@
    }
}

impl FanOut {
    /// How many producers were sent on.
    pub fn attempted(&self) -> (r: usize)
        ensures
            r == self@.len(),
    {
        self.receipts.len()
    }

    /// How many of those sends found their consumer still there.
    pub fn delivered(&self) -> (r: usize)
        ensures
            r == accepted_count(self@),
            r <= self@.len(),
    {
        let mut n: usize = 0;
        let mut i: usize = 0;
        while i < self.receipts.len()
            invariant
                i <= self.receipts@.len(),
                n == accepted_count(self.receipts@.take(i as int)),
                n <= i,
            decreases self.receipts@.len() - i,
        {
            assert(self.receipts@.take(i + 1).drop_last() =~= self.receipts@.take(i as int));
            if self.receipts[i].accepted() {
                n = n + 1;
            }
            i = i + 1;
        }
        assert(self.receipts@.take(i as int) =~= self.receipts@);
        n
    }
}

/// Holds every producer of a session and fires them all, once, when the
/// external interrupt arrives.
pub struct InterruptListener {
    producers: Vec<Sender<()>>,
    fired: bool,
}

impl View for InterruptListener {
    type V = ListenerView;

    closed spec fn view(&self) -> ListenerView {
        ListenerView { fired: self.fired, pending: self.producers@.len() }
    }
}

impl InterruptListener {
    pub open spec fn wf(&self) -> bool {
        self@.wf()
    }

    /// A listener that waits to fire the given producers.
    pub fn new(producers: Vec<Sender<()>>) -> (r: InterruptListener)
        ensures
            r.wf(),
            r@ == (ListenerView { fired: false, pending: producers@.len() }),
    {
        InterruptListener { producers, fired: false }
    }

    pub fn has_fired(&self) -> (r: bool)
        ensures
            r == self@.fired,
    {
        self.fired
    }

    pub fn pending(&self) -> (r: usize)
        ensures
            r == self@.pending,
    {
        self.producers.len()
    }

    /// Handles the interrupt: the first call sends one notification on every
    /// producer held, in no promised order, and keeps the receipt of each,
    /// whether or not its consumer was still there; every later call sends
    /// nothing.
    pub fn notify(&mut self) -> (r: FanOut)
        requires
            old(self).wf(),
        ensures
            final(self).wf(),
            final(self)@ == fired_listener(),
            r@.len() == attempts_on_interrupt(old(self)@),
    {
        let mut receipts: Vec<Delivery> = Vec::new();
        if self.fired {
            return FanOut { receipts };
        }
        let n = self.producers.len();
        while self.producers.len() > 0
            invariant
                receipts@.len() + self.producers@.len() == n,
                !self.fired,
            decreases self.producers@.len(),
        {
            let tx = self.producers.pop().unwrap();
            receipts.push(send_stop(tx));
        }
        self.fired = true;
        FanOut { receipts }
    }
}

/// However many interrupts arrive, the producers held at the start are sent
/// on at most once each: the first interrupt tries every one of them, and the
/// ones after it try none.
pub proof fn lemma_interrupts_send_at_most_once(v: ListenerView, k: nat)
    requires
        v.wf(),
    ensures
        attempts_after(v, k) == (if k == 0 { 0 } else { attempts_on_interrupt(v) }),
        attempts_after(v, k) <= v.pending,
    decreases k,
{
    if k > 1 {
        lemma_interrupts_send_at_most_once(fired_listener(), (k - 1) as nat);
    }
    if k == 1 {
        assert(attempts_after(fired_listener(), 0) == 0);
    }
}

/// The three signal pairs of a session: the listener holds every producer,
/// and each collaborator gets its own consumer.
pub struct CancellationSignals {
    pub listener: InterruptListener,
    pub ingestion: Receiver<()>,
    pub tunnel: Receiver<()>,
    pub registration: Receiver<()>,
}

impl CancellationSignals {
    /// Creates one pair per collaborator and hands all three producers to a
    /// listener that has not fired.
    pub fn new() -> (r: CancellationSignals)
        ensures
            r.listener.wf(),
            r.listener@ == (ListenerView { fired: false, pending: 3 }),
    {
        let (ingestion_tx, ingestion) = tokio::sync::oneshot::channel();
        let (tunnel_tx, tunnel) = tokio::sync::oneshot::channel();
        let (registration_tx, registration) = tokio::sync::oneshot::channel();
        let producers = vec![ingestion_tx, tunnel_tx, registration_tx];
        CancellationSignals { listener: InterruptListener::new(producers), ingestion, tunnel, registration }
    }
}

} // verus!
