use crate::model::DeviceAddress;
use vstd::prelude::*;

verus! {

/// What the service-discovery session reports, reduced to what the search decides on.
#[derive(Debug, Clone, Copy, PartialEq, Eq, Structural)]
pub enum DiscoveryEvent {
    /// A service instance exists; its address is not known yet.
    Announced,
    /// A service instance was resolved; carries the first of its addresses, if it had any.
    Resolved(Option<DeviceAddress>),
    /// The session started a new search round, so the previous one is complete.
    RoundComplete,
    /// Any other event; it changes nothing.
    Other,
}

/// Mathematical value of a search in progress.
pub struct DiscoveryView {
    pub announced: bool,
    pub addresses: Seq<DeviceAddress>,
    pub finished: bool,
}

/// A search that has seen no event.
pub open spec fn discovery_start() -> DiscoveryView {
    DiscoveryView { announced: false, addresses: Seq::empty(), finished: false }
}

/// The search after one more event. A finished search ignores all events; a
/// completed round ends it only once an announcement has been seen.
pub open spec fn discovery_next(v: DiscoveryView, e: DiscoveryEvent) -> DiscoveryView {
    if v.finished {
        v
    } else {
        match e {
            DiscoveryEvent::Announced => DiscoveryView { announced: true, ..v },
            DiscoveryEvent::Resolved(Some(a)) => DiscoveryView { addresses: v.addresses.push(a), ..v },
            DiscoveryEvent::Resolved(None) => v,
            DiscoveryEvent::RoundComplete => DiscoveryView { finished: v.announced, ..v },
            DiscoveryEvent::Other => v,
        }
    }
}

/// The search after the first `n` events of `events`.
pub open spec fn discovery_after(events: Seq<DiscoveryEvent>, n: nat) -> DiscoveryView
    decreases n,
{
    if n == 0 || n > events.len() {
        discovery_start()
    } else {
        discovery_next(discovery_after(events, (n - 1) as nat), events[n - 1])
    }
}

/// The search for devices: the decisions of the discovery loop, one event at a time.
pub struct Discovery {
    announced: bool,
    addresses: Vec<DeviceAddress>,
    finished: bool,
}

impl View for Discovery {
    type V = DiscoveryView;

    closed spec fn view(&self) -> DiscoveryView {
        DiscoveryView { announced: self.announced, addresses: self.addresses@, finished: self.finished }
    }
}

impl Discovery {
    /// A search that has seen no event.
    pub fn new() -> (r: Discovery)
        ensures
            r@ == discovery_start(),
    {
        Discovery { announced: false, addresses: Vec::new(), finished: false }
    }

    /// Takes in one event and tells whether the search is over.
    pub fn observe(&mut self, event: DiscoveryEvent) -> (done: bool)
        ensures
            final(self)@ == discovery_next(old(self)@, event),
            done == final(self)@.finished,
    {
        if !self.finished {
            match event {
                DiscoveryEvent::Announced => {
                    self.announced = true;
                },
                DiscoveryEvent::Resolved(Some(a)) => {
                    self.addresses.push(a);
                },
                DiscoveryEvent::Resolved(None) => {},
                DiscoveryEvent::RoundComplete => {
                    self.finished = self.announced;
                },
                DiscoveryEvent::Other => {},
            }
        }
        self.finished
    }

    /// Whether the search is over.
    pub fn is_finished(&self) -> (r: bool)
        ensures
            r == self@.finished,
    {
        self.finished
    }

    /// The addresses resolved so far, in the order they came.
    pub fn addresses(&self) -> (r: &Vec<DeviceAddress>)
        ensures
            r@ == self@.addresses,
    {
        &self.addresses
    }

    /// Ends the search and hands over the addresses resolved, in the order they came.
    pub fn into_addresses(self) -> (r: Vec<DeviceAddress>)
        ensures
            r@ == self@.addresses,
    {
        self.addresses
    }
}

/// Runs a search over a recorded stream of events. Returns the addresses once
/// the search is over, reading no event past that point; returns `None` when
/// the stream ends first.
pub fn discover_from_events(events: &Vec<DiscoveryEvent>) -> (r: Option<Vec<DeviceAddress>>)
    ensures
        r is Some <==> discovery_after(events@, events@.len()).finished,
        r matches Some(a) ==> a@ == discovery_after(events@, events@.len()).addresses,
{
    let mut search = Discovery::new();
    let mut i: usize = 0;
    while i < events.len()
        invariant
            i <= events@.len(),
            search@ == discovery_after(events@, i as nat),
        decreases events@.len() - i,
    {
        search.observe(events[i]);
        i = i + 1;
    }
    if search.is_finished() {
        Some(search.into_addresses())
    } else {
        None
    }
}

/// Once the search is over, no further event changes it.
pub proof fn lemma_finished_is_final(events: Seq<DiscoveryEvent>, n: nat, m: nat)
    requires
        n <= m <= events.len(),
        discovery_after(events, n).finished,
    ensures
        discovery_after(events, m) == discovery_after(events, n),
    decreases m - n,
{
    if m > n {
        lemma_finished_is_final(events, n, (m - 1) as nat);
    }
}

/// A completed round ends the search only after an announcement: before any
/// announcement, no event but an announcement can end it.
pub proof fn lemma_round_needs_announcement(v: DiscoveryView, e: DiscoveryEvent)
    requires
        !v.finished,
        !v.announced,
    ensures
        !discovery_next(v, e).finished,
        e != DiscoveryEvent::Announced ==> !discovery_next(v, e).announced,
{
}

/// Whether the event at `j` is a completed round that follows an announcement.
pub open spec fn ends_search(events: Seq<DiscoveryEvent>, j: int) -> bool {
    &&& 0 <= j < events.len()
    &&& events[j] == DiscoveryEvent::RoundComplete
    &&& exists|k: int| 0 <= k < j && events[k] == DiscoveryEvent::Announced
}

/// The addresses that the first `n` events resolved, in order.
pub open spec fn resolved_in(events: Seq<DiscoveryEvent>, n: nat) -> Seq<DeviceAddress>
    decreases n,
{
    if n == 0 || n > events.len() {
        Seq::empty()
    } else {
        match events[n - 1] {
            DiscoveryEvent::Resolved(Some(a)) => resolved_in(events, (n - 1) as nat).push(a),
            _ => resolved_in(events, (n - 1) as nat),
        }
    }
}

/// The rule that ends the search: after the first `n` events it is over
/// exactly when some completed round among them follows an announcement, and
/// then its addresses are those resolved before the first such round, in
/// order. Until then, its addresses are all those resolved so far.
pub proof fn lemma_search_end_rule(events: Seq<DiscoveryEvent>, n: nat)
    requires
        n <= events.len(),
    ensures
        discovery_after(events, n).announced <==> exists|k: int|
            0 <= k < n && events[k] == DiscoveryEvent::Announced,
        discovery_after(events, n).finished <==> exists|j: int| 0 <= j < n && ends_search(events, j),
        !discovery_after(events, n).finished ==> discovery_after(events, n).addresses == resolved_in(
            events,
            n,
        ),
        discovery_after(events, n).finished ==> exists|j: int|
            0 <= j < n && ends_search(events, j) && (forall|i: int| 0 <= i < j ==> !ends_search(events, i))
                && discovery_after(events, n).addresses == resolved_in(events, j as nat),
    decreases n,
{
    if n > 0 {
        let m = (n - 1) as nat;
        lemma_search_end_rule(events, m);
        let d = discovery_after(events, m);
        let e = events[m as int];
        assert(discovery_after(events, n) == discovery_next(d, e));
        if d.finished {
            let j = choose|j: int|
                0 <= j < m && ends_search(events, j) && (forall|i: int| 0 <= i < j ==> !ends_search(events, i))
                    && d.addresses == resolved_in(events, j as nat);
            assert(0 <= j < n && ends_search(events, j));
            let k = choose|k: int| 0 <= k < m && events[k] == DiscoveryEvent::Announced;
            assert(0 <= k < n && events[k] == DiscoveryEvent::Announced);
        } else {
            assert forall|j: int| 0 <= j < m implies !ends_search(events, j) by {}
            if d.announced {
                let k = choose|k: int| 0 <= k < m && events[k] == DiscoveryEvent::Announced;
                assert(0 <= k < n && events[k] == DiscoveryEvent::Announced);
            }
            if e == DiscoveryEvent::Announced {
                assert(0 <= m < n && events[m as int] == DiscoveryEvent::Announced);
            } else {
                assert forall|k: int| 0 <= k < n && events[k] == DiscoveryEvent::Announced implies k < m
                    && d.announced by {}
            }
            if e == DiscoveryEvent::RoundComplete && d.announced {
                let k = choose|k: int| 0 <= k < m && events[k] == DiscoveryEvent::Announced;
                assert(ends_search(events, m as int));
                assert(resolved_in(events, n) == resolved_in(events, m));
            } else {
                assert(!ends_search(events, m as int));
                assert forall|j: int| 0 <= j < n implies !ends_search(events, j) by {}
            }
        }
    }
}

} // verus!
