//! Network sampler: turns per-interface cumulative byte counters into
//! receive/transmit rates against the previous cycle's baselines.  An
//! interface seen for the first time reports zero rates and only establishes
//! its baseline for the next cycle.

use vstd::prelude::*;
use crate::kvmap::KvMap;
use crate::rate::{rate, rate_spec};

verus! {

/// A point-in-time description of one network interface, as the
/// host-introspection collaborator reports it.
pub struct IfaceInfo {
    pub name: String,
    pub received: u64,
    pub transmitted: u64,
}

/// Interface → cumulative received bytes of a snapshot; a later entry wins
/// for a name that occurs more than once.
pub open spec fn rx_map_spec(ifaces: Seq<IfaceInfo>) -> Map<Seq<char>, u64>
    decreases ifaces.len(),
{
    if ifaces.len() == 0 {
        Map::empty()
    } else {
        rx_map_spec(ifaces.drop_last()).insert(ifaces.last().name@, ifaces.last().received)
    }
}

/// Interface → cumulative transmitted bytes of a snapshot.
pub open spec fn tx_map_spec(ifaces: Seq<IfaceInfo>) -> Map<Seq<char>, u64>
    decreases ifaces.len(),
{
    if ifaces.len() == 0 {
        Map::empty()
    } else {
        tx_map_spec(ifaces.drop_last()).insert(ifaces.last().name@, ifaces.last().transmitted)
    }
}

/// The sampled tuple for one interface: name, cumulative counters, and the
/// receive/transmit byte rates against the baselines.  An interface with no
/// baseline reports zero rates.
pub open spec fn iface_entry_spec(
    f: IfaceInfo,
    base_rx: Map<Seq<char>, u64>,
    base_tx: Map<Seq<char>, u64>,
    elapsed_ms: u64,
) -> (Seq<char>, u64, u64, u64, u64) {
    let rx_rate = if base_rx.contains_key(f.name@) {
        rate_spec(f.received, base_rx[f.name@], elapsed_ms)
    } else {
        0u64
    };
    let tx_rate = if base_tx.contains_key(f.name@) {
        rate_spec(f.transmitted, base_tx[f.name@], elapsed_ms)
    } else {
        0u64
    };
    (f.name@, f.received, f.transmitted, rx_rate, tx_rate)
}

/// The per-interface sampling function as a function value.
pub open spec fn iface_entry_fn(
    base_rx: Map<Seq<char>, u64>,
    base_tx: Map<Seq<char>, u64>,
    elapsed_ms: u64,
) -> spec_fn(IfaceInfo) -> (Seq<char>, u64, u64, u64, u64) {
    |f: IfaceInfo| iface_entry_spec(f, base_rx, base_tx, elapsed_ms)
}

/// The view of one sampled tuple.
pub open spec fn iface_view(e: (String, u64, u64, u64, u64)) -> (Seq<char>, u64, u64, u64, u64) {
    (e.0@, e.1, e.2, e.3, e.4)
}

/// Views of a sequence of sampled tuples.
pub open spec fn iface_views(es: Seq<(String, u64, u64, u64, u64)>) -> Seq<(Seq<char>, u64, u64, u64, u64)> {
    es.map_values(|e: (String, u64, u64, u64, u64)| iface_view(e))
}

/// Network sampler state: the published per-interface tuples and the byte
/// baselines keyed by interface name.
pub struct NetworkData {
    interfaces: Vec<(String, u64, u64, u64, u64)>,
    last_received_bytes: KvMap<u64>,
    last_transmitted_bytes: KvMap<u64>,
}

impl NetworkData {
    /// The internal maps keep their well-formedness.
    pub closed spec fn wf(&self) -> bool {
        self.last_received_bytes.wf() && self.last_transmitted_bytes.wf()
    }

    /// Cumulative received-byte baselines, keyed by interface name.
    pub closed spec fn rx_baselines(&self) -> Map<Seq<char>, u64> {
        self.last_received_bytes@
    }

    /// Cumulative transmitted-byte baselines, keyed by interface name.
    pub closed spec fn tx_baselines(&self) -> Map<Seq<char>, u64> {
        self.last_transmitted_bytes@
    }

    /// Views of the published per-interface tuples.
    pub closed spec fn interfaces_view(&self) -> Seq<(Seq<char>, u64, u64, u64, u64)> {
        iface_views(self.interfaces@)
    }

    /// The published `(name, received, transmitted, rx_rate, tx_rate)`
    /// tuples, fully replaced each cycle.
    pub fn interfaces(&self) -> (r: &Vec<(String, u64, u64, u64, u64)>)
        ensures
            iface_views(r@) == self.interfaces_view(),
    {
        &self.interfaces
    }

    /// A fresh sampler: no baselines, nothing published yet.
    pub fn new() -> (r: Self)
        ensures
            r.wf(),
            r.interfaces_view().len() == 0,
            r.rx_baselines() == Map::<Seq<char>, u64>::empty(),
            r.tx_baselines() == Map::<Seq<char>, u64>::empty(),
    {
        NetworkData {
            interfaces: Vec::new(),
            last_received_bytes: KvMap::new(),
            last_transmitted_bytes: KvMap::new(),
        }
    }

    /// One sampling cycle: publishes one tuple per interface with rates
    /// against the previous cycle's baselines, then stores this snapshot's
    /// counters as the next cycle's baselines.  Baselines of interfaces
    /// absent from the snapshot stay cached in case they reappear.
    pub fn update(&mut self, snapshot: &Vec<IfaceInfo>, elapsed_ms: u64)
        requires
            old(self).wf(),
        ensures
            final(self).wf(),
            final(self).interfaces_view() == snapshot@.map_values(iface_entry_fn(
                old(self).rx_baselines(),
                old(self).tx_baselines(),
                elapsed_ms,
            )),
            final(self).rx_baselines() == old(self).rx_baselines()
                .union_prefer_right(rx_map_spec(snapshot@)),
            final(self).tx_baselines() == old(self).tx_baselines()
                .union_prefer_right(tx_map_spec(snapshot@)),
    {
        let ghost base_rx = self.last_received_bytes@;
        let ghost base_tx = self.last_transmitted_bytes@;
        let ghost f = iface_entry_fn(base_rx, base_tx, elapsed_ms);
        let n = snapshot.len();

        let mut entries: Vec<(String, u64, u64, u64, u64)> = Vec::new();
        let mut i: usize = 0;
        proof {
            assert(snapshot@.take(0) =~= Seq::<IfaceInfo>::empty());
            assert(iface_views(entries@) =~= snapshot@.take(0).map_values(f));
        }
        while i < n
            invariant
                n == snapshot@.len(),
                i <= n,
                self.wf(),
                self.last_received_bytes@ == base_rx,
                self.last_transmitted_bytes@ == base_tx,
                self.last_received_bytes == old(self).last_received_bytes,
                self.last_transmitted_bytes == old(self).last_transmitted_bytes,
                f == iface_entry_fn(base_rx, base_tx, elapsed_ms),
                iface_views(entries@) == snapshot@.take(i as int).map_values(f),
            decreases n - i,
        {
            let it = &snapshot[i];
            let rx_rate: u64 = match self.last_received_bytes.get(it.name.as_str()) {
                Some(p) => rate(it.received, *p, elapsed_ms),
                None => 0,
            };
            let tx_rate: u64 = match self.last_transmitted_bytes.get(it.name.as_str()) {
                Some(p) => rate(it.transmitted, *p, elapsed_ms),
                None => 0,
            };
            let tuple = (it.name.clone(), it.received, it.transmitted, rx_rate, tx_rate);
            let ghost tv = iface_view(tuple);
            let ghost prev = entries@;
            proof {
                assert(f(snapshot@[i as int]) == iface_entry_spec(snapshot@[i as int], base_rx, base_tx, elapsed_ms));
                assert(tv == f(snapshot@[i as int]));
            }
            entries.push(tuple);
            proof {
                assert(iface_views(entries@) =~= iface_views(prev).push(tv));
                let t1 = snapshot@.take(i + 1);
                assert(t1.drop_last() =~= snapshot@.take(i as int));
                assert(t1.last() == snapshot@[i as int]);
                assert(t1.map_values(f) =~= snapshot@.take(i as int).map_values(f).push(f(snapshot@[i as int])));
            }
            i += 1;
        }
        proof {
            assert(snapshot@.take(n as int) =~= snapshot@);
        }
        self.interfaces = entries;

        // Store this snapshot's counters as the next cycle's baselines.
        let mut j: usize = 0;
        proof {
            assert(snapshot@.take(0) =~= Seq::<IfaceInfo>::empty());
            assert(self.last_received_bytes@ =~= base_rx.union_prefer_right(rx_map_spec(snapshot@.take(0))));
            assert(self.last_transmitted_bytes@ =~= base_tx.union_prefer_right(tx_map_spec(snapshot@.take(0))));
        }
        while j < n
            invariant
                n == snapshot@.len(),
                j <= n,
                self.last_received_bytes.wf(),
                self.last_transmitted_bytes.wf(),
                self.interfaces == entries,
                self.last_received_bytes@ == base_rx.union_prefer_right(rx_map_spec(snapshot@.take(j as int))),
                self.last_transmitted_bytes@ == base_tx.union_prefer_right(tx_map_spec(snapshot@.take(j as int))),
            decreases n - j,
        {
            let it = &snapshot[j];
            self.last_received_bytes.insert(it.name.clone(), it.received);
            self.last_transmitted_bytes.insert(it.name.clone(), it.transmitted);
            proof {
                let t1 = snapshot@.take(j + 1);
                assert(t1.drop_last() =~= snapshot@.take(j as int));
                assert(t1.last() == snapshot@[j as int]);
                assert(self.last_received_bytes@
                    =~= base_rx.union_prefer_right(rx_map_spec(t1)));
                assert(self.last_transmitted_bytes@
                    =~= base_tx.union_prefer_right(tx_map_spec(t1)));
            }
            j += 1;
        }
        proof {
            assert(snapshot@.take(n as int) =~= snapshot@);
        }
    }
}

} // verus!
