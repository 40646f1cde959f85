//! The peer table: identity → connection, owned by the coordination loop.
//!
//! All mutation goes through the loop that owns the table; worker threads
//! only signal intent. Identities are unique among entries, and a sweep
//! removes every terminal connection before its transport handle is
//! released.

use vstd::prelude::*;
use crate::connection::{is_terminal, spec_step, ConnEvent, ConnState, PeerConnection};

verus! {

/// First index of the entry for `identity` in `s`, if any.
pub open spec fn spec_find(s: Seq<PeerConnection>, identity: u64) -> Option<int>
    decreases s.len(),
{
    if s.len() == 0 {
        None
    } else if s[0].identity == identity {
        Some(0)
    } else {
        match spec_find(s.drop_first(), identity) {
            Some(i) => Some(i + 1),
            None => None,
        }
    }
}

/// Where `spec_find` answers, it names the first entry for `identity`.
pub proof fn lemma_spec_find(s: Seq<PeerConnection>, identity: u64)
    ensures
        match spec_find(s, identity) {
            Some(i) => 0 <= i < s.len() && s[i].identity == identity && (forall|j: int|
                0 <= j < i ==> s[j].identity != identity),
            None => forall|j: int| 0 <= j < s.len() ==> s[j].identity != identity,
        },
    decreases s.len(),
{
    if s.len() > 0 && s[0].identity != identity {
        let rest = s.drop_first();
        lemma_spec_find(rest, identity);
        match spec_find(rest, identity) {
            Some(i) => {
                assert(s[i + 1] == rest[i]);
                assert forall|j: int| 0 <= j < i + 1 implies s[j].identity != identity by {
                    if j > 0 {
                        assert(rest[j - 1] == s[j]);
                    }
                }
            },
            None => {
                assert forall|j: int| 0 <= j < s.len() implies s[j].identity != identity by {
                    if j > 0 {
                        assert(rest[j - 1] == s[j]);
                    }
                }
            },
        }
    }
}

/// An entry for `identity` preceded by none is the one `spec_find` names.
proof fn lemma_spec_find_found(s: Seq<PeerConnection>, identity: u64, i: int)
    requires
        0 <= i < s.len(),
        s[i].identity == identity,
        forall|j: int| 0 <= j < i ==> s[j].identity != identity,
    ensures
        spec_find(s, identity) == Some(i),
    decreases i,
{
    if i > 0 {
        lemma_spec_find_found(s.drop_first(), identity, i - 1);
    }
}

/// The per-peer connection table.
pub struct PeerTable {
    /// The entries, in insertion order.
    pub peers: Vec<PeerConnection>,
}

impl PeerTable {
    /// The entries, in insertion order.
    pub open spec fn view(&self) -> Seq<PeerConnection> {
        self.peers@
    }

    /// No two entries name the same identity.
    pub open spec fn wf(&self) -> bool {
        forall|i: int, j: int|
            0 <= i < j < self@.len() ==> self@[i].identity != self@[j].identity
    }

    /// Some entry names `identity`.
    pub open spec fn spec_contains(&self, identity: u64) -> bool {
        exists|i: int| 0 <= i < self@.len() && self@[i].identity == identity
    }

    /// An empty table.
    pub fn new() -> (t: PeerTable)
        ensures
            t@ =~= Seq::<PeerConnection>::empty(),
            t.wf(),
    {
        PeerTable { peers: Vec::new() }
    }

    /// Number of entries.
    pub fn len(&self) -> (n: usize)
        ensures
            n == self@.len(),
    {
        self.peers.len()
    }

    /// Index of the entry for `identity`, if any.
    pub fn find(&self, identity: u64) -> (r: Option<usize>)
        ensures
            match r {
                Some(i) => spec_find(self@, identity) == Some(i as int),
                None => spec_find(self@, identity) is None,
            },
    {
        let n = self.peers.len();
        let mut i: usize = 0;
        while i < n
            invariant
                0 <= i <= n == self@.len(),
                forall|j: int| 0 <= j < i ==> self@[j].identity != identity,
            decreases n - i,
        {
            if self.peers[i].identity == identity {
                proof {
                    lemma_spec_find_found(self@, identity, i as int);
                }
                return Some(i);
            }
            i = i + 1;
        }
        proof {
            lemma_spec_find(self@, identity);
            if spec_find(self@, identity) is Some {
                let k = spec_find(self@, identity)->Some_0;
                assert(self@[k].identity != identity);
            }
        }
        None
    }

    /// Whether the table holds an entry for `identity`.
    pub fn contains(&self, identity: u64) -> (r: bool)
        ensures
            r == self.spec_contains(identity),
    {
        proof {
            lemma_spec_find(self@, identity);
        }
        match self.find(identity) {
            Some(_) => true,
            None => false,
        }
    }

    /// The entry for `identity`, if any.
    pub fn get(&self, identity: u64) -> (r: Option<PeerConnection>)
        ensures
            match r {
                Some(p) => spec_find(self@, identity) is Some && p == self@[spec_find(
                    self@,
                    identity,
                )->Some_0],
                None => spec_find(self@, identity) is None,
            },
    {
        proof {
            lemma_spec_find(self@, identity);
        }
        match self.find(identity) {
            Some(i) => Some(self.peers[i]),
            None => None,
        }
    }

    /// Add a connection for a peer not in the table yet; an entry with
    /// the same identity already present refuses the insert.
    pub fn insert(&mut self, peer: PeerConnection) -> (r: bool)
        requires
            old(self).wf(),
        ensures
            final(self).wf(),
            r == !old(self).spec_contains(peer.identity),
            r ==> final(self)@ =~= old(self)@.push(peer),
            !r ==> final(self)@ == old(self)@,
    {
        proof {
            lemma_spec_find(self@, peer.identity);
        }
        if self.contains(peer.identity) {
            false
        } else {
            self.peers.push(peer);
            true
        }
    }

    /// Remove the entry for `identity`, if any; the rest keep their order.
    pub fn remove(&mut self, identity: u64) -> (r: bool)
        requires
            old(self).wf(),
        ensures
            final(self).wf(),
            r == old(self).spec_contains(identity),
            !final(self).spec_contains(identity),
            match spec_find(old(self)@, identity) {
                Some(i) => final(self)@ == old(self)@.remove(i),
                None => final(self)@ == old(self)@,
            },
    {
        proof {
            lemma_spec_find(self@, identity);
        }
        match self.find(identity) {
            Some(i) => {
                self.peers.remove(i);
                proof {
                    let oldv = old(self)@;
                    let k = i as int;
                    assert forall|a: int, b: int|
                        0 <= a < b < self@.len() implies self@[a].identity
                        != self@[b].identity by {
                        let a0 = if a < k {
                            a
                        } else {
                            a + 1
                        };
                        let b0 = if b < k {
                            b
                        } else {
                            b + 1
                        };
                        assert(self@[a] == oldv[a0]);
                        assert(self@[b] == oldv[b0]);
                    }
                    assert forall|a: int|
                        0 <= a < self@.len() implies self@[a].identity != identity by {
                        let a0 = if a < k {
                            a
                        } else {
                            a + 1
                        };
                        assert(self@[a] == oldv[a0]);
                    }
                }
                true
            },
            None => false,
        }
    }

    /// Apply one transport signal to the entry for `identity`.
    pub fn handle_event_for(&mut self, identity: u64, e: ConnEvent) -> (found: bool)
        requires
            old(self).wf(),
        ensures
            final(self).wf(),
            found == old(self).spec_contains(identity),
            match spec_find(old(self)@, identity) {
                Some(i) => final(self)@ == old(self)@.update(
                    i,
                    (PeerConnection { state: spec_step(old(self)@[i].state, e), ..old(self)@[i] }),
                ),
                None => final(self)@ == old(self)@,
            },
    {
        proof {
            lemma_spec_find(self@, identity);
        }
        match self.find(identity) {
            Some(i) => {
                let mut p = self.peers[i];
                p.handle_event(e);
                self.peers.set(i, p);
                proof {
                    lemma_wf_update(old(self)@, self@, i as int);
                }
                true
            },
            None => false,
        }
    }

    /// Accept the pending inbound request of `identity`, if present.
    pub fn accept_for(&mut self, identity: u64) -> (found: bool)
        requires
            old(self).wf(),
        ensures
            final(self).wf(),
            found == old(self).spec_contains(identity),
            match spec_find(old(self)@, identity) {
                Some(i) => final(self)@ == old(self)@.update(
                    i,
                    (PeerConnection {
                        state: if old(self)@[i].state is Pending {
                            ConnState::Connecting
                        } else {
                            old(self)@[i].state
                        },
                        ..old(self)@[i]
                    }),
                ),
                None => final(self)@ == old(self)@,
            },
    {
        proof {
            lemma_spec_find(self@, identity);
        }
        match self.find(identity) {
            Some(i) => {
                let mut p = self.peers[i];
                p.accept();
                self.peers.set(i, p);
                proof {
                    lemma_wf_update(old(self)@, self@, i as int);
                }
                true
            },
            None => false,
        }
    }

    /// Fail every entry still `Connecting` whose deadline has passed at
    /// `now_ms`.
    pub fn check_timeouts(&mut self, now_ms: u64, deadline_ms: u64)
        requires
            old(self).wf(),
        ensures
            final(self).wf(),
            final(self)@.len() == old(self)@.len(),
            forall|i: int|
                0 <= i < old(self)@.len() ==> final(self)@[i] == (PeerConnection {
                    state: if old(self)@[i].spec_timed_out(now_ms, deadline_ms) {
                        ConnState::Failed(crate::connection::FailReason::Timeout)
                    } else {
                        old(self)@[i].state
                    },
                    ..old(self)@[i]
                }),
    {
        let n = self.peers.len();
        let mut i: usize = 0;
        while i < n
            invariant
                0 <= i <= n == self@.len(),
                n == old(self)@.len(),
                forall|j: int| i <= j < n ==> self@[j] == old(self)@[j],
                forall|j: int|
                    0 <= j < i ==> self@[j] == (PeerConnection {
                        state: if old(self)@[j].spec_timed_out(now_ms, deadline_ms) {
                            ConnState::Failed(crate::connection::FailReason::Timeout)
                        } else {
                            old(self)@[j].state
                        },
                        ..old(self)@[j]
                    }),
            decreases n - i,
        {
            let mut p = self.peers[i];
            p.check_timeout(now_ms, deadline_ms);
            self.peers.set(i, p);
            i = i + 1;
        }
        proof {
            assert forall|a: int, b: int|
                0 <= a < b < self@.len() implies self@[a].identity != self@[b].identity by {
                assert(self@[a].identity == old(self)@[a].identity);
                assert(self@[b].identity == old(self)@[b].identity);
            }
        }
    }

    /// Remove every terminal entry; the live ones keep their order.
    #[verifier::loop_isolation(false)]
    pub fn prune_terminal(&mut self)
        requires
            old(self).wf(),
        ensures
            final(self).wf(),
            final(self)@ == old(self)@.filter(|p: PeerConnection| !is_terminal(p.state)),
            forall|i: int| 0 <= i < final(self)@.len() ==> !is_terminal(#[trigger] final(self)@[i].state),
    {
        let ghost pred = |p: PeerConnection| !is_terminal(p.state);
        let n = self.peers.len();
        let mut kept: Vec<PeerConnection> = Vec::new();
        let mut i: usize = 0;
        while i < n
            invariant
                0 <= i <= n == self@.len(),
                self@ == old(self)@,
                kept@ =~= self@.take(i as int).filter(pred),
            decreases n - i,
        {
            let p = self.peers[i];
            if !p.should_remove() {
                kept.push(p);
                proof {
                    reveal_with_fuel(Seq::<PeerConnection>::filter, 2);
                    assert(self@.take(i + 1).drop_last() =~= self@.take(i as int));
                    assert(self@.take(i + 1).last() == self@[i as int]);
                    assert(kept@ =~= self@.take(i + 1).filter(pred));
                }
            } else {
                proof {
                    reveal_with_fuel(Seq::<PeerConnection>::filter, 2);
                    assert(self@.take(i + 1).drop_last() =~= self@.take(i as int));
                    assert(self@.take(i + 1).last() == self@[i as int]);
                    assert(kept@ =~= self@.take(i + 1).filter(pred));
                }
            }
            i = i + 1;
        }
        proof {
            assert(self@.take(n as int) =~= self@);
        }
        self.peers = kept;
        proof {
            let oldv = old(self)@;
            lemma_filter_wf(oldv, pred);
            assert forall|k: int|
                0 <= k < self@.len() implies !is_terminal(#[trigger] self@[k].state) by {
                oldv.lemma_filter_pred(pred, k);
            }
        }
    }

    /// Identities of the connected peers, in table order — the broadcast
    /// targets of the packet router.
    #[verifier::loop_isolation(false)]
    pub fn connected_identities(&self) -> (r: Vec<u64>)
        ensures
            r@ == self@.filter(|p: PeerConnection| p.state is Connected).map_values(
                |p: PeerConnection| p.identity,
            ),
    {
        let ghost pred = |p: PeerConnection| p.state is Connected;
        let ghost f = |p: PeerConnection| p.identity;
        let n = self.peers.len();
        let mut out: Vec<u64> = Vec::new();
        let mut i: usize = 0;
        while i < n
            invariant
                0 <= i <= n == self@.len(),
                out@ =~= self@.take(i as int).filter(pred).map_values(f),
            decreases n - i,
        {
            let p = self.peers[i];
            if matches!(p.state, ConnState::Connected) {
                out.push(p.identity);
                proof {
                    reveal_with_fuel(Seq::<PeerConnection>::filter, 2);
                    assert(self@.take(i + 1).drop_last() =~= self@.take(i as int));
                    assert(self@.take(i + 1).last() == self@[i as int]);
                    assert(self@.take(i + 1).filter(pred) =~= self@.take(i as int).filter(
                        pred,
                    ).push(self@[i as int]));
                    assert(out@ =~= self@.take(i + 1).filter(pred).map_values(f));
                }
            } else {
                proof {
                    reveal_with_fuel(Seq::<PeerConnection>::filter, 2);
                    assert(self@.take(i + 1).drop_last() =~= self@.take(i as int));
                    assert(self@.take(i + 1).last() == self@[i as int]);
                    assert(out@ =~= self@.take(i + 1).filter(pred).map_values(f));
                }
            }
            i = i + 1;
        }
        proof {
            assert(self@.take(n as int) =~= self@);
        }
        out
    }
}

/// Filtering a table whose identities are unique keeps them unique, and
/// every survivor is an entry of the original.
proof fn lemma_filter_wf(s: Seq<PeerConnection>, pred: spec_fn(PeerConnection) -> bool)
    requires
        forall|i: int, j: int| 0 <= i < j < s.len() ==> s[i].identity != s[j].identity,
    ensures
        forall|a: int, b: int|
            0 <= a < b < s.filter(pred).len() ==> s.filter(pred)[a].identity != s.filter(
                pred,
            )[b].identity,
        forall|a: int| 0 <= a < s.filter(pred).len() ==> s.contains(#[trigger] s.filter(pred)[a]),
    decreases s.len(),
{
    reveal_with_fuel(Seq::<PeerConnection>::filter, 2);
    if s.len() > 0 {
        let rest = s.drop_last();
        lemma_filter_wf(rest, pred);
        let fr = rest.filter(pred);
        let fs = s.filter(pred);
        assert forall|a: int|
            0 <= a < fs.len() implies s.contains(#[trigger] fs[a]) by {
            if a < fr.len() {
                assert(rest.contains(fr[a]));
                let i = choose|i: int| 0 <= i < rest.len() && rest[i] == fr[a];
                assert(s[i] == fr[a]);
            } else {
                assert(fs[a] == s.last());
                assert(s[s.len() - 1] == s.last());
            }
        }
        assert forall|a: int, b: int|
            0 <= a < b < fs.len() implies fs[a].identity != fs[b].identity by {
            if b == fr.len() {
                assert(rest.contains(fr[a]));
                let i = choose|i: int| 0 <= i < rest.len() && rest[i] == fr[a];
                assert(s[i] == fs[a]);
                assert(s[i].identity != s.last().identity);
            }
        }
    }
}

/// Updating one entry in place keeps identities unique, since the
/// identity itself is unchanged.
proof fn lemma_wf_update(oldv: Seq<PeerConnection>, newv: Seq<PeerConnection>, k: int)
    requires
        0 <= k < oldv.len(),
        newv.len() == oldv.len(),
        forall|i: int| 0 <= i < oldv.len() && i != k ==> newv[i] == oldv[i],
        newv[k].identity == oldv[k].identity,
        forall|i: int, j: int| 0 <= i < j < oldv.len() ==> oldv[i].identity != oldv[j].identity,
    ensures
        forall|i: int, j: int| 0 <= i < j < newv.len() ==> newv[i].identity != newv[j].identity,
{
    assert forall|i: int, j: int|
        0 <= i < j < newv.len() implies newv[i].identity != newv[j].identity by {
        assert(newv[i].identity == oldv[i].identity);
        assert(newv[j].identity == oldv[j].identity);
    }
}

} // verus!
