//! The peer registry: integer handles, never reused, mapped to the native
//! peers registered under them, and the dispatch rule for calls that name a
//! handle.
use std::collections::BTreeMap;
use vstd::prelude::*;

verus! {

broadcast use vstd::std_specs::btree::group_btree_axioms, vstd::laws_cmp::group_laws_cmp;

/// What a [`PeerRegistry`] holds.
pub struct RegistryView<P> {
    /// The handle that the next registration gets.
    pub next_handle: int,
    pub peers: Map<i64, P>,
}

/// Handles to peers. Each handle is handed out once, in increasing order.
pub struct PeerRegistry<P> {
    next_handle: i64,
    peers: BTreeMap<i64, P>,
}

impl<P> View for PeerRegistry<P> {
    type V = RegistryView<P>;

    closed spec fn view(&self) -> RegistryView<P> {
        RegistryView { next_handle: self.next_handle as int, peers: self.peers@ }
    }
}

impl<P> PeerRegistry<P> {
    /// Every registered handle was handed out before the next one.
    pub open spec fn wf(&self) -> bool {
        &&& self@.next_handle >= 0
        &&& forall|h: i64| #[trigger] self@.peers.contains_key(h) ==> 0 <= h < self@.next_handle
    }

    /// An empty registry; the first handle is 0.
    pub fn new() -> (r: PeerRegistry<P>)
        ensures
            r.wf(),
            r@.next_handle == 0,
            r@.peers == Map::<i64, P>::empty(),
    {
        PeerRegistry { next_handle: 0, peers: BTreeMap::new() }
    }

    /// Registers `peer` under a fresh handle and returns it; none once the
    /// handles are used up.
    pub fn register_view_peer(&mut self, peer: P) -> (r: Option<i64>)
        requires
            old(self).wf(),
        ensures
            final(self).wf(),
            r is None <==> old(self)@.next_handle == i64::MAX,
            r is None ==> final(self)@ == old(self)@,
            r matches Some(h) ==> {
                &&& h == old(self)@.next_handle
                &&& !old(self)@.peers.contains_key(h)
                &&& final(self)@.peers == old(self)@.peers.insert(h, peer)
                &&& final(self)@.next_handle == h + 1
            },
    {
        if self.next_handle == i64::MAX {
            return None;
        }
        let h = self.next_handle;
        self.peers.insert(h, peer);
        self.next_handle = h + 1;
        proof {
            assert forall|k: i64| #[trigger] self@.peers.contains_key(k) implies 0 <= k
                < self@.next_handle by {
                if k != h {
                    assert(old(self)@.peers.contains_key(k));
                }
            }
        }
        Some(h)
    }

    /// Whether a peer is registered under `handle`.
    pub fn contains(&self, handle: i64) -> (r: bool)
        ensures
            r == self@.peers.contains_key(handle),
    {
        self.peers.contains_key(&handle)
    }

    /// Removes the peer registered under `handle` and returns it; the handle
    /// is not handed out again.
    pub fn remove(&mut self, handle: i64) -> (r: Option<P>)
        requires
            old(self).wf(),
        ensures
            final(self).wf(),
            final(self)@.next_handle == old(self)@.next_handle,
            final(self)@.peers == old(self)@.peers.remove(handle),
            old(self)@.peers.contains_key(handle) ==> r == Some(old(self)@.peers[handle]),
            !old(self)@.peers.contains_key(handle) ==> r is None,
    {
        let r = self.peers.remove(&handle);
        proof {
            assert forall|k: i64| #[trigger] self@.peers.contains_key(k) implies 0 <= k
                < self@.next_handle by {
                assert(old(self)@.peers.contains_key(k));
            }
        }
        r
    }

    /// Takes the peer under `handle` out for one call, so that the registry
    /// can be released while it runs. A second call to the same handle
    /// meanwhile finds no peer.
    pub fn checkout(&mut self, handle: i64) -> (r: Option<P>)
        requires
            old(self).wf(),
        ensures
            final(self).wf(),
            final(self)@.next_handle == old(self)@.next_handle,
            final(self)@.peers == old(self)@.peers.remove(handle),
            old(self)@.peers.contains_key(handle) ==> r == Some(old(self)@.peers[handle]),
            !old(self)@.peers.contains_key(handle) ==> r is None,
    {
        let r = self.peers.remove(&handle);
        proof {
            assert forall|k: i64| #[trigger] self@.peers.contains_key(k) implies 0 <= k
                < self@.next_handle by {
                assert(old(self)@.peers.contains_key(k));
            }
        }
        r
    }

    /// Puts a checked-out peer back under its handle. Refused (false, and
    /// the peer dropped) for a handle that was never handed out.
    pub fn checkin(&mut self, handle: i64, peer: P) -> (r: bool)
        requires
            old(self).wf(),
        ensures
            final(self).wf(),
            final(self)@.next_handle == old(self)@.next_handle,
            r == (0 <= handle < old(self)@.next_handle),
            r ==> final(self)@.peers == old(self)@.peers.insert(handle, peer),
            !r ==> final(self)@.peers == old(self)@.peers,
    {
        if handle < 0 || handle >= self.next_handle {
            return false;
        }
        self.peers.insert(handle, peer);
        proof {
            assert forall|k: i64| #[trigger] self@.peers.contains_key(k) implies 0 <= k
                < self@.next_handle by {
                if k != handle {
                    assert(old(self)@.peers.contains_key(k));
                }
            }
        }
        true
    }

    /// Runs `f` on the peer under `handle` and returns its result, keeping
    /// the peer that `f` hands back. With no peer under `handle`, returns
    /// `default` and changes nothing.
    pub fn dispatch<T, F: FnOnce(P) -> (P, T)>(&mut self, handle: i64, default: T, f: F) -> (r: T)
        requires
            old(self).wf(),
            forall|p: P| f.requires((p,)),
        ensures
            final(self).wf(),
            final(self)@.next_handle == old(self)@.next_handle,
            !old(self)@.peers.contains_key(handle) ==> r == default && final(self)@ == old(self)@,
            old(self)@.peers.contains_key(handle) ==> exists|p2: P|
                {
                    &&& #[trigger] f.ensures((old(self)@.peers[handle],), (p2, r))
                    &&& final(self)@.peers == old(self)@.peers.insert(handle, p2)
                },
    {
        match self.peers.remove(&handle) {
            None => {
                proof {
                    assert(self@.peers =~= old(self)@.peers);
                }
                default
            },
            Some(p) => {
                let (p2, r) = f(p);
                self.peers.insert(handle, p2);
                proof {
                    assert(self@.peers =~= old(self)@.peers.insert(handle, p2));
                }
                r
            },
        }
    }
}

/// A handle that was never handed out names no peer, so a call that names it
/// gets the caller's default and changes nothing (see
/// [`PeerRegistry::dispatch`]).
pub proof fn lemma_never_registered_is_absent<P>(reg: &PeerRegistry<P>, handle: i64)
    requires
        reg.wf(),
        handle < 0 || handle >= reg@.next_handle,
    ensures
        !reg@.peers.contains_key(handle),
{
}

} // verus!
