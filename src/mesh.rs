//! The peers the node sees, each with its place in the life of a connection,
//! and how lifecycle events move them from one place to the next.
use vstd::prelude::*;

verus! {

/// The topic on which the node relays chat messages.
pub const CHAT_TOPIC: &'static str = "chat";

/// Where a peer stands in the life of its connection.
#[derive(Clone, Copy, Debug, PartialEq, Eq, Structural)]
pub enum PeerState {
    Connecting,
    Established,
    SubscribedToMesh,
    Closed,
}

/// A peer the node sees, by the textual form of its identifier.
pub struct PeerEntry {
    pub peer: String,
    pub state: PeerState,
}

/// The state of each peer the node sees, by identifier.
pub type MeshView = Map<Seq<char>, PeerState>;

/// A dial towards `p` makes an unknown peer `Connecting`.
pub open spec fn on_dialing(m: MeshView, p: Seq<char>) -> MeshView {
    if !m.contains_key(p) {
        m.insert(p, PeerState::Connecting)
    } else {
        m
    }
}

/// An established connection makes an unknown or `Connecting` peer
/// `Established`; a peer further along keeps its state.
pub open spec fn on_established(m: MeshView, p: Seq<char>) -> MeshView {
    if !m.contains_key(p) || m[p] == PeerState::Connecting {
        m.insert(p, PeerState::Established)
    } else {
        m
    }
}

/// A subscription admits `p` to the mesh exactly when it is to the chat topic
/// and `p` is `Established`.
pub open spec fn admits(m: MeshView, p: Seq<char>, topic: Seq<char>) -> bool {
    topic == CHAT_TOPIC@ && m.contains_key(p) && m[p] == PeerState::Established
}

pub open spec fn on_subscribed(m: MeshView, p: Seq<char>, topic: Seq<char>) -> MeshView {
    if admits(m, p, topic) {
        m.insert(p, PeerState::SubscribedToMesh)
    } else {
        m
    }
}

/// A closed connection ends the peer's entry: `Closed` is terminal, so the
/// peer is no longer seen.
pub open spec fn on_closed(m: MeshView, p: Seq<char>) -> MeshView {
    m.remove(p)
}

/// The peers pinned into the pub/sub engine's mesh: those subscribed to it.
pub open spec fn explicit_peers(m: MeshView) -> Set<Seq<char>> {
    m.dom().filter(|p: Seq<char>| m[p] == PeerState::SubscribedToMesh)
}

/// The peers the node sees.
pub struct MeshState {
    entries: Vec<PeerEntry>,
    model: Ghost<MeshView>,
}

impl View for MeshState {
    type V = MeshView;

    closed spec fn view(&self) -> MeshView {
        self.model@
    }
}

impl MeshState {
    /// The entries list each peer of the model once, with its state, and no
    /// peer is kept once `Closed`.
    pub closed spec fn wf(&self) -> bool {
        &&& forall|i: int|
            0 <= i < self.entries@.len() ==> {
                &&& self.model@.contains_key(#[trigger] self.entries@[i].peer@)
                &&& self.model@[self.entries@[i].peer@] == self.entries@[i].state
            }
        &&& forall|p: Seq<char>|
            #[trigger] self.model@.contains_key(p) ==> exists|i: int|
                0 <= i < self.entries@.len() && #[trigger] self.entries@[i].peer@ == p
        &&& forall|i: int, j: int|
            0 <= i < j < self.entries@.len() ==> #[trigger] self.entries@[i].peer@
                != #[trigger] self.entries@[j].peer@
        &&& forall|p: Seq<char>|
            #[trigger] self.model@.contains_key(p) ==> self.model@[p] != PeerState::Closed
    }

    /// No peer the node sees is `Closed`.
    pub proof fn lemma_no_closed(&self, p: Seq<char>)
        requires
            self.wf(),
        ensures
            self@.contains_key(p) ==> self@[p] != PeerState::Closed,
    {
    }

    /// No peer seen yet.
    pub fn new() -> (r: MeshState)
        ensures
            r.wf(),
            r@ == Map::<Seq<char>, PeerState>::empty(),
    {
        MeshState { entries: Vec::new(), model: Ghost(Map::empty()) }
    }

    fn find(&self, peer: &String) -> (r: Option<usize>)
        requires
            self.wf(),
        ensures
            r is Some ==> r->0 < self.entries@.len() && self.entries@[r->0 as int].peer@ == peer@,
            r is None ==> !self@.contains_key(peer@),
    {
        let mut i: usize = 0;
        while i < self.entries.len()
            invariant
                self.wf(),
                i <= self.entries@.len(),
                forall|j: int| 0 <= j < i ==> #[trigger] self.entries@[j].peer@ != peer@,
            decreases self.entries@.len() - i,
        {
            if self.entries[i].peer == *peer {
                return Some(i);
            }
            i = i + 1;
        }
        None
    }

    /// The state of `peer`, if the node sees it.
    pub fn state_of(&self, peer: &String) -> (r: Option<PeerState>)
        requires
            self.wf(),
        ensures
            r is Some <==> self@.contains_key(peer@),
            r is Some ==> r->0 == self@[peer@],
    {
        match self.find(peer) {
            Some(i) => Some(self.entries[i].state),
            None => None,
        }
    }

    /// Gives `peer` the state `state`, adding its entry if it has none.
    fn put(&mut self, peer: String, state: PeerState)
        requires
            old(self).wf(),
            state != PeerState::Closed,
        ensures
            final(self).wf(),
            final(self)@ == old(self)@.insert(peer@, state),
    {
        let ghost p = peer@;
        let found = self.find(&peer);
        let ghost model = self.model@.insert(p, state);
        match found {
            Some(i) => {
                self.entries[i] = PeerEntry { peer, state };
                self.model = Ghost(model);
                assert forall|q: Seq<char>| #[trigger] self.model@.contains_key(q) implies exists|k: int|
                    0 <= k < self.entries@.len() && #[trigger] self.entries@[k].peer@ == q by {
                    if q == p {
                        assert(self.entries@[i as int].peer@ == q);
                    } else {
                        assert(old(self).model@.contains_key(q));
                        let k = choose|k: int| 0 <= k < old(self).entries@.len() && #[trigger] old(self).entries@[k].peer@ == q;
                        assert(self.entries@[k].peer@ == q);
                    }
                }
            },
            None => {
                self.entries.push(PeerEntry { peer, state });
                self.model = Ghost(model);
                let ghost n: int = self.entries@.len() - 1;
                assert forall|q: Seq<char>| #[trigger] self.model@.contains_key(q) implies exists|k: int|
                    0 <= k < self.entries@.len() && #[trigger] self.entries@[k].peer@ == q by {
                    if q == p {
                        assert(self.entries@[n].peer@ == q);
                    } else {
                        assert(old(self).model@.contains_key(q));
                        let k = choose|k: int| 0 <= k < old(self).entries@.len() && #[trigger] old(self).entries@[k].peer@ == q;
                        assert(self.entries@[k].peer@ == q);
                    }
                }
                assert forall|a: int, b: int| 0 <= a < b < self.entries@.len() implies #[trigger] self.entries@[a].peer@
                    != #[trigger] self.entries@[b].peer@ by {
                    if b == n {
                        assert(old(self).model@.contains_key(self.entries@[a].peer@));
                    }
                }
            },
        }
    }

    /// Drops the entry of `peer`; tells whether there was one.
    fn drop_peer(&mut self, peer: &String) -> (r: bool)
        requires
            old(self).wf(),
        ensures
            final(self).wf(),
            final(self)@ == old(self)@.remove(peer@),
            r == old(self)@.contains_key(peer@),
    {
        let ghost p = peer@;
        match self.find(peer) {
            Some(i) => {
                self.entries.remove(i);
                self.model = Ghost(self.model@.remove(p));
                assert forall|q: Seq<char>| #[trigger] self.model@.contains_key(q) implies exists|k: int|
                    0 <= k < self.entries@.len() && #[trigger] self.entries@[k].peer@ == q by {
                    assert(old(self).model@.contains_key(q));
                    let k = choose|k: int| 0 <= k < old(self).entries@.len() && #[trigger] old(self).entries@[k].peer@ == q;
                    assert(k != i);
                    if k < i {
                        assert(self.entries@[k].peer@ == q);
                    } else {
                        assert(self.entries@[k - 1].peer@ == q);
                    }
                }
                assert forall|a: int| 0 <= a < self.entries@.len() implies {
                    &&& self.model@.contains_key(#[trigger] self.entries@[a].peer@)
                    &&& self.model@[self.entries@[a].peer@] == self.entries@[a].state
                } by {
                    if a < i {
                        assert(self.entries@[a] == old(self).entries@[a]);
                    } else {
                        assert(self.entries@[a] == old(self).entries@[a + 1]);
                    }
                }
                assert forall|a: int, b: int| 0 <= a < b < self.entries@.len() implies #[trigger] self.entries@[a].peer@
                    != #[trigger] self.entries@[b].peer@ by {
                    let a0 = if a < i { a } else { a + 1 };
                    let b0 = if b < i { b } else { b + 1 };
                    assert(self.entries@[a] == old(self).entries@[a0]);
                    assert(self.entries@[b] == old(self).entries@[b0]);
                }
                true
            },
            None => {
                assert(self.model@.remove(p) =~= self.model@);
                false
            },
        }
    }

    /// A dial towards `peer` began.
    pub fn dial(&mut self, peer: String)
        requires
            old(self).wf(),
        ensures
            final(self).wf(),
            final(self)@ == on_dialing(old(self)@, peer@),
    {
        if self.state_of(&peer).is_none() {
            self.put(peer, PeerState::Connecting);
        }
    }

    /// A connection to `peer` was established.
    pub fn establish(&mut self, peer: String)
        requires
            old(self).wf(),
        ensures
            final(self).wf(),
            final(self)@ == on_established(old(self)@, peer@),
    {
        let s = self.state_of(&peer);
        let fresh = match s {
            None => true,
            Some(PeerState::Connecting) => true,
            Some(_) => false,
        };
        if fresh {
            self.put(peer, PeerState::Established);
        }
    }

    /// `peer` subscribed to `topic`; tells whether that admitted it to the
    /// mesh.
    pub fn subscribe(&mut self, peer: String, topic: &String) -> (r: bool)
        requires
            old(self).wf(),
        ensures
            final(self).wf(),
            r == admits(old(self)@, peer@, topic@),
            final(self)@ == on_subscribed(old(self)@, peer@, topic@),
    {
        let chat = String::from_str(CHAT_TOPIC);
        let s = self.state_of(&peer);
        let established = match s {
            Some(PeerState::Established) => true,
            _ => false,
        };
        if *topic == chat && established {
            self.put(peer, PeerState::SubscribedToMesh);
            true
        } else {
            false
        }
    }

    /// The connection to `peer` closed; tells whether the node saw it.
    pub fn close(&mut self, peer: &String) -> (r: bool)
        requires
            old(self).wf(),
        ensures
            final(self).wf(),
            r == old(self)@.contains_key(peer@),
            final(self)@ == on_closed(old(self)@, peer@),
    {
        self.drop_peer(peer)
    }
}

} // verus!
