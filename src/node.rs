//! The node's decisions: each lifecycle event the transport or the pub/sub
//! engine reports moves the node to its next state and yields the actions to
//! perform, in order. Address queries are answered here too.
use vstd::prelude::*;
use crate::bridge::{ReplyBridge, RequestOutcome};
use crate::mesh::{
    admits, explicit_peers, on_closed, on_dialing, on_established, on_subscribed, MeshState,
    MeshView, PeerState,
};
use crate::message::{lossy_text, make_msg, payload_text, relay_text};
use crate::registry::{offered, AddressRegistry, ListenAddress};

verus! {

/// A lifecycle event, as plain values.
#[derive(Clone, Debug)]
pub enum NodeEvent {
    /// The transport listens on a new address.
    NewListenAddress(ListenAddress),
    /// A remote peer began to connect.
    IncomingConnection,
    /// A dial towards a known peer began.
    Dialing(String),
    /// A connection to a peer was established.
    ConnectionEstablished(String),
    /// A peer subscribed to a topic; `now` is the clock in nanoseconds.
    PeerSubscribed { peer: String, topic: String, now: u128 },
    /// A message arrived from a peer.
    MessageReceived { peer: String, data: Vec<u8> },
    /// A ping to a peer was answered.
    Pinged(String),
    /// A peer pinged the node, which answered; `now` is the clock in
    /// nanoseconds.
    Ponged { peer: String, now: u128 },
    /// A ping to a peer failed.
    PingFailed(String),
    /// Publishing a message failed, for example for want of mesh peers.
    PublishFailed,
    /// The connection to a peer closed.
    ConnectionClosed(String),
    /// A dial failed.
    OutgoingConnectionError,
    /// A listener closed.
    ListenerClosed,
    /// Anything else the transport reports.
    Other,
}

/// An action for the event loop to perform.
#[derive(Clone, Debug, PartialEq, Eq)]
pub enum NodeAction {
    /// Pin the peer into the pub/sub engine's mesh.
    AddExplicitPeer(String),
    /// Unpin the peer from the pub/sub engine's mesh.
    RemoveExplicitPeer(String),
    /// Publish this text on the chat topic.
    Publish(String),
    /// Answer the waiting address query `request` with `address`.
    Reply { request: u64, address: String },
    /// Show the text of a message that a peer sent.
    ShowMessage { peer: String, text: String },
}

/// An action, with its texts as sequences of characters.
pub enum ActionView {
    AddExplicitPeer(Seq<char>),
    RemoveExplicitPeer(Seq<char>),
    Publish(Seq<char>),
    Reply(u64, Seq<char>),
    ShowMessage(Seq<char>, Seq<char>),
}

impl View for NodeAction {
    type V = ActionView;

    open spec fn view(&self) -> ActionView {
        match self {
            NodeAction::AddExplicitPeer(p) => ActionView::AddExplicitPeer(p@),
            NodeAction::RemoveExplicitPeer(p) => ActionView::RemoveExplicitPeer(p@),
            NodeAction::Publish(t) => ActionView::Publish(t@),
            NodeAction::Reply { request, address } => ActionView::Reply(*request, address@),
            NodeAction::ShowMessage { peer, text } => ActionView::ShowMessage(peer@, text@),
        }
    }
}

pub open spec fn actions_view(v: Seq<NodeAction>) -> Seq<ActionView> {
    v.map_values(|a: NodeAction| a@)
}

/// The state of a node: its address once known, the peers it sees, the
/// queries waiting for the address, and the stamp of its last message.
pub struct NodeView {
    pub address: Option<Seq<char>>,
    pub peers: MeshView,
    pub pending: Seq<u64>,
    pub capacity: nat,
    pub last_stamp: u128,
}

/// What holds of every state a node reaches.
pub open spec fn view_wf(n: NodeView) -> bool {
    &&& n.pending.len() <= n.capacity
    &&& n.address is Some ==> n.pending.len() == 0
    &&& forall|p: Seq<char>| #[trigger] n.peers.contains_key(p) ==> n.peers[p] != PeerState::Closed
}

/// The stamp of the next message: the clock if it moved past the last stamp,
/// else one more than the last stamp, so stamps strictly increase until the
/// largest value is reached.
pub open spec fn next_stamp(last: u128, now: u128) -> u128 {
    if now > last {
        now
    } else if last < u128::MAX {
        (last + 1) as u128
    } else {
        last
    }
}

/// The answers to the queries `ids`, in order.
pub open spec fn replies(ids: Seq<u64>, address: Seq<char>) -> Seq<ActionView> {
    ids.map_values(|id: u64| ActionView::Reply(id, address))
}

pub open spec fn with_peers(n: NodeView, peers: MeshView) -> NodeView {
    NodeView { peers, ..n }
}

/// The node's next state and its actions, for event `e` in state `n`.
pub open spec fn step(n: NodeView, e: NodeEvent) -> (NodeView, Seq<ActionView>) {
    match e {
        NodeEvent::NewListenAddress(a) => {
            if n.address is None && !crate::text::has_local_marker(a.text@) {
                (
                    NodeView { address: offered(n.address, a@), pending: Seq::empty(), ..n },
                    replies(n.pending, a.dialable@),
                )
            } else {
                (n, Seq::empty())
            }
        },
        NodeEvent::Dialing(p) => (with_peers(n, on_dialing(n.peers, p@)), Seq::empty()),
        NodeEvent::ConnectionEstablished(p) => (
            with_peers(n, on_established(n.peers, p@)),
            Seq::empty(),
        ),
        NodeEvent::PeerSubscribed { peer, topic, now } => {
            if admits(n.peers, peer@, topic@) {
                let stamp = next_stamp(n.last_stamp, now);
                (
                    NodeView {
                        peers: on_subscribed(n.peers, peer@, topic@),
                        last_stamp: stamp,
                        ..n
                    },
                    seq![
                        ActionView::AddExplicitPeer(peer@),
                        ActionView::Publish(relay_text(stamp as nat, peer@)),
                    ],
                )
            } else {
                (n, Seq::empty())
            }
        },
        NodeEvent::MessageReceived { peer, data } => (
            n,
            seq![ActionView::ShowMessage(peer@, lossy_text(data@))],
        ),
        NodeEvent::Ponged { peer, now } => {
            let stamp = next_stamp(n.last_stamp, now);
            (
                NodeView { last_stamp: stamp, ..n },
                seq![ActionView::Publish(relay_text(stamp as nat, peer@))],
            )
        },
        NodeEvent::ConnectionClosed(p) => (
            with_peers(n, on_closed(n.peers, p@)),
            seq![ActionView::RemoveExplicitPeer(p@)],
        ),
        _ => (n, Seq::empty()),
    }
}

/// A relay node's state.
pub struct Node {
    registry: AddressRegistry,
    mesh: MeshState,
    bridge: ReplyBridge,
    last_stamp: u128,
}

impl View for Node {
    type V = NodeView;

    closed spec fn view(&self) -> NodeView {
        NodeView {
            address: self.registry@,
            peers: self.mesh@,
            pending: self.bridge.pending(),
            capacity: self.bridge.capacity(),
            last_stamp: self.last_stamp,
        }
    }
}

impl Node {
    pub closed spec fn wf(&self) -> bool {
        &&& self.mesh.wf()
        &&& self.bridge.wf()
        &&& self.registry@ is Some ==> self.bridge.pending().len() == 0
    }

    /// The facts that well-formedness gives about the node's state.
    pub proof fn lemma_wf(&self)
        requires
            self.wf(),
        ensures
            view_wf(self@),
    {
        assert forall|p: Seq<char>| #[trigger] self@.peers.contains_key(p) implies self@.peers[p]
            != PeerState::Closed by {
            self.mesh.lemma_no_closed(p);
        }
    }

    /// A node that knows no address and no peer; at most `capacity` address
    /// queries may wait for the address.
    pub fn new(capacity: usize) -> (r: Node)
        ensures
            r.wf(),
            r@ == (NodeView {
                address: None,
                peers: Map::empty(),
                pending: Seq::empty(),
                capacity: capacity as nat,
                last_stamp: 0,
            }),
    {
        Node {
            registry: AddressRegistry::new(),
            mesh: MeshState::new(),
            bridge: ReplyBridge::new(capacity),
            last_stamp: 0,
        }
    }

    /// The node's dialable address, once known.
    pub fn address(&self) -> (r: Option<String>)
        ensures
            r is Some <==> self@.address is Some,
            r is Some ==> r->0@ == self@.address->0,
    {
        self.registry.get()
    }

    /// The state of `peer`, if the node sees it.
    pub fn peer_state(&self, peer: &String) -> (r: Option<PeerState>)
        requires
            self.wf(),
        ensures
            r is Some <==> self@.peers.contains_key(peer@),
            r is Some ==> r->0 == self@.peers[peer@],
    {
        self.mesh.state_of(peer)
    }

    /// How many address queries wait.
    pub fn pending_requests(&self) -> (r: usize)
        ensures
            r == self@.pending.len(),
    {
        self.bridge.len()
    }

    /// Takes address query `id`: it is answered at once when the address is
    /// known, else it waits for it if there is room, else it is turned back.
    pub fn request(&mut self, id: u64) -> (r: RequestOutcome)
        requires
            old(self).wf(),
        ensures
            final(self).wf(),
            old(self)@.address is Some ==> r is Answered && r->0@ == old(self)@.address->0
                && final(self)@ == old(self)@,
            old(self)@.address is None && old(self)@.pending.len() < old(self)@.capacity ==> r
                is Queued && final(self)@ == (NodeView {
                pending: old(self)@.pending.push(id),
                ..old(self)@
            }),
            old(self)@.address is None && old(self)@.pending.len() >= old(self)@.capacity ==> r
                is Backpressure && final(self)@ == old(self)@,
    {
        match self.registry.get() {
            Some(a) => RequestOutcome::Answered(a),
            None => {
                if self.bridge.enqueue(id) {
                    RequestOutcome::Queued
                } else {
                    RequestOutcome::Backpressure
                }
            },
        }
    }

    /// Gives up the queries that wait for an address, oldest first, so that
    /// each can be told that no address was discovered.
    pub fn abandon_requests(&mut self) -> (r: Vec<u64>)
        requires
            old(self).wf(),
        ensures
            final(self).wf(),
            r@ == old(self)@.pending,
            final(self)@ == (NodeView { pending: Seq::empty(), ..old(self)@ }),
    {
        self.bridge.drain()
    }

    /// The node's listeners closed. If no address was discovered, none will
    /// be: the waiting queries are handed back, oldest first, to be told so.
    /// If the address is known, no query waits and nothing changes.
    pub fn abandon_if_unbound(&mut self) -> (r: Vec<u64>)
        requires
            old(self).wf(),
        ensures
            final(self).wf(),
            old(self)@.address is None ==> r@ == old(self)@.pending && final(self)@ == (NodeView {
                pending: Seq::empty(),
                ..old(self)@
            }),
            old(self)@.address is Some ==> r@ == Seq::<u64>::empty() && final(self)@ == old(self)@,
    {
        if self.registry.get().is_none() {
            self.bridge.drain()
        } else {
            Vec::new()
        }
    }

    fn next_stamp(&mut self, now: u128) -> (r: u128)
        ensures
            r == next_stamp(old(self).last_stamp, now),
            final(self).last_stamp == r,
            final(self).registry == old(self).registry,
            final(self).mesh == old(self).mesh,
            final(self).bridge == old(self).bridge,
    {
        let s = if now > self.last_stamp {
            now
        } else if self.last_stamp < u128::MAX {
            self.last_stamp + 1
        } else {
            self.last_stamp
        };
        self.last_stamp = s;
        s
    }

    fn answer_all(ids: &Vec<u64>, address: &String) -> (r: Vec<NodeAction>)
        ensures
            actions_view(r@) == replies(ids@, address@),
    {
        let mut acts: Vec<NodeAction> = Vec::new();
        let mut i: usize = 0;
        while i < ids.len()
            invariant
                i <= ids@.len(),
                actions_view(acts@) == replies(ids@.take(i as int), address@),
            decreases ids@.len() - i,
        {
            let ghost before = acts@;
            acts.push(NodeAction::Reply { request: ids[i], address: address.clone() });
            assert(actions_view(acts@) =~= actions_view(before).push(acts@[i as int]@));
            assert(replies(ids@.take(i + 1), address@) =~= replies(ids@.take(i as int), address@).push(
                ActionView::Reply(ids@[i as int], address@),
            ));
            i = i + 1;
        }
        assert(ids@.take(ids@.len() as int) =~= ids@);
        acts
    }

    /// Handles one lifecycle event: moves to the next state and returns the
    /// actions to perform, in order. No event fails.
    pub fn handle(&mut self, event: NodeEvent) -> (r: Vec<NodeAction>)
        requires
            old(self).wf(),
        ensures
            final(self).wf(),
            final(self)@ == step(old(self)@, event).0,
            actions_view(r@) == step(old(self)@, event).1,
    {
        let ghost e = event;
        let r = match event {
            NodeEvent::NewListenAddress(addr) => {
                if self.registry.offer(&addr) {
                    let ids = self.bridge.drain();
                    Self::answer_all(&ids, &addr.dialable)
                } else {
                    Vec::new()
                }
            },
            NodeEvent::Dialing(peer) => {
                self.mesh.dial(peer);
                Vec::new()
            },
            NodeEvent::ConnectionEstablished(peer) => {
                self.mesh.establish(peer);
                Vec::new()
            },
            NodeEvent::PeerSubscribed { peer, topic, now } => {
                if self.mesh.subscribe(peer.clone(), &topic) {
                    let stamp = self.next_stamp(now);
                    let msg = make_msg(stamp, peer.as_str());
                    vec![NodeAction::AddExplicitPeer(peer), NodeAction::Publish(msg)]
                } else {
                    Vec::new()
                }
            },
            NodeEvent::MessageReceived { peer, data } => {
                let text = payload_text(data.as_slice());
                vec![NodeAction::ShowMessage { peer, text }]
            },
            NodeEvent::Ponged { peer, now } => {
                let stamp = self.next_stamp(now);
                let msg = make_msg(stamp, peer.as_str());
                vec![NodeAction::Publish(msg)]
            },
            NodeEvent::ConnectionClosed(peer) => {
                self.mesh.close(&peer);
                vec![NodeAction::RemoveExplicitPeer(peer)]
            },
            _ => Vec::new(),
        };
        proof {
            assert(actions_view(r@) =~= step(old(self)@, e).1);
            assert(self@ =~= step(old(self)@, e).0);
        }
        r
    }
}

} // verus!
