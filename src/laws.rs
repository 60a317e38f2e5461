//! Laws of the node over sequences of events and actions.
use vstd::prelude::*;
use crate::mesh::{admits, explicit_peers, PeerState};
use crate::node::{next_stamp, replies, step, ActionView, NodeEvent, NodeView};
use crate::registry::{
    after_offers, first_public, lemma_first_address_wins, lemma_local_addresses_ignored,
};
use crate::text::has_local_marker;

verus! {

/// The explicit-peer set of the pub/sub engine after it performs one action.
pub open spec fn apply_one(s: Set<Seq<char>>, a: ActionView) -> Set<Seq<char>> {
    match a {
        ActionView::AddExplicitPeer(p) => s.insert(p),
        ActionView::RemoveExplicitPeer(p) => s.remove(p),
        _ => s,
    }
}

/// The explicit-peer set of the pub/sub engine after it performs `acts` in
/// order.
pub open spec fn apply_explicit(s: Set<Seq<char>>, acts: Seq<ActionView>) -> Set<Seq<char>>
    decreases acts.len(),
{
    if acts.len() == 0 {
        s
    } else {
        apply_explicit(apply_one(s, acts[0]), acts.subrange(1, acts.len() as int))
    }
}

/// The node's state after the events `evs`, in order.
pub open spec fn run(n: NodeView, evs: Seq<NodeEvent>) -> NodeView
    decreases evs.len(),
{
    if evs.len() == 0 {
        n
    } else {
        run(step(n, evs[0]).0, evs.subrange(1, evs.len() as int))
    }
}

/// Whether event `k` of `evs`, from state `n`, pins `p` into the mesh.
pub open spec fn admitted_at(n: NodeView, evs: Seq<NodeEvent>, k: int, p: Seq<char>) -> bool {
    step(run(n, evs.take(k)), evs[k]).1.contains(ActionView::AddExplicitPeer(p))
}

/// Whether `e` closes the connection to `p`.
pub open spec fn closes(e: NodeEvent, p: Seq<char>) -> bool {
    match e {
        NodeEvent::ConnectionClosed(q) => q@ == p,
        _ => false,
    }
}

/// Whether `e` is a subscription of `p` that admits it to the mesh from `n`.
pub open spec fn admitted_by(n: NodeView, e: NodeEvent, p: Seq<char>) -> bool {
    match e {
        NodeEvent::PeerSubscribed { peer, topic, now } => peer@ == p && admits(n.peers, p, topic@),
        _ => false,
    }
}

/// The address an event offers, for a `NewListenAddress` event.
pub open spec fn listened(e: NodeEvent) -> (Seq<char>, Seq<char>) {
    match e {
        NodeEvent::NewListenAddress(a) => a@,
        _ => (Seq::empty(), Seq::empty()),
    }
}

pub open spec fn listened_all(evs: Seq<NodeEvent>) -> Seq<(Seq<char>, Seq<char>)> {
    evs.map_values(|e: NodeEvent| listened(e))
}

proof fn lemma_apply_inert(s: Set<Seq<char>>, acts: Seq<ActionView>)
    requires
        forall|i: int| 0 <= i < acts.len() ==> #[trigger] acts[i] is Reply,
    ensures
        apply_explicit(s, acts) == s,
    decreases acts.len(),
{
    if acts.len() > 0 {
        let rest = acts.subrange(1, acts.len() as int);
        assert(acts[0] is Reply);
        assert forall|i: int| 0 <= i < rest.len() implies #[trigger] rest[i] is Reply by {
            assert(rest[i] == acts[i + 1]);
        }
        lemma_apply_inert(s, rest);
    }
}

proof fn lemma_apply_single(s: Set<Seq<char>>, a: ActionView)
    ensures
        apply_explicit(s, seq![a]) == apply_one(s, a),
{
    assert(seq![a].subrange(1, 1) =~= Seq::<ActionView>::empty());
    assert(apply_explicit(apply_one(s, a), Seq::<ActionView>::empty()) == apply_one(s, a));
}

/// The pub/sub engine's explicit-peer set and the node's peers move in
/// lockstep: if the engine pins exactly the peers subscribed to the mesh, it
/// still does after it performs the actions of any event.
pub proof fn lemma_explicit_in_lockstep(n: NodeView, e: NodeEvent)
    ensures
        apply_explicit(explicit_peers(n.peers), step(n, e).1) == explicit_peers(step(n, e).0.peers),
{
    let s = explicit_peers(n.peers);
    let m = n.peers;
    match e {
        NodeEvent::NewListenAddress(a) => {
            let acts = step(n, e).1;
            assert forall|i: int| 0 <= i < acts.len() implies #[trigger] acts[i] is Reply by {
                if n.address is None && !has_local_marker(a.text@) {
                    assert(acts == replies(n.pending, a.dialable@));
                }
            }
            lemma_apply_inert(s, acts);
        },
        NodeEvent::Dialing(p) => {
            assert(explicit_peers(step(n, e).0.peers) =~= s);
        },
        NodeEvent::ConnectionEstablished(p) => {
            assert(explicit_peers(step(n, e).0.peers) =~= s);
        },
        NodeEvent::PeerSubscribed { peer, topic, now } => {
            if admits(m, peer@, topic@) {
                let acts = step(n, e).1;
                let a0 = ActionView::AddExplicitPeer(peer@);
                let rest = acts.subrange(1, 2);
                assert(rest =~= seq![acts[1]]);
                lemma_apply_single(s.insert(peer@), acts[1]);
                assert(explicit_peers(step(n, e).0.peers) =~= s.insert(peer@));
            }
        },
        NodeEvent::MessageReceived { peer, data } => {
            lemma_apply_single(s, step(n, e).1[0]);
            assert(step(n, e).1 =~= seq![step(n, e).1[0]]);
        },
        NodeEvent::Ponged { peer, now } => {
            lemma_apply_single(s, step(n, e).1[0]);
            assert(step(n, e).1 =~= seq![step(n, e).1[0]]);
        },
        NodeEvent::ConnectionClosed(p) => {
            lemma_apply_single(s, ActionView::RemoveExplicitPeer(p@));
            assert(explicit_peers(step(n, e).0.peers) =~= s.remove(p@));
        },
        _ => {},
    }
}

/// After a connection to `p` closes, the node no longer sees `p`, and the
/// pub/sub engine, kept in lockstep, no longer pins it.
pub proof fn lemma_eviction_complete(n: NodeView, e: NodeEvent, p: Seq<char>)
    requires
        closes(e, p),
    ensures
        !step(n, e).0.peers.contains_key(p),
        !apply_explicit(explicit_peers(n.peers), step(n, e).1).contains(p),
{
    lemma_explicit_in_lockstep(n, e);
}

proof fn lemma_run_push(n: NodeView, evs: Seq<NodeEvent>, e: NodeEvent)
    ensures
        run(n, evs.push(e)) == step(run(n, evs), e).0,
    decreases evs.len(),
{
    let all = evs.push(e);
    if evs.len() == 0 {
        assert(all.subrange(1, 1) =~= Seq::<NodeEvent>::empty());
        assert(all[0] == e);
        assert(run(step(n, e).0, Seq::<NodeEvent>::empty()) == step(n, e).0);
    } else {
        let rest = evs.subrange(1, evs.len() as int);
        assert(all.subrange(1, all.len() as int) =~= rest.push(e));
        assert(all[0] == evs[0]);
        lemma_run_push(step(n, evs[0]).0, rest, e);
    }
}

proof fn lemma_run_take(n: NodeView, evs: Seq<NodeEvent>, k: int)
    requires
        0 <= k < evs.len(),
    ensures
        run(n, evs.take(k + 1)) == step(run(n, evs.take(k)), evs[k]).0,
{
    assert(evs.take(k + 1) =~= evs.take(k).push(evs[k]));
    lemma_run_push(n, evs.take(k), evs[k]);
}

proof fn lemma_admission_shape(n: NodeView, e: NodeEvent, p: Seq<char>)
    requires
        step(n, e).1.contains(ActionView::AddExplicitPeer(p)),
    ensures
        admitted_by(n, e, p),
{
    let acts = step(n, e).1;
    let i = choose|i: int| 0 <= i < acts.len() && acts[i] == ActionView::AddExplicitPeer(p);
    match e {
        NodeEvent::NewListenAddress(a) => {
            assert(acts == replies(n.pending, a.dialable@));
            assert(acts[i] is Reply);
        },
        _ => {},
    }
}

proof fn lemma_subscribed_stays(n: NodeView, e: NodeEvent, p: Seq<char>)
    requires
        n.peers.contains_key(p),
        n.peers[p] == PeerState::SubscribedToMesh,
        !closes(e, p),
    ensures
        step(n, e).0.peers.contains_key(p),
        step(n, e).0.peers[p] == PeerState::SubscribedToMesh,
{
}

proof fn lemma_held(n: NodeView, evs: Seq<NodeEvent>, p: Seq<char>, i: int, k: int)
    requires
        0 <= i < k <= evs.len(),
        admitted_at(n, evs, i, p),
        forall|m: int| i < m < k ==> !closes(#[trigger] evs[m], p),
    ensures
        run(n, evs.take(k)).peers.contains_key(p),
        run(n, evs.take(k)).peers[p] == PeerState::SubscribedToMesh,
    decreases k - i,
{
    if k == i + 1 {
        lemma_run_take(n, evs, i);
        lemma_admission_shape(run(n, evs.take(i)), evs[i], p);
    } else {
        lemma_held(n, evs, p, i, k - 1);
        lemma_run_take(n, evs, k - 1);
        assert(!closes(evs[k - 1], p));
        lemma_subscribed_stays(run(n, evs.take(k - 1)), evs[k - 1], p);
    }
}

/// Whether `p` is subscribed to the mesh in `n`.
pub open spec fn in_mesh(n: NodeView, p: Seq<char>) -> bool {
    n.peers.contains_key(p) && n.peers[p] == PeerState::SubscribedToMesh
}

/// An event pins `p` into the mesh exactly when it moves `p` into
/// `SubscribedToMesh`.
pub proof fn lemma_admission_is_transition(n: NodeView, e: NodeEvent, p: Seq<char>)
    ensures
        step(n, e).1.contains(ActionView::AddExplicitPeer(p)) <==> (!in_mesh(n, p) && in_mesh(
            step(n, e).0,
            p,
        )),
{
    if step(n, e).1.contains(ActionView::AddExplicitPeer(p)) {
        lemma_admission_shape(n, e, p);
    }
    if !in_mesh(n, p) && in_mesh(step(n, e).0, p) {
        match e {
            NodeEvent::PeerSubscribed { peer, topic, now } => {
                assert(admits(n.peers, peer@, topic@));
                assert(peer@ == p);
                assert(step(n, e).1[0] == ActionView::AddExplicitPeer(p));
            },
            _ => {},
        }
    }
}

/// No double admission: between two events that pin the same peer into the
/// mesh, its connection closed. A peer is pinned at most once per connection
/// lifetime.
pub proof fn lemma_no_double_admission(n: NodeView, evs: Seq<NodeEvent>, p: Seq<char>, i: int, j: int)
    requires
        0 <= i < j < evs.len(),
        admitted_at(n, evs, i, p),
        admitted_at(n, evs, j, p),
    ensures
        exists|k: int| i < k < j && closes(#[trigger] evs[k], p),
{
    if !exists|k: int| i < k < j && closes(#[trigger] evs[k], p) {
        lemma_held(n, evs, p, i, j);
        lemma_admission_shape(run(n, evs.take(j)), evs[j], p);
    }
}

proof fn lemma_run_address(n: NodeView, evs: Seq<NodeEvent>)
    requires
        forall|i: int| 0 <= i < evs.len() ==> #[trigger] evs[i] is NewListenAddress,
    ensures
        run(n, evs).address == after_offers(n.address, listened_all(evs)),
    decreases evs.len(),
{
    if evs.len() > 0 {
        let rest = evs.subrange(1, evs.len() as int);
        assert(evs[0] is NewListenAddress);
        assert forall|i: int| 0 <= i < rest.len() implies #[trigger] rest[i] is NewListenAddress by {
            assert(rest[i] == evs[i + 1]);
        }
        assert(listened_all(evs).subrange(1, evs.len() as int) =~= listened_all(rest));
        lemma_run_address(step(n, evs[0]).0, rest);
    }
}

/// First address wins: from a node that knows no address, any sequence of
/// `NewListenAddress` events leaves it holding the dialable form of the first
/// address offered that is not local-only.
pub proof fn lemma_node_first_address_wins(n: NodeView, evs: Seq<NodeEvent>)
    requires
        n.address is None,
        forall|i: int| 0 <= i < evs.len() ==> #[trigger] evs[i] is NewListenAddress,
    ensures
        run(n, evs).address == first_public(listened_all(evs)),
{
    lemma_run_address(n, evs);
    lemma_first_address_wins(listened_all(evs));
}

/// `NewListenAddress` events whose text holds the local-only marker never
/// change the node's address.
pub proof fn lemma_node_local_addresses_ignored(n: NodeView, evs: Seq<NodeEvent>)
    requires
        forall|i: int| 0 <= i < evs.len() ==> #[trigger] evs[i] is NewListenAddress,
        forall|i: int| 0 <= i < evs.len() ==> has_local_marker(#[trigger] listened(evs[i]).0),
    ensures
        run(n, evs).address == n.address,
{
    lemma_run_address(n, evs);
    let l = listened_all(evs);
    assert forall|i: int| 0 <= i < l.len() implies has_local_marker(#[trigger] l[i].0) by {
        assert(l[i] == listened(evs[i]));
    }
    lemma_local_addresses_ignored(n.address, l);
}

/// A failed publish is isolated: it leaves the node as it was, so whatever
/// event comes next, for this peer or another, is handled exactly as if the
/// failure had not happened.
pub proof fn lemma_publish_failure_isolated(n: NodeView, e: NodeEvent)
    ensures
        step(n, NodeEvent::PublishFailed).0 == n,
        step(n, NodeEvent::PublishFailed).1 == Seq::<ActionView>::empty(),
        step(step(n, NodeEvent::PublishFailed).0, e) == step(n, e),
{
}

/// Each relay message's stamp is greater than the last one, until the largest
/// stamp is reached.
pub proof fn lemma_stamps_increase(last: u128, now: u128)
    requires
        last < u128::MAX,
    ensures
        next_stamp(last, now) > last,
{
}

} // verus!
