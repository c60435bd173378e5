//! The optional relay node: another peer that usually stays online, keeps
//! track of the peers connected to it and caches campaign event logs.  It
//! has no authority over campaign data.

use vstd::prelude::*;
use crate::clock::now;
use crate::keyed::StringMap;
use crate::protocol::SignedEvent;

verus! {

/// Errors of the relay node.
#[derive(Debug)]
pub enum NodeError {
    NotInitialized,
    CampaignNotFound(String),
    RelayError(String),
    CacheError(String),
    IoError(std::io::Error),
}

/// A relay node that forwards traffic between peers.
pub struct RelayNode {
    /// The node's own peer id.
    peer_id: String,
    /// Connected peers, with the time (seconds since the epoch) at which
    /// each last connected.
    connected_peers: StringMap<u64>,
    /// Cached event logs by campaign id.
    campaign_cache: StringMap<Vec<SignedEvent>>,
    /// Whether the node is running.
    active: bool,
}

impl RelayNode {
    /// The node's own peer id.
    pub closed spec fn own_id(&self) -> Seq<char> {
        self.peer_id@
    }

    /// Connected peers and when each connected.
    pub closed spec fn peers(&self) -> Map<Seq<char>, u64> {
        self.connected_peers@
    }

    /// Cached event logs by campaign id.
    pub closed spec fn cache(&self) -> Map<Seq<char>, Vec<SignedEvent>> {
        self.campaign_cache@
    }

    /// Whether the node is running.
    pub closed spec fn running(&self) -> bool {
        self.active
    }

    /// The node's maps are well formed.
    pub closed spec fn wf(&self) -> bool {
        self.connected_peers.wf() && self.campaign_cache.wf()
    }

    /// A stopped node with no peers and an empty cache.
    pub fn new(peer_id: String) -> (node: RelayNode)
        ensures
            node.wf(),
            node.own_id() == peer_id@,
            node.peers() == Map::<Seq<char>, u64>::empty(),
            node.cache() == Map::<Seq<char>, Vec<SignedEvent>>::empty(),
            !node.running(),
    {
        RelayNode {
            peer_id,
            connected_peers: StringMap::new(),
            campaign_cache: StringMap::new(),
            active: false,
        }
    }

    /// Starts the node; starting a running node changes nothing.
    pub fn start(&mut self) -> (r: Result<(), NodeError>)
        requires
            old(self).wf(),
        ensures
            r is Ok,
            final(self).wf(),
            final(self).running(),
            final(self).own_id() == old(self).own_id(),
            final(self).peers() == old(self).peers(),
            final(self).cache() == old(self).cache(),
    {
        if self.active {
            return Ok(());
        }
        self.active = true;
        Ok(())
    }

    /// Stops the node; stopping a stopped node changes nothing.
    pub fn stop(&mut self) -> (r: Result<(), NodeError>)
        requires
            old(self).wf(),
        ensures
            r is Ok,
            final(self).wf(),
            !final(self).running(),
            final(self).own_id() == old(self).own_id(),
            final(self).peers() == old(self).peers(),
            final(self).cache() == old(self).cache(),
    {
        if !self.active {
            return Ok(());
        }
        self.active = false;
        Ok(())
    }

    /// Whether the node is running.
    pub fn is_active(&self) -> (r: bool)
        ensures
            r == self.running(),
    {
        self.active
    }

    /// Records that a peer connected at the given time (seconds since the
    /// epoch), replacing any earlier record of it.
    pub fn peer_connected_at(&mut self, peer_id: String, seen_at: u64) -> (r: Result<(), NodeError>)
        requires
            old(self).wf(),
        ensures
            r is Ok,
            final(self).wf(),
            final(self).peers() == old(self).peers().insert(peer_id@, seen_at),
            final(self).running() == old(self).running(),
            final(self).own_id() == old(self).own_id(),
            final(self).cache() == old(self).cache(),
    {
        self.connected_peers.insert(peer_id, seen_at);
        Ok(())
    }

    /// Records that a peer connected now.
    pub fn peer_connected(&mut self, peer_id: String) -> (r: Result<(), NodeError>)
        requires
            old(self).wf(),
        ensures
            r is Ok,
            final(self).wf(),
            exists|t: u64| final(self).peers() == old(self).peers().insert(peer_id@, t),
            final(self).running() == old(self).running(),
            final(self).own_id() == old(self).own_id(),
            final(self).cache() == old(self).cache(),
    {
        let t = now();
        self.peer_connected_at(peer_id, t.secs_since_epoch)
    }

    /// Forgets a peer that disconnected.
    pub fn peer_disconnected(&mut self, peer_id: &str) -> (r: Result<(), NodeError>)
        requires
            old(self).wf(),
        ensures
            r is Ok,
            final(self).wf(),
            final(self).peers() == old(self).peers().remove(peer_id@),
            final(self).running() == old(self).running(),
            final(self).own_id() == old(self).own_id(),
            final(self).cache() == old(self).cache(),
    {
        let _ = self.connected_peers.remove(peer_id);
        Ok(())
    }

    /// The connected peers, each once.
    pub fn connected_peers(&self) -> (peers: Vec<String>)
        requires
            self.wf(),
        ensures
            forall|i: int, j: int|
                0 <= i < peers@.len() && 0 <= j < peers@.len() && i != j ==> #[trigger] peers@[i]@
                    != #[trigger] peers@[j]@,
            forall|k: Seq<char>|
                self.peers().contains_key(k) <==> exists|i: int|
                    0 <= i < peers@.len() && #[trigger] peers@[i]@ == k,
    {
        self.connected_peers.keys()
    }

    /// Caches a campaign's events, replacing what was cached for it; a
    /// stopped node refuses with `NotInitialized` and changes nothing.
    pub fn cache_events(&mut self, campaign_id: String, events: Vec<SignedEvent>) -> (r: Result<(), NodeError>)
        requires
            old(self).wf(),
        ensures
            final(self).wf(),
            final(self).running() == old(self).running(),
            final(self).own_id() == old(self).own_id(),
            final(self).peers() == old(self).peers(),
            old(self).running() ==> r is Ok && final(self).cache() == old(self).cache().insert(
                campaign_id@,
                events,
            ),
            !old(self).running() ==> (r matches Err(NodeError::NotInitialized)) && final(self).cache()
                == old(self).cache(),
    {
        if !self.active {
            return Err(NodeError::NotInitialized);
        }
        self.campaign_cache.insert(campaign_id, events);
        Ok(())
    }

    /// The events cached for a campaign.
    pub fn get_cached_events(&self, campaign_id: &str) -> (r: Option<&Vec<SignedEvent>>)
        requires
            self.wf(),
        ensures
            r is Some <==> self.cache().contains_key(campaign_id@),
            r matches Some(events) ==> *events == self.cache()[campaign_id@],
    {
        self.campaign_cache.get(campaign_id)
    }

    /// Relays an event to other peers.  Forwarding is not implemented: a
    /// running node accepts the request, a stopped one refuses it.
    pub fn relay_event(&self, event: SignedEvent, target_peers: &[String]) -> (r: Result<(), NodeError>)
        ensures
            self.running() ==> r is Ok,
            !self.running() ==> r matches Err(NodeError::NotInitialized),
    {
        if !self.active {
            return Err(NodeError::NotInitialized);
        }
        Ok(())
    }

    /// Events to send to a peer that just connected.  Synchronisation is
    /// not implemented: a running node has none to send, a stopped one
    /// refuses.
    pub fn sync_to_peer(&self, peer_id: &str, campaign_id: &str) -> (r: Result<Vec<SignedEvent>, NodeError>)
        ensures
            self.running() ==> (r matches Ok(events) && events@.len() == 0),
            !self.running() ==> r matches Err(NodeError::NotInitialized),
    {
        if !self.active {
            return Err(NodeError::NotInitialized);
        }
        Ok(Vec::new())
    }
}

} // verus!

verus! {

/// Caching a campaign's events on a running node and then asking for them
/// gives back those events.
pub proof fn lemma_cache_read_after_write(
    before: RelayNode,
    after: RelayNode,
    campaign_id: Seq<char>,
    events: Vec<SignedEvent>,
)
    requires
        before.running(),
        after.cache() == before.cache().insert(campaign_id, events),
    ensures
        after.cache().contains_key(campaign_id),
        after.cache()[campaign_id] == events,
{
}

/// A peer that connected and then disconnected is no longer listed, and
/// the other peers' records are untouched.
pub proof fn lemma_disconnect_after_connect(
    start: RelayNode,
    connected: RelayNode,
    disconnected: RelayNode,
    peer: Seq<char>,
    seen_at: u64,
)
    requires
        connected.peers() == start.peers().insert(peer, seen_at),
        disconnected.peers() == connected.peers().remove(peer),
    ensures
        !disconnected.peers().contains_key(peer),
        disconnected.peers() == start.peers().remove(peer),
{
    assert(disconnected.peers() =~= start.peers().remove(peer));
}

} // verus!

verus! {

impl From<std::io::Error> for NodeError {
    fn from(e: std::io::Error) -> (r: NodeError) {
        NodeError::IoError(e)
    }
}

impl vstd::std_specs::convert::FromSpecImpl<std::io::Error> for NodeError {
    open spec fn obeys_from_spec() -> bool {
        true
    }

    open spec fn from_spec(e: std::io::Error) -> NodeError {
        NodeError::IoError(e)
    }
}

} // verus!
