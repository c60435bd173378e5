//! The decisions of the peer-to-peer networking layer: which peers are
//! connected, which requests are waiting for an answer, how an incoming
//! request is answered and how an answer settles a waiting request.  The
//! transport itself (dialling, sending, receiving) runs outside and hands
//! its events to these functions.

use vstd::prelude::*;
use crate::keyed::StringMap;
use crate::protocol::{CampaignId, SignedEvent};
use crate::text::{decimal, lemma_decimal_injective, push_decimal, push_str};
use crate::uuidtext::{uuid_from_text, uuid_parse};
use crate::jsontext::json_string_field;
use crate::select::{lemma_filter_picks, picks, picks_at};

verus! {

/// Declares `serde_json::Error`, which network errors carry.
#[verifier::external_type_specification]
#[verifier::external_body]
pub struct ExJsonError(serde_json::Error);

/// A campaign database that answers synchronisation requests, by its path.
pub struct CampaignDbHandle {
    pub path: String,
}

impl CampaignDbHandle {
    /// A handle on the database at the path.
    pub fn new(path: &str) -> (h: Self)
        ensures
            h.path@ == path@,
    {
        CampaignDbHandle { path: path.to_owned() }
    }
}

/// A request for a campaign's events from a sequence number on.
#[derive(Debug, Clone)]
pub struct EventSyncRequest {
    pub campaign_id: CampaignId,
    pub from_sequence: u64,
    pub to_sequence: Option<u64>,
}

/// The events that answer a synchronisation request.
#[derive(Debug, Clone)]
pub struct EventSyncResponse {
    pub events: Vec<SignedEvent>,
}

/// A remote procedure call; `params` is JSON text.
#[derive(Debug, Clone)]
pub struct RpcRequest {
    pub method: String,
    pub params: String,
    pub request_id: u64,
}

/// The answer to a remote procedure call; `result` is JSON text.
#[derive(Debug, Clone)]
pub struct RpcResponse {
    pub request_id: u64,
    pub result: Option<String>,
    pub error: Option<String>,
}

/// A request between peers.
#[derive(Debug, Clone)]
pub enum NetworkRequest {
    Sync(EventSyncRequest),
    Broadcast(SignedEvent),
    Rpc(RpcRequest),
}

/// An answer between peers.
#[derive(Debug, Clone)]
pub enum NetworkResponse {
    Sync(EventSyncResponse),
    Ack,
    Rpc(RpcResponse),
}

/// Errors of the networking layer.
#[derive(Debug)]
pub enum NetworkError {
    ConnectionFailed(String),
    /// An I/O failure, by its text.
    IoError(String),
    /// A JSON failure, by its text.
    SerializationError(String),
    ChannelClosed,
    Libp2pError(String),
}

/// The text of the error for a peer that is not connected.
pub open spec fn not_connected_text() -> Seq<char> {
    seq!['N', 'o', 't', ' ', 'c', 'o', 'n', 'n', 'e', 'c', 't', 'e', 'd', ' ', 't', 'o', ' ', 'p', 'e', 'e', 'r']
}

/// The error for a peer that is not connected.
fn not_connected() -> (e: NetworkError)
    ensures
        e matches NetworkError::ConnectionFailed(t) && t@ == not_connected_text(),
{
    let t = "Not connected to peer".to_string();
    proof {
        reveal_strlit("Not connected to peer");
    }
    assert(t@ =~= not_connected_text());
    NetworkError::ConnectionFailed(t)
}

/// The default text of a failed remote procedure call.
pub open spec fn rpc_error_text() -> Seq<char> {
    seq!['R', 'P', 'C', ' ', 'e', 'r', 'r', 'o', 'r']
}

/// A synchronisation request that waits for its answer: the campaign it
/// asked about and the handle through which the answer is delivered.
pub struct PendingSync<T> {
    pub campaign_id: CampaignId,
    pub reply: T,
}

/// The key under which a waiting remote procedure call is kept: the
/// decimal text of its request id.
pub open spec fn rpc_key(request_id: u64) -> Seq<char> {
    decimal(request_id as nat)
}

fn rpc_key_of(request_id: u64) -> (k: String)
    ensures
        k@ == rpc_key(request_id),
{
    let mut k = String::new();
    push_decimal(&mut k, request_id);
    assert(k@ =~= rpc_key(request_id));
    k
}

/// The state of a peer's networking: connected peers, and the requests it
/// sent that wait for answers, each with its reply handle (`S` for
/// synchronisation, `R` for remote procedure calls).
pub struct NetworkState<S, R> {
    connected: StringMap<()>,
    pending_sync: StringMap<PendingSync<S>>,
    pending_rpc: StringMap<R>,
    next_request_id: u64,
}

impl<S, R> NetworkState<S, R> {
    /// The connected peers.
    pub closed spec fn peers(&self) -> Set<Seq<char>> {
        self.connected@.dom()
    }

    /// Waiting synchronisation requests, by the text of their outbound id.
    pub closed spec fn syncs(&self) -> Map<Seq<char>, PendingSync<S>> {
        self.pending_sync@
    }

    /// Waiting remote procedure calls, by `rpc_key` of their request id.
    pub closed spec fn rpcs(&self) -> Map<Seq<char>, R> {
        self.pending_rpc@
    }

    /// The request id the next remote procedure call gets.
    pub closed spec fn next_id(&self) -> u64 {
        self.next_request_id
    }

    /// Every waiting remote procedure call has an id below the next one.
    pub open spec fn ids_below_next(&self) -> bool {
        forall|j: u64| #[trigger] self.rpcs().contains_key(rpc_key(j)) ==> j < self.next_id()
    }

    /// The maps are well formed.
    pub closed spec fn wf(&self) -> bool {
        self.connected.wf() && self.pending_sync.wf() && self.pending_rpc.wf()
    }

    /// No peers, nothing waiting.
    pub fn new() -> (st: Self)
        ensures
            st.wf(),
            st.peers() == Set::<Seq<char>>::empty(),
            st.syncs() == Map::<Seq<char>, PendingSync<S>>::empty(),
            st.rpcs() == Map::<Seq<char>, R>::empty(),
            st.next_id() == 0,
            st.ids_below_next(),
    {
        let st = NetworkState {
            connected: StringMap::new(),
            pending_sync: StringMap::new(),
            pending_rpc: StringMap::new(),
            next_request_id: 0,
        };
        assert(st.peers() =~= Set::<Seq<char>>::empty());
        st
    }

    /// A connection with a peer was established.
    pub fn connection_established(&mut self, peer: String)
        requires
            old(self).wf(),
        ensures
            final(self).wf(),
            final(self).next_id() == old(self).next_id(),
            final(self).peers() == old(self).peers().insert(peer@),
            final(self).syncs() == old(self).syncs(),
            final(self).rpcs() == old(self).rpcs(),
    {
        self.connected.insert(peer, ());
        assert(self.peers() =~= old(self).peers().insert(peer@));
    }

    /// The connection with a peer was closed.
    pub fn connection_closed(&mut self, peer: &str)
        requires
            old(self).wf(),
        ensures
            final(self).wf(),
            final(self).next_id() == old(self).next_id(),
            final(self).peers() == old(self).peers().remove(peer@),
            final(self).syncs() == old(self).syncs(),
            final(self).rpcs() == old(self).rpcs(),
    {
        let _ = self.connected.remove(peer);
        assert(self.peers() =~= old(self).peers().remove(peer@));
    }

    /// Whether a peer is connected.
    pub fn is_connected(&self, peer: &str) -> (r: bool)
        requires
            self.wf(),
        ensures
            r == self.peers().contains(peer@),
    {
        self.connected.find(peer).is_some()
    }

    /// The connected peers, each once: those a broadcast goes to, and the
    /// answer to a request for the list of peers.
    pub fn connected_peers(&self) -> (peers: Vec<String>)
        requires
            self.wf(),
        ensures
            forall|i: int, j: int|
                0 <= i < peers@.len() && 0 <= j < peers@.len() && i != j ==> #[trigger] peers@[i]@
                    != #[trigger] peers@[j]@,
            forall|k: Seq<char>|
                self.peers().contains(k) <==> exists|i: int| 0 <= i < peers@.len() && #[trigger] peers@[i]@ == k,
    {
        self.connected.keys()
    }

    /// Whether a request may be sent to a peer: refused with
    /// `ConnectionFailed("Not connected to peer")` where it is not
    /// connected.
    pub fn check_connected(&self, peer: &str) -> (r: Result<(), NetworkError>)
        requires
            self.wf(),
        ensures
            self.peers().contains(peer@) ==> r is Ok,
            !self.peers().contains(peer@) ==> (r matches Err(NetworkError::ConnectionFailed(t)) && t@
                == not_connected_text()),
    {
        if self.connected.find(peer).is_some() {
            Ok(())
        } else {
            Err(not_connected())
        }
    }

    /// The request that asks a peer for a campaign's events from a
    /// sequence number on.
    pub fn sync_request(campaign_id: CampaignId, from_sequence: u64) -> (req: NetworkRequest)
        ensures
            req matches NetworkRequest::Sync(s) && s.campaign_id == campaign_id && s.from_sequence
                == from_sequence && s.to_sequence is None,
    {
        NetworkRequest::Sync(EventSyncRequest { campaign_id, from_sequence, to_sequence: None })
    }

    /// Records a synchronisation request that was sent under an outbound
    /// id, with the handle through which its answer is delivered.
    pub fn sync_sent(&mut self, outbound_id: String, campaign_id: CampaignId, reply: S)
        requires
            old(self).wf(),
        ensures
            final(self).wf(),
            final(self).next_id() == old(self).next_id(),
            final(self).peers() == old(self).peers(),
            final(self).rpcs() == old(self).rpcs(),
            final(self).syncs().dom() == old(self).syncs().dom().insert(outbound_id@),
            final(self).syncs()[outbound_id@].campaign_id == campaign_id,
            final(self).syncs()[outbound_id@].reply == reply,
            forall|k: Seq<char>|
                k != outbound_id@ && #[trigger] old(self).syncs().contains_key(k) ==> final(self).syncs()[k]
                    == old(self).syncs()[k],
    {
        self.pending_sync.insert(outbound_id, PendingSync { campaign_id, reply });
    }

    /// Settles the synchronisation request sent under an outbound id (on
    /// its answer or on its failure): it is no longer waiting, and it is
    /// given back where it was waiting.
    pub fn sync_settled(&mut self, outbound_id: &str) -> (r: Option<PendingSync<S>>)
        requires
            old(self).wf(),
        ensures
            final(self).wf(),
            final(self).next_id() == old(self).next_id(),
            final(self).peers() == old(self).peers(),
            final(self).rpcs() == old(self).rpcs(),
            final(self).syncs() == old(self).syncs().remove(outbound_id@),
            r is Some <==> old(self).syncs().contains_key(outbound_id@),
            r matches Some(p) ==> p == old(self).syncs()[outbound_id@],
    {
        self.pending_sync.remove(outbound_id)
    }

    /// Records a remote procedure call under a fresh request id, with the
    /// handle through which its answer is delivered, and gives back the id
    /// to send the call with.  Ids are given out in order from 0, one more
    /// each time (wrapping after `u64::MAX`); until then a new id is never
    /// that of a call still waiting.
    pub fn rpc_sent(&mut self, reply: R) -> (request_id: u64)
        requires
            old(self).wf(),
        ensures
            final(self).wf(),
            request_id == old(self).next_id(),
            final(self).next_id() == (if request_id == u64::MAX { 0 } else { request_id + 1 }),
            final(self).peers() == old(self).peers(),
            final(self).syncs() == old(self).syncs(),
            final(self).rpcs() == old(self).rpcs().insert(rpc_key(request_id), reply),
            old(self).ids_below_next() ==> !old(self).rpcs().contains_key(rpc_key(request_id)),
            old(self).ids_below_next() && request_id < u64::MAX ==> final(self).ids_below_next(),
    {
        let request_id = self.next_request_id;
        let key = rpc_key_of(request_id);
        self.pending_rpc.insert(key, reply);
        self.next_request_id = if request_id == u64::MAX { 0 } else { request_id + 1 };
        proof {
            if old(self).ids_below_next() && request_id < u64::MAX {
                assert forall|j: u64| #[trigger] self.rpcs().contains_key(rpc_key(j)) implies j < self.next_id() by {
                    if rpc_key(j) == rpc_key(request_id) {
                        lemma_decimal_injective(j as nat, request_id as nat);
                    } else {
                        assert(old(self).rpcs().contains_key(rpc_key(j)));
                    }
                }
            }
        }
        request_id
    }

    /// Settles the remote procedure call with a request id when its answer
    /// arrives: it is no longer waiting, and its reply handle is given back
    /// where it was waiting.
    pub fn rpc_settled(&mut self, request_id: u64) -> (r: Option<R>)
        requires
            old(self).wf(),
        ensures
            final(self).wf(),
            final(self).next_id() == old(self).next_id(),
            old(self).ids_below_next() ==> final(self).ids_below_next(),
            final(self).peers() == old(self).peers(),
            final(self).syncs() == old(self).syncs(),
            final(self).rpcs() == old(self).rpcs().remove(rpc_key(request_id)),
            r is Some <==> old(self).rpcs().contains_key(rpc_key(request_id)),
            r matches Some(h) ==> h == old(self).rpcs()[rpc_key(request_id)],
    {
        let key = rpc_key_of(request_id);
        let r = self.pending_rpc.remove(key.as_str());
        proof {
            if old(self).ids_below_next() {
                assert forall|j: u64| #[trigger] self.rpcs().contains_key(rpc_key(j)) implies j < self.next_id() by {
                    assert(old(self).rpcs().contains_key(rpc_key(j)));
                }
            }
        }
        r
    }
}

/// What the answer to a remote procedure call delivers: its result, or a
/// `ConnectionFailed` error with its error text (`RPC error` where it has
/// none).
pub open spec fn rpc_outcome_is(response: RpcResponse, r: Result<String, NetworkError>) -> bool {
    &&& response.result matches Some(v) ==> r == Ok::<String, NetworkError>(v)
    &&& response.result is None ==> (r matches Err(NetworkError::ConnectionFailed(t)) && t@ == (
    match response.error {
        Some(e) => e@,
        None => rpc_error_text(),
    }))
}

/// What the answer to a remote procedure call delivers (see
/// `rpc_outcome_is`).
pub fn rpc_outcome(response: RpcResponse) -> (r: Result<String, NetworkError>)
    ensures
        rpc_outcome_is(response, r),
{
    match response.result {
        Some(v) => Ok(v),
        None => {
            let text = match response.error {
                Some(e) => e,
                None => {
                    let t = "RPC error".to_string();
                    proof {
                        reveal_strlit("RPC error");
                    }
                    assert(t@ =~= rpc_error_text());
                    t
                },
            };
            Err(NetworkError::ConnectionFailed(text))
        },
    }
}

/// The events at or after a sequence number, in order.
pub open spec fn events_from(events: Seq<SignedEvent>, from_sequence: u64) -> Seq<SignedEvent>
    decreases events.len(),
{
    if events.len() == 0 {
        events
    } else if events.last().sequence_number >= from_sequence {
        events_from(events.drop_last(), from_sequence).push(events.last())
    } else {
        events_from(events.drop_last(), from_sequence)
    }
}

/// Whether an event's sequence number is at or after a given one.
pub open spec fn at_or_after(from_sequence: u64) -> spec_fn(SignedEvent) -> bool {
    |e: SignedEvent| e.sequence_number >= from_sequence
}

/// The answer to a synchronisation request holds exactly the events whose
/// sequence number is at or after the requested one, in their order: each
/// event it holds has such a sequence number and is the input's event at a
/// position, the positions increase, and every input event with such a
/// sequence number is among them.
pub proof fn lemma_events_from_picks(events: Seq<SignedEvent>, from_sequence: u64)
    ensures
        picks(events_from(events, from_sequence), events, at_or_after(from_sequence)),
        forall|i: int|
            0 <= i < events_from(events, from_sequence).len() ==> #[trigger] events_from(events, from_sequence)[i].sequence_number
                >= from_sequence,
{
    lemma_events_from_is_filter(events, from_sequence);
    lemma_filter_picks(events, at_or_after(from_sequence));
    let out = events_from(events, from_sequence);
    let idx = choose|idx: Seq<int>| #[trigger] picks_at(out, events, at_or_after(from_sequence), idx);
    assert forall|i: int| 0 <= i < out.len() implies #[trigger] out[i].sequence_number >= from_sequence by {
        assert(0 <= idx[i] < events.len());
    }
}

proof fn lemma_events_from_is_filter(events: Seq<SignedEvent>, from_sequence: u64)
    ensures
        events_from(events, from_sequence) == events.filter(at_or_after(from_sequence)),
    decreases events.len(),
{
    reveal(Seq::filter);
    if events.len() > 0 {
        lemma_events_from_is_filter(events.drop_last(), from_sequence);
    }
}

/// The events that answer a synchronisation request: those at or after
/// its sequence number, in order.
pub fn filter_from_sequence(events: Vec<SignedEvent>, from_sequence: u64) -> (kept: Vec<SignedEvent>)
    ensures
        kept@ == events_from(events@, from_sequence),
        picks(kept@, events@, at_or_after(from_sequence)),
{
    proof {
        lemma_events_from_picks(events@, from_sequence);
    }
    broadcast use vstd::std_specs::vec::axiom_spec_into_iter;
    let ghost all = events@;
    let mut kept: Vec<SignedEvent> = Vec::new();
    for e in it: events.into_iter()
        invariant
            it.seq() == all,
            kept@ == events_from(all.take(it.index()), from_sequence),
    {
        let ghost i = it.index();
        assert(all.take(i + 1).drop_last() =~= all.take(i));
        assert(all.take(i + 1).last() == e);
        if e.sequence_number >= from_sequence {
            kept.push(e);
        }
    }
    assert(all.take(all.len() as int) =~= all);
    kept
}

} // verus!

verus! {

/// How an incoming remote procedure call is answered.
#[derive(Debug, Clone)]
pub enum RpcRoute {
    /// Answer with the campaign's members.
    GetMembers(CampaignId),
    /// Answer with the campaign's highest sequence number.
    GetMaxSequence(CampaignId),
    /// Answer with the campaign's name, DM and rule set.
    GetCampaignInfo(CampaignId),
    /// Answer with this error text.
    Refuse(String),
}

/// The methods that are answered: 1 for `get_members`, 2 for
/// `get_max_sequence`, 3 for `get_campaign_info`, 0 for any other.
pub open spec fn method_kind(method: Seq<char>) -> int {
    if method == seq!['g', 'e', 't', '_', 'm', 'e', 'm', 'b', 'e', 'r', 's'] {
        1
    } else if method == seq!['g', 'e', 't', '_', 'm', 'a', 'x', '_', 's', 'e', 'q', 'u', 'e', 'n', 'c', 'e'] {
        2
    } else if method == seq!['g', 'e', 't', '_', 'c', 'a', 'm', 'p', 'a', 'i', 'g', 'n', '_', 'i', 'n', 'f', 'o'] {
        3
    } else {
        0
    }
}

/// The parameter that names the campaign.
pub open spec fn campaign_key() -> Seq<char> {
    seq!['c', 'a', 'm', 'p', 'a', 'i', 'g', 'n', '_', 'i', 'd']
}

/// Error text: the call has no `campaign_id` string.
pub open spec fn missing_param_text() -> Seq<char> {
    seq!['M', 'i', 's', 's', 'i', 'n', 'g', ' ', 'c', 'a', 'm', 'p', 'a', 'i', 'g', 'n', '_', 'i', 'd', ' ', 'p', 'a', 'r', 'a', 'm', 'e', 't', 'e', 'r']
}

/// Error text: the campaign id is not a UUID.
pub open spec fn invalid_campaign_text() -> Seq<char> {
    seq!['I', 'n', 'v', 'a', 'l', 'i', 'd', ' ', 'c', 'a', 'm', 'p', 'a', 'i', 'g', 'n', ' ', 'I', 'D']
}

/// Error text: this peer serves no campaign database.
pub open spec fn no_database_text() -> Seq<char> {
    seq!['N', 'o', ' ', 'd', 'a', 't', 'a', 'b', 'a', 's', 'e', ' ', 'c', 'o', 'n', 'f', 'i', 'g', 'u', 'r', 'e', 'd']
}

/// Error text: the method is not known.
pub open spec fn unknown_method_text(method: Seq<char>) -> Seq<char> {
    seq!['U', 'n', 'k', 'n', 'o', 'w', 'n', ' ', 'm', 'e', 't', 'h', 'o', 'd', ':', ' '] + method
}

/// The route of a call: refused as unknown for any other method; for a
/// known method, refused where its parameters (JSON text) have no
/// `campaign_id` string, where that string is not a UUID, or where there is
/// no campaign database, in that order; else the method's answer for that
/// campaign.
pub open spec fn rpc_route_is(method: Seq<char>, params: Seq<char>, has_db: bool, route: RpcRoute) -> bool {
    &&& method_kind(method) == 0 ==> (route matches RpcRoute::Refuse(t) && t@ == unknown_method_text(method))
    &&& method_kind(method) != 0 ==> match json_string_field(params, campaign_key()) {
        None => route matches RpcRoute::Refuse(t) && t@ == missing_param_text(),
        Some(text) => match uuid_from_text(text) {
            None => route matches RpcRoute::Refuse(t) && t@ == invalid_campaign_text(),
            Some(id) => if !has_db {
                route matches RpcRoute::Refuse(t) && t@ == no_database_text()
            } else if method_kind(method) == 1 {
                route matches RpcRoute::GetMembers(c) && c == id
            } else if method_kind(method) == 2 {
                route matches RpcRoute::GetMaxSequence(c) && c == id
            } else {
                route matches RpcRoute::GetCampaignInfo(c) && c == id
            },
        },
    }
}

fn literal_string(s: &str) -> (r: String)
    ensures
        r@ == s@,
{
    s.to_owned()
}

/// Decides how an incoming remote procedure call is answered.  A known
/// method needs a `campaign_id` string among its parameters (JSON text),
/// which must be a UUID, and a campaign database to read; the first of
/// these that fails names the error.  Any other method is refused as
/// unknown.
pub fn route_rpc(method: &str, params: &str, has_db: bool) -> (route: RpcRoute)
    ensures
        rpc_route_is(method@, params@, has_db, route),
{
    let m = literal_string(method);
    let get_members = literal_string("get_members");
    let get_max_sequence = literal_string("get_max_sequence");
    let get_campaign_info = literal_string("get_campaign_info");
    proof {
        reveal_strlit("get_members");
        reveal_strlit("get_max_sequence");
        reveal_strlit("get_campaign_info");
    }
    assert(get_members@ =~= seq!['g', 'e', 't', '_', 'm', 'e', 'm', 'b', 'e', 'r', 's']);
    assert(get_max_sequence@ =~= seq!['g', 'e', 't', '_', 'm', 'a', 'x', '_', 's', 'e', 'q', 'u', 'e', 'n', 'c', 'e']);
    assert(get_campaign_info@ =~= seq!['g', 'e', 't', '_', 'c', 'a', 'm', 'p', 'a', 'i', 'g', 'n', '_', 'i', 'n', 'f', 'o']);
    let kind: u8 = if m == get_members {
        1
    } else if m == get_max_sequence {
        2
    } else if m == get_campaign_info {
        3
    } else {
        0
    };
    assert(kind as int == method_kind(method@));
    if kind == 0 {
        let mut t = literal_string("Unknown method: ");
        proof {
            reveal_strlit("Unknown method: ");
        }
        push_str(&mut t, method);
        assert(t@ =~= unknown_method_text(method@));
        return RpcRoute::Refuse(t);
    }
    let key = literal_string("campaign_id");
    proof {
        reveal_strlit("campaign_id");
    }
    assert(key@ =~= campaign_key());
    let text = match crate::jsontext::json_str_field(params, key.as_str()) {
        Some(t) => t,
        None => {
            let t = literal_string("Missing campaign_id parameter");
            proof {
                reveal_strlit("Missing campaign_id parameter");
            }
            assert(t@ =~= missing_param_text());
            return RpcRoute::Refuse(t);
        },
    };
    let id = match uuid_parse(text.as_str()) {
        Some(id) => id,
        None => {
            let t = literal_string("Invalid campaign ID");
            proof {
                reveal_strlit("Invalid campaign ID");
            }
            assert(t@ =~= invalid_campaign_text());
            return RpcRoute::Refuse(t);
        },
    };
    if !has_db {
        let t = literal_string("No database configured");
        proof {
            reveal_strlit("No database configured");
        }
        assert(t@ =~= no_database_text());
        return RpcRoute::Refuse(t);
    }
    if kind == 1 {
        RpcRoute::GetMembers(id)
    } else if kind == 2 {
        RpcRoute::GetMaxSequence(id)
    } else {
        RpcRoute::GetCampaignInfo(id)
    }
}

/// The answer to a remote procedure call: its result (JSON text), or its
/// error text.
pub fn rpc_response(request_id: u64, outcome: Result<String, String>) -> (resp: RpcResponse)
    ensures
        resp.request_id == request_id,
        outcome matches Ok(v) ==> resp.result == Some(v) && resp.error is None,
        outcome matches Err(e) ==> resp.result is None && resp.error == Some(e),
{
    match outcome {
        Ok(v) => RpcResponse { request_id, result: Some(v), error: None },
        Err(e) => RpcResponse { request_id, result: None, error: Some(e) },
    }
}

/// The prefix of the error delivered for a synchronisation request that
/// failed.
pub open spec fn sync_failed_text() -> Seq<char> {
    "Sync failed: "@
}

/// What the transport reports, as the networking layer needs it.
pub enum TransportEvent {
    /// A connection with the peer was established.
    Connected(String),
    /// The connection with the peer was closed.
    Disconnected(String),
    /// A peer asks for a campaign's events.
    SyncRequested(EventSyncRequest),
    /// A peer sends an event.
    EventReceived(SignedEvent),
    /// A peer calls a remote procedure.
    RpcRequested(RpcRequest),
    /// A peer answered the synchronisation request sent under an outbound
    /// id, with these events.
    SyncAnswered(String, Vec<SignedEvent>),
    /// A peer acknowledged an event.
    Acknowledged,
    /// A peer answered a remote procedure call.
    RpcAnswered(RpcResponse),
    /// The request sent under an outbound id failed; the text says how.
    RequestFailed(String, String),
    /// Anything else (discovery, connection errors), which changes nothing.
    Other,
}

/// What the transport does next.
pub enum TransportAction<S, R> {
    /// Nothing.
    Nothing,
    /// Add the peer to the set of connected peers shared with handles.
    SharePeer(String),
    /// Remove the peer from that shared set.
    UnsharePeer(String),
    /// Answer the incoming request with this response.
    Respond(NetworkResponse),
    /// Read the campaign's events from the campaign database, and answer
    /// the request with `sync_answer` of what was read.
    ReadEvents(EventSyncRequest),
    /// Hand the event to the event callback, if one is set, and answer the
    /// request with the response.
    DeliverEvent(SignedEvent, NetworkResponse),
    /// Answer the call with this request id by reading the campaign
    /// database as the route says, with `rpc_response` of the outcome.
    AnswerRpc(u64, RpcRoute),
    /// Deliver the events, or the error, through a waiting synchronisation
    /// request's handle.
    SettleSync(PendingSync<S>, Result<Vec<SignedEvent>, NetworkError>),
    /// Deliver the outcome through a waiting call's handle.
    SettleRpc(R, Result<String, NetworkError>),
}

/// The shared set of connected peers after an action is carried out.
pub open spec fn shared_after<S, R>(shared: Set<Seq<char>>, action: TransportAction<S, R>) -> Set<Seq<char>> {
    match action {
        TransportAction::SharePeer(p) => shared.insert(p@),
        TransportAction::UnsharePeer(p) => shared.remove(p@),
        _ => shared,
    }
}

/// Two states agree on peers and waiting requests.
pub open spec fn same_state<S, R>(a: NetworkState<S, R>, b: NetworkState<S, R>) -> bool {
    a.peers() == b.peers() && a.syncs() == b.syncs() && a.rpcs() == b.rpcs()
}

/// How an event changes the state, and what the transport does about it:
/// a connection or disconnection updates the peers and the shared set; a
/// synchronisation request is answered from the campaign database, or with
/// no events where there is none; an incoming event goes to the event
/// callback and is acknowledged; a remote procedure call is refused at once
/// or answered as its route says; an answer or a failure settles the
/// request it belongs to, if that is still waiting (a failed
/// synchronisation gets `Sync failed: ` and the failure's text); anything
/// else changes nothing.
pub open spec fn event_handled<S, R>(
    before: NetworkState<S, R>,
    event: TransportEvent,
    has_db: bool,
    after: NetworkState<S, R>,
    action: TransportAction<S, R>,
) -> bool {
    match event {
        TransportEvent::Connected(p) => {
            &&& after.peers() == before.peers().insert(p@)
            &&& after.syncs() == before.syncs() && after.rpcs() == before.rpcs()
            &&& action matches TransportAction::SharePeer(q) && q@ == p@
        },
        TransportEvent::Disconnected(p) => {
            &&& after.peers() == before.peers().remove(p@)
            &&& after.syncs() == before.syncs() && after.rpcs() == before.rpcs()
            &&& action matches TransportAction::UnsharePeer(q) && q@ == p@
        },
        TransportEvent::SyncRequested(req) => {
            &&& same_state(before, after)
            &&& has_db ==> action == TransportAction::<S, R>::ReadEvents(req)
            &&& !has_db ==> (action matches TransportAction::Respond(NetworkResponse::Sync(r))
                && r.events@.len() == 0)
        },
        TransportEvent::EventReceived(e) => {
            &&& same_state(before, after)
            &&& action == TransportAction::<S, R>::DeliverEvent(e, NetworkResponse::Ack)
        },
        TransportEvent::RpcRequested(req) => {
            &&& same_state(before, after)
            &&& {
                ||| (action matches TransportAction::Respond(NetworkResponse::Rpc(resp))
                    && (resp.request_id == req.request_id && resp.result is None
                    && (resp.error matches Some(t)
                    && rpc_route_is(req.method@, req.params@, has_db, RpcRoute::Refuse(t)))))
                ||| (action matches TransportAction::AnswerRpc(id, route) && id == req.request_id
                    && !(route is Refuse) && rpc_route_is(req.method@, req.params@, has_db, route))
            }
        },
        TransportEvent::SyncAnswered(oid, events) => {
            &&& after.peers() == before.peers() && after.rpcs() == before.rpcs()
            &&& after.syncs() == before.syncs().remove(oid@)
            &&& before.syncs().contains_key(oid@) ==> action == TransportAction::<S, R>::SettleSync(
                before.syncs()[oid@],
                Ok(events),
            )
            &&& !before.syncs().contains_key(oid@) ==> action is Nothing
        },
        TransportEvent::RpcAnswered(resp) => {
            &&& after.peers() == before.peers() && after.syncs() == before.syncs()
            &&& after.rpcs() == before.rpcs().remove(rpc_key(resp.request_id))
            &&& before.rpcs().contains_key(rpc_key(resp.request_id)) ==> (action matches TransportAction::SettleRpc(h, out)
                && h == before.rpcs()[rpc_key(resp.request_id)] && rpc_outcome_is(resp, out))
            &&& !before.rpcs().contains_key(rpc_key(resp.request_id)) ==> action is Nothing
        },
        TransportEvent::RequestFailed(oid, err) => {
            &&& after.peers() == before.peers() && after.rpcs() == before.rpcs()
            &&& after.syncs() == before.syncs().remove(oid@)
            &&& before.syncs().contains_key(oid@) ==> (action matches TransportAction::SettleSync(p, Err(NetworkError::ConnectionFailed(t)))
                && p == before.syncs()[oid@] && t@ == sync_failed_text() + err@)
            &&& !before.syncs().contains_key(oid@) ==> action is Nothing
        },
        _ => same_state(before, after) && action is Nothing,
    }
}

/// The answer to a synchronisation request from what was read of the
/// campaign database: the events at or after the requested sequence
/// number, in order, or none where nothing could be read.
pub fn sync_answer(request: &EventSyncRequest, read: Option<Vec<SignedEvent>>) -> (resp: NetworkResponse)
    ensures
        resp matches NetworkResponse::Sync(r) && r.events@ == (match read {
            Some(events) => events_from(events@, request.from_sequence),
            None => Seq::<SignedEvent>::empty(),
        }),
        resp matches NetworkResponse::Sync(r) && (read matches Some(events) ==> picks(
            r.events@,
            events@,
            at_or_after(request.from_sequence),
        )),
{
    let events = match read {
        Some(events) => filter_from_sequence(events, request.from_sequence),
        None => Vec::new(),
    };
    NetworkResponse::Sync(EventSyncResponse { events })
}

impl<S, R> NetworkState<S, R> {
    /// Takes one event of the transport: updates the state and says what
    /// the transport does next (see `event_handled`); `has_db` says whether
    /// a campaign database serves requests.  The shared set of peers, kept
    /// equal to the state's peers before, is equal to them after the action.
    pub fn handle_event(&mut self, event: TransportEvent, has_db: bool) -> (action: TransportAction<S, R>)
        requires
            old(self).wf(),
        ensures
            final(self).wf(),
            final(self).next_id() == old(self).next_id(),
            old(self).ids_below_next() ==> final(self).ids_below_next(),
            shared_after(old(self).peers(), action) == final(self).peers(),
            event_handled(*old(self), event, has_db, *final(self), action),
    {
        match event {
            TransportEvent::Connected(peer) => {
                let shared = literal_string(peer.as_str());
                self.connection_established(peer);
                TransportAction::SharePeer(shared)
            },
            TransportEvent::Disconnected(peer) => {
                self.connection_closed(peer.as_str());
                TransportAction::UnsharePeer(peer)
            },
            TransportEvent::SyncRequested(req) => {
                if has_db {
                    TransportAction::ReadEvents(req)
                } else {
                    TransportAction::Respond(NetworkResponse::Sync(EventSyncResponse { events: Vec::new() }))
                }
            },
            TransportEvent::EventReceived(e) => TransportAction::DeliverEvent(e, NetworkResponse::Ack),
            TransportEvent::RpcRequested(req) => {
                let route = route_rpc(req.method.as_str(), req.params.as_str(), has_db);
                match route {
                    RpcRoute::Refuse(t) => {
                        let resp = rpc_response(req.request_id, Err(t));
                        TransportAction::Respond(NetworkResponse::Rpc(resp))
                    },
                    other => TransportAction::AnswerRpc(req.request_id, other),
                }
            },
            TransportEvent::SyncAnswered(oid, events) => {
                match self.sync_settled(oid.as_str()) {
                    Some(p) => TransportAction::SettleSync(p, Ok(events)),
                    None => TransportAction::Nothing,
                }
            },
            TransportEvent::Acknowledged => TransportAction::Nothing,
            TransportEvent::RpcAnswered(resp) => {
                match self.rpc_settled(resp.request_id) {
                    Some(h) => TransportAction::SettleRpc(h, rpc_outcome(resp)),
                    None => TransportAction::Nothing,
                }
            },
            TransportEvent::RequestFailed(oid, err) => {
                match self.sync_settled(oid.as_str()) {
                    Some(p) => {
                        let mut t = literal_string("Sync failed: ");
                        push_str(&mut t, err.as_str());
                        TransportAction::SettleSync(p, Err(NetworkError::ConnectionFailed(t)))
                    },
                    None => TransportAction::Nothing,
                }
            },
            TransportEvent::Other => TransportAction::Nothing,
        }
    }
}

} // verus!

verus! {

/// `std::io::Error`'s `Display` text.
#[verifier::external_body]
fn io_error_text(e: &std::io::Error) -> String {
    e.to_string()
}

/// `serde_json::Error`'s `Display` text.
#[verifier::external_body]
fn json_error_text(e: &serde_json::Error) -> String {
    e.to_string()
}

/// A prefix followed by a text.
pub open spec fn prefixed(prefix: Seq<char>, text: Seq<char>) -> Seq<char> {
    prefix + text
}

impl NetworkError {
    /// The error's message: `Connection failed: `, `IO error: `,
    /// `Serialization error: ` or `libp2p error: ` followed by the detail,
    /// or `Channel closed`.
    pub fn message(&self) -> (text: String)
        ensures
            self matches NetworkError::ConnectionFailed(m) ==> text@ == prefixed(
                "Connection failed: "@,
                m@,
            ),
            self matches NetworkError::ChannelClosed ==> text@ == "Channel closed"@,
            self matches NetworkError::Libp2pError(m) ==> text@ == prefixed("libp2p error: "@, m@),
            self matches NetworkError::IoError(m) ==> text@ == prefixed("IO error: "@, m@),
            self matches NetworkError::SerializationError(m) ==> text@ == prefixed(
                "Serialization error: "@,
                m@,
            ),
    {
        match self {
            NetworkError::ConnectionFailed(m) => {
                let mut t = literal_string("Connection failed: ");
                push_str(&mut t, m.as_str());
                t
            },
            NetworkError::IoError(m) => {
                let mut t = literal_string("IO error: ");
                push_str(&mut t, m.as_str());
                t
            },
            NetworkError::SerializationError(m) => {
                let mut t = literal_string("Serialization error: ");
                push_str(&mut t, m.as_str());
                t
            },
            NetworkError::ChannelClosed => literal_string("Channel closed"),
            NetworkError::Libp2pError(m) => {
                let mut t = literal_string("libp2p error: ");
                push_str(&mut t, m.as_str());
                t
            },
        }
    }

    /// The error for an I/O failure, carrying the failure's text.
    pub fn from_io_error(e: &std::io::Error) -> (r: NetworkError)
        ensures
            r is IoError,
    {
        NetworkError::IoError(io_error_text(e))
    }

    /// The error for a JSON failure, carrying the failure's text.
    pub fn from_json_error(e: &serde_json::Error) -> (r: NetworkError)
        ensures
            r is SerializationError,
    {
        NetworkError::SerializationError(json_error_text(e))
    }
}

} // verus!

verus! {

/// A waiting synchronisation request is settled at most once: settling it
/// again finds nothing.
pub proof fn lemma_sync_settled_once<S, R>(
    before: NetworkState<S, R>,
    after: NetworkState<S, R>,
    outbound_id: Seq<char>,
)
    requires
        after.syncs() == before.syncs().remove(outbound_id),
    ensures
        !after.syncs().contains_key(outbound_id),
{
}

/// A waiting remote procedure call is settled at most once.
pub proof fn lemma_rpc_settled_once<S, R>(before: NetworkState<S, R>, after: NetworkState<S, R>, request_id: u64)
    requires
        after.rpcs() == before.rpcs().remove(rpc_key(request_id)),
    ensures
        !after.rpcs().contains_key(rpc_key(request_id)),
{
}

} // verus!
