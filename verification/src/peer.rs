//! The peers a node is connected to: who they are and what is queued for
//! them.

use vstd::prelude::*;
use vstd::string::*;
use crate::channel::{OutboundQueue, QueueView};
use crate::error::ChatError;
use crate::protocol::{Message, MessageView, Timestamp};
use crate::text::same_text;

verus! {

/// Who a peer is.
#[derive(Debug, PartialEq)]
pub struct PeerInfo {
    /// Identifier of the peer.
    pub id: String,
    /// Display name chosen by the peer, if any.
    pub nickname: Option<String>,
    /// Network address of the connection, in text.
    pub address: String,
    /// When the connection was established.
    pub connected_at: Timestamp,
}

/// Mathematical view of a [`PeerInfo`].
pub struct PeerInfoView {
    pub id: Seq<char>,
    pub nickname: Option<Seq<char>>,
    pub address: Seq<char>,
    pub connected_at: Timestamp,
}

impl View for PeerInfo {
    type V = PeerInfoView;

    open spec fn view(&self) -> PeerInfoView {
        PeerInfoView {
            id: self.id@,
            nickname: match self.nickname {
                Some(name) => Some(name@),
                None => None,
            },
            address: self.address@,
            connected_at: self.connected_at,
        }
    }
}

impl Clone for PeerInfo {
    fn clone(&self) -> (r: Self)
        ensures
            r@ == self@,
    {
        PeerInfo {
            id: self.id.clone(),
            nickname: match &self.nickname {
                Some(name) => Some(name.clone()),
                None => None,
            },
            address: self.address.clone(),
            connected_at: self.connected_at,
        }
    }
}

/// One connected peer: who it is and the queue of messages bound for it.
pub struct Peer {
    /// Who the peer is.
    pub info: PeerInfo,
    /// The messages queued for the peer.
    pub outbound: OutboundQueue,
}

/// Mathematical view of a [`Peer`].
pub struct PeerView {
    pub info: PeerInfoView,
    pub outbound: QueueView,
}

impl View for Peer {
    type V = PeerView;

    open spec fn view(&self) -> PeerView {
        PeerView { info: self.info@, outbound: self.outbound@ }
    }
}

impl Peer {
    /// A peer with an open, empty queue.
    pub fn new(info: PeerInfo) -> (peer: Peer)
        ensures
            peer.info == info,
            peer@.outbound.messages.len() == 0,
            !peer@.outbound.closed,
    {
        Peer { info, outbound: OutboundQueue::new() }
    }
}

/// One entry of the registry.
pub struct PeerEntry {
    id: String,
    peer: Peer,
}

/// What a delivery to all makes of one registered peer: the message is appended to
/// its queue unless the peer is the excluded one or its queue is closed.
pub open spec fn after_delivery(
    id: Seq<char>,
    peer: PeerView,
    message: MessageView,
    exclude: Option<Seq<char>>,
) -> PeerView {
    if exclude == Some(id) || peer.outbound.closed {
        peer
    } else {
        PeerView {
            outbound: QueueView {
                messages: peer.outbound.messages.push(message),
                closed: false,
            },
            ..peer
        }
    }
}

/// The registry after a delivery to all: the same peers, each as `after_delivery`
/// leaves it.
pub open spec fn registry_after_delivery(
    registry: Map<Seq<char>, PeerView>,
    message: MessageView,
    exclude: Option<Seq<char>>,
) -> Map<Seq<char>, PeerView> {
    Map::new(
        |id: Seq<char>| registry.contains_key(id),
        |id: Seq<char>| after_delivery(id, registry[id], message, exclude),
    )
}

/// The text of an optional peer id.
pub open spec fn optional_id(id: Option<&str>) -> Option<Seq<char>> {
    match id {
        Some(text) => Some(text@),
        None => None,
    }
}

/// A broadcast delivers to every registered peer but the excluded one, and
/// to each exactly once. The peers registered after it are those registered
/// before it. The excluded peer's queue is as it was. Every other peer whose
/// queue is open has its queue grown by one message, which is the message
/// broadcast, behind all that was queued before.
pub proof fn lemma_delivery_reaches_all_but_excluded(
    registry: Map<Seq<char>, PeerView>,
    message: MessageView,
    exclude: Option<Seq<char>>,
)
    ensures
        registry_after_delivery(registry, message, exclude).dom() == registry.dom(),
        forall|id: Seq<char>|
            registry.contains_key(id) && exclude == Some(id) ==> #[trigger] registry_after_delivery(
                registry,
                message,
                exclude,
            )[id] == registry[id],
        forall|id: Seq<char>|
            registry.contains_key(id) && exclude != Some(id) && !registry[id].outbound.closed ==> {
                let queue = (#[trigger] registry_after_delivery(registry, message, exclude)[id])
                    .outbound.messages;
                &&& queue == registry[id].outbound.messages.push(message)
                &&& queue.len() == registry[id].outbound.messages.len() + 1
                &&& queue.last() == message
            },
        forall|id: Seq<char>|
            registry.contains_key(id) ==> (#[trigger] registry_after_delivery(
                registry,
                message,
                exclude,
            )[id]).info == registry[id].info,
{
    assert(registry_after_delivery(registry, message, exclude).dom() =~= registry.dom());
}

/// A broadcast never reaches the excluded peer, and reaches every other peer
/// exactly once: the queue of the excluded peer stays as it is, the queue of
/// every other peer that can be reached grows by the message and by nothing
/// else, and who the peers are does not change.
pub proof fn lemma_delivery_to_one_peer(
    id: Seq<char>,
    peer: PeerView,
    message: MessageView,
    exclude: Option<Seq<char>>,
)
    ensures
        after_delivery(id, peer, message, exclude).info == peer.info,
        exclude == Some(id) ==> after_delivery(id, peer, message, exclude) == peer,
        peer.outbound.closed ==> after_delivery(id, peer, message, exclude) == peer,
        exclude != Some(id) && !peer.outbound.closed ==> after_delivery(
            id,
            peer,
            message,
            exclude,
        ).outbound.messages == peer.outbound.messages.push(message),
{
}

/// The registry of connected peers, by peer id.
pub struct PeerManager {
    peers: Vec<PeerEntry>,
}

impl View for PeerManager {
    type V = Map<Seq<char>, PeerView>;

    closed spec fn view(&self) -> Map<Seq<char>, PeerView> {
        Map::new(
            |id: Seq<char>| self.position(id) is Some,
            |id: Seq<char>| self.peers@[self.position(id)->0].peer@,
        )
    }
}

impl PeerManager {
    /// The index of the entry with the given id, if there is one.
    closed spec fn position(&self, id: Seq<char>) -> Option<int> {
        if exists|i: int| 0 <= i < self.peers@.len() && self.peers@[i].id@ == id {
            Some(choose|i: int| 0 <= i < self.peers@.len() && self.peers@[i].id@ == id)
        } else {
            None
        }
    }

    /// The ids of the registered peers in the order in which `list_peers`
    /// reports them.
    pub closed spec fn ids(&self) -> Seq<Seq<char>> {
        self.peers@.map_values(|entry: PeerEntry| entry.id@)
    }

    /// No id is registered twice.
    pub closed spec fn wf(&self) -> bool {
        forall|i: int, j: int|
            0 <= i < j < self.peers@.len() ==> self.peers@[i].id@ != self.peers@[j].id@
    }

    /// The ids listed are exactly the registered ones, each once.
    pub proof fn lemma_ids(&self)
        requires
            self.wf(),
        ensures
            self.ids().no_duplicates(),
            forall|id: Seq<char>| self.ids().contains(id) <==> self@.contains_key(id),
            self@.dom().finite(),
            self@.dom().len() == self.ids().len(),
    {
        let ids = self.ids();
        assert forall|id: Seq<char>| ids.contains(id) <==> self@.contains_key(id) by {
            if ids.contains(id) {
                let i = choose|i: int| 0 <= i < ids.len() && ids[i] == id;
                assert(self.peers@[i].id@ == id);
            }
            if self@.contains_key(id) {
                let i = self.position(id)->0;
                assert(ids[i] == id);
            }
        }
        assert(ids.to_set() =~= self@.dom());
        ids.unique_seq_to_set();
        vstd::seq_lib::seq_to_set_is_finite(ids);
    }

    proof fn lemma_entry(&self, i: int)
        requires
            self.wf(),
            0 <= i < self.peers@.len(),
        ensures
            self.position(self.peers@[i].id@) == Some(i),
            self@.contains_key(self.peers@[i].id@),
            self@[self.peers@[i].id@] == self.peers@[i].peer@,
    {
    }

    /// An empty registry.
    pub fn new() -> (manager: PeerManager)
        ensures
            manager.wf(),
            manager@ == Map::<Seq<char>, PeerView>::empty(),
    {
        let manager = PeerManager { peers: Vec::new() };
        assert(manager@ =~= Map::<Seq<char>, PeerView>::empty());
        manager
    }

    fn find(&self, id: &str) -> (r: Option<usize>)
        requires
            self.wf(),
        ensures
            match r {
                Some(i) => i < self.peers@.len() && self.peers@[i as int].id@ == id@
                    && self.position(id@) == Some(i as int),
                None => self.position(id@) is None && !self@.contains_key(id@),
            },
    {
        let mut i: usize = 0;
        while i < self.peers.len()
            invariant
                self.wf(),
                i <= self.peers@.len(),
                forall|k: int| 0 <= k < i ==> self.peers@[k].id@ != id@,
            decreases self.peers@.len() - i,
        {
            if same_text(self.peers[i].id.as_str(), id) {
                proof {
                    self.lemma_entry(i as int);
                }
                return Some(i);
            }
            i += 1;
        }
        None
    }

    /// Registers `peer` under `id`, in place of any peer registered under
    /// that id before.
    #[verifier::rlimit(50)]
    pub fn add_peer(&mut self, id: String, peer: Peer) -> (r: Result<(), ChatError>)
        requires
            old(self).wf(),
        ensures
            r is Ok,
            final(self).wf(),
            final(self)@ == old(self)@.insert(id@, peer@),
    {
        match self.find(id.as_str()) {
            Some(i) => {
                self.peers.set(i, PeerEntry { id, peer });
            },
            None => {
                self.peers.push(PeerEntry { id, peer });
            },
        }
        proof {
            assert forall|k: Seq<char>| #[trigger]
                self@.contains_key(k) <==> old(self)@.insert(id@, peer@).contains_key(k) by {
                if old(self)@.contains_key(k) {
                    let j = old(self).position(k)->0;
                    assert(self.peers@[j].id@ == k);
                }
                if self@.contains_key(k) && k != id@ {
                    let j = self.position(k)->0;
                    assert(old(self).peers@[j].id@ == k);
                }
                if k == id@ {
                    assert(self.peers@[(self.peers@.len() - 1) as int].id@ == id@ || exists|
                        j: int,
                    |
                        0 <= j < self.peers@.len() && self.peers@[j].id@ == id@);
                }
            }
            assert forall|k: Seq<char>| #[trigger]
                self@.contains_key(k) implies self@[k] == old(self)@.insert(id@, peer@)[k] by {
                let j = self.position(k)->0;
                self.lemma_entry(j);
                if k != id@ {
                    assert(old(self).peers@[j].id@ == k);
                    old(self).lemma_entry(j);
                }
            }
            assert(self@ =~= old(self)@.insert(id@, peer@));
        }
        Ok(())
    }

    /// Takes the peer registered under `id` out of the registry, if there
    /// is one.
    #[verifier::rlimit(50)]
    pub fn remove_peer(&mut self, id: &str) -> (r: Option<Peer>)
        requires
            old(self).wf(),
        ensures
            final(self).wf(),
            final(self)@ == old(self)@.remove(id@),
            match r {
                Some(peer) => old(self)@.contains_key(id@) && peer@ == old(self)@[id@],
                None => !old(self)@.contains_key(id@),
            },
    {
        match self.find(id) {
            Some(i) => {
                let entry = self.peers.remove(i);
                proof {
                    old(self).lemma_entry(i as int);
                    assert forall|k: Seq<char>| #[trigger]
                        self@.contains_key(k) <==> old(self)@.remove(id@).contains_key(k) by {
                        if old(self)@.contains_key(k) && k != id@ {
                            let j = old(self).position(k)->0;
                            if j < i {
                                assert(self.peers@[j].id@ == k);
                            } else {
                                assert(self.peers@[j - 1].id@ == k);
                            }
                        }
                        if self@.contains_key(k) {
                            let j = self.position(k)->0;
                            if j < i {
                                assert(old(self).peers@[j].id@ == k);
                            } else {
                                assert(old(self).peers@[j + 1].id@ == k);
                            }
                        }
                    }
                    assert forall|k: Seq<char>| #[trigger]
                        self@.contains_key(k) implies self@[k] == old(self)@[k] by {
                        let j = self.position(k)->0;
                        self.lemma_entry(j);
                        if j < i {
                            old(self).lemma_entry(j);
                        } else {
                            old(self).lemma_entry(j + 1);
                        }
                    }
                    assert(self@ =~= old(self)@.remove(id@));
                }
                Some(entry.peer)
            },
            None => {
                assert(self@ =~= old(self)@.remove(id@));
                None
            },
        }
    }

    /// The peer registered under `id`, if there is one.
    pub fn get_peer(&self, id: &str) -> (r: Option<&Peer>)
        requires
            self.wf(),
        ensures
            match r {
                Some(peer) => self@.contains_key(id@) && peer@ == self@[id@],
                None => !self@.contains_key(id@),
            },
    {
        match self.find(id) {
            Some(i) => {
                proof {
                    self.lemma_entry(i as int);
                }
                Some(&self.peers[i].peer)
            },
            None => None,
        }
    }

    /// Number of registered peers.
    pub fn peer_count(&self) -> (n: usize)
        requires
            self.wf(),
        ensures
            n == self@.dom().len(),
            self@.dom().finite(),
    {
        proof {
            self.lemma_ids();
        }
        self.peers.len()
    }

    /// The information on every registered peer, in the order of `ids`.
    pub fn list_peers(&self) -> (r: Vec<PeerInfo>)
        requires
            self.wf(),
        ensures
            r@.len() == self.ids().len(),
            forall|i: int|
                0 <= i < r@.len() ==> self@.contains_key(#[trigger] self.ids()[i]) && r@[i]@
                    == self@[self.ids()[i]].info,
    {
        let mut r: Vec<PeerInfo> = Vec::new();
        let mut i: usize = 0;
        while i < self.peers.len()
            invariant
                self.wf(),
                i <= self.peers@.len(),
                r@.len() == i,
                forall|k: int| 0 <= k < i ==> r@[k]@ == self.peers@[k].peer.info@,
            decreases self.peers@.len() - i,
        {
            r.push(self.peers[i].peer.info.clone());
            i += 1;
        }
        proof {
            assert forall|k: int| 0 <= k < r@.len() implies self@.contains_key(
                #[trigger] self.ids()[k],
            ) && r@[k]@ == self@[self.ids()[k]].info by {
                self.lemma_entry(k);
            }
        }
        r
    }

    /// Queues `message` for every registered peer but the excluded one.
    /// A peer whose queue is closed is passed over; that is no error.
    pub fn broadcast(&mut self, message: Message, exclude: Option<&str>) -> (r: Result<
        (),
        ChatError,
    >)
        requires
            old(self).wf(),
        ensures
            r is Ok,
            final(self).wf(),
            final(self).ids() == old(self).ids(),
            final(self)@ == registry_after_delivery(
                old(self)@,
                message@,
                optional_id(exclude),
            ),
            final(self)@.dom() == old(self)@.dom(),
            forall|id: Seq<char>| #[trigger]
                final(self)@.contains_key(id) ==> final(self)@[id] == after_delivery(
                    id,
                    old(self)@[id],
                    message@,
                    optional_id(exclude),
                ),
    {
        self.deliver_to_all(message, exclude);
        Ok(())
    }

    /// The delivery itself, which cannot fail: walks the registry once and
    /// appends a copy of `message` to the queue of every peer but the
    /// excluded one, passing over the queues that are closed.
    #[verifier::rlimit(50)]
    pub fn deliver_to_all(&mut self, message: Message, exclude: Option<&str>)
        requires
            old(self).wf(),
        ensures
            final(self).wf(),
            final(self).ids() == old(self).ids(),
            final(self)@ == registry_after_delivery(
                old(self)@,
                message@,
                optional_id(exclude),
            ),
            final(self)@.dom() == old(self)@.dom(),
            forall|id: Seq<char>| #[trigger]
                final(self)@.contains_key(id) ==> final(self)@[id] == after_delivery(
                    id,
                    old(self)@[id],
                    message@,
                    optional_id(exclude),
                ),
    {
        let ghost excluded: Option<Seq<char>> = match exclude {
            Some(x) => Some(x@),
            None => None,
        };
        let mut i: usize = 0;
        while i < self.peers.len()
            invariant
                self.wf(),
                old(self).wf(),
                excluded == (match exclude {
                    Some(x) => Some(x@),
                    None => None::<Seq<char>>,
                }),
                i <= self.peers@.len(),
                self.peers@.len() == old(self).peers@.len(),
                forall|k: int|
                    0 <= k < self.peers@.len() ==> (#[trigger] self.peers@[k]).id@ == old(
                        self,
                    ).peers@[k].id@,
                forall|k: int|
                    0 <= k < i ==> (#[trigger] self.peers@[k]).peer@ == after_delivery(
                        old(self).peers@[k].id@,
                        old(self).peers@[k].peer@,
                        message@,
                        excluded,
                    ),
                forall|k: int|
                    i <= k < self.peers@.len() ==> (#[trigger] self.peers@[k]).peer@ == old(
                        self,
                    ).peers@[k].peer@,
            decreases self.peers@.len() - i,
        {
            let skip = match exclude {
                Some(x) => same_text(x, self.peers[i].id.as_str()),
                None => false,
            };
            if !skip {
                let ghost before = self.peers@;
                let copy = message.clone();
                let _ = self.peers[i].peer.outbound.send(copy);
                assert(self.peers@.len() == before.len());
                assert(forall|k: int|
                    0 <= k < before.len() && k != i ==> self.peers@[k] == before[k]);
                assert(self.peers@[i as int].id == before[i as int].id);
                assert(self.peers@[i as int].peer.info == before[i as int].peer.info);
            }
            i += 1;
        }
        proof {
            assert(self.ids() =~= old(self).ids());
            assert forall|id: Seq<char>| #[trigger]
                self@.contains_key(id) <==> old(self)@.contains_key(id) by {
                if self@.contains_key(id) {
                    let j = self.position(id)->0;
                    assert(old(self).peers@[j].id@ == id);
                }
                if old(self)@.contains_key(id) {
                    let j = old(self).position(id)->0;
                    assert(self.peers@[j].id@ == id);
                }
            }
            assert(self@.dom() =~= old(self)@.dom());
            assert forall|id: Seq<char>| #[trigger]
                self@.contains_key(id) implies self@[id] == after_delivery(
                id,
                old(self)@[id],
                message@,
                excluded,
            ) by {
                let j = self.position(id)->0;
                self.lemma_entry(j);
                old(self).lemma_entry(j);
            }
            assert(self@ =~= registry_after_delivery(old(self)@, message@, excluded));
        }
    }

    /// Queues `message` for the peer registered under `id`. Fails with
    /// `PeerDisconnected`, and changes nothing, exactly where no such peer
    /// is registered or its queue is closed.
    #[verifier::rlimit(50)]
    pub fn send_to(&mut self, id: &str, message: Message) -> (r: Result<(), ChatError>)
        requires
            old(self).wf(),
        ensures
            final(self).wf(),
            if old(self)@.contains_key(id@) && !old(self)@[id@].outbound.closed {
                r is Ok && final(self)@ == old(self)@.insert(
                    id@,
                    after_delivery(id@, old(self)@[id@], message@, None),
                )
            } else {
                r == Err::<(), ChatError>(ChatError::PeerDisconnected) && final(self)@ == old(
                    self,
                )@
            },
    {
        let i = match self.find(id) {
            Some(i) => i,
            None => {
                return Err(ChatError::PeerDisconnected);
            },
        };
        proof {
            self.lemma_entry(i as int);
        }
        if self.peers[i].peer.outbound.is_closed() {
            return Err(ChatError::PeerDisconnected);
        }
        let ghost before = self.peers@;
        let _ = self.peers[i].peer.outbound.send(message);
        proof {
            assert(self.peers@.len() == before.len());
            assert(forall|k: int| 0 <= k < before.len() && k != i ==> self.peers@[k] == before[k]);
            assert(self.peers@[i as int].id == before[i as int].id);
            assert(self.peers@[i as int].peer.info == before[i as int].peer.info);
            let target = old(self)@.insert(
                id@,
                after_delivery(id@, old(self)@[id@], message@, None),
            );
            assert forall|k: Seq<char>| #[trigger] self@.contains_key(k) <==> target.contains_key(
                k,
            ) by {
                if self@.contains_key(k) {
                    let j = self.position(k)->0;
                    assert(old(self).peers@[j].id@ == k);
                }
                if old(self)@.contains_key(k) {
                    let j = old(self).position(k)->0;
                    assert(self.peers@[j].id@ == k);
                }
            }
            assert forall|k: Seq<char>| #[trigger] self@.contains_key(k) implies self@[k]
                == target[k] by {
                let j = self.position(k)->0;
                self.lemma_entry(j);
                old(self).lemma_entry(j);
            }
            assert(self@ =~= target);
        }
        Ok(())
    }

    /// Takes the oldest message queued for the peer registered under `id`,
    /// if the peer is registered and a message is queued for it.
    #[verifier::rlimit(50)]
    pub fn next_outbound(&mut self, id: &str) -> (r: Option<Message>)
        requires
            old(self).wf(),
        ensures
            final(self).wf(),
            final(self)@.dom() == old(self)@.dom(),
            match r {
                Some(message) => {
                    &&& old(self)@.contains_key(id@)
                    &&& old(self)@[id@].outbound.messages.len() > 0
                    &&& message@ == old(self)@[id@].outbound.messages[0]
                    &&& final(self)@ == old(self)@.insert(
                        id@,
                        PeerView {
                            outbound: QueueView {
                                messages: old(self)@[id@].outbound.messages.drop_first(),
                                ..old(self)@[id@].outbound
                            },
                            ..old(self)@[id@]
                        },
                    )
                },
                None => final(self)@ == old(self)@ && (old(self)@.contains_key(id@) ==> old(
                    self,
                )@[id@].outbound.messages.len() == 0),
            },
    {
        let i = match self.find(id) {
            Some(i) => i,
            None => {
                return None;
            },
        };
        proof {
            self.lemma_entry(i as int);
        }
        let ghost before = self.peers@;
        let r = self.peers[i].peer.outbound.recv();
        proof {
            assert(self.peers@.len() == before.len());
            assert(forall|k: int| 0 <= k < before.len() && k != i ==> self.peers@[k] == before[k]);
            assert(self.peers@[i as int].id == before[i as int].id);
            assert(self.peers@[i as int].peer.info == before[i as int].peer.info);
            let target = old(self)@.insert(id@, self.peers@[i as int].peer@);
            assert forall|k: Seq<char>| #[trigger] self@.contains_key(k) <==> target.contains_key(
                k,
            ) by {
                if self@.contains_key(k) {
                    let j = self.position(k)->0;
                    assert(old(self).peers@[j].id@ == k);
                }
                if old(self)@.contains_key(k) {
                    let j = old(self).position(k)->0;
                    assert(self.peers@[j].id@ == k);
                }
            }
            assert forall|k: Seq<char>| #[trigger] self@.contains_key(k) implies self@[k]
                == target[k] by {
                let j = self.position(k)->0;
                self.lemma_entry(j);
                old(self).lemma_entry(j);
            }
            assert(self@ =~= target);
            assert(self@.dom() =~= old(self)@.dom());
            if r is None {
                assert(self@ =~= old(self)@);
            }
        }
        r
    }
}

} // verus!
