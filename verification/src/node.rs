use vstd::prelude::*;

use crate::access_control::{spec_gate_allows, AccessControl};
use crate::credential::AttributeSet;
use crate::error::IdentityError;
use crate::exchange::{
    spec_credential_equiv, spec_replies, spec_store_after, spec_verify_outcome_is_ok,
    CredentialExchangeWorker, PresentCredentialMessage,
};
use crate::identity::Identifier;
use crate::storage::AttributeStorage;

verus! {

/// A message handed from worker to worker.
pub enum Message {
    /// An ordinary application message.
    Text(String),
    /// A credential-exchange protocol message.
    Present(PresentCredentialMessage),
}

/// What stands at an address.
pub enum WorkerKind {
    /// An endpoint worker: every admitted message lands in its mailbox, in
    /// arrival order.
    Mailbox(Vec<Message>),
    /// The credential-exchange protocol worker.
    Exchange(CredentialExchangeWorker),
}

/// A worker: an address, the gates consulted on every message that
/// reaches or leaves it, and its message handler.
pub struct Worker {
    pub address: String,
    pub inbound: AccessControl,
    pub outbound: AccessControl,
    pub kind: WorkerKind,
}

/// The routing layer of one node: the registered workers. The attribute
/// store those workers consult and fill is passed into every delivery,
/// as the single shared synchronization boundary.
pub struct Node {
    pub workers: Vec<Worker>,
}

/// Whether some worker is registered at `address`.
pub open spec fn spec_resolves(node: Node, address: Seq<char>) -> bool {
    exists|i: int|
        0 <= i < node.workers@.len() && (#[trigger] node.workers@[i]).address@ == address
}

/// The index of the worker registered at `address` (unique under
/// [`Node::wf`]).
pub open spec fn spec_worker_index(node: Node, address: Seq<char>) -> int {
    choose|i: int|
        0 <= i < node.workers@.len() && (#[trigger] node.workers@[i]).address@ == address
}

proof fn lemma_worker_index_unique(node: Node, i: int)
    requires
        node.wf(),
        0 <= i < node.workers@.len(),
    ensures
        spec_worker_index(node, node.workers@[i].address@) == i,
{
    let addr = node.workers@[i].address@;
    assert(spec_resolves(node, addr));
    let j = spec_worker_index(node, addr);
    assert(node.workers@[j].address@ == addr);
}

/// Whether every hop of the route is a registered address.
pub open spec fn spec_route_resolves(node: Node, route: Seq<Seq<char>>) -> bool {
    forall|h: int| 0 <= h < route.len() ==> spec_resolves(node, #[trigger] route[h])
}

/// Whether the gates along the route admit a message from `sender`: at
/// every hop the receiving worker's inbound gate, and at every hop but
/// the last also its outbound gate (it forwards the message onwards).
pub open spec fn spec_route_admits(
    node: Node,
    store: Map<Identifier, AttributeSet>,
    sender: Identifier,
    route: Seq<Seq<char>>,
) -> bool {
    forall|h: int|
        0 <= h < route.len() ==> {
            let w = node.workers@[spec_worker_index(node, #[trigger] route[h])];
            spec_gate_allows(w.inbound, store, sender) && (h < route.len() - 1
                ==> spec_gate_allows(w.outbound, store, sender))
        }
}

/// The outcome of an admitted delivery.
pub enum Delivery {
    /// The message reached the final worker; a mutual credential
    /// presentation may have been returned along the sender's route.
    Delivered(Option<PresentCredentialMessage>),
    /// Some gate denied the message; it was dropped silently, and no
    /// error reaches the sender.
    Dropped,
}

/// What an admitted delivery does, given the worker at the final hop: a
/// mailbox worker appends the message to its mailbox and nothing else
/// changes; the exchange worker leaves the node unchanged and handles a
/// presented credential as [`CredentialExchangeWorker::handle_presentation`]
/// does, ignoring other messages.
pub open spec fn spec_delivered_effect(
    before: Node,
    after: Node,
    store_before: Map<Identifier, AttributeSet>,
    store_after: Map<Identifier, AttributeSet>,
    sender: Identifier,
    address: Seq<char>,
    message: Message,
    reply: Option<PresentCredentialMessage>,
    now: u64,
) -> bool {
    let i = spec_worker_index(before, address);
    let w = before.workers@[i];
    match w.kind {
        WorkerKind::Mailbox(delivered) => {
            &&& store_after == store_before
            &&& reply is None
            &&& after.workers@.len() == before.workers@.len()
            &&& forall|j: int|
                0 <= j < before.workers@.len() && j != i ==> after.workers@[j]
                    == before.workers@[j]
            &&& after.workers@[i].address == w.address
            &&& after.workers@[i].inbound == w.inbound
            &&& after.workers@[i].outbound == w.outbound
            &&& (after.workers@[i].kind matches WorkerKind::Mailbox(d) && d@ == delivered@.push(
                message,
            ))
        },
        WorkerKind::Exchange(exchange_worker) => {
            &&& after.workers@ == before.workers@
            &&& match message {
                Message::Present(m) => {
                    let accepted = spec_verify_outcome_is_ok(
                        sender,
                        exchange_worker.trusted_authorities@,
                        m.credential,
                        now,
                    );
                    &&& spec_store_after(store_before, store_after, sender, m.credential, accepted)
                    &&& match reply {
                        Some(r) => {
                            &&& spec_replies(exchange_worker, m, accepted)
                            &&& exchange_worker.own_credential matches Some(c)
                                && spec_credential_equiv(r.credential, c)
                            &&& r.request_mutual == false
                        },
                        None => !spec_replies(exchange_worker, m, accepted),
                    }
                },
                Message::Text(_) => store_after == store_before && reply is None,
            }
        },
    }
}

impl Node {
    /// Well-formedness: one worker per address.
    pub open spec fn wf(self) -> bool {
        forall|i: int, j: int|
            0 <= i < j < self.workers@.len() ==> (#[trigger] self.workers@[i]).address@
                != (#[trigger] self.workers@[j]).address@
    }

    pub fn new() -> (r: Node)
        ensures
            r.wf(),
            r.workers@.len() == 0,
    {
        Node { workers: Vec::new() }
    }

    /// The index of the worker at `address`, if one is registered.
    fn find_worker(&self, address: &String) -> (r: Option<usize>)
        ensures
            match r {
                Some(i) => i < self.workers@.len() && self.workers@[i as int].address@
                    == address@,
                None => !spec_resolves(*self, address@),
            },
    {
        let n = self.workers.len();
        let mut i: usize = 0;
        while i < n
            invariant
                n == self.workers@.len(),
                0 <= i <= n,
                forall|j: int| 0 <= j < i ==> (#[trigger] self.workers@[j]).address@ != address@,
            decreases n - i,
        {
            if crate::encoding::str_eq(self.workers[i].address.as_str(), address.as_str()) {
                return Some(i);
            }
            i += 1;
        }
        None
    }

    /// Registers a worker. Fails with `RoutingFailure` exactly when its
    /// address is already taken; the node is then unchanged.
    pub fn start_worker(&mut self, worker: Worker) -> (r: Result<(), IdentityError>)
        requires
            old(self).wf(),
        ensures
            final(self).wf(),
            match r {
                Ok(()) => {
                    &&& !spec_resolves(*old(self), worker.address@)
                    &&& final(self).workers@ == old(self).workers@.push(worker)
                },
                Err(e) => {
                    &&& e == IdentityError::RoutingFailure
                    &&& spec_resolves(*old(self), worker.address@)
                    &&& *final(self) == *old(self)
                },
            },
    {
        if self.find_worker(&worker.address).is_some() {
            return Err(IdentityError::RoutingFailure);
        }
        let ghost prev = self.workers@;
        self.workers.push(worker);
        proof {
            assert forall|i: int, j: int|
                0 <= i < j < self.workers@.len() implies (#[trigger] self.workers@[i]).address@
                != (#[trigger] self.workers@[j]).address@ by {
                if j < self.workers@.len() - 1 {
                    assert(prev[i].address@ != prev[j].address@);
                } else {
                    assert(self.workers@[i] == prev[i]);
                    assert(!spec_resolves(*old(self), worker.address@));
                }
            }
        }
        Ok(())
    }

    /// Stops the worker at `address`: it is deregistered and accepts no
    /// further messages; every other worker stays as it was. Fails with
    /// `RoutingFailure` exactly when no worker is registered there.
    pub fn stop_worker(&mut self, address: &String) -> (r: Result<(), IdentityError>)
        requires
            old(self).wf(),
        ensures
            final(self).wf(),
            match r {
                Ok(()) => {
                    &&& spec_resolves(*old(self), address@)
                    &&& !spec_resolves(*final(self), address@)
                    &&& final(self).workers@ == old(self).workers@.remove(
                        spec_worker_index(*old(self), address@),
                    )
                },
                Err(e) => {
                    &&& e == IdentityError::RoutingFailure
                    &&& !spec_resolves(*old(self), address@)
                    &&& *final(self) == *old(self)
                },
            },
    {
        let i = match self.find_worker(address) {
            Some(i) => i,
            None => {
                return Err(IdentityError::RoutingFailure);
            },
        };
        proof {
            lemma_worker_index_unique(*self, i as int);
        }
        let ghost prev = self.workers@;
        self.workers.remove(i);
        proof {
            prev.remove_ensures(i as int);
            assert forall|j: int|
                0 <= j < self.workers@.len() implies (#[trigger] self.workers@[j]).address@
                != address@ by {
                if j < i as int {
                    assert(self.workers@[j] == prev[j]);
                    assert(prev[i as int].address@ == address@);
                } else {
                    assert(self.workers@[j] == prev[j + 1]);
                    assert(prev[i as int].address@ != prev[j + 1].address@);
                }
            }
            assert forall|j: int, k: int|
                0 <= j < k < self.workers@.len() implies (#[trigger] self.workers@[j]).address@
                != (#[trigger] self.workers@[k]).address@ by {
                let j2: int = if j < i as int {
                    j
                } else {
                    j + 1
                };
                let k2: int = if k < i as int {
                    k
                } else {
                    k + 1
                };
                assert(self.workers@[j] == prev[j2]);
                assert(self.workers@[k] == prev[k2]);
                assert(prev[j2].address@ != prev[k2].address@);
            }
        }
        Ok(())
    }

    /// Delivers a message from the channel-verified `sender` along a
    /// route. An unknown address anywhere on the route is a
    /// `RoutingFailure`. Otherwise the gates along the route decide: any
    /// denial drops the message silently, with nothing changed; full
    /// admission hands the message to the worker at the final hop.
    pub fn deliver(
        &mut self,
        storage: &mut AttributeStorage,
        sender: &Identifier,
        route: &Vec<String>,
        message: Message,
        now: u64,
    ) -> (r: Result<Delivery, IdentityError>)
        requires
            old(self).wf(),
            old(storage).wf(),
            route@.len() >= 1,
        ensures
            final(self).wf(),
            final(storage).wf(),
            match r {
                Err(e) => {
                    &&& e == IdentityError::RoutingFailure
                    &&& !spec_route_resolves(*old(self), route.deep_view())
                    &&& *final(self) == *old(self)
                    &&& *final(storage) == *old(storage)
                },
                Ok(Delivery::Dropped) => {
                    &&& spec_route_resolves(*old(self), route.deep_view())
                    &&& !spec_route_admits(*old(self), old(storage)@, *sender, route.deep_view())
                    &&& *final(self) == *old(self)
                    &&& *final(storage) == *old(storage)
                },
                Ok(Delivery::Delivered(reply)) => {
                    &&& spec_route_resolves(*old(self), route.deep_view())
                    &&& spec_route_admits(*old(self), old(storage)@, *sender, route.deep_view())
                    &&& spec_delivered_effect(
                        *old(self),
                        *final(self),
                        old(storage)@,
                        final(storage)@,
                        *sender,
                        route.deep_view().last(),
                        message,
                        reply,
                        now,
                    )
                },
            },
    {
        let hops = route.len();
        let mut indices: Vec<usize> = Vec::new();
        let mut h: usize = 0;
        while h < hops
            invariant
                *self == *old(self),
                self.wf(),
                *storage == *old(storage),
                storage.wf(),
                hops == route@.len(),
                0 <= h <= hops,
                indices@.len() == h,
                forall|g: int|
                    0 <= g < h ==> (#[trigger] indices@[g]) < self.workers@.len()
                        && self.workers@[indices@[g] as int].address@ == route.deep_view()[g],
            decreases hops - h,
        {
            match self.find_worker(&route[h]) {
                Some(i) => {
                    proof {
                        assert(route.deep_view()[h as int] == route@[h as int]@);
                    }
                    indices.push(i);
                },
                None => {
                    proof {
                        assert(route.deep_view()[h as int] == route@[h as int]@);
                        assert(!spec_resolves(*self, route.deep_view()[h as int]));
                    }
                    return Err(IdentityError::RoutingFailure);
                },
            }
            h += 1;
        }
        proof {
            assert forall|g: int|
                0 <= g < route.deep_view().len() implies spec_resolves(
                *self,
                #[trigger] route.deep_view()[g],
            ) by {
                assert(self.workers@[indices@[g] as int].address@ == route.deep_view()[g]);
            }
        }
        let mut g: usize = 0;
        while g < hops
            invariant
                *self == *old(self),
                self.wf(),
                *storage == *old(storage),
                storage.wf(),
                hops == route@.len(),
                0 <= g <= hops,
                indices@.len() == hops,
                forall|x: int|
                    0 <= x < hops ==> (#[trigger] indices@[x]) < self.workers@.len()
                        && self.workers@[indices@[x] as int].address@ == route.deep_view()[x],
                forall|x: int|
                    0 <= x < g ==> {
                        let w = self.workers@[spec_worker_index(
                            *self,
                            #[trigger] route.deep_view()[x],
                        )];
                        spec_gate_allows(w.inbound, storage@, *sender) && (x < hops - 1
                            ==> spec_gate_allows(w.outbound, storage@, *sender))
                    },
            decreases hops - g,
        {
            let i = indices[g];
            proof {
                lemma_worker_index_unique(*self, i as int);
            }
            if !self.workers[i].inbound.allows(storage, sender) {
                proof {
                    let dv = route.deep_view();
                    assert forall|x: int| 0 <= x < dv.len() implies spec_resolves(
                        *self,
                        #[trigger] dv[x],
                    ) by {
                        assert(self.workers@[indices@[x] as int].address@ == dv[x]);
                    }
                    let w = self.workers@[spec_worker_index(*self, dv[g as int])];
                    assert(!spec_gate_allows(w.inbound, storage@, *sender));
                    assert(!spec_route_admits(*self, storage@, *sender, dv));
                }
                return Ok(Delivery::Dropped);
            }
            if g + 1 < hops {
                if !self.workers[i].outbound.allows(storage, sender) {
                    proof {
                        let dv = route.deep_view();
                        assert forall|x: int| 0 <= x < dv.len() implies spec_resolves(
                            *self,
                            #[trigger] dv[x],
                        ) by {
                            assert(self.workers@[indices@[x] as int].address@ == dv[x]);
                        }
                        let w = self.workers@[spec_worker_index(*self, dv[g as int])];
                        assert(!spec_gate_allows(w.outbound, storage@, *sender));
                        assert(!spec_route_admits(*self, storage@, *sender, dv));
                    }
                    return Ok(Delivery::Dropped);
                }
            }
            g += 1;
        }
        let last = indices[hops - 1];
        proof {
            let dv = route.deep_view();
            assert forall|x: int| 0 <= x < dv.len() implies spec_resolves(
                *self,
                #[trigger] dv[x],
            ) by {
                assert(self.workers@[indices@[x] as int].address@ == dv[x]);
            }
            lemma_worker_index_unique(*self, last as int);
            assert(route.deep_view().last() == route.deep_view()[hops as int - 1]);
        }
        let ghost prev_workers = self.workers@;
        let worker = self.workers.remove(last);
        let Worker { address, inbound, outbound, kind } = worker;
        match kind {
            WorkerKind::Mailbox(mut delivered) => {
                delivered.push(message);
                let new_worker = Worker {
                    address,
                    inbound,
                    outbound,
                    kind: WorkerKind::Mailbox(delivered),
                };
                self.workers.insert(last, new_worker);
                proof {
                    let removed = prev_workers.remove(last as int);
                    prev_workers.remove_ensures(last as int);
                    removed.insert_ensures(last as int, new_worker);
                    assert(self.workers@.len() == prev_workers.len());
                    assert(self.workers@[last as int] == new_worker);
                    assert forall|j: int|
                        0 <= j < prev_workers.len() && j != last as int implies self.workers@[j]
                        == prev_workers[j] by {
                        if j < last as int {
                            assert(self.workers@[j] == removed[j]);
                            assert(removed[j] == prev_workers[j]);
                        } else {
                            assert(self.workers@[j] == removed[j - 1]);
                            assert(removed[j - 1] == prev_workers[j]);
                        }
                    }
                    assert forall|i: int, j: int|
                        0 <= i < j < self.workers@.len() implies (#[trigger] self.workers@[
                        i]).address@ != (#[trigger] self.workers@[j]).address@ by {
                        assert(self.workers@[i].address@ == prev_workers[i].address@);
                        assert(self.workers@[j].address@ == prev_workers[j].address@);
                        assert(prev_workers[i].address@ != prev_workers[j].address@);
                    }
                }
                Ok(Delivery::Delivered(None))
            },
            WorkerKind::Exchange(exchange_worker) => {
                let reply = match &message {
                    Message::Present(m) => exchange_worker.handle_presentation(
                        storage,
                        sender,
                        m,
                        now,
                    ),
                    Message::Text(_) => None,
                };
                let new_worker = Worker {
                    address,
                    inbound,
                    outbound,
                    kind: WorkerKind::Exchange(exchange_worker),
                };
                self.workers.insert(last, new_worker);
                proof {
                    let removed = prev_workers.remove(last as int);
                    prev_workers.remove_ensures(last as int);
                    removed.insert_ensures(last as int, new_worker);
                    assert(new_worker == prev_workers[last as int]);
                    assert forall|j: int|
                        0 <= j < prev_workers.len() implies self.workers@[j] == prev_workers[j]
                        by {
                        if j < last as int {
                            assert(self.workers@[j] == removed[j]);
                            assert(removed[j] == prev_workers[j]);
                        } else if j == last as int {
                        } else {
                            assert(self.workers@[j] == removed[j - 1]);
                            assert(removed[j - 1] == prev_workers[j]);
                        }
                    }
                    assert(self.workers@ =~= prev_workers);
                }
                Ok(Delivery::Delivered(reply))
            },
        }
    }
}

} // verus!
