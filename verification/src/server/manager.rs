//! The table of open connections.
use crate::addr::{AddrKey, PeerAddr};
use crate::packet::{Delivery, Record, Responder};
use crate::shared::share;
use std::collections::BTreeMap;
use std::sync::Arc;
use tokio::sync::RwLock;
use vstd::prelude::*;
use vstd::string::StringExecFns;

verus! {

broadcast use vstd::laws_cmp::group_laws_cmp;

/// A lock around a value that several tasks read and one at a time changes.
#[verifier::external_type_specification]
#[verifier::external_body]
#[verifier::reject_recursive_types(T)]
pub struct ExRwLock<T: ?Sized>(RwLock<T>);

/// The responders of the open connections, by the address of the peer.
pub struct Connections {
    table: BTreeMap<AddrKey, Responder>,
}

impl View for Connections {
    type V = Map<AddrKey, Responder>;

    closed spec fn view(&self) -> Map<AddrKey, Responder> {
        self.table@
    }
}

/// The connections that a lock was made around.
pub uninterp spec fn made_around(lock: RwLock<Connections>) -> Map<AddrKey, Responder>;

/// Calls `RwLock::new`: makes a lock around `connections`, not held by anyone.
#[verifier::external_body]
fn new_lock(connections: Connections) -> (lock: RwLock<Connections>)
    ensures
        made_around(lock) == connections@,
{
    RwLock::new(connections)
}

/// A handle on the connections of a server. Its clones share the connections.
///
/// A method works on the connections while the caller holds the handle's lock,
/// and takes what the lock guards as its argument `connections`.
pub struct ConnectionManager<D> {
    /// The connections behind their lock.
    pub connections: Arc<RwLock<Connections>>,
    /// What to call when a connection is gone.
    pub on_disconnect: Option<Arc<D>>,
}

/// The deliveries bring `data` to the connections that `keys` names, one
/// delivery for each, in that order.
pub open spec fn reaches_in_order(
    keys: Seq<AddrKey>,
    deliveries: Seq<Delivery>,
    connections: Map<AddrKey, Responder>,
    data: Seq<u8>,
) -> bool {
    &&& keys.len() == deliveries.len()
    &&& forall|i: int|
        0 <= i < keys.len() ==> (#[trigger] deliveries[i]).brings(
            connections[#[trigger] keys[i]],
            data,
        )
}

/// Each delivery brings `data` to one of `connections`, and each of
/// `connections` has exactly one. The order is not fixed.
pub open spec fn reaches_all(
    deliveries: Seq<Delivery>,
    connections: Map<AddrKey, Responder>,
    data: Seq<u8>,
) -> bool {
    exists|keys: Seq<AddrKey>|
        {
            &&& #[trigger] keys.no_duplicates()
            &&& keys.to_set() == connections.dom()
            &&& reaches_in_order(keys, deliveries, connections, data)
        }
}

/// From `before` to `after` the record goes through `records`: the connections
/// that `keys` names get `data`, one item each, in that order.
pub open spec fn passes_through(
    keys: Seq<AddrKey>,
    records: Seq<Record>,
    connections: Map<AddrKey, Responder>,
    before: Record,
    after: Record,
    data: Seq<u8>,
) -> bool {
    &&& records.len() == keys.len() + 1
    &&& records.first() == before
    &&& records.last() == after
    &&& forall|i: int|
        0 <= i < keys.len() ==> connections[#[trigger] keys[i]].gets_one(
            records[i],
            records[i + 1],
            data,
        )
}

/// From `before` to `after` each of `connections` gets `data` once, and nobody
/// gets anything else. The order is not fixed.
pub open spec fn each_gets_one(
    connections: Map<AddrKey, Responder>,
    before: Record,
    after: Record,
    data: Seq<u8>,
) -> bool {
    exists|keys: Seq<AddrKey>, records: Seq<Record>|
        {
            &&& keys.no_duplicates()
            &&& keys.to_set() == connections.dom()
            &&& #[trigger] passes_through(keys, records, connections, before, after, data)
        }
}

impl Connections {
    /// Returns the connections, each once: its key and another way to the same
    /// peer.
    pub fn entries(&self) -> (entries: Vec<(AddrKey, Responder)>)
        ensures
            entries@.len() == self@.len(),
            forall|i: int|
                0 <= i < entries@.len() ==> {
                    &&& self@.contains_key((#[trigger] entries@[i]).0)
                    &&& self@[entries@[i].0] == entries@[i].1
                },
            forall|i: int, j: int|
                0 <= i < j < entries@.len() ==> (#[trigger] entries@[i]).0 != (
                #[trigger] entries@[j]).0,
            forall|key: AddrKey| #[trigger]
                self@.contains_key(key) ==> entries@.contains((key, self@[key])),
    {
        let mut entries: Vec<(AddrKey, Responder)> = Vec::new();
        let ghost mut pairs: Seq<(&AddrKey, &Responder)> = Seq::empty();
        for entry in walk: self.table.iter()
            invariant
                entries@.len() == walk.index(),
                pairs == walk.seq().take(walk.index()),
                forall|i: int|
                    0 <= i < entries@.len() ==> {
                        &&& (#[trigger] entries@[i]).0 == *walk.seq()[i].0
                        &&& entries@[i].1 == *walk.seq()[i].1
                    },
        {
            entries.push((*entry.0, entry.1.clone()));
            proof {
                pairs = pairs.push(entry);
            }
        }
        proof {
            let walk = vstd::std_specs::btree::spec_btree_map_iter(&self.table);
            let all = vstd::std_specs::iter::IteratorSpec::remaining(&walk);
            assert(pairs =~= all);
            assert forall|i: int, j: int| 0 <= i < j < entries@.len() implies (
            #[trigger] entries@[i]).0 != (#[trigger] entries@[j]).0 by {
                assert(pairs[i] != pairs[j]);
                assert(self@[*all[i].0] == *all[i].1);
                assert(self@[*all[j].0] == *all[j].1);
            }
            assert forall|key: AddrKey| #[trigger] self@.contains_key(key) implies entries@.contains(
                (key, self@[key]),
            ) by {
                assert(all.contains((&key, &self@[key])));
                let i = choose|i: int| 0 <= i < all.len() && all[i] == (&key, &self@[key]);
                assert(entries@[i] == (key, self@[key]));
            }
        }
        entries
    }

    /// Sends a copy of `data` to every connection.
    pub fn send_to_all(&self, data: &[u8]) -> (deliveries: Vec<Delivery>)
        ensures
            reaches_all(deliveries@, self@, data@),
    {
        let mut record = Record::new();
        self.send_to_all_recorded(data, &mut record)
    }

    /// Sends a copy of `data` to every connection and records it.
    pub fn send_to_all_recorded(&self, data: &[u8], record: &mut Record) -> (deliveries: Vec<
        Delivery,
    >)
        ensures
            reaches_all(deliveries@, self@, data@),
            each_gets_one(self@, *old(record), *final(record), data@),
    {
        let ghost mut records: Seq<Record> = seq![*record];
        let ghost mut keys: Seq<AddrKey> = Seq::empty();
        let mut deliveries: Vec<Delivery> = Vec::new();
        for key in walk: self.table.keys()
            invariant
                keys.len() == walk.index(),
                deliveries@.len() == walk.index(),
                records.len() == walk.index() + 1,
                records.first() == *old(record),
                records.last() == *record,
                walk.seq().unref().to_set() == self@.dom(),
                forall|i: int| 0 <= i < keys.len() ==> #[trigger] keys[i] == *walk.seq()[i],
                forall|i: int|
                    0 <= i < keys.len() ==> (#[trigger] deliveries@[i]).brings(
                        self@[#[trigger] keys[i]],
                        data@,
                    ),
                forall|i: int|
                    0 <= i < keys.len() ==> self@[#[trigger] keys[i]].gets_one(
                        records[i],
                        records[i + 1],
                        data@,
                    ),
        {
            assert(walk.seq().unref()[walk.index()] == *key);
            assert(walk.seq().unref().to_set().contains(*key));
            if let Some(delivery) = self.send_at_recorded(*key, data, record) {
                deliveries.push(delivery);
            }
            proof {
                keys = keys.push(*key);
                records = records.push(*record);
            }
        }
        proof {
            let walk = vstd::std_specs::btree::spec_keys_iter(&self.table);
            let all = vstd::std_specs::iter::IteratorSpec::remaining(&walk);
            assert(keys =~= all.unref());
            assert(keys.no_duplicates());
            assert(reaches_in_order(keys, deliveries@, self@, data@));
            assert(passes_through(keys, records, self@, *old(record), *record, data@));
        }
        deliveries
    }

    /// Sends a copy of `data` to the connection that is filed under `key`, if
    /// there is one, and records it.
    pub fn send_at_recorded(&self, key: AddrKey, data: &[u8], record: &mut Record) -> (delivery:
        Option<Delivery>)
        ensures
            match delivery {
                Some(delivery) => {
                    &&& self@.contains_key(key)
                    &&& delivery.brings(self@[key], data@)
                    &&& delivery.recorded(*final(record))
                    &&& self@[key].gets_one(*old(record), *final(record), data@)
                },
                None => {
                    &&& !self@.contains_key(key)
                    &&& final(record).same(*old(record))
                },
            },
    {
        match self.table.get(&key) {
            Some(responder) => Some(responder.send_recorded(data, record)),
            None => None,
        }
    }
}

impl<D> Clone for ConnectionManager<D> {
    /// Returns another handle on the same connections.
    fn clone(&self) -> (other: Self)
        ensures
            other == *self,
    {
        ConnectionManager {
            connections: share(&self.connections),
            on_disconnect: match &self.on_disconnect {
                Some(handler) => Some(share(handler)),
                None => None,
            },
        }
    }
}

impl<D> ConnectionManager<D> {
    /// Returns a handle on a new table without connections.
    pub fn new() -> (manager: Self)
        ensures
            made_around(*manager.connections) == Map::<AddrKey, Responder>::empty(),
            manager.on_disconnect is None,
    {
        let connections = Connections { table: BTreeMap::new() };
        ConnectionManager { connections: Arc::new(new_lock(connections)), on_disconnect: None }
    }

    /// Files `responder` under `addr`, in place of what was filed there.
    pub fn register(&self, connections: &mut Connections, addr: PeerAddr, responder: Responder)
        ensures
            final(connections)@ == old(connections)@.insert(addr.key(), responder),
    {
        connections.table.insert(addr.to_key(), responder);
    }

    /// Strikes out what is filed under `addr`, if anything is, and returns the
    /// handler to call.
    pub fn unregister(&self, connections: &mut Connections, addr: PeerAddr) -> (handler: Option<
        Arc<D>,
    >)
        ensures
            final(connections)@ == old(connections)@.remove(addr.key()),
            handler == self.on_disconnect,
    {
        connections.table.remove(&addr.to_key());
        match &self.on_disconnect {
            Some(handler) => Some(share(handler)),
            None => None,
        }
    }

    /// Sends a copy of `data` to the peer at `addr`, once, and to nobody else.
    /// Whether the peer's queue took it makes no difference to the result.
    pub fn send_to(&self, connections: &Connections, addr: PeerAddr, data: &[u8]) -> (result: Result<
        Delivery,
        String,
    >)
        ensures
            match result {
                Ok(delivery) => {
                    &&& connections@.contains_key(addr.key())
                    &&& delivery.brings(connections@[addr.key()], data@)
                    &&& delivery.alone()
                },
                Err(text) => {
                    &&& !connections@.contains_key(addr.key())
                    &&& text@ == "Client not found"@
                },
            },
    {
        let mut record = Record::new();
        let result = self.send_to_recorded(connections, addr, data, &mut record);
        proof {
            if result is Ok {
                crate::packet::lemma_alone(result->Ok_0, record);
            }
        }
        result
    }

    /// Sends a copy of `data` to the peer at `addr` and records it.
    pub fn send_to_recorded(
        &self,
        connections: &Connections,
        addr: PeerAddr,
        data: &[u8],
        record: &mut Record,
    ) -> (result: Result<Delivery, String>)
        ensures
            match result {
                Ok(delivery) => {
                    &&& connections@.contains_key(addr.key())
                    &&& delivery.brings(connections@[addr.key()], data@)
                    &&& delivery.recorded(*final(record))
                    &&& connections@[addr.key()].gets_one(*old(record), *final(record), data@)
                },
                Err(text) => {
                    &&& !connections@.contains_key(addr.key())
                    &&& text@ == "Client not found"@
                    &&& final(record).same(*old(record))
                },
            },
    {
        match connections.send_at_recorded(addr.to_key(), data, record) {
            Some(delivery) => Ok(delivery),
            None => Err(String::from_str("Client not found")),
        }
    }

    /// Sends a copy of `data` to every connection.
    pub fn broadcast(&self, connections: &Connections, data: &[u8]) -> (deliveries: Vec<Delivery>)
        ensures
            reaches_all(deliveries@, connections@, data@),
    {
        connections.send_to_all(data)
    }

    /// Returns the number of connections.
    pub fn connection_count(&self, connections: &Connections) -> (count: usize)
        ensures
            count == connections@.len(),
    {
        connections.table.len()
    }
}

/// What is registered last under an address is what is reached there, and
/// registering one address changes nothing for another.
pub proof fn law_registered_is_reached(
    connections: Map<AddrKey, Responder>,
    addr: PeerAddr,
    responder: Responder,
    other: PeerAddr,
)
    ensures
        ({
            let after = connections.insert(addr.key(), responder);
            &&& after.contains_key(addr.key())
            &&& after[addr.key()] == responder
            &&& other != addr ==> {
                &&& after.contains_key(other.key()) == connections.contains_key(other.key())
                &&& connections.contains_key(other.key()) ==> after[other.key()]
                    == connections[other.key()]
            }
        }),
{
    crate::addr::law_keys_tell_addresses_apart(addr, other);
}

/// What is unregistered is reached no more, and unregistering one address
/// changes nothing for another.
pub proof fn law_unregistered_is_not_reached(
    connections: Map<AddrKey, Responder>,
    addr: PeerAddr,
    other: PeerAddr,
)
    ensures
        ({
            let after = connections.remove(addr.key());
            &&& !after.contains_key(addr.key())
            &&& other != addr ==> {
                &&& after.contains_key(other.key()) == connections.contains_key(other.key())
                &&& connections.contains_key(other.key()) ==> after[other.key()]
                    == connections[other.key()]
            }
        }),
{
    crate::addr::law_keys_tell_addresses_apart(addr, other);
}

/// Unregistering an address that was new when it was registered leaves the
/// connections as they were before.
pub proof fn law_unregister_undoes_register(
    connections: Map<AddrKey, Responder>,
    addr: PeerAddr,
    responder: Responder,
)
    requires
        !connections.contains_key(addr.key()),
    ensures
        connections.insert(addr.key(), responder).remove(addr.key()) == connections,
{
    assert(connections.insert(addr.key(), responder).remove(addr.key()) =~= connections);
}

/// Registering counts a connection once, under its address, and unregistering
/// takes it off the count.
pub proof fn law_connections_are_counted(
    connections: Map<AddrKey, Responder>,
    addr: PeerAddr,
    responder: Responder,
)
    requires
        connections.dom().finite(),
    ensures
        connections.insert(addr.key(), responder).len() == connections.len() + if
            connections.contains_key(addr.key()) {
            0int
        } else {
            1int
        },
        connections.remove(addr.key()).len() == connections.len() - if connections.contains_key(
            addr.key(),
        ) {
            1int
        } else {
            0int
        },
{
    let key = addr.key();
    assert(connections.insert(key, responder).dom() =~= connections.dom().insert(key));
    assert(connections.remove(key).dom() =~= connections.dom().remove(key));
}

/// What is sent to all makes as many deliveries as there are connections. Each
/// goes to one of them, and each of them has one: `order` says which, and it
/// gives no two deliveries the same connection.
pub proof fn law_all_are_reached_once(
    deliveries: Seq<Delivery>,
    connections: Map<AddrKey, Responder>,
    data: Seq<u8>,
) -> (order: Seq<AddrKey>)
    requires
        reaches_all(deliveries, connections, data),
    ensures
        deliveries.len() == connections.len(),
        order.len() == deliveries.len(),
        order.no_duplicates(),
        forall|i: int|
            0 <= i < order.len() ==> {
                &&& connections.contains_key(#[trigger] order[i])
                &&& deliveries[i].brings(connections[order[i]], data)
            },
        forall|key: AddrKey| #[trigger]
            connections.contains_key(key) ==> exists|i: int|
                0 <= i < order.len() && order[i] == key && (#[trigger] deliveries[i]).brings(
                    connections[key],
                    data,
                ),
{
    let order = choose|keys: Seq<AddrKey>|
        {
            &&& #[trigger] keys.no_duplicates()
            &&& keys.to_set() == connections.dom()
            &&& reaches_in_order(keys, deliveries, connections, data)
        };
    order.unique_seq_to_set();
    assert forall|i: int| 0 <= i < order.len() implies connections.contains_key(
        #[trigger] order[i],
    ) && deliveries[i].brings(connections[order[i]], data) by {
        assert(order.to_set().contains(order[i]));
        assert(deliveries[i].brings(connections[order[i]], data));
    }
    assert forall|key: AddrKey| #[trigger] connections.contains_key(key) implies exists|i: int|
        0 <= i < order.len() && order[i] == key && (#[trigger] deliveries[i]).brings(
            connections[key],
            data,
        ) by {
        assert(order.to_set().contains(key));
        let i = choose|i: int| 0 <= i < order.len() && order[i] == key;
        assert(deliveries[i].brings(connections[order[i]], data));
    }
    order
}

/// Sending to each connection once, by its address and in any order, makes the
/// deliveries that sending to all makes.
pub proof fn law_sending_to_each_is_sending_to_all(
    addrs: Seq<PeerAddr>,
    deliveries: Seq<Delivery>,
    connections: Map<AddrKey, Responder>,
    data: Seq<u8>,
)
    requires
        addrs.no_duplicates(),
        addrs.len() == deliveries.len(),
        forall|i: int|
            0 <= i < addrs.len() ==> {
                &&& connections.contains_key((#[trigger] addrs[i]).key())
                &&& deliveries[i].brings(connections[addrs[i].key()], data)
            },
        forall|key: AddrKey| #[trigger]
            connections.contains_key(key) ==> exists|i: int|
                0 <= i < addrs.len() && (#[trigger] addrs[i]).key() == key,
    ensures
        reaches_all(deliveries, connections, data),
{
    let keys = addrs.map_values(|addr: PeerAddr| addr.key());
    assert forall|i: int, j: int| 0 <= i < j < keys.len() implies keys[i] != keys[j] by {
        crate::addr::law_keys_tell_addresses_apart(addrs[i], addrs[j]);
    }
    assert forall|key: AddrKey| #[trigger]
        keys.to_set().contains(key) <==> connections.dom().contains(key) by {
        if keys.to_set().contains(key) {
            let i = choose|i: int| 0 <= i < keys.len() && keys[i] == key;
            assert(addrs[i].key() == key);
        }
        if connections.contains_key(key) {
            let i = choose|i: int| 0 <= i < addrs.len() && (#[trigger] addrs[i]).key() == key;
            assert(keys[i] == key);
        }
    }
    assert(keys.to_set() =~= connections.dom());
    assert(keys.no_duplicates());
    assert forall|i: int| 0 <= i < keys.len() implies (#[trigger] deliveries[i]).brings(
        connections[#[trigger] keys[i]],
        data,
    ) by {
        assert(keys[i] == addrs[i].key());
    }
}

/// What is sent to all reaches an address that was registered twice only by
/// the responder that was registered last, and an address that was unregistered
/// not at all.
pub proof fn law_all_are_those_registered(
    deliveries: Seq<Delivery>,
    connections: Map<AddrKey, Responder>,
    addr: PeerAddr,
    former: Responder,
    latest: Responder,
    data: Seq<u8>,
)
    ensures
        reaches_all(
            deliveries,
            connections.insert(addr.key(), former).insert(addr.key(), latest),
            data,
        ) == reaches_all(deliveries, connections.insert(addr.key(), latest), data),
        reaches_all(
            deliveries,
            connections.insert(addr.key(), latest).remove(addr.key()),
            data,
        ) == reaches_all(deliveries, connections.remove(addr.key()), data),
{
    let key = addr.key();
    assert(connections.insert(key, former).insert(key, latest) =~= connections.insert(key, latest));
    assert(connections.insert(key, latest).remove(key) =~= connections.remove(key));
}

} // verus!
