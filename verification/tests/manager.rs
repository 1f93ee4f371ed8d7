use netflow::addr::PeerAddr;
use netflow::packet::Settled;
use netflow::server::{ConnectionManager, Connections};
use netflow::Responder;
use std::sync::Arc;
use tokio::sync::mpsc::{unbounded_channel, UnboundedReceiver};

fn peer(port: u16) -> PeerAddr {
    PeerAddr::V4 { ip: 0x7f00_0001, port }
}

fn tcp() -> (Responder, UnboundedReceiver<Vec<u8>>) {
    let (queue, items) = unbounded_channel();
    (Responder::Tcp(queue), items)
}

/// Runs `work` on a new manager and what its lock guards.
fn with_manager(work: impl FnOnce(&ConnectionManager<()>, &mut Connections)) {
    let manager: ConnectionManager<()> = ConnectionManager::new();
    let mut guard = manager.connections.try_write().unwrap();
    work(&manager, &mut guard);
}

#[test]
fn keys_are_distinct() {
    let addrs = [
        PeerAddr::V4 { ip: 1, port: 2 },
        PeerAddr::V4 { ip: 2, port: 1 },
        PeerAddr::V6 { ip6: 1, port: 2, flow_info: 0, scope_id: 0 },
        PeerAddr::V6 { ip6: 1, port: 2, flow_info: 1, scope_id: 0 },
        PeerAddr::V6 { ip6: 1, port: 2, flow_info: 0, scope_id: 1 },
    ];
    for (i, a) in addrs.iter().enumerate() {
        for (j, b) in addrs.iter().enumerate() {
            assert_eq!(a.to_key() == b.to_key(), i == j);
        }
    }
    assert_eq!(addrs[0].to_key(), (4, 1, 2, 0, 0));
    assert_eq!(addrs[3].to_key(), (6, 1, 2, 1, 0));
}

#[test]
fn a_new_manager_is_empty() {
    with_manager(|manager, connections| {
        assert_eq!(manager.connection_count(connections), 0);
        assert!(manager.on_disconnect.is_none());
        assert!(manager.broadcast(connections, b"x").is_empty());
        match manager.send_to(connections, peer(1), b"x") {
            Err(text) => assert_eq!(text, "Client not found"),
            Ok(_) => panic!("nobody is there"),
        }
    });
}

#[test]
fn what_is_registered_is_reached() {
    with_manager(|manager, connections| {
        let (one, mut from_one) = tcp();
        let (two, mut from_two) = tcp();
        manager.register(connections, peer(1), one);
        manager.register(connections, peer(2), two);
        assert_eq!(manager.connection_count(connections), 2);
        let delivery = manager.send_to(connections, peer(2), b"to two").ok().unwrap();
        assert!(matches!(delivery.settle(), Settled::Sent));
        assert_eq!(from_two.try_recv().unwrap(), b"to two".to_vec());
        assert!(from_one.try_recv().is_err());
    });
}

#[test]
fn the_last_registration_counts() {
    with_manager(|manager, connections| {
        let (old, mut from_old) = tcp();
        let (new, mut from_new) = tcp();
        manager.register(connections, peer(1), old);
        manager.register(connections, peer(1), new);
        assert_eq!(manager.connection_count(connections), 1);
        assert!(manager.send_to(connections, peer(1), b"x").is_ok());
        assert_eq!(from_new.try_recv().unwrap(), b"x".to_vec());
        assert!(from_old.try_recv().is_err());
    });
}

#[test]
fn what_is_unregistered_is_gone() {
    with_manager(|manager, connections| {
        let (one, _from_one) = tcp();
        let (two, mut from_two) = tcp();
        manager.register(connections, peer(1), one);
        manager.register(connections, peer(2), two);
        assert!(manager.unregister(connections, peer(1)).is_none());
        assert_eq!(manager.connection_count(connections), 1);
        assert!(manager.send_to(connections, peer(1), b"x").is_err());
        assert!(manager.send_to(connections, peer(2), b"y").is_ok());
        assert_eq!(from_two.try_recv().unwrap(), b"y".to_vec());
        assert!(manager.unregister(connections, peer(9)).is_none());
        assert_eq!(manager.connection_count(connections), 1);
    });
}

#[test]
fn unregistering_names_the_handler() {
    let mut manager: ConnectionManager<&str> = ConnectionManager::new();
    let handler = Arc::new("gone");
    manager.on_disconnect = Some(handler.clone());
    let clone = manager.clone();
    let mut guard = manager.connections.try_write().unwrap();
    let called = clone.unregister(&mut guard, peer(1)).unwrap();
    assert!(Arc::ptr_eq(&called, &handler));
}

#[test]
fn a_refused_delivery_is_still_a_delivery() {
    with_manager(|manager, connections| {
        let (one, from_one) = tcp();
        drop(from_one);
        manager.register(connections, peer(1), one);
        let delivery = manager.send_to(connections, peer(1), b"x").ok().unwrap();
        assert!(matches!(delivery.settle(), Settled::Refused(_)));
    });
}

#[test]
fn a_broadcast_reaches_everyone_once() {
    with_manager(|manager, connections| {
        let mut receivers = Vec::new();
        for port in 1..5 {
            let (responder, items) = tcp();
            manager.register(connections, peer(port), responder);
            receivers.push(items);
        }
        let deliveries = manager.broadcast(connections, b"all");
        assert_eq!(deliveries.len(), 4);
        for items in receivers.iter_mut() {
            assert_eq!(items.try_recv().unwrap(), b"all".to_vec());
            assert!(items.try_recv().is_err());
        }
    });
}

#[test]
fn sending_to_each_is_sending_to_all() {
    with_manager(|manager, connections| {
        let mut receivers = Vec::new();
        for port in [3, 1, 2] {
            let (former, from_former) = tcp();
            let (latest, items) = tcp();
            manager.register(connections, peer(port), former);
            manager.register(connections, peer(port), latest);
            receivers.push((from_former, items));
        }
        let (gone, mut from_gone) = tcp();
        manager.register(connections, peer(4), gone);
        manager.unregister(connections, peer(4));
        assert_eq!(connections.send_to_all(b"all").len(), 3);
        for port in [1, 2, 3] {
            assert!(manager.send_to(connections, peer(port), b"all").is_ok());
        }
        for (from_former, items) in receivers.iter_mut() {
            assert_eq!(items.try_recv().unwrap(), b"all".to_vec());
            assert_eq!(items.try_recv().unwrap(), b"all".to_vec());
            assert!(items.try_recv().is_err());
            assert!(from_former.try_recv().is_err());
        }
        assert!(from_gone.try_recv().is_err());
        assert_eq!(manager.connection_count(connections), 3);
    });
}

#[test]
fn entries_list_each_connection_once() {
    with_manager(|manager, connections| {
        assert!(connections.entries().is_empty());
        let (one, mut from_one) = tcp();
        let (two, _from_two) = tcp();
        manager.register(connections, peer(2), two);
        manager.register(connections, peer(1), one);
        let entries = connections.entries();
        let addrs: Vec<Option<PeerAddr>> =
            entries.iter().map(|entry| PeerAddr::from_key(entry.0)).collect();
        assert_eq!(addrs, vec![Some(peer(1)), Some(peer(2))]);
        entries[0].1.send(b"x");
        assert_eq!(from_one.try_recv().unwrap(), b"x".to_vec());
    });
}

#[test]
fn keys_give_back_their_addresses() {
    let v6 = PeerAddr::V6 { ip6: u128::MAX, port: 2, flow_info: 3, scope_id: 4 };
    assert_eq!(PeerAddr::from_key(peer(9).to_key()), Some(peer(9)));
    assert_eq!(PeerAddr::from_key(v6.to_key()), Some(v6));
    assert_eq!(PeerAddr::from_key((5, 0, 0, 0, 0)), None);
    assert_eq!(PeerAddr::from_key((4, 0x1_0000_0000, 0, 0, 0)), None);
    assert_eq!(PeerAddr::from_key((4, 1, 0, 1, 0)), None);
}

#[test]
fn clones_share_the_connections() {
    let manager: ConnectionManager<()> = ConnectionManager::new();
    let clone = manager.clone();
    assert!(Arc::ptr_eq(&manager.connections, &clone.connections));
    let (one, _items) = tcp();
    manager.register(&mut manager.connections.try_write().unwrap(), peer(1), one);
    let guard = clone.connections.try_read().unwrap();
    assert_eq!(clone.connection_count(&guard), 1);
}
