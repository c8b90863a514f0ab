use qp2p::addr::{IpAddr, SocketAddr};
use qp2p::bootstrap_cache::{BootstrapCache, MAX_CACHE_SIZE};
use std::collections::VecDeque;

fn make_node_addr(port: u16) -> SocketAddr {
    SocketAddr::new(IpAddr::V4(0x7f00_0001), port)
}

fn new_cache(hard_coded: Vec<SocketAddr>) -> BootstrapCache {
    BootstrapCache::new(hard_coded, String::from("bootstrap_cache"), None, false)
}

fn peers(cache: &BootstrapCache) -> Vec<SocketAddr> {
    cache.peers().iter().cloned().collect()
}

#[test]
fn when_10_peers_are_added_they_are_synced_to_disk() {
    let mut cache = new_cache(vec![]);

    let mut syncs = Vec::new();
    for i in 0..10 {
        syncs.push(cache.add_peer(make_node_addr(4000 + i)));
    }

    assert_eq!(cache.peers().len(), 10);
    // Only the tenth new peer asks for the cache to be written.
    assert_eq!(syncs, vec![false, false, false, false, false, false, false, false, false, true]);

    // What was written is what a new cache reads back.
    let stored: VecDeque<SocketAddr> = cache.peers().clone();
    let cache = BootstrapCache::new(vec![], String::from("bootstrap_cache"), Some(stored), false);
    assert_eq!(cache.peers().len(), 10);
}

#[test]
fn when_given_peer_is_in_hard_coded_contacts_it_is_not_cached() {
    let peer1 = make_node_addr(4101);
    let peer2 = make_node_addr(4102);
    let mut cache = new_cache(vec![peer1]);

    let _ = cache.add_peer(peer1);
    let _ = cache.add_peer(peer2);

    assert_eq!(peers(&cache), vec![peer2]);
}

#[test]
fn it_caps_cache_size() {
    let port_base = 5000;

    let mut cache = new_cache(vec![]);

    for i in 0..MAX_CACHE_SIZE {
        let _ = cache.add_peer(make_node_addr(port_base + i as u16));
    }
    assert_eq!(cache.peers().len(), MAX_CACHE_SIZE);

    let _ = cache.add_peer(make_node_addr(port_base + MAX_CACHE_SIZE as u16));
    assert_eq!(cache.peers().len(), MAX_CACHE_SIZE);
    // The oldest peer made room for the new one.
    assert_eq!(cache.peers()[0], make_node_addr(port_base + 1));
    assert_eq!(cache.peers()[MAX_CACHE_SIZE - 1], make_node_addr(port_base + MAX_CACHE_SIZE as u16));
}

#[test]
fn it_moves_given_node_to_the_top_of_the_list() {
    let mut cache = new_cache(vec![]);
    let peer1 = make_node_addr(4201);
    let peer2 = make_node_addr(4202);
    let peer3 = make_node_addr(4203);
    let _ = cache.add_peer(peer1);
    let _ = cache.add_peer(peer2);
    let _ = cache.add_peer(peer3);

    cache.move_to_cache_top(peer2);

    assert_eq!(peers(&cache), vec![peer1, peer3, peer2]);
}

#[test]
fn adding_a_cached_peer_moves_it_to_the_top() {
    let mut cache = new_cache(vec![]);
    let peer1 = make_node_addr(4301);
    let peer2 = make_node_addr(4302);
    let _ = cache.add_peer(peer1);
    let _ = cache.add_peer(peer2);
    assert!(!cache.add_peer(peer1));
    assert_eq!(peers(&cache), vec![peer2, peer1]);
}

#[test]
fn a_fresh_cache_ignores_what_was_stored() {
    let stored: VecDeque<SocketAddr> = vec![make_node_addr(4401)].into_iter().collect();
    let cache = BootstrapCache::new(vec![], String::from("c"), Some(stored), true);
    assert!(cache.peers().is_empty());
    assert_eq!(cache.cache_path(), "c");
}

#[test]
fn the_cache_is_written_on_every_tenth_new_peer_of_a_run() {
    let mut cache = new_cache(vec![make_node_addr(3999)]);
    let mut new_seen = 0;
    let mut seen: Vec<SocketAddr> = vec![make_node_addr(3999)];
    for i in 0..45u16 {
        // Every third add repeats a cached peer, and one add is a hard-coded contact.
        let peer = if i == 7 {
            make_node_addr(3999)
        } else if i % 3 == 2 {
            make_node_addr(5000 + i - 1)
        } else {
            make_node_addr(5000 + i)
        };
        let is_new = !seen.contains(&peer);
        if is_new {
            seen.push(peer);
            new_seen += 1;
        }
        let sync = cache.add_peer(peer);
        assert_eq!(sync, is_new && new_seen % 10 == 0, "add {}", i);
    }
}
