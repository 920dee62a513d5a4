use airdrop::discovery::{Addr, Peer};
use airdrop::session::{PeerState, Session, SessionEvent, SessionManager};

fn peer(id: &str, name: &str, ip: &str, port: u16) -> Peer {
    Peer {
        id: String::from(id),
        name: String::from(name),
        addr: Addr { ip: String::from(ip), port },
        last_seen: 0,
    }
}

#[test]
fn first_observation_emits_online_once() {
    // Repeated observations of one id emit exactly one PeerOnline.
    let mut m = SessionManager::new();
    let ev = m.on_peer_discovered(peer("id-1", "alice", "10.0.0.1", 5353), 100);
    assert!(matches!(ev, Some(SessionEvent::PeerOnline(_))));
    let ev2 = m.on_peer_discovered(peer("id-1", "alice", "10.0.0.1", 5353), 200);
    assert!(ev2.is_none());
    let ev3 = m.on_peer_discovered(peer("id-1", "alice", "10.0.0.1", 5353), 300);
    assert!(ev3.is_none());
    assert_eq!(m.online_count(), 1);
}

#[test]
fn observation_refreshes_last_seen() {
    // The session tracks the most recent observation time: after a refresh
    // at t=100000, a reap with a 30000ms timeout at t=110000 keeps it.
    let mut m = SessionManager::new();
    m.on_peer_discovered(peer("id-1", "alice", "10.0.0.1", 5353), 0);
    m.on_peer_discovered(peer("id-1", "alice", "10.0.0.1", 5353), 100_000);
    let evs = m.reap_offline(30_000, 110_000);
    assert!(evs.is_empty());
    assert_eq!(m.online_count(), 1);
}

#[test]
fn silent_peer_reaped_exactly_once_and_unresolvable() {
    let mut m = SessionManager::new();
    m.on_peer_discovered(peer("id-1", "alice", "10.0.0.1", 5353), 0);
    let evs = m.reap_offline(30_000, 30_001);
    assert_eq!(evs.len(), 1);
    match &evs[0] {
        SessionEvent::PeerOffline(p) => assert_eq!(p.id, "id-1"),
        SessionEvent::PeerOnline(_) => panic!("expected PeerOffline"),
    }
    assert!(m.find_peer_by_id("id-1").is_none());
    assert!(m.find_peer_by_name("alice").is_none());
    assert!(m.get_peer("id-1").is_none());
    assert_eq!(m.online_count(), 0);
    // A second reap emits nothing more.
    let evs2 = m.reap_offline(30_000, 60_000);
    assert!(evs2.is_empty());
}

#[test]
fn reap_boundary_is_strict() {
    // Silence of exactly the timeout is not yet stale: the duration must
    // exceed it.
    let mut m = SessionManager::new();
    m.on_peer_discovered(peer("id-1", "alice", "10.0.0.1", 5353), 0);
    let evs = m.reap_offline(30_000, 30_000);
    assert!(evs.is_empty());
    assert_eq!(m.online_count(), 1);
}

#[test]
fn sessions_keyed_by_id_not_name() {
    // Two peers sharing a display name stay distinct sessions.
    let mut m = SessionManager::new();
    let e1 = m.on_peer_discovered(peer("id-1", "laptop", "10.0.0.1", 5353), 0);
    let e2 = m.on_peer_discovered(peer("id-2", "laptop", "10.0.0.2", 5353), 0);
    assert!(e1.is_some());
    assert!(e2.is_some());
    assert_eq!(m.online_count(), 2);
    let p1 = m.find_peer_by_id("id-1").unwrap();
    let p2 = m.find_peer_by_id("id-2").unwrap();
    assert_eq!(p1.addr.ip, "10.0.0.1");
    assert_eq!(p2.addr.ip, "10.0.0.2");
}

#[test]
fn reap_removes_only_stale_sessions() {
    let mut m = SessionManager::new();
    m.on_peer_discovered(peer("id-old", "old", "10.0.0.1", 5353), 0);
    m.on_peer_discovered(peer("id-new", "new", "10.0.0.2", 5353), 25_000);
    let evs = m.reap_offline(30_000, 40_000);
    assert_eq!(evs.len(), 1);
    match &evs[0] {
        SessionEvent::PeerOffline(p) => assert_eq!(p.id, "id-old"),
        SessionEvent::PeerOnline(_) => panic!("expected PeerOffline"),
    }
    assert!(m.find_peer_by_id("id-old").is_none());
    assert!(m.find_peer_by_id("id-new").is_some());
}

#[test]
fn lookups_and_listing() {
    let mut m = SessionManager::new();
    assert!(m.find_peer_by_name("nobody").is_none());
    m.on_peer_discovered(peer("id-1", "alice", "10.0.0.1", 4000), 0);
    m.on_peer_discovered(peer("id-2", "bob", "10.0.0.2", 4001), 0);
    let by_name = m.find_peer_by_name("bob").unwrap();
    assert_eq!(by_name.id, "id-2");
    let all = m.get_online_peers();
    assert_eq!(all.len(), 2);
    assert_eq!(all[0].name, "alice");
    assert_eq!(all[1].name, "bob");
}

#[test]
fn session_is_online() {
    let s = Session {
        peer: peer("id-1", "alice", "10.0.0.1", 5353),
        state: PeerState::Online,
        last_seen: 0,
    };
    assert!(s.is_online());
    let s2 = Session { state: PeerState::Offline, ..s };
    assert!(!s2.is_online());
}
