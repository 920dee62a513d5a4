use airdrop::discovery::{default_instant, observe_datagram, Addr, Discovery};

fn src() -> Addr {
    Addr { ip: String::from("192.168.1.50"), port: 51000 }
}

#[test]
fn announcement_has_wire_format() {
    let d = Discovery::new("alice");
    let msg = d.announcement();
    let id_text = uuid::Uuid::from_u128(d.device_id).to_string();
    assert_eq!(msg, format!("DISCOVERY:{}:{}\n", id_text, "alice"));
}

#[test]
fn own_announcement_is_suppressed() {
    // Self-broadcast datagrams never produce a peer observation.
    let d = Discovery::new("alice");
    let msg = d.announcement();
    assert!(observe_datagram(&msg, &src(), d.device_id, 42).is_none());
}

#[test]
fn foreign_announcement_produces_peer() {
    let sender = Discovery::new("bob");
    let receiver = Discovery::new("alice");
    let msg = sender.announcement();
    let peer = observe_datagram(&msg, &src(), receiver.device_id, 777)
        .expect("a foreign announcement must be observed");
    assert_eq!(peer.name, "bob");
    assert_eq!(peer.id, uuid::Uuid::from_u128(sender.device_id).to_string());
    assert_eq!(peer.addr.ip, "192.168.1.50");
    assert_eq!(peer.addr.port, 51000);
    assert_eq!(peer.last_seen, 777);
}

#[test]
fn datagram_id_is_canonicalized() {
    // An uppercase or simple-form id parses and is stored hyphenated,
    // lowercase.
    let msg = "DISCOVERY:67E5504410B1426F9247BB680E5FE0C8:carol\n";
    let peer = observe_datagram(msg, &src(), 1, 0).expect("simple-form ids parse");
    assert_eq!(peer.id, "67e55044-10b1-426f-9247-bb680e5fe0c8");
    assert_eq!(peer.name, "carol");
}

#[test]
fn self_echo_matches_across_forms() {
    // A datagram carrying the local id in another accepted spelling is still
    // recognized as a self-echo.
    let local = 0x67e5504410b1426f9247bb680e5fe0c8u128;
    let msg = "DISCOVERY:67E5504410B1426F9247BB680E5FE0C8:carol\n";
    assert!(observe_datagram(msg, &src(), local, 0).is_none());
}

#[test]
fn non_discovery_datagrams_ignored() {
    assert!(observe_datagram("HELLO:1:2\n", &src(), 1, 0).is_none());
    assert!(observe_datagram("", &src(), 1, 0).is_none());
    assert!(observe_datagram("DISCOVERY", &src(), 1, 0).is_none());
}

#[test]
fn unparseable_id_ignored() {
    assert!(observe_datagram("DISCOVERY:not-a-uuid:name\n", &src(), 1, 0).is_none());
    // No colon after the marker: no id/name split.
    assert!(observe_datagram("DISCOVERY:\n", &src(), 1, 0).is_none());
}

#[test]
fn name_keeps_interior_colons_and_loses_trailing_whitespace() {
    let sender = Discovery::new("lab:machine:3");
    let msg = sender.announcement();
    let peer = observe_datagram(&msg, &src(), 1, 0).expect("foreign announcement");
    assert_eq!(peer.name, "lab:machine:3");
}

#[test]
fn trailing_whitespace_trimmed_from_name() {
    let msg = "DISCOVERY:67e55044-10b1-426f-9247-bb680e5fe0c8:bob  \n";
    let peer = observe_datagram(msg, &src(), 1, 0).expect("hyphenated ids parse");
    assert_eq!(peer.name, "bob");
}

#[test]
fn repeated_marker_is_stripped() {
    let msg = "DISCOVERY:DISCOVERY:67e55044-10b1-426f-9247-bb680e5fe0c8:carol\n";
    let peer = observe_datagram(msg, &src(), 1, 0).expect("marker repetitions are stripped");
    assert_eq!(peer.name, "carol");
    assert_eq!(peer.id, "67e55044-10b1-426f-9247-bb680e5fe0c8");
}

#[test]
fn fresh_ids_differ() {
    let a = Discovery::new("x");
    let b = Discovery::new("x");
    assert_ne!(a.device_id, b.device_id);
    assert_eq!(a.device_name, "x");
}

#[test]
fn addr_text_form() {
    let a = Addr { ip: String::from("10.1.2.3"), port: 5000 };
    assert_eq!(a.to_text(), "10.1.2.3:5000");
}

#[test]
fn default_instant_is_wall_clock() {
    // Milliseconds since the UNIX epoch: far past a trillion by now.
    assert!(default_instant() > 1_000_000_000_000);
}
