use airdrop::commands::{get_device_info, list_peers};
use airdrop::daemon::{
    DaemonCore, DaemonError, DaemonEvent, DaemonNotification, TickInput, REAP_TIMEOUT_MS,
};
use airdrop::discovery::{Addr, Discovery, Peer};
use airdrop::receive::TransferEvent;
use airdrop::session::SessionEvent;
use airdrop::u64_to_string;

fn make_core() -> DaemonCore {
    DaemonCore::new(String::from("mydevice"), 5000, String::from("downloads"))
}

fn peer(id: &str, name: &str, ip: &str, port: u16) -> Peer {
    Peer {
        id: String::from(id),
        name: String::from(name),
        addr: Addr { ip: String::from(ip), port },
        last_seen: 0,
    }
}

fn send_cmd(name: &str) -> DaemonEvent {
    DaemonEvent::SendFile { peer_name: String::from(name), file: String::from("/tmp/report.pdf") }
}

#[test]
fn send_to_unknown_peer_fails_without_io() {
    // No session for the name: the command is rejected as "peer not online"
    // and resolves to no plan, so nothing is ever connected or sent.
    let c = make_core();
    match c.handle_command(&send_cmd("ghost"), true) {
        Err(DaemonError::PeerNotOnline { peer_name }) => assert_eq!(peer_name, "ghost"),
        _ => panic!("expected PeerNotOnline"),
    }
}

#[test]
fn send_to_online_peer_targets_its_ip_at_bind_port() {
    let mut c = make_core();
    let ev = c.on_peer_discovered(peer("id-1", "bob", "192.168.1.7", 40001), 0);
    assert!(ev.is_some());
    let plan = c.handle_command(&send_cmd("bob"), true).expect("peer is online");
    // The observed source port is not used for transfers; the engine's
    // configured port is.
    assert_eq!(plan.remote, "192.168.1.7:5000");
    assert_eq!(plan.file, "/tmp/report.pdf");
}

#[test]
fn send_missing_file_fails() {
    let mut c = make_core();
    c.on_peer_discovered(peer("id-1", "bob", "192.168.1.7", 40001), 0);
    match c.handle_command(&send_cmd("bob"), false) {
        Err(DaemonError::FileNotFound { file }) => assert_eq!(file, "/tmp/report.pdf"),
        _ => panic!("expected FileNotFound"),
    }
}

#[test]
fn reap_tick_uses_thirty_second_timeout() {
    assert_eq!(REAP_TIMEOUT_MS, 30_000);
    let mut c = make_core();
    c.on_peer_discovered(peer("id-1", "bob", "192.168.1.7", 40001), 0);
    assert!(c.reap_tick(REAP_TIMEOUT_MS).is_empty());
    let evs = c.reap_tick(REAP_TIMEOUT_MS + 1);
    assert_eq!(evs.len(), 1);
    assert!(c.get_online_peers().is_empty());
    // The send command now fails: the peer is gone.
    assert!(matches!(
        c.handle_command(&send_cmd("bob"), true),
        Err(DaemonError::PeerNotOnline { .. })
    ));
}

#[test]
fn device_info_reports_configuration() {
    let c = make_core();
    let info = c.get_device_info();
    assert_eq!(info.name, "mydevice");
    assert_eq!(info.port, 5000);
    let front = get_device_info(&c);
    assert_eq!(front.name, "mydevice");
    assert_eq!(front.port, 5000);
}

#[test]
fn list_peers_flattens_addresses() {
    let mut c = make_core();
    c.on_peer_discovered(peer("id-1", "bob", "192.168.1.7", 40001), 0);
    c.on_peer_discovered(peer("id-2", "eve", "192.168.1.8", 40002), 0);
    let infos = list_peers(&c);
    assert_eq!(infos.len(), 2);
    assert_eq!(infos[0].id, "id-1");
    assert_eq!(infos[0].name, "bob");
    assert_eq!(infos[0].addr, "192.168.1.7:40001");
    assert_eq!(infos[1].addr, "192.168.1.8:40002");
}

#[test]
fn own_announcement_never_becomes_a_peer() {
    // The daemon's own broadcast, observed by its own listener, is dropped.
    let mut c = make_core();
    let msg = c.announcement();
    let src = Addr { ip: String::from("127.0.0.1"), port: 5353 };
    let observed = airdrop::discovery::observe_datagram(&msg, &src, c.device_id(), 1);
    assert!(observed.is_none());
    if let Some(p) = observed {
        c.on_peer_discovered(p, 1);
    }
    assert!(c.get_online_peers().is_empty());
}

#[test]
fn transfer_manager_holds_download_dir() {
    let c = make_core();
    assert_eq!(c.transfer_manager().download_dir(), "downloads");
}

#[test]
fn tick_turns_foreign_datagram_into_online_notification() {
    let mut c = make_core();
    let other = Discovery::new("neighbor");
    let src = Addr { ip: String::from("192.168.1.20"), port: 5353 };
    let out = c.tick(TickInput::Datagram { msg: other.announcement(), src }, 50);
    assert!(out.send.is_none());
    assert!(out.error.is_none());
    assert_eq!(out.notifications.len(), 1);
    match &out.notifications[0] {
        DaemonNotification::Session(SessionEvent::PeerOnline(p)) => {
            assert_eq!(p.name, "neighbor");
            assert_eq!(p.addr.ip, "192.168.1.20");
        }
        _ => panic!("expected a PeerOnline notification"),
    }
    assert_eq!(c.get_online_peers().len(), 1);
}

#[test]
fn tick_suppresses_own_datagram() {
    let mut c = make_core();
    let msg = c.announcement();
    let src = Addr { ip: String::from("127.0.0.1"), port: 5353 };
    let out = c.tick(TickInput::Datagram { msg, src }, 50);
    assert!(out.notifications.is_empty());
    assert!(c.get_online_peers().is_empty());
}

#[test]
fn tick_repeated_observation_is_silent() {
    let mut c = make_core();
    let other = Discovery::new("neighbor");
    let src = Addr { ip: String::from("192.168.1.20"), port: 5353 };
    let first = c.tick(TickInput::Datagram { msg: other.announcement(), src: src.clone() }, 50);
    assert_eq!(first.notifications.len(), 1);
    let second = c.tick(TickInput::Datagram { msg: other.announcement(), src }, 60);
    assert!(second.notifications.is_empty());
    assert_eq!(c.get_online_peers().len(), 1);
}

#[test]
fn tick_reap_emits_offline_notifications() {
    let mut c = make_core();
    c.on_peer_discovered(peer("id-1", "bob", "192.168.1.7", 40001), 0);
    let out = c.tick(TickInput::Reap, REAP_TIMEOUT_MS + 1);
    assert_eq!(out.notifications.len(), 1);
    assert!(matches!(
        out.notifications[0],
        DaemonNotification::Session(SessionEvent::PeerOffline(_))
    ));
    assert!(c.get_online_peers().is_empty());
}

#[test]
fn tick_command_resolves_to_send_plan() {
    let mut c = make_core();
    c.on_peer_discovered(peer("id-1", "bob", "192.168.1.7", 40001), 0);
    let out = c.tick(TickInput::Command { cmd: send_cmd("bob"), file_exists: true }, 1);
    assert!(out.notifications.is_empty());
    assert!(out.error.is_none());
    assert_eq!(out.send.expect("peer online, file present").remote, "192.168.1.7:5000");
    let out2 = c.tick(TickInput::Command { cmd: send_cmd("nobody"), file_exists: true }, 2);
    assert!(out2.send.is_none());
    assert!(matches!(out2.error, Some(DaemonError::PeerNotOnline { .. })));
}

#[test]
fn tick_passes_transfer_events_through() {
    let mut c = make_core();
    let ev = TransferEvent::ReceiveFailed { error: String::from("boom"), sender_addr: None };
    let out = c.tick(TickInput::Transfer(ev), 1);
    assert_eq!(out.notifications.len(), 1);
    assert!(matches!(
        &out.notifications[0],
        DaemonNotification::Transfer(TransferEvent::ReceiveFailed { .. })
    ));
}

#[test]
fn decimal_rendering_exact() {
    assert_eq!(u64_to_string(0), "0");
    assert_eq!(u64_to_string(10), "10");
    assert_eq!(u64_to_string(5000), "5000");
    assert_eq!(u64_to_string(u64::MAX), "18446744073709551615");
}
