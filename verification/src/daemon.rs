//! The daemon core: one instance each of discovery, session manager and
//! transfer engine, and the decisions of the event loop that wires them
//! together.
//!
//! The loop itself — waiting on datagrams, channels, accepted connections
//! and the reap timer — lives outside the library.  For each event source
//! the decision it leads to stands here: forwarding an observation into the
//! session manager, reaping on the timer, resolving a send command to a
//! remote address, and answering queries.

use vstd::prelude::*;
use vstd::string::StringExecFns;
use crate::discovery::{Addr, Discovery, Peer};
use crate::receive::TransferEvent;
use crate::session::{
    observed_event, offline_events, retained_after_reap, Session, SessionEvent, SessionManager,
    sessions_wf, update_observed,
};
use crate::text::dec_str;
use crate::transfer::TransferManager;

verus! {

/// Seconds between two reap ticks of the event loop.
pub const REAP_TICK_SECS: u64 = 5;

/// Milliseconds of silence after which a session is reaped.
pub const REAP_TIMEOUT_MS: u64 = 30000;

/// This device, as shown to front ends.
#[derive(Debug)]
pub struct DeviceInfo {
    pub name: String,
    pub port: u16,
}

/// What the daemon surfaces to whatever front end is attached.
#[derive(Debug)]
pub enum DaemonNotification {
    Session(SessionEvent),
    Transfer(TransferEvent),
}

/// A command a front end submits to the daemon.
pub enum DaemonEvent {
    SendFile { peer_name: String, file: String },
}

/// The peer name a command targets.
pub open spec fn cmd_peer_name(cmd: DaemonEvent) -> Seq<char> {
    match cmd {
        DaemonEvent::SendFile { peer_name, file } => peer_name@,
    }
}

/// The local file a command sends.
pub open spec fn cmd_file(cmd: DaemonEvent) -> Seq<char> {
    match cmd {
        DaemonEvent::SendFile { peer_name, file } => file@,
    }
}

/// Why a send command was rejected; recoverable, reported to the caller.
#[derive(Debug)]
pub enum DaemonError {
    PeerNotOnline { peer_name: String },
    FileNotFound { file: String },
}

/// A resolved send command: connect to `remote` and stream `file`.
pub struct SendPlan {
    pub remote: String,
    pub file: String,
}

/// Owns the three subsystems and decides what each event means.
pub struct DaemonCore {
    discovery: Discovery,
    session_manager: SessionManager,
    transfer_manager: TransferManager,
    device_name: String,
    bind_port: u16,
}

impl DaemonCore {
    pub closed spec fn spec_device_name(&self) -> Seq<char> {
        self.device_name@
    }

    pub closed spec fn spec_device_id(&self) -> u128 {
        self.discovery.device_id
    }

    pub closed spec fn spec_bind_port(&self) -> u16 {
        self.bind_port
    }

    pub closed spec fn spec_download_dir(&self) -> Seq<char> {
        self.transfer_manager.spec_download_dir()
    }

    /// The tracked session table.
    pub closed spec fn sessions(&self) -> Seq<Session> {
        self.session_manager@
    }

    /// The discovery identity advertises the same display name the core was
    /// configured with.
    pub closed spec fn config_wf(&self) -> bool {
        self.discovery.device_name@ == self.device_name@
    }

    pub open spec fn wf(&self) -> bool {
        sessions_wf(self.sessions()) && self.config_wf()
    }

    /// Builds a core with a fresh instance id, an empty session table, and
    /// the given configuration.  The caller binds the endpoint and creates
    /// the download directory before driving the loop.
    pub fn new(device_name: String, bind_port: u16, download_dir: String) -> (c: DaemonCore)
        ensures
            c.spec_device_name() == device_name@,
            c.spec_bind_port() == bind_port,
            c.spec_download_dir() == download_dir@,
            c.sessions() == Seq::<Session>::empty(),
            c.wf(),
    {
        let discovery = Discovery::new(device_name.as_str());
        let session_manager = SessionManager::new();
        let transfer_manager = TransferManager::new(download_dir);
        DaemonCore { discovery, session_manager, transfer_manager, device_name, bind_port }
    }

    /// The local instance id, for self-echo suppression in the listener.
    pub fn device_id(&self) -> (r: u128)
        ensures
            r == self.spec_device_id(),
    {
        self.discovery.device_id
    }

    /// The datagram the advertiser broadcasts; parsing it locally yields
    /// nothing.
    pub fn announcement(&self) -> (r: String)
        requires
            self.wf(),
        ensures
            r@ == crate::discovery::announcement_spec(self.spec_device_id(), self.spec_device_name()),
            crate::discovery::parse_datagram_spec(r@, self.spec_device_id()) is None,
    {
        self.discovery.announcement()
    }

    /// The transfer engine's configuration.
    pub fn transfer_manager(&self) -> (r: &TransferManager)
        ensures
            r.spec_download_dir() == self.spec_download_dir(),
    {
        &self.transfer_manager
    }

    /// Forwards one discovery observation into the session manager.
    /// Internal: produces no external notification; the returned event, if
    /// any, is the `PeerOnline` transition.
    pub fn on_peer_discovered(&mut self, peer: Peer, now: u64) -> (ev: Option<SessionEvent>)
        requires
            old(self).wf(),
        ensures
            final(self).wf(),
            final(self).sessions() == update_observed(old(self).sessions(), peer, now),
            ev == observed_event(old(self).sessions(), peer),
            final(self).spec_device_name() == old(self).spec_device_name(),
            final(self).spec_device_id() == old(self).spec_device_id(),
            final(self).spec_bind_port() == old(self).spec_bind_port(),
            final(self).spec_download_dir() == old(self).spec_download_dir(),
    {
        self.session_manager.on_peer_discovered(peer, now)
    }

    /// The periodic tick: reaps every session silent for longer than
    /// `REAP_TIMEOUT_MS` and returns their offline events.
    pub fn reap_tick(&mut self, now: u64) -> (evs: Vec<SessionEvent>)
        requires
            old(self).wf(),
        ensures
            final(self).wf(),
            final(self).sessions() == retained_after_reap(
                old(self).sessions(),
                REAP_TIMEOUT_MS,
                now,
            ),
            evs@ == offline_events(old(self).sessions(), REAP_TIMEOUT_MS, now),
            final(self).spec_device_name() == old(self).spec_device_name(),
            final(self).spec_device_id() == old(self).spec_device_id(),
            final(self).spec_bind_port() == old(self).spec_bind_port(),
            final(self).spec_download_dir() == old(self).spec_download_dir(),
    {
        self.session_manager.reap_offline(REAP_TIMEOUT_MS, now)
    }

    /// Resolves a send command: the named peer must be online and the local
    /// file present; the plan targets the peer's observed IP at the
    /// engine's configured port.  No network is touched here: a command for
    /// a peer with no active session fails with `PeerNotOnline` and nothing
    /// else happens.
    pub fn handle_command(&self, cmd: &DaemonEvent, file_exists: bool) -> (r: Result<
        SendPlan,
        DaemonError,
    >)
        ensures
            ({
                let online = exists|i: int|
                    0 <= i < self.sessions().len() && (#[trigger] self.sessions()[i]).peer.name@
                        == cmd_peer_name(*cmd);
                &&& (r is Ok <==> online && file_exists)
                &&& (r matches Err(DaemonError::PeerNotOnline { peer_name: pn }) ==> !online
                    && pn@ == cmd_peer_name(*cmd))
                &&& (!online ==> (r matches Err(DaemonError::PeerNotOnline { peer_name: pn })
                    && pn@ == cmd_peer_name(*cmd)))
                &&& (r matches Err(DaemonError::FileNotFound { file: f }) ==> online
                    && !file_exists && f@ == cmd_file(*cmd))
                &&& (online && !file_exists ==> (r matches Err(DaemonError::FileNotFound {
                    file: f,
                }) && f@ == cmd_file(*cmd)))
                &&& r matches Ok(plan) ==> {
                    &&& plan.file@ == cmd_file(*cmd)
                    &&& exists|i: int|
                        {
                            &&& 0 <= i < self.sessions().len()
                            &&& (#[trigger] self.sessions()[i]).peer.name@ == cmd_peer_name(*cmd)
                            &&& plan.remote@ == self.sessions()[i].peer.addr.ip@ + ":"@ + dec_str(
                                self.spec_bind_port() as nat,
                            )
                            &&& forall|j: int|
                                0 <= j < i ==> self.sessions()[j].peer.name@ != cmd_peer_name(
                                    *cmd,
                                )
                        }
                }
            }),
    {
        match cmd {
            DaemonEvent::SendFile { peer_name, file } => {
                match self.session_manager.find_peer_by_name(peer_name.as_str()) {
                    None => Err(DaemonError::PeerNotOnline { peer_name: peer_name.clone() }),
                    Some(peer) => {
                        if !file_exists {
                            return Err(DaemonError::FileNotFound { file: file.clone() });
                        }
                        let mut remote = peer.addr.ip.clone();
                        remote.append(":");
                        let port = crate::text::u64_to_string(self.bind_port as u64);
                        remote.append(port.as_str());
                        Ok(SendPlan { remote, file: file.clone() })
                    },
                }
            },
        }
    }

    /// All currently tracked peers.
    pub fn get_online_peers(&self) -> (r: Vec<Peer>)
        ensures
            r@.len() == self.sessions().len(),
            forall|i: int|
                0 <= i < self.sessions().len() ==> r@[i] == (#[trigger] self.sessions()[i]).peer,
    {
        self.session_manager.get_online_peers()
    }

    /// This device's name and configured port.
    pub fn get_device_info(&self) -> (r: DeviceInfo)
        ensures
            r.name@ == self.spec_device_name(),
            r.port == self.spec_bind_port(),
    {
        DeviceInfo { name: self.device_name.clone(), port: self.bind_port }
    }

    /// One turn of the event loop: exactly one ready source is consumed and
    /// its decision taken.  Observations feed the session manager (their
    /// online transitions surface as notifications), transfer events pass
    /// through as notifications, a command resolves to a send plan or a
    /// recoverable error, and the timer reaps silent sessions.  Waiting on
    /// the five sources — and acting on the returned plan — is the
    /// surrounding loop's job; ties between ready sources are its to break.
    pub fn tick(&mut self, input: TickInput, now: u64) -> (r: TickOutcome)
        requires
            old(self).wf(),
        ensures
            final(self).wf(),
            final(self).spec_device_name() == old(self).spec_device_name(),
            final(self).spec_device_id() == old(self).spec_device_id(),
            final(self).spec_bind_port() == old(self).spec_bind_port(),
            final(self).spec_download_dir() == old(self).spec_download_dir(),
            match input {
                TickInput::Datagram { msg, src } => {
                    &&& r.send is None
                    &&& r.error is None
                    &&& match crate::discovery::parse_datagram_spec(
                        msg@,
                        old(self).spec_device_id(),
                    ) {
                        None => final(self).sessions() == old(self).sessions()
                            && r.notifications@ =~= Seq::<DaemonNotification>::empty(),
                        Some((u, nm)) => exists|p: Peer|
                            {
                                &&& #[trigger] p.id@ == crate::discovery::uuid_str_of(u)
                                &&& p.name@ == nm
                                &&& p.addr.ip@ == src.ip@
                                &&& p.addr.port == src.port
                                &&& p.last_seen == now
                                &&& final(self).sessions() == update_observed(
                                    old(self).sessions(),
                                    p,
                                    now,
                                )
                                &&& r.notifications@ == session_notifications(
                                    match observed_event(old(self).sessions(), p) {
                                        None => Seq::<SessionEvent>::empty(),
                                        Some(ev) => seq![ev],
                                    },
                                )
                            },
                    }
                },
                TickInput::Transfer(ev) => {
                    &&& final(self).sessions() == old(self).sessions()
                    &&& r.notifications@ =~= seq![DaemonNotification::Transfer(ev)]
                    &&& r.send is None
                    &&& r.error is None
                },
                TickInput::Command { cmd, file_exists } => {
                    &&& final(self).sessions() == old(self).sessions()
                    &&& r.notifications@ =~= Seq::<DaemonNotification>::empty()
                    &&& !(r.send is Some && r.error is Some)
                    &&& ({
                        let online = exists|i: int|
                            0 <= i < old(self).sessions().len() && (#[trigger] old(
                                self,
                            ).sessions()[i]).peer.name@ == cmd_peer_name(cmd);
                        &&& (r.send is Some <==> online && file_exists)
                        &&& (r.error is Some <==> !(online && file_exists))
                        &&& (!online ==> (r.error matches Some(
                            DaemonError::PeerNotOnline { peer_name: pn },
                        ) && pn@ == cmd_peer_name(cmd)))
                        &&& (online && !file_exists ==> (r.error matches Some(
                            DaemonError::FileNotFound { file: f },
                        ) && f@ == cmd_file(cmd)))
                        &&& (r.send matches Some(plan) ==> plan.file@ == cmd_file(cmd)
                            && exists|i: int|
                            {
                                &&& 0 <= i < old(self).sessions().len()
                                &&& (#[trigger] old(self).sessions()[i]).peer.name@
                                    == cmd_peer_name(cmd)
                                &&& plan.remote@ == old(self).sessions()[i].peer.addr.ip@ + ":"@
                                    + dec_str(old(self).spec_bind_port() as nat)
                            })
                    })
                },
                TickInput::Reap => {
                    &&& final(self).sessions() == retained_after_reap(
                        old(self).sessions(),
                        REAP_TIMEOUT_MS,
                        now,
                    )
                    &&& r.notifications@ == session_notifications(
                        offline_events(old(self).sessions(), REAP_TIMEOUT_MS, now),
                    )
                    &&& r.send is None
                    &&& r.error is None
                },
            },
    {
        match input {
            TickInput::Datagram { msg, src } => {
                let device_id = self.discovery.device_id;
                match crate::discovery::observe_datagram(msg.as_str(), &src, device_id, now) {
                    None => TickOutcome::empty(),
                    Some(peer) => {
                        let ghost p = peer;
                        let ev = self.session_manager.on_peer_discovered(peer, now);
                        let mut notifications: Vec<DaemonNotification> = Vec::new();
                        proof {
                            assert(notifications@ =~= Seq::<DaemonNotification>::empty());
                        }
                        match ev {
                            None => {
                                proof {
                                    assert(session_notifications(Seq::<SessionEvent>::empty())
                                        =~= Seq::<DaemonNotification>::empty());
                                }
                            },
                            Some(ev) => {
                                let ghost e = ev;
                                notifications.push(DaemonNotification::Session(ev));
                                proof {
                                    assert(session_notifications(seq![e]) =~= seq![
                                        DaemonNotification::Session(e),
                                    ]);
                                }
                            },
                        }
                        TickOutcome { notifications, send: None, error: None }
                    },
                }
            },
            TickInput::Transfer(ev) => {
                let mut notifications: Vec<DaemonNotification> = Vec::new();
                notifications.push(DaemonNotification::Transfer(ev));
                TickOutcome { notifications, send: None, error: None }
            },
            TickInput::Command { cmd, file_exists } => {
                match self.handle_command(&cmd, file_exists) {
                    Ok(plan) => TickOutcome {
                        notifications: Vec::new(),
                        send: Some(plan),
                        error: None,
                    },
                    Err(e) => TickOutcome { notifications: Vec::new(), send: None, error: Some(e) },
                }
            },
            TickInput::Reap => {
                let evs = self.session_manager.reap_offline(REAP_TIMEOUT_MS, now);
                let ghost evs_view = evs@;
                let mut notifications: Vec<DaemonNotification> = Vec::new();
                let n = evs.len();
                let mut i: usize = 0;
                proof {
                    assert(notifications@ =~= session_notifications(evs_view.take(0)));
                }
                while i < n
                    invariant
                        n == evs@.len(),
                        i <= n,
                        evs@ == evs_view,
                        notifications@ == session_notifications(evs_view.take(i as int)),
                    decreases n - i,
                {
                    let ev = evs_copy_event(&evs, i);
                    notifications.push(DaemonNotification::Session(ev));
                    proof {
                        assert(notifications@ =~= session_notifications(
                            evs_view.take(i + 1 as int),
                        ));
                    }
                    i = i + 1;
                }
                proof {
                    assert(evs_view.take(n as int) =~= evs_view);
                }
                TickOutcome { notifications, send: None, error: None }
            },
        }
    }
}

/// One ready event of the loop's five sources (the fixed reap timer carries
/// no data of its own).
pub enum TickInput {
    Datagram { msg: String, src: Addr },
    Transfer(TransferEvent),
    Command { cmd: DaemonEvent, file_exists: bool },
    Reap,
}

/// What one turn decided: notifications to surface, at most one transfer to
/// start, at most one recoverable command error to report.
pub struct TickOutcome {
    pub notifications: Vec<DaemonNotification>,
    pub send: Option<SendPlan>,
    pub error: Option<DaemonError>,
}

impl TickOutcome {
    fn empty() -> (r: TickOutcome)
        ensures
            r.notifications@ =~= Seq::<DaemonNotification>::empty(),
            r.send is None,
            r.error is None,
    {
        TickOutcome { notifications: Vec::new(), send: None, error: None }
    }
}

/// Session notifications, one per lifecycle event, in order.
pub open spec fn session_notifications(evs: Seq<SessionEvent>) -> Seq<DaemonNotification> {
    evs.map_values(|ev: SessionEvent| DaemonNotification::Session(ev))
}

/// Copies one session event out of a reap's result.
fn evs_copy_event(evs: &Vec<SessionEvent>, i: usize) -> (ev: SessionEvent)
    requires
        i < evs@.len(),
    ensures
        ev == evs@[i as int],
{
    match &evs[i] {
        SessionEvent::PeerOnline(p) => SessionEvent::PeerOnline(p.clone()),
        SessionEvent::PeerOffline(p) => SessionEvent::PeerOffline(p.clone()),
    }
}

} // verus!
