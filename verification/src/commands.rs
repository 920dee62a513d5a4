//! The query surface a front end consumes: flattened peer and device
//! records, built from the daemon core's state.

use vstd::prelude::*;
use crate::daemon::DaemonCore;
use crate::discovery::Peer;
use crate::text::dec_str;

verus! {

/// A peer as shown to a front end: id, name, and `ip:port` text.
#[derive(Debug)]
pub struct PeerInfo {
    pub id: String,
    pub name: String,
    pub addr: String,
}

/// This device as shown to a front end.
#[derive(Debug)]
pub struct DeviceInfo {
    pub name: String,
    pub port: u16,
}

/// Flattens one peer record.
pub fn peer_info_of(p: &Peer) -> (r: PeerInfo)
    ensures
        r.id@ == p.id@,
        r.name@ == p.name@,
        r.addr@ == p.addr.ip@ + ":"@ + dec_str(p.addr.port as nat),
{
    PeerInfo { id: p.id.clone(), name: p.name.clone(), addr: p.addr.to_text() }
}

/// The online peers, flattened for a front end.
pub fn list_peers(core: &DaemonCore) -> (r: Vec<PeerInfo>)
    ensures
        r@.len() == core.sessions().len(),
        forall|i: int|
            0 <= i < core.sessions().len() ==> {
                let p = (#[trigger] core.sessions()[i]).peer;
                &&& r@[i].id@ == p.id@
                &&& r@[i].name@ == p.name@
                &&& r@[i].addr@ == p.addr.ip@ + ":"@ + dec_str(p.addr.port as nat)
            },
{
    let peers = core.get_online_peers();
    let mut r: Vec<PeerInfo> = Vec::new();
    let n = peers.len();
    let mut i: usize = 0;
    while i < n
        invariant
            n == peers@.len(),
            i <= n,
            r@.len() == i,
            forall|j: int|
                0 <= j < i ==> {
                    let p = #[trigger] peers@[j];
                    &&& r@[j].id@ == p.id@
                    &&& r@[j].name@ == p.name@
                    &&& r@[j].addr@ == p.addr.ip@ + ":"@ + dec_str(p.addr.port as nat)
                },
        decreases n - i,
    {
        r.push(peer_info_of(&peers[i]));
        i = i + 1;
    }
    r
}

/// This device's name and port, flattened for a front end.
pub fn get_device_info(core: &DaemonCore) -> (r: DeviceInfo)
    ensures
        r.name@ == core.spec_device_name(),
        r.port == core.spec_bind_port(),
{
    let info = core.get_device_info();
    DeviceInfo { name: info.name, port: info.port }
}

} // verus!
