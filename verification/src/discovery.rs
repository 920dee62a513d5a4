//! Peer discovery over UDP multicast.
//!
//! Every instance advertises itself with a plaintext datagram
//! `DISCOVERY:<instance-id>:<display-name>\n` and listens for the datagrams
//! of others.  This module owns the identity of the local instance and the
//! datagram text format: building the announcement and parsing received
//! datagrams, with self-echo suppression.  The sockets and the background
//! send/receive loops live outside the library and feed datagram text in and
//! announcement text out.

use vstd::prelude::*;
use vstd::string::StringExecFns;
use crate::text::{
    chars_to_string, find_char, is_ws, seq_find_char, str_to_chars, strip_prefix_rec, trim_chars,
    trim_spec, vec_subrange_chars,
};

verus! {

/// Seconds between two presence broadcasts of an instance.
pub const ADVERTISE_INTERVAL_SECS: u64 = 5;

/// Reads the clock for a fresh observation timestamp: milliseconds since the
/// UNIX epoch.
///
/// Relies on `std::time::SystemTime::now` and `duration_since`: the current
/// wall-clock time; nothing is promised of the value.
#[verifier::external_body]
pub fn default_instant() -> u64 {
    match std::time::SystemTime::now().duration_since(std::time::SystemTime::UNIX_EPOCH) {
        Ok(d) => d.as_millis() as u64,
        Err(_) => 0,
    }
}

/// Network address of a peer: printable IP address and port.
#[derive(Debug)]
pub struct Addr {
    pub ip: String,
    pub port: u16,
}

impl Addr {
    /// The usual `ip:port` rendering of the address.
    pub fn to_text(&self) -> (r: String)
        ensures
            r@ == self.ip@ + ":"@ + crate::text::dec_str(self.port as nat),
    {
        let mut s = self.ip.clone();
        s.append(":");
        let p = crate::text::u64_to_string(self.port as u64);
        s.append(p.as_str());
        s
    }
}

impl Clone for Addr {
    fn clone(&self) -> (r: Self)
        ensures
            r == *self,
    {
        Addr { ip: self.ip.clone(), port: self.port }
    }
}

/// A discovered instance on the local network.  The id is the stable,
/// globally unique key; the display name is not guaranteed unique.
#[derive(Debug)]
pub struct Peer {
    pub id: String,
    pub name: String,
    pub addr: Addr,
    pub last_seen: u64,
}

impl Clone for Peer {
    fn clone(&self) -> (r: Self)
        ensures
            r == *self,
    {
        Peer { id: self.id.clone(), name: self.name.clone(), addr: self.addr.clone(), last_seen: self.last_seen }
    }
}

/// The canonical text form of an instance id.
pub uninterp spec fn uuid_str_of(id: u128) -> Seq<char>;

/// The instance id that given text parses to, if any.
pub uninterp spec fn uuid_parse_of(s: Seq<char>) -> Option<u128>;

/// Generates a fresh random instance id.
///
/// Relies on `uuid::Uuid::new_v4`: a random version-4 UUID; nothing is
/// promised of the value.
#[verifier::external_body]
fn uuid_new_v4() -> u128 {
    uuid::Uuid::new_v4().as_u128()
}

/// Renders an instance id in its canonical text form.
///
/// Relies on `uuid::Uuid`'s `Display` (via `Uuid::from_u128`, the exact
/// inverse of `Uuid::as_u128`): the hyphenated lowercase form, 36 characters
/// of hex digits and hyphens, which `Uuid::parse_str` parses back to the
/// same value.
#[verifier::external_body]
fn uuid_to_string(id: u128) -> (r: String)
    ensures
        r@ == uuid_str_of(id),
        uuid_parse_of(r@) == Some(id),
        r@.len() == 36,
        forall|i: int|
            0 <= i < 36 ==> {
                let c = #[trigger] r@[i];
                c == '-' || ('0' <= c && c <= '9') || ('a' <= c && c <= 'f')
            },
{
    uuid::Uuid::from_u128(id).to_string()
}

/// Parses an instance id from text.
///
/// Relies on `uuid::Uuid::parse_str` (and `Uuid::as_u128`): parses
/// hexadecimal UUID text in its accepted forms; the result is a function of
/// the input text alone.
#[verifier::external_body]
fn uuid_parse_str(s: &str) -> (r: Option<u128>)
    ensures
        r == uuid_parse_of(s@),
{
    uuid::Uuid::parse_str(s).ok().map(|u| u.as_u128())
}

/// The fixed marker that opens every discovery datagram.
pub open spec fn discovery_prefix() -> Seq<char> {
    "DISCOVERY:"@
}

/// The presence datagram of an instance: marker, id, name, newline.
pub open spec fn announcement_spec(id: u128, name: Seq<char>) -> Seq<char> {
    discovery_prefix() + uuid_str_of(id) + ":"@ + name + "\n"@
}

/// What a received datagram means: `None` for datagrams without the marker,
/// with an unparseable id, or echoing the local instance id; otherwise the
/// sender's id and display name.
pub open spec fn parse_datagram_spec(msg: Seq<char>, local_id: u128) -> Option<(u128, Seq<char>)> {
    if msg.len() < discovery_prefix().len() || msg.take(discovery_prefix().len() as int)
        != discovery_prefix() {
        None
    } else {
        let content = trim_spec(strip_prefix_rec(msg, discovery_prefix()));
        let k = seq_find_char(content, ':');
        if k < 0 {
            None
        } else {
            match uuid_parse_of(content.take(k)) {
                None => None,
                Some(u) => if u == local_id {
                    None
                } else {
                    Some((u, content.skip(k + 1)))
                },
            }
        }
    }
}

/// An instance's own announcement always parses back to its own id, so the
/// listener discards it: self-broadcasts never produce a peer observation.
proof fn lemma_parse_own_announcement(id: u128, name: Seq<char>)
    requires
        uuid_parse_of(uuid_str_of(id)) == Some(id),
        uuid_str_of(id).len() == 36,
        forall|i: int|
            0 <= i < 36 ==> {
                let c = #[trigger] uuid_str_of(id)[i];
                c == '-' || ('0' <= c && c <= '9') || ('a' <= c && c <= 'f')
            },
    ensures
        parse_datagram_spec(announcement_spec(id, name), id) is None,
{
    reveal_strlit("DISCOVERY:");
    reveal_strlit(":");
    reveal_strlit("\n");
    let p = discovery_prefix();
    let us = uuid_str_of(id);
    let msg = announcement_spec(id, name);
    let rest = us + ":"@ + name + "\n"@;
    assert(p.len() == 10);
    assert(forall|i: int|
        0 <= i < 36 ==> !is_ws(#[trigger] us[i]) && us[i] != ':');
    assert(msg.take(10) =~= p);
    assert(msg.skip(10) =~= rest);
    // The remainder does not start with the marker again: its tenth character
    // is a uuid character, never ':'.
    assert(rest[9] == us[9]);
    assert(rest.take(10)[9] == us[9]);
    assert(p[9] == ':');
    assert(rest.take(10) != p);
    assert(strip_prefix_rec(msg, p) == strip_prefix_rec(rest, p));
    assert(strip_prefix_rec(rest, p) == rest);
    // Trimming: the id's first character is not whitespace, and everything
    // before the terminal newline is only trimmed within the name part.
    assert(rest[0] == us[0]);
    assert(crate::text::trim_start_spec(rest) == rest);
    let head = us + ":"@;
    let tail = name + "\n"@;
    assert(head.last() == ':');
    assert(!is_ws(':'));
    assert(rest =~= head + tail);
    crate::text::lemma_trim_end_concat(head, tail);
    let content = trim_spec(rest);
    assert(content == head + crate::text::trim_end_spec(tail));
    // The first colon of the content sits right after the 36 id characters.
    assert(forall|j: int| 0 <= j < 36 ==> content[j] == us[j]);
    assert(content[36] == ':');
    crate::text::lemma_seq_find_char_at(content, ':', 36);
    assert(content.take(36) =~= us);
    assert(uuid_parse_of(content.take(36)) == Some(id));
}

/// Identity of the local instance: a fresh random id and the configured
/// display name.  One `Discovery` value stands behind one advertiser and one
/// listener for its whole lifetime.
pub struct Discovery {
    pub device_id: u128,
    pub device_name: String,
}

impl Discovery {
    pub fn new(device_name: &str) -> (d: Discovery)
        ensures
            d.device_name@ == device_name@,
    {
        Discovery { device_id: uuid_new_v4(), device_name: device_name.to_owned() }
    }

    /// The datagram this instance broadcasts every advertisement interval.
    /// Parsing it with the local id yields nothing: an instance never
    /// observes itself as a peer.
    pub fn announcement(&self) -> (r: String)
        ensures
            r@ == announcement_spec(self.device_id, self.device_name@),
            parse_datagram_spec(r@, self.device_id) is None,
    {
        let id_str = uuid_to_string(self.device_id);
        let mut s = String::from_str("DISCOVERY:");
        s.append(id_str.as_str());
        s.append(":");
        s.append(self.device_name.as_str());
        s.append("\n");
        proof {
            lemma_parse_own_announcement(self.device_id, self.device_name@);
        }
        s
    }
}

/// Interprets one received datagram.  Returns the observed peer — with the
/// sender's id in canonical form, the advertised display name, the sender's
/// source address, and the observation time — or `None` for datagrams
/// without the discovery marker, without a parseable id, or echoing the
/// local instance (self-echo suppression).
pub fn observe_datagram(msg: &str, src: &Addr, local_id: u128, now: u64) -> (r: Option<Peer>)
    ensures
        r is Some <==> parse_datagram_spec(msg@, local_id) is Some,
        r matches Some(p) ==> {
            let (u, nm) = parse_datagram_spec(msg@, local_id)->Some_0;
            &&& p.id@ == uuid_str_of(u)
            &&& p.name@ == nm
            &&& p.addr.ip@ == src.ip@
            &&& p.addr.port == src.port
            &&& p.last_seen == now
        },
{
    let prefix = str_to_chars("DISCOVERY:");
    let mut v = str_to_chars(msg);
    if !chars_eq_prefix(&v, &prefix) {
        return None;
    }
    proof {
        reveal_strlit("DISCOVERY:");
    }
    loop
        invariant
            prefix@ == discovery_prefix(),
            prefix@.len() == 10,
            strip_prefix_rec(v@, prefix@) == strip_prefix_rec(msg@, discovery_prefix()),
        ensures
            !(v@.len() >= prefix@.len() && v@.take(prefix@.len() as int) == prefix@),
            strip_prefix_rec(v@, prefix@) == strip_prefix_rec(msg@, discovery_prefix()),
            prefix@ == discovery_prefix(),
        decreases v@.len(),
    {
        if chars_eq_prefix(&v, &prefix) {
            let w = vec_subrange_chars(&v, prefix.len(), v.len());
            assert(w@ =~= v@.skip(prefix@.len() as int));
            v = w;
        } else {
            break;
        }
    }
    assert(v@ == strip_prefix_rec(msg@, discovery_prefix()));
    let t = trim_chars(&v);
    match find_char(&t, ':') {
        None => None,
        Some(k) => {
            let id_vec = vec_subrange_chars(&t, 0, k);
            assert(id_vec@ =~= t@.take(k as int));
            let id_str = chars_to_string(&id_vec);
            match uuid_parse_str(id_str.as_str()) {
                None => None,
                Some(u) => {
                    if u == local_id {
                        None
                    } else {
                        let tlen = t.len();
                        assert(k < tlen);
                        let name_vec = vec_subrange_chars(&t, k + 1, tlen);
                        assert(name_vec@ =~= t@.skip(k + 1 as int));
                        let name = chars_to_string(&name_vec);
                        let id = uuid_to_string(u);
                        Some(Peer { id, name, addr: Addr { ip: src.ip.clone(), port: src.port }, last_seen: now })
                    }
                },
            }
        },
    }
}

/// True when `v` starts with the characters of `p`.
fn chars_eq_prefix(v: &Vec<char>, p: &Vec<char>) -> (r: bool)
    ensures
        r == (v@.len() >= p@.len() && v@.take(p@.len() as int) == p@),
{
    if v.len() < p.len() {
        return false;
    }
    let mut i: usize = 0;
    while i < p.len()
        invariant
            i <= p@.len() <= v@.len(),
            forall|j: int| 0 <= j < i ==> v@[j] == p@[j],
        decreases p.len() - i,
    {
        if v[i] != p[i] {
            assert(v@.take(p@.len() as int)[i as int] != p@[i as int]);
            return false;
        }
        i = i + 1;
    }
    assert(v@.take(p@.len() as int) =~= p@);
    true
}

} // verus!
