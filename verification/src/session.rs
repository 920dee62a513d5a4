//! Session lifecycle: turning raw peer observations into online/offline
//! events and answering peer lookups.
//!
//! One session exists per distinct peer id.  A peer's first observation
//! creates its session and emits `PeerOnline`; later observations only
//! refresh `last_seen`.  A session whose `last_seen` has fallen further than
//! the reap timeout behind the clock is removed — not retained in an offline
//! state — and `PeerOffline` is emitted exactly once for it.
//!
//! Sessions are keyed by the peer's stable id, never by its display name:
//! two peers that share a display name stay distinct.

use vstd::prelude::*;
use crate::discovery::Peer;
use crate::text::str_eq;

verus! {

/// Lifecycle state of a session.  Tracked sessions are always online:
/// expiry removes the session instead of keeping it offline.
#[derive(Debug)]
pub enum PeerState {
    Online,
    Offline,
}

/// This process's tracked record for one peer.
pub struct Session {
    pub peer: Peer,
    pub state: PeerState,
    pub last_seen: u64,
}

impl Session {
    pub fn is_online(&self) -> (r: bool)
        ensures
            r == (self.state is Online),
    {
        matches!(self.state, PeerState::Online)
    }
}

impl Clone for Session {
    fn clone(&self) -> (r: Self)
        ensures
            r == *self,
    {
        let state = match self.state {
            PeerState::Online => PeerState::Online,
            PeerState::Offline => PeerState::Offline,
        };
        Session { peer: self.peer.clone(), state, last_seen: self.last_seen }
    }
}

/// One lifecycle transition, emitted exactly once per transition.
#[derive(Debug)]
pub enum SessionEvent {
    PeerOnline(Peer),
    PeerOffline(Peer),
}

/// Some tracked session carries this peer id.
pub open spec fn tracks(s: Seq<Session>, id: Seq<char>) -> bool {
    exists|i: int| 0 <= i < s.len() && s[i].peer.id@ == id
}

/// The index of the session carrying this id (unique under `sessions_wf`).
pub open spec fn index_of_id(s: Seq<Session>, id: Seq<char>) -> int {
    choose|i: int| 0 <= i < s.len() && s[i].peer.id@ == id
}

/// The tracked session carrying this id.
pub open spec fn session_of(s: Seq<Session>, id: Seq<char>) -> Session {
    s[index_of_id(s, id)]
}

/// Well-formed session table: ids are distinct and every tracked session is
/// online.
pub open spec fn sessions_wf(s: Seq<Session>) -> bool {
    &&& forall|i: int, j: int|
        0 <= i < j < s.len() ==> s[i].peer.id@ != s[j].peer.id@
    &&& forall|i: int| 0 <= i < s.len() ==> (#[trigger] s[i].state) is Online
}

/// The session table after one observation: a tracked peer's session is
/// refreshed in place, an unknown peer's session is appended.
pub open spec fn update_observed(s: Seq<Session>, peer: Peer, now: u64) -> Seq<Session> {
    if tracks(s, peer.id@) {
        let i = index_of_id(s, peer.id@);
        s.update(i, Session { peer: s[i].peer, state: PeerState::Online, last_seen: now })
    } else {
        s.push(Session { peer, state: PeerState::Online, last_seen: now })
    }
}

/// The event one observation emits: `PeerOnline` exactly on first sight.
pub open spec fn observed_event(s: Seq<Session>, peer: Peer) -> Option<SessionEvent> {
    if tracks(s, peer.id@) {
        None
    } else {
        Some(SessionEvent::PeerOnline(peer))
    }
}

/// A session that has been silent for longer than the reap timeout.
pub open spec fn is_stale(sess: Session, timeout: u64, now: u64) -> bool {
    now as int > sess.last_seen as int + timeout as int
}

/// The predicate a reap retains sessions by.
pub open spec fn fresh_pred(timeout: u64, now: u64) -> spec_fn(Session) -> bool {
    |sess: Session| !is_stale(sess, timeout, now)
}

/// The predicate a reap removes sessions by.
pub open spec fn stale_pred(timeout: u64, now: u64) -> spec_fn(Session) -> bool {
    |sess: Session| is_stale(sess, timeout, now)
}

/// The offline event for one reaped session.
pub open spec fn offline_event_fn() -> spec_fn(Session) -> SessionEvent {
    |sess: Session| SessionEvent::PeerOffline(sess.peer)
}

/// The sessions a reap retains.
pub open spec fn retained_after_reap(s: Seq<Session>, timeout: u64, now: u64) -> Seq<Session> {
    s.filter(fresh_pred(timeout, now))
}

/// The offline events a reap emits, in table order.
pub open spec fn offline_events(s: Seq<Session>, timeout: u64, now: u64) -> Seq<SessionEvent> {
    s.filter(stale_pred(timeout, now)).map_values(offline_event_fn())
}

/// Converts peer observations into online/offline lifecycle events and
/// serves peer lookups.  Events are returned to the caller rather than
/// pushed anywhere: the surrounding event loop forwards them.
pub struct SessionManager {
    sessions: Vec<Session>,
}

impl View for SessionManager {
    type V = Seq<Session>;

    closed spec fn view(&self) -> Seq<Session> {
        self.sessions@
    }
}

impl SessionManager {
    pub open spec fn wf(&self) -> bool {
        sessions_wf(self@)
    }

    pub fn new() -> (m: SessionManager)
        ensures
            m@ == Seq::<Session>::empty(),
            m.wf(),
    {
        let m = SessionManager { sessions: Vec::new() };
        proof {
            assert(m@ =~= Seq::<Session>::empty());
        }
        m
    }

    /// Handles one observation: first sight of an id creates its session and
    /// emits `PeerOnline`; a repeated observation only refreshes `last_seen`
    /// and emits nothing.
    pub fn on_peer_discovered(&mut self, peer: Peer, now: u64) -> (ev: Option<SessionEvent>)
        requires
            old(self).wf(),
        ensures
            final(self).wf(),
            final(self)@ == update_observed(old(self)@, peer, now),
            ev == observed_event(old(self)@, peer),
    {
        let n = self.sessions.len();
        let mut i: usize = 0;
        while i < n
            invariant
                n == self@.len(),
                i <= n,
                *self == *old(self),
                sessions_wf(self@),
                forall|j: int| 0 <= j < i ==> self@[j].peer.id@ != peer.id@,
            decreases n - i,
        {
            if str_eq(self.sessions[i].peer.id.as_str(), peer.id.as_str()) {
                proof {
                    assert(tracks(self@, peer.id@));
                    assert(forall|k: int|
                        0 <= k < self@.len() && self@[k].peer.id@ == peer.id@ ==> k == i);
                    assert(index_of_id(self@, peer.id@) == i);
                }
                self.sessions[i].state = PeerState::Online;
                self.sessions[i].last_seen = now;
                proof {
                    lemma_update_observed_wf(old(self)@, peer, now);
                }
                return None;
            }
            i = i + 1;
        }
        assert(!tracks(self@, peer.id@));
        let event_peer = peer.clone();
        self.sessions.push(Session { peer, state: PeerState::Online, last_seen: now });
        proof {
            lemma_update_observed_wf(old(self)@, peer, now);
        }
        Some(SessionEvent::PeerOnline(event_peer))
    }

    /// Removes every session older than the timeout and emits one
    /// `PeerOffline` per removed session.
    pub fn reap_offline(&mut self, timeout: u64, now: u64) -> (evs: Vec<SessionEvent>)
        requires
            old(self).wf(),
        ensures
            final(self).wf(),
            final(self)@ == retained_after_reap(old(self)@, timeout, now),
            evs@ == offline_events(old(self)@, timeout, now),
    {
        let ghost pre = self@;
        let n = self.sessions.len();
        let mut kept: Vec<Session> = Vec::new();
        let mut evs: Vec<SessionEvent> = Vec::new();
        let mut i: usize = 0;
        proof {
            reveal_with_fuel(Seq::<_>::filter, 2);
            assert(pre.take(0) =~= Seq::<Session>::empty());
            assert(kept@ =~= retained_after_reap(pre.take(0), timeout, now));
            assert(evs@ =~= offline_events(pre.take(0), timeout, now));
        }
        while i < n
            invariant
                n == self@.len(),
                i <= n,
                *self == *old(self),
                pre == self@,
                kept@ == retained_after_reap(pre.take(i as int), timeout, now),
                evs@ == offline_events(pre.take(i as int), timeout, now),
            decreases n - i,
        {
            let stale = {
                let sess = &self.sessions[i];
                now > sess.last_seen && now - sess.last_seen > timeout
            };
            proof {
                reveal_with_fuel(Seq::<_>::filter, 2);
                assert(pre.take(i + 1 as int).drop_last() =~= pre.take(i as int));
                assert(pre.take(i + 1 as int).last() == pre[i as int]);
                assert(stale == is_stale(pre[i as int], timeout, now));
                if stale {
                    assert(pre.take(i + 1 as int).filter(stale_pred(timeout, now)) == pre.take(
                        i as int,
                    ).filter(stale_pred(timeout, now)).push(pre[i as int]));
                    assert(pre.take(i + 1 as int).filter(fresh_pred(timeout, now)) == pre.take(
                        i as int,
                    ).filter(fresh_pred(timeout, now)));
                    assert(offline_events(pre.take(i + 1 as int), timeout, now) =~= offline_events(
                        pre.take(i as int),
                        timeout,
                        now,
                    ).push(SessionEvent::PeerOffline(pre[i as int].peer)));
                } else {
                    assert(pre.take(i + 1 as int).filter(fresh_pred(timeout, now)) == pre.take(
                        i as int,
                    ).filter(fresh_pred(timeout, now)).push(pre[i as int]));
                    assert(pre.take(i + 1 as int).filter(stale_pred(timeout, now)) == pre.take(
                        i as int,
                    ).filter(stale_pred(timeout, now)));
                    assert(offline_events(pre.take(i + 1 as int), timeout, now) =~= offline_events(
                        pre.take(i as int),
                        timeout,
                        now,
                    ));
                }
            }
            if stale {
                evs.push(SessionEvent::PeerOffline(self.sessions[i].peer.clone()));
            } else {
                kept.push(self.sessions[i].clone());
            }
            i = i + 1;
        }
        proof {
            assert(pre.take(n as int) =~= pre);
        }
        self.sessions = kept;
        proof {
            lemma_filter_wf(pre, timeout, now);
        }
        evs
    }

    /// Looks up the tracked peer with this id.
    pub fn get_peer(&self, id: &str) -> (r: Option<&Peer>)
        requires
            self.wf(),
        ensures
            r is Some <==> tracks(self@, id@),
            r matches Some(p) ==> *p == session_of(self@, id@).peer,
    {
        let n = self.sessions.len();
        let mut i: usize = 0;
        while i < n
            invariant
                self.wf(),
                n == self@.len(),
                i <= n,
                forall|j: int| 0 <= j < i ==> self@[j].peer.id@ != id@,
            decreases n - i,
        {
            if str_eq(self.sessions[i].peer.id.as_str(), id) {
                proof {
                    assert(forall|k: int|
                        0 <= k < self@.len() && self@[k].peer.id@ == id@ ==> k == i);
                    assert(index_of_id(self@, id@) == i);
                }
                return Some(&self.sessions[i].peer);
            }
            i = i + 1;
        }
        assert(!tracks(self@, id@));
        None
    }

    /// All currently tracked peers; by construction all of them are online.
    pub fn get_online_peers(&self) -> (r: Vec<Peer>)
        ensures
            r@.len() == self@.len(),
            forall|i: int| 0 <= i < self@.len() ==> r@[i] == (#[trigger] self@[i]).peer,
    {
        let n = self.sessions.len();
        let mut r: Vec<Peer> = Vec::new();
        let mut i: usize = 0;
        while i < n
            invariant
                n == self@.len(),
                i <= n,
                r@.len() == i,
                forall|j: int| 0 <= j < i ==> r@[j] == (#[trigger] self@[j]).peer,
            decreases n - i,
        {
            r.push(self.sessions[i].peer.clone());
            i = i + 1;
        }
        r
    }

    /// The first tracked peer with this display name, if any.  Display names
    /// are not unique; ids are the key.
    pub fn find_peer_by_name(&self, name: &str) -> (r: Option<Peer>)
        ensures
            r is Some <==> exists|i: int| 0 <= i < self@.len() && (#[trigger] self@[i]).peer.name@
                == name@,
            r matches Some(p) ==> exists|i: int|
                {
                    &&& 0 <= i < self@.len()
                    &&& (#[trigger] self@[i]).peer.name@ == name@
                    &&& p == self@[i].peer
                    &&& forall|j: int| 0 <= j < i ==> self@[j].peer.name@ != name@
                },
    {
        let n = self.sessions.len();
        let mut i: usize = 0;
        while i < n
            invariant
                n == self@.len(),
                i <= n,
                forall|j: int| 0 <= j < i ==> (#[trigger] self@[j]).peer.name@ != name@,
            decreases n - i,
        {
            if str_eq(self.sessions[i].peer.name.as_str(), name) {
                return Some(self.sessions[i].peer.clone());
            }
            i = i + 1;
        }
        None
    }

    /// The tracked peer with this id, as an owned value.
    pub fn find_peer_by_id(&self, id: &str) -> (r: Option<Peer>)
        requires
            self.wf(),
        ensures
            r is Some <==> tracks(self@, id@),
            r matches Some(p) ==> p == session_of(self@, id@).peer,
    {
        match self.get_peer(id) {
            Some(p) => Some(p.clone()),
            None => None,
        }
    }

    /// How many peers are tracked (and therefore online).
    pub fn online_count(&self) -> (r: usize)
        ensures
            r == self@.len(),
    {
        self.sessions.len()
    }
}

/// The session table after a whole run of observations, first to last.
pub open spec fn run_observations(s: Seq<Session>, obs: Seq<(Peer, u64)>) -> Seq<Session>
    decreases obs.len(),
{
    if obs.len() == 0 {
        s
    } else {
        run_observations(update_observed(s, obs[0].0, obs[0].1), obs.skip(1))
    }
}

/// How many `PeerOnline` events a run of observations emits.
pub open spec fn online_events_during(s: Seq<Session>, obs: Seq<(Peer, u64)>) -> nat
    decreases obs.len(),
{
    if obs.len() == 0 {
        0
    } else {
        (if observed_event(s, obs[0].0) is Some {
            1nat
        } else {
            0nat
        }) + online_events_during(update_observed(s, obs[0].0, obs[0].1), obs.skip(1))
    }
}

/// How many `PeerOffline` events for one id a sequence of events holds.
pub open spec fn count_offline_for(evs: Seq<SessionEvent>, id: Seq<char>) -> nat
    decreases evs.len(),
{
    if evs.len() == 0 {
        0
    } else {
        count_offline_for(evs.drop_last(), id) + (match evs.last() {
            SessionEvent::PeerOffline(p) => if p.id@ == id {
                1nat
            } else {
                0nat
            },
            SessionEvent::PeerOnline(_) => 0nat,
        })
    }
}

/// One observation tracks exactly the ids tracked before plus the observed
/// peer's.
proof fn lemma_update_tracks(s: Seq<Session>, peer: Peer, now: u64, id: Seq<char>)
    ensures
        tracks(update_observed(s, peer, now), id) <==> (tracks(s, id) || id == peer.id@),
{
    let u = update_observed(s, peer, now);
    if tracks(s, peer.id@) {
        let i = index_of_id(s, peer.id@);
        assert(0 <= i < s.len() && s[i].peer.id@ == peer.id@);
        assert(forall|k: int| 0 <= k < u.len() ==> u[k].peer.id@ == s[k].peer.id@);
        if tracks(s, id) {
            let w = choose|w: int| 0 <= w < s.len() && s[w].peer.id@ == id;
            assert(u[w].peer.id@ == id);
        }
        if tracks(u, id) {
            let w = choose|w: int| 0 <= w < u.len() && u[w].peer.id@ == id;
            assert(s[w].peer.id@ == id);
        }
    } else {
        assert(u[s.len() as int].peer.id@ == peer.id@);
        if tracks(s, id) {
            let w = choose|w: int| 0 <= w < s.len() && s[w].peer.id@ == id;
            assert(u[w].peer.id@ == id);
        }
    }
}

/// After an observation the observed peer's session carries the observation
/// time as `last_seen`.
proof fn lemma_update_last_seen(s: Seq<Session>, peer: Peer, now: u64)
    requires
        sessions_wf(s),
    ensures
        session_of(update_observed(s, peer, now), peer.id@).last_seen == now,
{
    let u = update_observed(s, peer, now);
    lemma_update_tracks(s, peer, now, peer.id@);
    lemma_update_observed_wf(s, peer, now);
    let j = index_of_id(u, peer.id@);
    assert(0 <= j < u.len() && u[j].peer.id@ == peer.id@) by {
        assert(tracks(u, peer.id@));
    }
    if tracks(s, peer.id@) {
        let i = index_of_id(s, peer.id@);
        assert(0 <= i < s.len() && s[i].peer.id@ == peer.id@);
        assert(u[i].last_seen == now);
        assert(forall|k: int| 0 <= k < u.len() && k != i ==> u[k] == s[k]);
        assert(j == i);
    } else {
        assert(u[s.len() as int].last_seen == now);
        assert(j == s.len());
    }
}

/// Observations of an already-tracked id emit nothing and only refresh the
/// session's `last_seen`.
proof fn lemma_tracked_stays_silent(s: Seq<Session>, obs: Seq<(Peer, u64)>, id: Seq<char>)
    requires
        sessions_wf(s),
        tracks(s, id),
        forall|k: int| 0 <= k < obs.len() ==> (#[trigger] obs[k]).0.id@ == id,
    ensures
        online_events_during(s, obs) == 0,
        tracks(run_observations(s, obs), id),
        sessions_wf(run_observations(s, obs)),
        session_of(run_observations(s, obs), id).last_seen == (if obs.len() == 0 {
            session_of(s, id).last_seen
        } else {
            obs.last().1
        }),
    decreases obs.len(),
{
    if obs.len() > 0 {
        let p = obs[0].0;
        let t = obs[0].1;
        assert(p.id@ == id);
        let u = update_observed(s, p, t);
        lemma_update_observed_wf(s, p, t);
        lemma_update_tracks(s, p, t, id);
        lemma_update_last_seen(s, p, t);
        assert(forall|k: int|
            0 <= k < obs.skip(1).len() ==> (#[trigger] obs.skip(1)[k]).0.id@ == id);
        lemma_tracked_stays_silent(u, obs.skip(1), id);
        if obs.len() == 1 {
            assert(run_observations(s, obs) == u);
            assert(session_of(u, id).last_seen == t);
            assert(obs.last() == obs[0]);
        } else {
            assert(obs.skip(1).last() == obs.last());
        }
    }
}

/// For any run of observations that all carry one id, starting from a table
/// that does not track that id: exactly one `PeerOnline` is emitted however
/// many observations arrive, the peer is tracked afterwards, and its
/// `last_seen` is the time of the most recent observation.
pub proof fn lemma_online_emitted_exactly_once(
    s: Seq<Session>,
    obs: Seq<(Peer, u64)>,
    id: Seq<char>,
)
    requires
        sessions_wf(s),
        !tracks(s, id),
        obs.len() > 0,
        forall|k: int| 0 <= k < obs.len() ==> (#[trigger] obs[k]).0.id@ == id,
    ensures
        online_events_during(s, obs) == 1,
        tracks(run_observations(s, obs), id),
        session_of(run_observations(s, obs), id).last_seen == obs.last().1,
{
    let p = obs[0].0;
    let t = obs[0].1;
    assert(p.id@ == id);
    assert(observed_event(s, p) is Some);
    let u = update_observed(s, p, t);
    lemma_update_observed_wf(s, p, t);
    lemma_update_tracks(s, p, t, id);
    lemma_update_last_seen(s, p, t);
    assert(forall|k: int| 0 <= k < obs.skip(1).len() ==> (#[trigger] obs.skip(1)[k]).0.id@ == id);
    lemma_tracked_stays_silent(u, obs.skip(1), id);
    if obs.len() == 1 {
        assert(obs.last() == obs[0]);
    } else {
        assert(obs.skip(1).last() == obs.last());
    }
}

/// An untracked id never appears in offline events.
proof fn lemma_offline_count_zero(s: Seq<Session>, timeout: u64, now: u64, id: Seq<char>)
    requires
        !tracks(s, id),
    ensures
        count_offline_for(offline_events(s, timeout, now), id) == 0,
    decreases s.len(),
{
    reveal_with_fuel(Seq::<_>::filter, 2);
    if s.len() == 0 {
        assert(offline_events(s, timeout, now) =~= Seq::<SessionEvent>::empty());
    } else {
        let d = s.drop_last();
        assert(!tracks(d, id)) by {
            if tracks(d, id) {
                let w = choose|w: int| 0 <= w < d.len() && d[w].peer.id@ == id;
                assert(s[w].peer.id@ == id);
            }
        }
        lemma_offline_count_zero(d, timeout, now, id);
        assert(s[s.len() - 1].peer.id@ != id);
        if stale_pred(timeout, now)(s.last()) {
            assert(offline_events(s, timeout, now) =~= offline_events(d, timeout, now).push(
                SessionEvent::PeerOffline(s.last().peer),
            ));
            assert(offline_events(s, timeout, now).drop_last() =~= offline_events(
                d,
                timeout,
                now,
            ));
        } else {
            assert(offline_events(s, timeout, now) =~= offline_events(d, timeout, now));
        }
    }
}

/// Filtering never invents a tracked id.
proof fn lemma_filter_tracks(s: Seq<Session>, pred: spec_fn(Session) -> bool, id: Seq<char>)
    requires
        tracks(s.filter(pred), id),
    ensures
        tracks(s, id),
{
    let f = s.filter(pred);
    let w = choose|w: int| 0 <= w < f.len() && f[w].peer.id@ == id;
    lemma_filter_element_of(s, pred, w);
    let j = choose|j: int| 0 <= j < s.len() && f[w] == s[j];
    assert(s[j].peer.id@ == id);
}

/// A tracked session that has been silent beyond the timeout is reaped:
/// afterwards its id resolves to nothing, and the reap emits exactly one
/// `PeerOffline` event for it.
pub proof fn lemma_reap_removes_stale(s: Seq<Session>, timeout: u64, now: u64, id: Seq<char>)
    requires
        sessions_wf(s),
        tracks(s, id),
        is_stale(session_of(s, id), timeout, now),
    ensures
        !tracks(retained_after_reap(s, timeout, now), id),
        count_offline_for(offline_events(s, timeout, now), id) == 1,
    decreases s.len(),
{
    reveal_with_fuel(Seq::<_>::filter, 2);
    let d = s.drop_last();
    let last = s.last();
    let idx = index_of_id(s, id);
    assert(0 <= idx < s.len() && s[idx].peer.id@ == id);
    assert(forall|k: int| 0 <= k < s.len() && s[k].peer.id@ == id ==> k == idx);
    if last.peer.id@ == id {
        assert(idx == s.len() - 1);
        assert(is_stale(last, timeout, now));
        assert(!tracks(d, id)) by {
            if tracks(d, id) {
                let w = choose|w: int| 0 <= w < d.len() && d[w].peer.id@ == id;
                assert(s[w].peer.id@ == id);
            }
        }
        // Events: the last session contributes the one offline event.
        assert(offline_events(s, timeout, now) =~= offline_events(d, timeout, now).push(
            SessionEvent::PeerOffline(last.peer),
        ));
        assert(offline_events(s, timeout, now).drop_last() =~= offline_events(d, timeout, now));
        lemma_offline_count_zero(d, timeout, now, id);
        // Retention: the last session is dropped, and the rest never carried
        // the id.
        assert(retained_after_reap(s, timeout, now) == retained_after_reap(d, timeout, now));
        if tracks(retained_after_reap(d, timeout, now), id) {
            lemma_filter_tracks(d, fresh_pred(timeout, now), id);
        }
    } else {
        assert(idx < s.len() - 1);
        assert(tracks(d, id)) by {
            assert(d[idx].peer.id@ == id);
        }
        assert(index_of_id(d, id) == idx) by {
            let w = index_of_id(d, id);
            assert(0 <= w < d.len() && d[w].peer.id@ == id);
            assert(s[w].peer.id@ == id);
        }
        assert(sessions_wf(d));
        lemma_reap_removes_stale(d, timeout, now, id);
        if stale_pred(timeout, now)(last) {
            assert(offline_events(s, timeout, now) =~= offline_events(d, timeout, now).push(
                SessionEvent::PeerOffline(last.peer),
            ));
            assert(offline_events(s, timeout, now).drop_last() =~= offline_events(
                d,
                timeout,
                now,
            ));
            assert(retained_after_reap(s, timeout, now) == retained_after_reap(d, timeout, now));
        } else {
            assert(offline_events(s, timeout, now) =~= offline_events(d, timeout, now));
            assert(retained_after_reap(s, timeout, now) == retained_after_reap(
                d,
                timeout,
                now,
            ).push(last));
            let r = retained_after_reap(s, timeout, now);
            let rd = retained_after_reap(d, timeout, now);
            if tracks(r, id) {
                let w = choose|w: int| 0 <= w < r.len() && r[w].peer.id@ == id;
                if w < rd.len() {
                    assert(rd[w].peer.id@ == id);
                } else {
                    assert(r[w] == last);
                }
            }
        }
    }
}

/// One observation keeps the session table well-formed.
proof fn lemma_update_observed_wf(s: Seq<Session>, peer: Peer, now: u64)
    requires
        sessions_wf(s),
    ensures
        sessions_wf(update_observed(s, peer, now)),
{
    if tracks(s, peer.id@) {
        let i = index_of_id(s, peer.id@);
        assert(0 <= i < s.len() && s[i].peer.id@ == peer.id@);
        let u = update_observed(s, peer, now);
        assert(forall|k: int| 0 <= k < u.len() && k != i ==> u[k] == s[k]);
        assert(u[i].peer == s[i].peer);
    }
}

/// Reaping keeps the session table well-formed.
proof fn lemma_filter_wf(s: Seq<Session>, timeout: u64, now: u64)
    requires
        sessions_wf(s),
    ensures
        sessions_wf(retained_after_reap(s, timeout, now)),
    decreases s.len(),
{
    reveal_with_fuel(Seq::<_>::filter, 2);
    let pred = fresh_pred(timeout, now);
    if s.len() > 0 {
        let d = s.drop_last();
        assert(sessions_wf(d));
        lemma_filter_wf(d, timeout, now);
        if pred(s.last()) {
            let f = d.filter(pred);
            assert forall|k: int| 0 <= k < f.len() implies f[k].peer.id@ != s.last().peer.id@
                && f[k].state is Online by {
                lemma_filter_element_of(d, pred, k);
                let j = choose|j: int| 0 <= j < d.len() && f[k] == d[j];
                assert(s[j] == d[j]);
                assert(s[j].peer.id@ != s[s.len() - 1].peer.id@);
            }
            assert(s.filter(pred) == f.push(s.last()));
        }
    }
}

/// Every element of a filtered table occurs in the table it was filtered from.
proof fn lemma_filter_element_of(s: Seq<Session>, pred: spec_fn(Session) -> bool, k: int)
    requires
        0 <= k < s.filter(pred).len(),
    ensures
        exists|j: int| 0 <= j < s.len() && s.filter(pred)[k] == s[j],
    decreases s.len(),
{
    reveal_with_fuel(Seq::<_>::filter, 2);
    if s.len() > 0 {
        let d = s.drop_last();
        if pred(s.last()) {
            if k < d.filter(pred).len() {
                lemma_filter_element_of(d, pred, k);
                let j = choose|j: int| 0 <= j < d.len() && d.filter(pred)[k] == d[j];
                assert(s.filter(pred)[k] == s[j]);
            } else {
                assert(s.filter(pred)[k] == s.last());
                assert(s.filter(pred)[k] == s[s.len() - 1]);
            }
        } else {
            assert(s.filter(pred) == d.filter(pred));
            lemma_filter_element_of(d, pred, k);
            let j = choose|j: int| 0 <= j < d.len() && d.filter(pred)[k] == d[j];
            assert(s.filter(pred)[k] == s[j]);
        }
    }
}

} // verus!
