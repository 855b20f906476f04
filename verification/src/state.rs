//! The server's state: registered users, their sessions and their recorded
//! trajectories, with the vehicle state machine that position reports drive.

use std::sync::mpsc::Sender;
use vstd::prelude::*;
use crate::analysis::{
    analyze_movement, counted_legs, duration_in, interval_start_defined, points_since, route_of,
    spec_interval_start, times_valid, AnalysisResult, TimeInterval, MAX_POINTS,
};
use crate::credentials::{hash_password, lemma_hash_has_no_colon, spec_hash_password};
use crate::records::{
    format_user_line, law_user_line_roundtrip, parse_user_line, single_colon_at, spec_parse_user_line,
    user_line,
};
use crate::text::views;
use crate::model::{spec_coordinate_changed, coordinate_changed, Coordinate, ServerMessage, TrajectoryPoint, UserStatus};
use crate::names::NameMap;
use crate::session::{accepted, deliver, SessionView, UserSession};
use crate::text::same_text;
use crate::time::{seconds_between, spec_seconds_between, Timestamp};

verus! {

/// Seconds without a change of position after which a moving vehicle counts as stationary.
pub const PAUSE_SECS: i64 = 180;

/// The server's state as plain values.
#[verifier::ext_equal]
pub struct ServerView {
    /// Each registered name with its stored password hash.
    pub users: Map<Seq<char>, Seq<char>>,
    /// Each registered name with its session.
    pub sessions: Map<Seq<char>, SessionView>,
    /// Each name with the position reports recorded for it, oldest first.
    pub trajectories: Map<Seq<char>, Seq<TrajectoryPoint>>,
}

/// A session is active exactly when it has a connection, it has a last position
/// exactly when it has a last change time, and that time is a valid instant.
pub open spec fn session_ok(s: SessionView) -> bool {
    &&& s.connection is Some <==> s.status != UserStatus::Disconnected
    &&& s.last_coord is Some <==> s.last_changed is Some
    &&& s.last_changed matches Some(t) ==> t.wf()
}

/// Every recorded instant is valid.
pub open spec fn points_ok(ps: Seq<TrajectoryPoint>) -> bool {
    forall|i: int| 0 <= i < ps.len() ==> (#[trigger] ps[i]).time.wf()
}

/// The invariant of the server's state: sessions are kept for exactly the
/// registered names, and every session and trajectory is well formed.
pub open spec fn valid_view(v: ServerView) -> bool {
    &&& v.sessions.dom() == v.users.dom()
    &&& forall|u: Seq<char>| #[trigger] v.users.contains_key(u) ==> !v.users[u].contains(':')
    &&& forall|u: Seq<char>| #[trigger] v.sessions.contains_key(u) ==> session_ok(v.sessions[u])
    &&& forall|u: Seq<char>| #[trigger] v.trajectories.contains_key(u) ==> points_ok(v.trajectories[u])
}

/// The session that registration creates.
pub open spec fn fresh_session() -> SessionView {
    SessionView {
        status: UserStatus::Disconnected,
        last_coord: None,
        last_changed: None,
        connection: None,
    }
}

/// The session that a successful login creates: stationary, no position yet,
/// with `tx` as its connection.
pub open spec fn login_session(tx: Sender<ServerMessage>) -> SessionView {
    SessionView {
        status: UserStatus::Stationary,
        last_coord: None,
        last_changed: None,
        connection: Some(tx),
    }
}

/// `s` with its connection closed: status `Disconnected`, position kept.
pub open spec fn closed_session(s: SessionView) -> SessionView {
    SessionView { status: UserStatus::Disconnected, connection: None, ..s }
}

/// Registration of `u` with password `p`: refused when `u` is taken; otherwise
/// the name gets the password's hash and a fresh, disconnected session.
pub open spec fn spec_register(pre: ServerView, u: Seq<char>, p: Seq<char>) -> (bool, ServerView) {
    if pre.users.contains_key(u) {
        (false, pre)
    } else {
        (
            true,
            ServerView {
                users: pre.users.insert(u, spec_hash_password(p)),
                sessions: pre.sessions.insert(u, fresh_session()),
                trajectories: pre.trajectories,
            },
        )
    }
}

/// Login of `u` with password `p` over connection `tx`: accepted when `u` is
/// registered with the hash of `p`, and then the session starts over,
/// stationary, with `tx` as its connection.
pub open spec fn spec_login(pre: ServerView, u: Seq<char>, p: Seq<char>, tx: Sender<ServerMessage>) -> (
    bool,
    ServerView,
) {
    if pre.users.contains_key(u) && pre.users[u] == spec_hash_password(p) {
        (
            true,
            ServerView {
                users: pre.users,
                sessions: pre.sessions.insert(u, login_session(tx)),
                trajectories: pre.trajectories,
            },
        )
    } else {
        (false, pre)
    }
}

/// Closing the connection of `u`, if `u` has a session.
pub open spec fn spec_disconnect(pre: ServerView, u: Seq<char>) -> ServerView {
    if pre.sessions.contains_key(u) {
        ServerView {
            users: pre.users,
            sessions: pre.sessions.insert(u, closed_session(pre.sessions[u])),
            trajectories: pre.trajectories,
        }
    } else {
        pre
    }
}

/// The reports recorded for `u`, none if it has no trajectory yet.
pub open spec fn trajectory_of(v: ServerView, u: Seq<char>) -> Seq<TrajectoryPoint> {
    if v.trajectories.contains_key(u) {
        v.trajectories[u]
    } else {
        Seq::empty()
    }
}

/// The effect of a position report on an active session. The first report
/// after login records the position as stationary; a position farther than the
/// threshold from the last one means moving; a moving vehicle whose position
/// has not changed for at least `PAUSE_SECS` becomes stationary again.
pub open spec fn report_step(s: SessionView, coord: Coordinate, time: Timestamp) -> SessionView {
    match s.last_coord {
        None => SessionView {
            status: UserStatus::Stationary,
            last_coord: Some(coord),
            last_changed: Some(time),
            ..s
        },
        Some(prev) => if spec_coordinate_changed(prev, coord) {
            SessionView {
                status: UserStatus::Moving,
                last_coord: Some(coord),
                last_changed: Some(time),
                ..s
            }
        } else if s.status == UserStatus::Moving && s.last_changed is Some && spec_seconds_between(
            time,
            s.last_changed->0,
        ) >= PAUSE_SECS {
            SessionView { status: UserStatus::Stationary, last_changed: Some(time), ..s }
        } else {
            s
        },
    }
}

/// A position report of `u`: ignored (answer `Disconnected`) when `u` has no
/// active session; otherwise the session takes its step, the report is
/// appended to `u`'s trajectory with the new status, and the new status is the answer.
pub open spec fn spec_update_position(
    pre: ServerView,
    u: Seq<char>,
    coord: Coordinate,
    time: Timestamp,
) -> (UserStatus, ServerView) {
    if pre.sessions.contains_key(u) && pre.sessions[u].status != UserStatus::Disconnected {
        let s = report_step(pre.sessions[u], coord, time);
        (
            s.status,
            ServerView {
                users: pre.users,
                sessions: pre.sessions.insert(u, s),
                trajectories: pre.trajectories.insert(
                    u,
                    trajectory_of(pre, u).push(TrajectoryPoint { time, coord, status: s.status }),
                ),
            },
        )
    } else {
        (UserStatus::Disconnected, pre)
    }
}

/// Handing `msg` to the session `pre`, with outcome `ok`, leaves `post`. Without
/// a connection nothing is handed over and nothing changes. With one, success
/// means its channel has accepted exactly `msg` more and the session is
/// otherwise as it was; failure closes the session as `disconnect` does.
pub open spec fn spec_delivered(pre: SessionView, post: SessionView, msg: ServerMessage, ok: bool) -> bool {
    match pre.connection {
        None => !ok && post == pre,
        Some(tx) => if ok {
            &&& post.status == pre.status
            &&& post.last_coord == pre.last_coord
            &&& post.last_changed == pre.last_changed
            &&& post.connection matches Some(tx2) && accepted(tx2) == accepted(tx).push(msg)
        } else {
            post == closed_session(pre)
        },
    }
}

/// `post` is what handing `msg` to `pre` leaves, whichever the outcome.
pub open spec fn handed_once(pre: SessionView, post: SessionView, msg: ServerMessage) -> bool {
    exists|ok: bool| spec_delivered(pre, post, msg, ok)
}

/// What broadcasting `msg` leaves: users and trajectories as they were, the same
/// sessions, and each of them handed `msg` once as by `spec_delivered` (so a
/// session without a connection is untouched, and a connected one has either
/// accepted `msg` or been closed).
pub open spec fn broadcast_outcome(pre: ServerView, post: ServerView, msg: ServerMessage) -> bool {
    &&& post.users == pre.users
    &&& post.trajectories == pre.trajectories
    &&& post.sessions.dom() == pre.sessions.dom()
    &&& forall|u: Seq<char>| #[trigger]
        post.sessions.contains_key(u) ==> handed_once(pre.sessions[u], post.sessions[u], msg)
}

/// A state with nothing in it.
pub open spec fn empty_view() -> ServerView {
    ServerView { users: Map::empty(), sessions: Map::empty(), trajectories: Map::empty() }
}

/// Loading one users-file line: a record registers its name with its hash and a
/// fresh session (replacing any earlier ones); other lines change nothing.
pub open spec fn load_user_record(pre: ServerView, line: Seq<char>) -> ServerView {
    match spec_parse_user_line(line) {
        Some((u, h)) => ServerView {
            users: pre.users.insert(u, h),
            sessions: pre.sessions.insert(u, fresh_session()),
            trajectories: pre.trajectories,
        },
        None => pre,
    }
}

/// Loading users-file lines in order.
pub open spec fn load_user_records(pre: ServerView, lines: Seq<Seq<char>>) -> ServerView
    decreases lines.len(),
{
    if lines.len() == 0 {
        pre
    } else {
        load_user_record(load_user_records(pre, lines.drop_last()), lines.last())
    }
}

/// The server's state.
pub struct ServerState {
    users: NameMap<String>,
    sessions: NameMap<UserSession>,
    trajectories: NameMap<Vec<TrajectoryPoint>>,
}

impl View for ServerState {
    type V = ServerView;

    closed spec fn view(&self) -> ServerView {
        ServerView { users: self.users@, sessions: self.sessions@, trajectories: self.trajectories@ }
    }
}

impl ServerState {
    /// The maps are well formed and the state satisfies its invariant.
    pub closed spec fn wf(&self) -> bool {
        &&& self.users.wf()
        &&& self.sessions.wf()
        &&& self.trajectories.wf()
        &&& valid_view(self@)
    }

    /// A state with no users, no sessions and no trajectories.
    pub fn new() -> (r: ServerState)
        ensures
            r.wf(),
            r@.users == Map::<Seq<char>, Seq<char>>::empty(),
            r@.sessions == Map::<Seq<char>, SessionView>::empty(),
            r@.trajectories == Map::<Seq<char>, Seq<TrajectoryPoint>>::empty(),
    {
        let r = ServerState { users: NameMap::new(), sessions: NameMap::new(), trajectories: NameMap::new() };
        assert(r@.sessions.dom() =~= r@.users.dom());
        r
    }

    /// Every state that the operations produce satisfies the invariant.
    pub proof fn law_state_is_valid(&self)
        requires
            self.wf(),
        ensures
            valid_view(self@),
    {
    }

    /// Registers `username` with `password`; `false` when the name is taken.
    pub fn register(&mut self, username: String, password: String) -> (r: bool)
        requires
            old(self).wf(),
        ensures
            final(self).wf(),
            r == spec_register(old(self)@, username@, password@).0,
            final(self)@ == spec_register(old(self)@, username@, password@).1,
    {
        if self.users.contains(username.as_str()) {
            return false;
        }
        let hashed = hash_password(password.as_str());
        proof {
            lemma_hash_has_no_colon(password@);
        }
        let name = username.clone();
        self.users.insert(username, hashed);
        self.sessions.insert(name, UserSession::disconnected());
        proof {
            assert(self@.sessions.dom() =~= self@.users.dom());
            assert(self@ =~= spec_register(old(self)@, username@, password@).1);
        }
        true
    }

    /// Logs `username` in with `password`; on success the session starts over,
    /// stationary, with `sender` as its connection.
    pub fn login(&mut self, username: &str, password: &str, sender: Sender<ServerMessage>) -> (r: bool)
        requires
            old(self).wf(),
        ensures
            final(self).wf(),
            r == spec_login(old(self)@, username@, password@, sender).0,
            final(self)@ == spec_login(old(self)@, username@, password@, sender).1,
    {
        let ghost tx = sender;
        let matches = match self.users.get(username) {
            Some(saved) => {
                let hashed = hash_password(password);
                same_text(saved.as_str(), hashed.as_str())
            },
            None => false,
        };
        if !matches {
            return false;
        }
        self.sessions.insert(
            username.to_owned(),
            UserSession {
                status: UserStatus::Stationary,
                last_coord: None,
                last_changed: None,
                connection_sender: Some(sender),
            },
        );
        proof {
            assert(self@.sessions.dom() =~= self@.users.dom());
            assert(self@ =~= spec_login(old(self)@, username@, password@, tx).1);
        }
        true
    }

    /// Closes the connection of `username`, if it has a session.
    pub fn disconnect(&mut self, username: &str)
        requires
            old(self).wf(),
        ensures
            final(self).wf(),
            final(self)@ == spec_disconnect(old(self)@, username@),
    {
        match self.sessions.find(username) {
            Some(i) => {
                let mut s = self.sessions.replace_at(i, UserSession::disconnected());
                s.status = UserStatus::Disconnected;
                s.connection_sender = None;
                self.sessions.replace_at(i, s);
                proof {
                    assert(self@.sessions.dom() =~= self@.users.dom());
                    assert(self@ =~= spec_disconnect(old(self)@, username@));
                }
            },
            None => {},
        }
    }
}

impl ServerState {
    /// Processes a position report of `username` and answers the resulting
    /// status; a report from a name without an active session is ignored.
    pub fn update_position(&mut self, username: &str, coord: Coordinate, time: Timestamp) -> (r: UserStatus)
        requires
            old(self).wf(),
            time.wf(),
        ensures
            final(self).wf(),
            r == spec_update_position(old(self)@, username@, coord, time).0,
            final(self)@ == spec_update_position(old(self)@, username@, coord, time).1,
    {
        let i = match self.sessions.find(username) {
            Some(i) => i,
            None => return UserStatus::Disconnected,
        };
        let ghost u = username@;
        let ghost s0 = old(self)@.sessions[u];
        let cur = self.sessions.value_at(i);
        assert(cur@ == s0);
        if cur.status == UserStatus::Disconnected {
            return UserStatus::Disconnected;
        }
        assert(session_ok(s0));
        let old_status = cur.status;
        let (new_status, new_coord, new_changed) = match cur.last_coord {
            None => (UserStatus::Stationary, Some(coord), Some(time)),
            Some(prev) => {
                if coordinate_changed(prev, coord) {
                    (UserStatus::Moving, Some(coord), Some(time))
                } else {
                    let paused = match cur.last_changed {
                        Some(changed) => old_status == UserStatus::Moving && seconds_between(
                            time,
                            changed,
                        ) >= PAUSE_SECS,
                        None => false,
                    };
                    if paused {
                        (UserStatus::Stationary, cur.last_coord, Some(time))
                    } else {
                        (old_status, cur.last_coord, cur.last_changed)
                    }
                }
            },
        };
        let ghost s1 = report_step(s0, coord, time);
        assert(new_status == s1.status && new_coord == s1.last_coord && new_changed == s1.last_changed);
        let mut entry = self.sessions.replace_at(i, UserSession::disconnected());
        entry.status = new_status;
        entry.last_coord = new_coord;
        entry.last_changed = new_changed;
        assert(entry@ == s1);
        self.sessions.replace_at(i, entry);
        let point = TrajectoryPoint { time, coord, status: new_status };
        match self.trajectories.find(username) {
            Some(j) => {
                let mut pts = self.trajectories.replace_at(j, Vec::new());
                pts.push(point);
                self.trajectories.replace_at(j, pts);
            },
            None => {
                let mut pts: Vec<TrajectoryPoint> = Vec::new();
                pts.push(point);
                assert(pts@ == Seq::<TrajectoryPoint>::empty().push(point));
                self.trajectories.insert(username.to_owned(), pts);
            },
        }
        proof {
            let post = spec_update_position(old(self)@, u, coord, time).1;
            assert(self@.sessions.dom() =~= self@.users.dom());
            assert(self@ =~= post);
            assert forall|w: Seq<char>| #[trigger] self@.trajectories.contains_key(w) implies points_ok(
                self@.trajectories[w],
            ) by {
                if w == u {
                    let ps = self@.trajectories[w];
                    assert forall|k: int| 0 <= k < ps.len() implies (#[trigger] ps[k]).time.wf() by {
                        if k < ps.len() - 1 {
                            assert(ps[k] == trajectory_of(old(self)@, u)[k]);
                        }
                    }
                }
            }
        }
        new_status
    }

    /// Hands `msg` to the connection of the session at position `i`.
    fn send_at(&mut self, i: usize, msg: &ServerMessage) -> (r: bool)
        requires
            old(self).wf(),
            i < old(self).sessions.spec_len(),
        ensures
            final(self).wf(),
            final(self).sessions.keys() == old(self).sessions.keys(),
            final(self).sessions.spec_len() == old(self).sessions.spec_len(),
            ({
                let pre = old(self)@;
                let post = final(self)@;
                let u = old(self).sessions.keys()[i as int];
                &&& pre.sessions.contains_key(u)
                &&& post.users == pre.users
                &&& post.trajectories == pre.trajectories
                &&& post.sessions == pre.sessions.insert(u, post.sessions[u])
                &&& spec_delivered(pre.sessions[u], post.sessions[u], *msg, r)
            }),
    {
        proof {
            self.sessions.lemma_index();
            assert(self@.sessions.contains_key(self.sessions.keys()[i as int]));
        }
        let ghost u = self.sessions.keys()[i as int];
        let ghost s0 = old(self)@.sessions[u];
        assert(session_ok(s0));
        let entry = self.sessions.replace_at(i, UserSession::disconnected());
        assert(entry@ == s0);
        let UserSession { status, last_coord, last_changed, connection_sender } = entry;
        let (r, kept) = match connection_sender {
            Some(tx) => {
                let mut tx = tx;
                let ok = deliver(&mut tx, msg.duplicate());
                if ok {
                    (true, UserSession { status, last_coord, last_changed, connection_sender: Some(tx) })
                } else {
                    (
                        false,
                        UserSession {
                            status: UserStatus::Disconnected,
                            last_coord,
                            last_changed,
                            connection_sender: None,
                        },
                    )
                }
            },
            None => (false, UserSession { status, last_coord, last_changed, connection_sender: None }),
        };
        assert(spec_delivered(s0, kept@, *msg, r));
        assert(session_ok(kept@));
        self.sessions.replace_at(i, kept);
        proof {
            assert(self@.sessions.dom() =~= self@.users.dom());
            assert forall|w: Seq<char>| #[trigger] self@.sessions.contains_key(w) implies session_ok(
                self@.sessions[w],
            ) by {
                if w != u {
                    assert(old(self)@.sessions.contains_key(w));
                }
            }
            assert(self@.users == old(self)@.users && self@.trajectories == old(self)@.trajectories);
            assert(valid_view(self@));
            assert(self@.sessions =~= old(self)@.sessions.insert(u, self@.sessions[u]));
        }
        r
    }

    /// Hands `msg` to the connection of `username`. Answers `false` when there
    /// is no such connection, and when delivery fails, in which case the
    /// connection is closed as by `disconnect`.
    pub fn send_message(&mut self, username: &str, msg: &ServerMessage) -> (r: bool)
        requires
            old(self).wf(),
        ensures
            final(self).wf(),
            ({
                let pre = old(self)@;
                let post = final(self)@;
                let u = username@;
                if pre.sessions.contains_key(u) {
                    &&& post.users == pre.users
                    &&& post.trajectories == pre.trajectories
                    &&& post.sessions == pre.sessions.insert(u, post.sessions[u])
                    &&& spec_delivered(pre.sessions[u], post.sessions[u], *msg, r)
                } else {
                    !r && post == pre
                }
            }),
    {
        match self.sessions.find(username) {
            Some(i) => self.send_at(i, msg),
            None => false,
        }
    }

    /// Hands `msg` to every connected user, each once, in the order of the
    /// sessions; a connection to which delivery fails is closed.
    pub fn broadcast_message(&mut self, msg: &ServerMessage)
        requires
            old(self).wf(),
        ensures
            final(self).wf(),
            broadcast_outcome(old(self)@, final(self)@, *msg),
    {
        proof {
            self.sessions.lemma_index();
        }
        let n = self.sessions.len();
        let ghost keys = self.sessions.keys();
        let mut i: usize = 0;
        while i < n
            invariant
                self.wf(),
                n == self.sessions.spec_len(),
                n == keys.len(),
                i <= n,
                self.sessions.keys() == keys,
                keys == old(self).sessions.keys(),
                crate::names::distinct(keys),
                forall|j: int| 0 <= j < n ==> #[trigger] old(self)@.sessions.contains_key(keys[j]),
                forall|u: Seq<char>| #[trigger] old(self)@.sessions.contains_key(u) ==> exists|j: int|
                    0 <= j < n && keys[j] == u,
                self@.users == old(self)@.users,
                self@.trajectories == old(self)@.trajectories,
                self@.sessions.dom() == old(self)@.sessions.dom(),
                forall|j: int| 0 <= j < i ==> handed_once(old(self)@.sessions[#[trigger] keys[j]], self@.sessions[keys[j]], *msg),
                forall|j: int| i <= j < n ==> self@.sessions[#[trigger] keys[j]] == old(self)@.sessions[keys[j]],
            decreases n - i,
        {
            let ghost mid = self@;
            proof {
                self.sessions.lemma_index();
                assert(self@.sessions.contains_key(keys[i as int]));
            }
            let connected = self.sessions.value_at(i).connection_sender.is_some();
            if connected {
                let ok = self.send_at(i, msg);
                proof {
                    assert(spec_delivered(old(self)@.sessions[keys[i as int]], self@.sessions[keys[i as int]], *msg, ok));
                }
            } else {
                proof {
                    assert(spec_delivered(old(self)@.sessions[keys[i as int]], self@.sessions[keys[i as int]], *msg, false));
                }
            }
            proof {
                assert forall|j: int| 0 <= j < n && j != i implies #[trigger] self@.sessions[keys[j]] == mid.sessions[keys[j]] by {
                    assert(keys[j] != keys[i as int]);
                }
                assert(self@.sessions.dom() =~= old(self)@.sessions.dom());
            }
            let ghost done = i;
            i += 1;
            proof {
                assert forall|j: int| 0 <= j < i implies handed_once(old(self)@.sessions[#[trigger] keys[j]], self@.sessions[keys[j]], *msg) by {
                    if j < done {
                        assert(handed_once(old(self)@.sessions[keys[j]], mid.sessions[keys[j]], *msg));
                        let ok = choose|ok: bool|
                            spec_delivered(old(self)@.sessions[keys[j]], mid.sessions[keys[j]], *msg, ok);
                        assert(spec_delivered(old(self)@.sessions[keys[j]], self@.sessions[keys[j]], *msg, ok));
                    }
                }
            }
        }
        proof {
            assert forall|u: Seq<char>| #[trigger] self@.sessions.contains_key(u) implies handed_once(
                old(self)@.sessions[u],
                self@.sessions[u],
                *msg,
            ) by {
                assert(old(self)@.sessions.contains_key(u));
                let j = choose|j: int| 0 <= j < n && keys[j] == u;
                assert(handed_once(old(self)@.sessions[keys[j]], self@.sessions[keys[j]], *msg));
            }
        }
    }

    /// The session of `username`, if it is registered.
    pub fn session(&self, username: &str) -> (r: Option<&UserSession>)
        requires
            self.wf(),
        ensures
            r is Some <==> self@.sessions.contains_key(username@),
            r matches Some(s) ==> s@ == self@.sessions[username@],
    {
        self.sessions.get(username)
    }

    /// The recorded trajectory of `username`, if there is one.
    pub fn trajectory(&self, username: &str) -> (r: Option<&Vec<TrajectoryPoint>>)
        requires
            self.wf(),
        ensures
            r is Some <==> self@.trajectories.contains_key(username@),
            r matches Some(t) ==> t@ == self@.trajectories[username@],
    {
        self.trajectories.get(username)
    }

    /// The stored password hash of `username`, if it is registered.
    pub fn password_hash(&self, username: &str) -> (r: Option<&String>)
        requires
            self.wf(),
        ensures
            r is Some <==> self@.users.contains_key(username@),
            r matches Some(h) ==> h@ == self@.users[username@],
    {
        self.users.get(username)
    }
}

impl ServerState {
    /// The users-file lines of the state, one per registered name in order of registration.
    pub closed spec fn user_file_lines(&self) -> Seq<Seq<char>> {
        self.users.keys().map_values(|k: Seq<char>| user_line(k, self@.users[k]))
    }

    /// The registered names in order of registration.
    pub closed spec fn registration_order(&self) -> Seq<Seq<char>> {
        self.users.keys()
    }

    /// The users file holds exactly one line per registered name, in order of
    /// registration: the name, a `:` and the name's password hash.
    pub proof fn law_user_file_lines(&self)
        requires
            self.wf(),
        ensures
            self.user_file_lines().len() == self.registration_order().len(),
            forall|i: int|
                0 <= i < self.registration_order().len() ==> #[trigger] self.user_file_lines()[i]
                    == user_line(self.registration_order()[i], self@.users[self.registration_order()[i]]),
            forall|i: int|
                0 <= i < self.registration_order().len() ==> self@.users.contains_key(
                    #[trigger] self.registration_order()[i],
                ),
            forall|u: Seq<char>| #[trigger]
                self@.users.contains_key(u) ==> exists|i: int|
                    0 <= i < self.registration_order().len() && self.registration_order()[i] == u,
            forall|i: int, j: int|
                0 <= i < j < self.registration_order().len() ==> self.registration_order()[i]
                    != self.registration_order()[j],
    {
        self.users.lemma_index();
    }

    /// Writes the users file's lines: `name:hash` for every registered name.
    pub fn user_lines(&self) -> (r: Vec<String>)
        requires
            self.wf(),
        ensures
            views(r@) == self.user_file_lines(),
    {
        proof {
            self.users.lemma_index();
        }
        let n = self.users.len();
        let mut out: Vec<String> = Vec::new();
        let mut i: usize = 0;
        while i < n
            invariant
                self.wf(),
                n == self.users.spec_len(),
                i <= n,
                views(out@) == self.user_file_lines().take(i as int),
            decreases n - i,
        {
            proof {
                self.users.lemma_index();
                assert(self@.users.contains_key(self.users.keys()[i as int]));
            }
            let line = format_user_line(self.users.name_at(i).as_str(), self.users.value_at(i).as_str());
            let ghost before = out@;
            out.push(line);
            assert(views(out@) =~= views(before).push(line@));
            assert(self.user_file_lines().take(i + 1) =~= self.user_file_lines().take(i as int).push(
                line@,
            ));
            i += 1;
        }
        assert(self.user_file_lines().take(n as int) =~= self.user_file_lines());
        out
    }

    /// Loads users-file lines in order; each record registers its name with its
    /// hash and a fresh session.
    pub fn load_user_lines(&mut self, lines: &Vec<String>)
        requires
            old(self).wf(),
        ensures
            final(self).wf(),
            final(self)@ == load_user_records(old(self)@, views(lines@)),
    {
        let n = lines.len();
        let mut i: usize = 0;
        while i < n
            invariant
                self.wf(),
                n == lines@.len(),
                i <= n,
                self@ == load_user_records(old(self)@, views(lines@).take(i as int)),
            decreases n - i,
        {
            assert(views(lines@).take(i + 1).drop_last() =~= views(lines@).take(i as int));
            let ghost before = self@;
            match parse_user_line(lines[i].as_str()) {
                Some((name, hash)) => {
                    proof {
                        let k = choose|k: int| single_colon_at(lines@[i as int]@, k);
                        assert forall|j: int| 0 <= j < hash@.len() implies hash@[j] != ':' by {
                            assert(hash@[j] == lines@[i as int]@[k + 1 + j]);
                        }
                    }
                    let name2 = name.clone();
                    self.users.insert(name, hash);
                    self.sessions.insert(name2, UserSession::disconnected());
                    proof {
                        assert(self@.sessions.dom() =~= self@.users.dom());
                        assert(self@ =~= load_user_record(before, lines@[i as int]@));
                    }
                },
                None => {},
            }
            i += 1;
        }
        assert(views(lines@).take(n as int) =~= views(lines@));
    }

    /// Loads the trajectory of `username`, in place of any it had.
    pub fn load_trajectory(&mut self, username: String, points: Vec<TrajectoryPoint>)
        requires
            old(self).wf(),
            times_valid(points@),
        ensures
            final(self).wf(),
            final(self)@ == (ServerView {
                trajectories: old(self)@.trajectories.insert(username@, points@),
                ..old(self)@
            }),
    {
        self.trajectories.insert(username, points);
        proof {
            assert(self@ =~= (ServerView {
                trajectories: old(self)@.trajectories.insert(username@, points@),
                ..old(self)@
            }));
        }
    }

    /// The number of sessions.
    pub closed spec fn spec_session_count(&self) -> nat {
        self.sessions.spec_len()
    }

    /// The name of the session at position `i`.
    pub closed spec fn session_name(&self, i: int) -> Seq<char> {
        self.sessions.keys()[i]
    }

    /// Every session appears at exactly one position.
    pub proof fn lemma_session_positions(&self)
        requires
            self.wf(),
        ensures
            forall|i: int| 0 <= i < self.spec_session_count() ==> #[trigger] self@.sessions.contains_key(self.session_name(i)),
            forall|u: Seq<char>| #[trigger] self@.sessions.contains_key(u) ==> exists|i: int|
                0 <= i < self.spec_session_count() && self.session_name(i) == u,
            forall|i: int, j: int| 0 <= i < self.spec_session_count() && 0 <= j < self.spec_session_count() && i != j
                ==> self.session_name(i) != self.session_name(j),
    {
        self.sessions.lemma_index();
        assert forall|u: Seq<char>| #[trigger] self@.sessions.contains_key(u) implies exists|i: int|
            0 <= i < self.spec_session_count() && self.session_name(i) == u by {
            let i = choose|i: int| 0 <= i < self.sessions.spec_len() && self.sessions.keys()[i] == u;
            assert(self.session_name(i) == u);
        }
    }

    /// The number of sessions.
    pub fn session_count(&self) -> (r: usize)
        ensures
            r == self.spec_session_count(),
    {
        self.sessions.len()
    }

    /// The name and the session at position `i`.
    pub fn session_entry(&self, i: usize) -> (r: (&String, &UserSession))
        requires
            self.wf(),
            i < self.spec_session_count(),
        ensures
            r.0@ == self.session_name(i as int),
            r.1@ == self@.sessions[self.session_name(i as int)],
    {
        proof {
            self.sessions.lemma_index();
            assert(self.sessions@.contains_key(self.sessions.keys()[i as int]));
        }
        (self.sessions.name_at(i), self.sessions.value_at(i))
    }

    /// Analyses the recorded trajectory of `username` over `interval` as seen
    /// from `now`; `None` when the name has no trajectory.
    pub fn analyze_user(&self, username: &str, interval: TimeInterval, now: Timestamp) -> (r: Option<
        AnalysisResult,
    >)
        requires
            self.wf(),
            interval_start_defined(interval, now),
            self@.trajectories.contains_key(username@) ==> self@.trajectories[username@].len()
                <= MAX_POINTS,
        ensures
            r is Some <==> self@.trajectories.contains_key(username@),
            r matches Some(a) ==> ({
                let f = points_since(
                    self@.trajectories[username@],
                    spec_interval_start(interval, now),
                );
                &&& a.route@ == route_of(f)
                &&& a.counted_legs@ == counted_legs(f)
                &&& a.movement_duration_secs == duration_in(f, UserStatus::Moving)
                &&& a.pause_duration_secs == duration_in(f, UserStatus::Stationary)
            }),
    {
        match self.trajectories.get(username) {
            Some(history) => {
                proof {
                    assert(self@.trajectories.contains_key(username@));
                }
                Some(analyze_movement(history.as_slice(), interval, now))
            },
            None => None,
        }
    }

    proof fn lemma_load_prefix(&self, k: int)
        requires
            self.wf(),
            forall|u: Seq<char>| #[trigger] self@.users.contains_key(u) ==> !u.contains(':'),
            0 <= k <= self.users.spec_len(),
        ensures
            ({
                let ks = self.users.keys();
                let m = load_user_records(empty_view(), self.user_file_lines().take(k)).users;
                &&& forall|j: int| 0 <= j < k ==> #[trigger] m.contains_key(ks[j]) && m[ks[j]]
                    == self@.users[ks[j]]
                &&& forall|x: Seq<char>| #[trigger] m.contains_key(x) ==> exists|j: int|
                    0 <= j < k && ks[j] == x
            }),
        decreases k,
    {
        self.users.lemma_index();
        let ks = self.users.keys();
        let hv = self@.users;
        let lines = self.user_file_lines();
        if k == 0 {
            assert(lines.take(0) =~= Seq::<Seq<char>>::empty());
        } else {
            self.lemma_load_prefix(k - 1);
            let m0 = load_user_records(empty_view(), lines.take(k - 1)).users;
            assert(lines.take(k).drop_last() =~= lines.take(k - 1));
            assert(hv.contains_key(ks[k - 1]));
            assert(lines[k - 1] == user_line(ks[k - 1], hv[ks[k - 1]]));
            law_user_line_roundtrip(ks[k - 1], hv[ks[k - 1]]);
            let m1 = load_user_records(empty_view(), lines.take(k)).users;
            assert(m1 == m0.insert(ks[k - 1], hv[ks[k - 1]]));
            assert forall|j: int| 0 <= j < k implies #[trigger] m1.contains_key(ks[j]) && m1[ks[j]]
                == hv[ks[j]] by {
                if j < k - 1 {
                    assert(m0.contains_key(ks[j]));
                }
            }
            assert forall|x: Seq<char>| #[trigger] m1.contains_key(x) implies exists|j: int|
                0 <= j < k && ks[j] == x by {
                if x != ks[k - 1] {
                    assert(m0.contains_key(x));
                }
            }
        }
    }

    /// Saving the users file and loading it into an empty state gives back every
    /// registered name with its hash, provided no name holds a `:`.
    pub proof fn law_users_file_roundtrip(&self)
        requires
            self.wf(),
            forall|u: Seq<char>| #[trigger] self@.users.contains_key(u) ==> !u.contains(':'),
        ensures
            load_user_records(empty_view(), self.user_file_lines()).users == self@.users,
    {
        self.users.lemma_index();
        let ks = self.users.keys();
        let hv = self@.users;
        let lines = self.user_file_lines();
        let n = self.users.spec_len() as int;
        self.lemma_load_prefix(n);
        assert(lines.take(n) =~= lines);
        let m = load_user_records(empty_view(), lines).users;
        assert forall|x: Seq<char>| m.contains_key(x) <==> hv.contains_key(x) by {
            if hv.contains_key(x) {
                let i = choose|i: int| 0 <= i < self.users.spec_len() && ks[i] == x;
                assert(m.contains_key(ks[i]));
            }
            if m.contains_key(x) {
                let j = choose|j: int| 0 <= j < n && ks[j] == x;
                assert(hv.contains_key(ks[j]));
            }
        }
        assert(m =~= hv);
    }
}

} // verus!
