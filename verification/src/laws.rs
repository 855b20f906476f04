//! Properties that hold across the operations of the server's state machine.

use std::sync::mpsc::Sender;
use vstd::prelude::*;
use crate::credentials::spec_hash_password;
use crate::model::{spec_coordinate_changed, Coordinate, ServerMessage, TrajectoryPoint, UserStatus, MOVE_THRESHOLD};
use crate::session::SessionView;
use crate::state::{
    closed_session, login_session, report_step, session_ok, spec_disconnect, spec_login,
    spec_register, spec_update_position, trajectory_of, valid_view, ServerView, PAUSE_SECS,
};
use crate::time::{spec_seconds_between, Timestamp};

verus! {

/// A name that registration accepted can log in with the same password, and
/// its session then holds the connection it logged in over.
pub proof fn law_login_after_register(pre: ServerView, u: Seq<char>, p: Seq<char>, tx: Sender<ServerMessage>)
    requires
        spec_register(pre, u, p).0,
    ensures
        spec_login(spec_register(pre, u, p).1, u, p, tx).0,
        spec_login(spec_register(pre, u, p).1, u, p, tx).1.sessions[u].connection == Some(tx),
{
}

/// Logging in with a password whose hash differs from the stored one fails and
/// changes nothing.
pub proof fn law_login_wrong_password(pre: ServerView, u: Seq<char>, q: Seq<char>, tx: Sender<ServerMessage>)
    requires
        pre.users.contains_key(u),
        pre.users[u] != spec_hash_password(q),
    ensures
        spec_login(pre, u, q, tx) == (false, pre),
{
}

/// Registering a name that is already taken fails and changes nothing.
pub proof fn law_register_taken(pre: ServerView, u: Seq<char>, p: Seq<char>)
    requires
        pre.users.contains_key(u),
    ensures
        spec_register(pre, u, p) == (false, pre),
{
}

/// Registration never changes another user's stored hash or session.
pub proof fn law_register_keeps_others(pre: ServerView, u: Seq<char>, p: Seq<char>, w: Seq<char>)
    requires
        w != u,
    ensures
        spec_register(pre, u, p).1.users.contains_key(w) == pre.users.contains_key(w),
        pre.users.contains_key(w) ==> spec_register(pre, u, p).1.users[w] == pre.users[w],
        pre.sessions.contains_key(w) ==> spec_register(pre, u, p).1.sessions[w] == pre.sessions[w],
{
}

/// Every operation keeps the state's invariant.
pub proof fn law_operations_keep_invariant(
    pre: ServerView,
    u: Seq<char>,
    p: Seq<char>,
    tx: Sender<ServerMessage>,
    coord: Coordinate,
    time: Timestamp,
)
    requires
        valid_view(pre),
        time.wf(),
    ensures
        valid_view(spec_register(pre, u, p).1),
        valid_view(spec_login(pre, u, p, tx).1),
        valid_view(spec_disconnect(pre, u)),
        valid_view(spec_update_position(pre, u, coord, time).1),
{
    crate::credentials::lemma_hash_has_no_colon(p);
    let r = spec_register(pre, u, p).1;
    assert(r.sessions.dom() =~= r.users.dom());
    let l = spec_login(pre, u, p, tx).1;
    assert(l.sessions.dom() =~= l.users.dom());
    let d = spec_disconnect(pre, u);
    assert(d.sessions.dom() =~= d.users.dom());
    let s = spec_update_position(pre, u, coord, time).1;
    assert(s.sessions.dom() =~= s.users.dom());
    if pre.sessions.contains_key(u) && pre.sessions[u].status != UserStatus::Disconnected {
        assert forall|w: Seq<char>| #[trigger] s.trajectories.contains_key(w) implies crate::state::points_ok(
            s.trajectories[w],
        ) by {
            if w == u {
                let ps = s.trajectories[w];
                assert forall|k: int| 0 <= k < ps.len() implies (#[trigger] ps[k]).time.wf() by {
                    if k < ps.len() - 1 {
                        assert(ps[k] == trajectory_of(pre, u)[k]);
                    }
                }
            }
        }
    }
}

/// In a valid state a session is active exactly when it has a connection.
pub proof fn law_active_iff_connected(v: ServerView, u: Seq<char>)
    requires
        valid_view(v),
        v.sessions.contains_key(u),
    ensures
        v.sessions[u].connection is Some <==> v.sessions[u].status != UserStatus::Disconnected,
{
}

/// After a successful login the session is active with no position, and the
/// first position report leaves it stationary.
pub proof fn law_first_report_after_login(
    pre: ServerView,
    u: Seq<char>,
    p: Seq<char>,
    tx: Sender<ServerMessage>,
    coord: Coordinate,
    time: Timestamp,
)
    requires
        spec_login(pre, u, p, tx).0,
    ensures
        spec_login(pre, u, p, tx).1.sessions[u] == login_session(tx),
        spec_update_position(spec_login(pre, u, p, tx).1, u, coord, time).0 == UserStatus::Stationary,
{
}

/// Position reports from a name whose connection was closed are ignored.
pub proof fn law_reports_ignored_after_disconnect(
    pre: ServerView,
    u: Seq<char>,
    coord: Coordinate,
    time: Timestamp,
)
    ensures
        spec_update_position(spec_disconnect(pre, u), u, coord, time) == (
            UserStatus::Disconnected,
            spec_disconnect(pre, u),
        ),
{
    let d = spec_disconnect(pre, u);
    if pre.sessions.contains_key(u) {
        assert(d.sessions[u] == closed_session(pre.sessions[u]));
    }
}

/// A report from an active session appends exactly that report, with the new
/// status, to the end of the name's trajectory, and touches no other name.
pub proof fn law_report_appends_one_point(
    pre: ServerView,
    u: Seq<char>,
    w: Seq<char>,
    coord: Coordinate,
    time: Timestamp,
)
    requires
        pre.sessions.contains_key(u),
        pre.sessions[u].status != UserStatus::Disconnected,
        w != u,
    ensures
        ({
            let (status, post) = spec_update_position(pre, u, coord, time);
            &&& trajectory_of(post, u) == trajectory_of(pre, u).push(
                TrajectoryPoint { time, coord, status },
            )
            &&& trajectory_of(post, w) == trajectory_of(pre, w)
            &&& post.sessions.contains_key(w) == pre.sessions.contains_key(w)
            &&& pre.sessions.contains_key(w) ==> post.sessions[w] == pre.sessions[w]
            &&& post.users == pre.users
        }),
{
}

/// An active session never becomes disconnected through a position report.
pub proof fn law_report_keeps_active(s: SessionView, coord: Coordinate, time: Timestamp)
    requires
        s.status != UserStatus::Disconnected,
    ensures
        report_step(s, coord, time).status != UserStatus::Disconnected,
        report_step(s, coord, time).connection == s.connection,
        report_step(s, coord, time).last_coord is Some,
{
}

/// A report whose position differs from the last one by more than the threshold
/// makes the vehicle moving, and it becomes the last position.
pub proof fn law_change_means_moving(s: SessionView, prev: Coordinate, coord: Coordinate, time: Timestamp)
    requires
        s.last_coord == Some(prev),
        spec_coordinate_changed(prev, coord),
    ensures
        report_step(s, coord, time).status == UserStatus::Moving,
        report_step(s, coord, time).last_coord == Some(coord),
        report_step(s, coord, time).last_changed == Some(time),
{
}

/// A stationary vehicle becomes moving only when its position changes.
pub proof fn law_start_moving_only_on_change(s: SessionView, coord: Coordinate, time: Timestamp)
    requires
        s.status == UserStatus::Stationary,
        report_step(s, coord, time).status == UserStatus::Moving,
    ensures
        s.last_coord matches Some(prev) && spec_coordinate_changed(prev, coord),
{
}

/// A moving vehicle becomes stationary exactly when a report repeats its last
/// position at least `PAUSE_SECS` seconds after the position last changed.
pub proof fn law_stop_after_pause(s: SessionView, coord: Coordinate, time: Timestamp)
    requires
        session_ok(s),
        s.status == UserStatus::Moving,
        s.last_coord is Some,
    ensures
        report_step(s, coord, time).status == UserStatus::Stationary <==> (!spec_coordinate_changed(
            s.last_coord->0,
            coord,
        ) && spec_seconds_between(time, s.last_changed->0) >= PAUSE_SECS),
{
}

/// A change of position by more than the threshold counts as movement along
/// either axis alone: driving due east or west (latitude unchanged) as well as
/// due north or south (longitude unchanged). A change within the threshold on
/// both axes does not count.
pub proof fn law_movement_along_either_axis(prev: Coordinate, next: Coordinate)
    ensures
        next.lat == prev.lat && (next.lon > prev.lon + MOVE_THRESHOLD || next.lon < prev.lon - MOVE_THRESHOLD)
            ==> spec_coordinate_changed(prev, next),
        next.lon == prev.lon && (next.lat > prev.lat + MOVE_THRESHOLD || next.lat < prev.lat - MOVE_THRESHOLD)
            ==> spec_coordinate_changed(prev, next),
        prev.lat - MOVE_THRESHOLD <= next.lat <= prev.lat + MOVE_THRESHOLD && prev.lon - MOVE_THRESHOLD
            <= next.lon <= prev.lon + MOVE_THRESHOLD ==> !spec_coordinate_changed(prev, next),
{
}

/// A report to an active session with a last position, of a position farther
/// than the threshold from it in longitude alone, answers `Moving`, makes the
/// session moving at that position and records the report as moving.
pub proof fn law_report_east_or_west_is_moving(
    pre: ServerView,
    u: Seq<char>,
    prev: Coordinate,
    coord: Coordinate,
    time: Timestamp,
)
    requires
        pre.sessions.contains_key(u),
        pre.sessions[u].status != UserStatus::Disconnected,
        pre.sessions[u].last_coord == Some(prev),
        coord.lat == prev.lat,
        coord.lon > prev.lon + MOVE_THRESHOLD || coord.lon < prev.lon - MOVE_THRESHOLD,
    ensures
        spec_update_position(pre, u, coord, time).0 == UserStatus::Moving,
        spec_update_position(pre, u, coord, time).1.sessions[u].status == UserStatus::Moving,
        spec_update_position(pre, u, coord, time).1.sessions[u].last_coord == Some(coord),
        spec_update_position(pre, u, coord, time).1.trajectories[u].last() == (TrajectoryPoint {
            time,
            coord,
            status: UserStatus::Moving,
        }),
{
    law_movement_along_either_axis(prev, coord);
}

/// Logging in with the password whose hash is stored for a registered name
/// succeeds whatever the name's session holds (a connection, a position, any
/// status): the session starts over stationary, without a position, on the new
/// connection, and nothing else changes.
pub proof fn law_login_with_right_password(
    pre: ServerView,
    u: Seq<char>,
    p: Seq<char>,
    tx: Sender<ServerMessage>,
    w: Seq<char>,
)
    requires
        valid_view(pre),
        pre.users.contains_key(u),
        pre.users[u] == spec_hash_password(p),
    ensures
        spec_login(pre, u, p, tx).0,
        spec_login(pre, u, p, tx).1.sessions[u] == (SessionView {
            status: UserStatus::Stationary,
            last_coord: None,
            last_changed: None,
            connection: Some(tx),
        }),
        spec_login(pre, u, p, tx).1.users == pre.users,
        spec_login(pre, u, p, tx).1.trajectories == pre.trajectories,
        w != u ==> spec_login(pre, u, p, tx).1.sessions.contains_key(w) == pre.sessions.contains_key(w),
        w != u && pre.sessions.contains_key(w) ==> spec_login(pre, u, p, tx).1.sessions[w] == pre.sessions[w],
{
}

/// A vehicle that logged in, reported a position and was disconnected logs in
/// again with the same password.
pub proof fn law_login_again_after_reporting(
    pre: ServerView,
    u: Seq<char>,
    p: Seq<char>,
    tx1: Sender<ServerMessage>,
    tx2: Sender<ServerMessage>,
    coord: Coordinate,
    time: Timestamp,
)
    requires
        valid_view(pre),
        spec_login(pre, u, p, tx1).0,
    ensures
        ({
            let s1 = spec_login(pre, u, p, tx1).1;
            let s2 = spec_update_position(s1, u, coord, time).1;
            let s3 = spec_disconnect(s2, u);
            &&& spec_login(s3, u, p, tx2).0
            &&& spec_login(s3, u, p, tx2).1.sessions[u].connection == Some(tx2)
        }),
{
}

} // verus!
