//! The line formats of the server's files: `name:hash` lines for users and
//! `time lat lon status` lines for trajectories.

use vstd::prelude::*;
use crate::model::UserStatus;
use crate::text::{is_space, is_word, joined, law_words_of_joined, push_char, split_words, views, words};
use crate::time::{
    format_instant, parse_instant, rfc3339_instant, rfc3339_text, spec_instant_from_parts, Timestamp,
    RFC3339_MAX_SECS, RFC3339_MIN_SECS,
};

verus! {

/// The line that stores user `name` with password hash `hash`.
pub open spec fn user_line(name: Seq<char>, hash: Seq<char>) -> Seq<char> {
    name + seq![':'] + hash
}

/// `s` holds a `:` at `i` and nowhere else.
pub open spec fn single_colon_at(s: Seq<char>, i: int) -> bool {
    &&& 0 <= i < s.len()
    &&& s[i] == ':'
    &&& forall|j: int| 0 <= j < s.len() && j != i ==> s[j] != ':'
}

/// A users-file line read back: the name before its only `:` and the hash after
/// it; lines without exactly one `:` are not records.
pub open spec fn spec_parse_user_line(s: Seq<char>) -> Option<(Seq<char>, Seq<char>)> {
    if exists|i: int| single_colon_at(s, i) {
        let i = choose|i: int| single_colon_at(s, i);
        Some((s.take(i), s.skip(i + 1)))
    } else {
        None
    }
}

/// Writes the users-file line of `name` and `hash`.
pub fn format_user_line(name: &str, hash: &str) -> (r: String)
    ensures
        r@ == user_line(name@, hash@),
{
    let mut out = name.to_owned();
    push_char(&mut out, ':');
    out.append(hash);
    out
}

/// Reads a users-file line.
pub fn parse_user_line(line: &str) -> (r: Option<(String, String)>)
    ensures
        match r {
            Some((name, hash)) => spec_parse_user_line(line@) == Some((name@, hash@)),
            None => spec_parse_user_line(line@) is None,
        },
{
    let n = line.unicode_len();
    let mut count: usize = 0;
    let mut at: usize = 0;
    let mut i: usize = 0;
    while i < n
        invariant
            i <= n,
            n == line@.len(),
            count <= i,
            count == 0 ==> forall|j: int| 0 <= j < i ==> line@[j] != ':',
            count >= 1 ==> at < i && line@[at as int] == ':',
            count == 1 ==> forall|j: int| 0 <= j < i && j != at ==> line@[j] != ':',
            count >= 2 ==> exists|j: int| 0 <= j < i && j != at && line@[j] == ':',
        decreases n - i,
    {
        if line.get_char(i) == ':' {
            if count == 0 {
                at = i;
            }
            count += 1;
        }
        i += 1;
    }
    if count == 1 {
        assert(single_colon_at(line@, at as int));
        let name = line.substring_char(0, at).to_owned();
        let hash = line.substring_char(at + 1, n).to_owned();
        assert(name@ =~= line@.take(at as int));
        assert(hash@ =~= line@.skip(at + 1));
        Some((name, hash))
    } else {
        assert forall|k: int| !single_colon_at(line@, k) by {
            if count >= 2 && single_colon_at(line@, k) {
                let j = choose|j: int| 0 <= j < n && j != at && line@[j] == ':';
                assert(j == k && at == k);
            }
        }
        None
    }
}

/// A line of a name without `:` and a hash without `:` reads back as that name and hash.
pub proof fn law_user_line_roundtrip(name: Seq<char>, hash: Seq<char>)
    requires
        !name.contains(':'),
        !hash.contains(':'),
    ensures
        spec_parse_user_line(user_line(name, hash)) == Some((name, hash)),
{
    let s = user_line(name, hash);
    let i = name.len() as int;
    assert(s[i] == ':');
    assert forall|j: int| 0 <= j < s.len() && j != i implies s[j] != ':' by {
        if j < i {
            assert(s[j] == name[j]);
        } else {
            assert(s[j] == hash[j - i - 1]);
        }
    }
    assert(single_colon_at(s, i));
    let k = choose|k: int| single_colon_at(s, k);
    assert(k == i);
    assert(s.take(i) =~= name);
    assert(s.skip(i + 1) =~= hash);
}

/// The word with which a trajectory line stores a status.
pub open spec fn status_word(s: UserStatus) -> Seq<char> {
    match s {
        UserStatus::Moving => "Moving"@,
        _ => "Stationary"@,
    }
}

/// The status that a trajectory line's last word stands for.
pub open spec fn status_from_word(w: Seq<char>) -> UserStatus {
    if w == "Moving"@ {
        UserStatus::Moving
    } else {
        UserStatus::Stationary
    }
}

/// Writes the word of a status for a trajectory line.
pub fn format_status_word(s: UserStatus) -> (r: String)
    ensures
        r@ == status_word(s),
{
    match s {
        UserStatus::Moving => String::from_str("Moving"),
        _ => String::from_str("Stationary"),
    }
}

/// Statuses other than `Disconnected` read back as themselves.
pub proof fn law_status_word_roundtrip(s: UserStatus)
    requires
        s != UserStatus::Disconnected,
    ensures
        status_from_word(status_word(s)) == s,
{
    reveal_strlit("Moving");
    reveal_strlit("Stationary");
    if s == UserStatus::Stationary {
        assert("Stationary"@ != "Moving"@) by {
            assert("Stationary"@.len() != "Moving"@.len());
        }
    }
}

/// The fields of a trajectory line: the instant and the status read, the
/// latitude and the longitude still as text.
#[derive(Debug)]
pub struct TrajectoryFields {
    pub time: Timestamp,
    pub lat_text: String,
    pub lon_text: String,
    pub status: UserStatus,
}

/// A trajectory line read back: exactly four words, the first an RFC 3339
/// instant and the last a status word.
pub open spec fn spec_trajectory_fields(line: Seq<char>) -> Option<
    (Timestamp, Seq<char>, Seq<char>, UserStatus),
> {
    let ws = words(line);
    if ws.len() == 4 {
        match spec_instant_from_parts(rfc3339_instant(ws[0])) {
            Some(t) => Some((t, ws[1], ws[2], status_from_word(ws[3]))),
            None => None,
        }
    } else {
        None
    }
}

/// Splits a trajectory line into its fields.
pub fn parse_trajectory_line(line: &str) -> (r: Option<TrajectoryFields>)
    ensures
        match r {
            Some(f) => spec_trajectory_fields(line@) == Some(
                (f.time, f.lat_text@, f.lon_text@, f.status),
            ) && f.time.wf(),
            None => spec_trajectory_fields(line@) is None,
        },
{
    let ws = split_words(line);
    assert(views(ws@).len() == ws@.len());
    if ws.len() != 4 {
        return None;
    }
    let time = match parse_instant(ws[0].as_str()) {
        Some(t) => t,
        None => return None,
    };
    let status = if crate::text::same_text(ws[3].as_str(), "Moving") {
        UserStatus::Moving
    } else {
        UserStatus::Stationary
    };
    Some(
        TrajectoryFields {
            time,
            lat_text: ws[1].clone(),
            lon_text: ws[2].clone(),
            status,
        },
    )
}

/// The trajectory line of a report: its time, latitude, longitude and status
/// word, separated by single spaces.
pub open spec fn trajectory_line(
    time: Timestamp,
    lat_text: Seq<char>,
    lon_text: Seq<char>,
    status: UserStatus,
) -> Seq<char> {
    joined(seq![rfc3339_text(time.secs, time.nanos), lat_text, lon_text, status_word(status)])
}

/// Writes the trajectory line of a report whose coordinates are already text.
/// In years 0 to 9999, with coordinate texts that are single words, the line
/// reads back as the same report (a `Disconnected` status as `Stationary`).
pub fn format_trajectory_line(time: Timestamp, lat_text: &str, lon_text: &str, status: UserStatus) -> (r:
    String)
    requires
        time.wf(),
    ensures
        r@ == trajectory_line(time, lat_text@, lon_text@, status),
        RFC3339_MIN_SECS <= time.secs <= RFC3339_MAX_SECS && is_word(lat_text@) && is_word(lon_text@)
            ==> spec_trajectory_fields(r@) == Some(
            (time, lat_text@, lon_text@, status_from_word(status_word(status))),
        ),
        status != UserStatus::Disconnected ==> status_from_word(status_word(status)) == status,
{
    let mut out = format_instant(time);
    let ghost t = out@;
    push_char(&mut out, ' ');
    out.append(lat_text);
    push_char(&mut out, ' ');
    out.append(lon_text);
    push_char(&mut out, ' ');
    let word = format_status_word(status);
    out.append(word.as_str());
    proof {
        let ws = seq![t, lat_text@, lon_text@, status_word(status)];
        assert(ws.drop_last() =~= seq![t, lat_text@, lon_text@]);
        assert(ws.drop_last().drop_last() =~= seq![t, lat_text@]);
        assert(ws.drop_last().drop_last().drop_last() =~= seq![t]);
        let j1 = joined(seq![t]);
        assert(j1 == t);
        let j2 = joined(seq![t, lat_text@]);
        assert(seq![t, lat_text@].drop_last() =~= seq![t]);
        assert(j2 == t.push(' ') + lat_text@);
        let j3 = joined(seq![t, lat_text@, lon_text@]);
        assert(seq![t, lat_text@, lon_text@].drop_last() =~= seq![t, lat_text@]);
        assert(j3 == j2.push(' ') + lon_text@);
        assert(joined(ws) == j3.push(' ') + status_word(status));
        assert(out@ =~= joined(ws));
        if RFC3339_MIN_SECS <= time.secs <= RFC3339_MAX_SECS && is_word(lat_text@) && is_word(
            lon_text@,
        ) {
            lemma_trajectory_line_fields(time, lat_text@, lon_text@, status);
        }
        if status != UserStatus::Disconnected {
            law_status_word_roundtrip(status);
        }
    }
    out
}

/// The status words are single words.
proof fn lemma_status_word_is_word(s: UserStatus)
    ensures
        is_word(status_word(s)),
{
    reveal_strlit("Moving");
    reveal_strlit("Stationary");
    let w = status_word(s);
    assert forall|i: int| 0 <= i < w.len() implies !is_space(#[trigger] w[i]) by {
        assert('a' <= w[i] <= 'z' || 'A' <= w[i] <= 'Z');
    }
}

/// A line whose time text is a single word that reads back as its instant, and
/// whose coordinate texts are single words, reads back as its four fields.
proof fn lemma_trajectory_line_fields(
    time: Timestamp,
    lat_text: Seq<char>,
    lon_text: Seq<char>,
    status: UserStatus,
)
    requires
        is_word(rfc3339_text(time.secs, time.nanos)),
        spec_instant_from_parts(rfc3339_instant(rfc3339_text(time.secs, time.nanos))) == Some(time),
        is_word(lat_text),
        is_word(lon_text),
    ensures
        spec_trajectory_fields(trajectory_line(time, lat_text, lon_text, status)) == Some(
            (time, lat_text, lon_text, status_from_word(status_word(status))),
        ),
{
    let ws = seq![rfc3339_text(time.secs, time.nanos), lat_text, lon_text, status_word(status)];
    lemma_status_word_is_word(status);
    assert forall|i: int| 0 <= i < ws.len() implies is_word(#[trigger] ws[i]) by {}
    law_words_of_joined(ws);
}

} // verus!
