//! The vehicle emulator's decisions: the menus, the requests it sends, the
//! lines it reads positions from, and the pseudo-random walk's generator.

use vstd::prelude::*;
use crate::model::{ClientMessage, Coordinate};
use crate::text::{replace_char, replaced, same_text, split_words, trim, trimmed, views, words};

verus! {

/// An answer to the authentication menu.
#[derive(Clone, Copy, Debug, PartialEq, Eq, Structural)]
pub enum AuthChoice {
    Register,
    Login,
    Exit,
    Invalid,
}

/// The menu entry that a typed answer selects: `1`, `2` or `3` once trimmed.
pub open spec fn spec_auth_choice(line: Seq<char>) -> AuthChoice {
    let t = trimmed(line);
    if t == "1"@ {
        AuthChoice::Register
    } else if t == "2"@ {
        AuthChoice::Login
    } else if t == "3"@ {
        AuthChoice::Exit
    } else {
        AuthChoice::Invalid
    }
}

/// Reads an answer to the authentication menu.
pub fn parse_auth_choice(line: &str) -> (r: AuthChoice)
    ensures
        r == spec_auth_choice(line@),
{
    let t = trim(line);
    if same_text(t.as_str(), "1") {
        AuthChoice::Register
    } else if same_text(t.as_str(), "2") {
        AuthChoice::Login
    } else if same_text(t.as_str(), "3") {
        AuthChoice::Exit
    } else {
        AuthChoice::Invalid
    }
}

/// The request that a menu choice sends with the typed name and password
/// (both trimmed); registering and logging in are the only requests.
pub fn auth_request(choice: AuthChoice, username: &str, password: &str) -> (r: Option<ClientMessage>)
    ensures
        choice == AuthChoice::Register ==> (r matches Some(
            ClientMessage::Register { username: u, password: p },
        ) && u@ == trimmed(username@) && p@ == trimmed(password@)),
        choice == AuthChoice::Login ==> (r matches Some(
            ClientMessage::Login { username: u, password: p },
        ) && u@ == trimmed(username@) && p@ == trimmed(password@)),
        choice == AuthChoice::Exit || choice == AuthChoice::Invalid ==> r is None,
{
    match choice {
        AuthChoice::Register => Some(
            ClientMessage::Register { username: trim(username), password: trim(password) },
        ),
        AuthChoice::Login => Some(
            ClientMessage::Login { username: trim(username), password: trim(password) },
        ),
        _ => None,
    }
}

/// Whether an authentication answer ends the menu with the client logged in:
/// only a successful login does.
pub fn auth_completes(choice: AuthChoice, success: bool) -> (r: bool)
    ensures
        r == (success && choice == AuthChoice::Login),
{
    success && choice == AuthChoice::Login
}

/// An answer to the movement menu.
#[derive(Clone, Copy, Debug, PartialEq, Eq, Structural)]
pub enum StrategyChoice {
    FilePlayback,
    RandomWalk,
    Manual,
    Invalid,
}

/// The strategy that a typed answer selects: `1`, `2` or `3` once trimmed.
pub open spec fn spec_strategy_choice(line: Seq<char>) -> StrategyChoice {
    let t = trimmed(line);
    if t == "1"@ {
        StrategyChoice::FilePlayback
    } else if t == "2"@ {
        StrategyChoice::RandomWalk
    } else if t == "3"@ {
        StrategyChoice::Manual
    } else {
        StrategyChoice::Invalid
    }
}

/// Reads an answer to the movement menu.
pub fn parse_strategy_choice(line: &str) -> (r: StrategyChoice)
    ensures
        r == spec_strategy_choice(line@),
{
    let t = trim(line);
    if same_text(t.as_str(), "1") {
        StrategyChoice::FilePlayback
    } else if same_text(t.as_str(), "2") {
        StrategyChoice::RandomWalk
    } else if same_text(t.as_str(), "3") {
        StrategyChoice::Manual
    } else {
        StrategyChoice::Invalid
    }
}

/// The latitude and longitude texts of a coordinate-file line. Blank lines and
/// lines starting with `#` or `-` (once trimmed) hold none; otherwise a line of
/// three words is `time lat lon`, and a line of two or more other words starts
/// with `lat lon`.
pub open spec fn spec_coordinate_fields(line: Seq<char>) -> Option<(Seq<char>, Seq<char>)> {
    let t = trimmed(line);
    let ws = words(t);
    if t.len() == 0 || t[0] == '#' || t[0] == '-' || ws.len() < 2 {
        None
    } else if ws.len() == 3 {
        Some((ws[1], ws[2]))
    } else {
        Some((ws[0], ws[1]))
    }
}

/// Picks the latitude and longitude texts out of a coordinate-file line.
pub fn coordinate_fields(line: &str) -> (r: Option<(String, String)>)
    ensures
        match r {
            Some((lat, lon)) => spec_coordinate_fields(line@) == Some((lat@, lon@)),
            None => spec_coordinate_fields(line@) is None,
        },
{
    let t = trim(line);
    let n = t.unicode_len();
    if n == 0 {
        return None;
    }
    let c = t.get_char(0);
    if c == '#' || c == '-' {
        return None;
    }
    let ws = split_words(t.as_str());
    assert(views(ws@).len() == ws@.len());
    if ws.len() < 2 {
        None
    } else if ws.len() == 3 {
        Some((ws[1].clone(), ws[2].clone()))
    } else {
        Some((ws[0].clone(), ws[1].clone()))
    }
}

/// What reading a coordinate file came upon: its end, a line (with the
/// coordinate read from it, if any), a failed read, or the outcome of going
/// back to the file's start.
#[derive(Clone, Copy, Debug, PartialEq, Eq, Structural)]
pub enum PlaybackEvent {
    EndOfFile,
    Record(Option<Coordinate>),
    ReadFailed,
    Rewound,
    RewindFailed,
}

/// What playback does next: hand out a position (or none), go back to the
/// file's start, or read the next line.
#[derive(Clone, Copy, Debug, PartialEq, Eq, Structural)]
pub enum PlaybackAction {
    Yield(Option<Coordinate>),
    Rewind,
    ReadNext,
}

/// The state of playing back a coordinate file: the last position handed out,
/// and whether the current request has already gone back to the file's start.
#[derive(Clone, Copy, Debug, PartialEq, Eq, Structural)]
pub struct Playback {
    pub last: Option<Coordinate>,
    pub rewound: bool,
}

/// The step of playback on `event`: a line with a coordinate hands it out and
/// remembers it; other lines are skipped; the end of the file goes back to its
/// start once per request and, the second time, hands out the last position
/// again; a failure hands out the last position.
pub open spec fn spec_playback_step(p: Playback, event: PlaybackEvent) -> (PlaybackAction, Playback) {
    match event {
        PlaybackEvent::Record(Some(c)) => (PlaybackAction::Yield(Some(c)), Playback { last: Some(c), ..p }),
        PlaybackEvent::Record(None) => (PlaybackAction::ReadNext, p),
        PlaybackEvent::EndOfFile => if p.rewound {
            (PlaybackAction::Yield(p.last), p)
        } else {
            (PlaybackAction::Rewind, p)
        },
        PlaybackEvent::Rewound => (PlaybackAction::ReadNext, Playback { rewound: true, ..p }),
        PlaybackEvent::ReadFailed | PlaybackEvent::RewindFailed => (PlaybackAction::Yield(p.last), p),
    }
}

impl Playback {
    /// Playback of a file from which no position has been handed out yet.
    pub fn new() -> (r: Playback)
        ensures
            r == (Playback { last: None, rewound: false }),
    {
        Playback { last: None, rewound: false }
    }

    /// Starts a request for the next position: the file may be gone back to once more.
    pub fn begin(&mut self)
        ensures
            *final(self) == (Playback { rewound: false, ..*old(self) }),
    {
        self.rewound = false;
    }

    /// Takes one step of playback on `event`.
    pub fn step(&mut self, event: PlaybackEvent) -> (r: PlaybackAction)
        ensures
            (r, *final(self)) == spec_playback_step(*old(self), event),
    {
        match event {
            PlaybackEvent::Record(Some(c)) => {
                self.last = Some(c);
                PlaybackAction::Yield(Some(c))
            },
            PlaybackEvent::Record(None) => PlaybackAction::ReadNext,
            PlaybackEvent::EndOfFile => if self.rewound {
                PlaybackAction::Yield(self.last)
            } else {
                PlaybackAction::Rewind
            },
            PlaybackEvent::Rewound => {
                self.rewound = true;
                PlaybackAction::ReadNext
            },
            PlaybackEvent::ReadFailed | PlaybackEvent::RewindFailed => PlaybackAction::Yield(self.last),
        }
    }
}

/// The event that reading a coordinate file comes upon at line `pos`, the file
/// given by the coordinate read from each of its lines.
pub open spec fn read_event(file: Seq<Option<Coordinate>>, pos: int) -> PlaybackEvent {
    if 0 <= pos < file.len() {
        PlaybackEvent::Record(file[pos])
    } else {
        PlaybackEvent::EndOfFile
    }
}

/// Playback in state `p` serving a request from line `pos` of `file`, where
/// going back to the file's start succeeds: the position handed out, the state
/// left and the line after the last one read.
pub open spec fn spec_serve(p: Playback, file: Seq<Option<Coordinate>>, pos: int) -> (
    Option<Coordinate>,
    Playback,
    int,
)
    decreases (if p.rewound { 0int } else { 1int }), file.len() - pos,
{
    let (a, q) = spec_playback_step(p, read_event(file, pos));
    match a {
        PlaybackAction::Yield(c) => (c, q, if 0 <= pos < file.len() { pos + 1 } else { pos }),
        PlaybackAction::ReadNext => if 0 <= pos < file.len() {
            spec_serve(q, file, pos + 1)
        } else {
            (q.last, q, pos)
        },
        PlaybackAction::Rewind => spec_serve(spec_playback_step(q, PlaybackEvent::Rewound).1, file, 0),
    }
}

/// A request for the next position: `begin`, then playback from line `pos`.
pub open spec fn spec_request(p: Playback, file: Seq<Option<Coordinate>>, pos: int) -> (
    Option<Coordinate>,
    Playback,
    int,
) {
    spec_serve(Playback { rewound: false, ..p }, file, pos)
}

/// The playback state and the line reached after `k` requests on a fresh playback of `file`.
pub open spec fn spec_play(file: Seq<Option<Coordinate>>, k: nat) -> (Playback, int)
    decreases k,
{
    if k == 0 {
        (Playback { last: None, rewound: false }, 0)
    } else {
        let (p, pos) = spec_play(file, (k - 1) as nat);
        let r = spec_request(p, file, pos);
        (r.1, r.2)
    }
}

/// The position handed out by request `k` (counting from 0) on a fresh playback of `file`.
pub open spec fn spec_kth_position(file: Seq<Option<Coordinate>>, k: nat) -> Option<Coordinate> {
    let (p, pos) = spec_play(file, k);
    spec_request(p, file, pos).0
}

/// The first line at or after `pos` that holds a coordinate (the file's
/// length if there is none).
pub open spec fn first_usable_from(file: Seq<Option<Coordinate>>, pos: int) -> int
    decreases file.len() - pos,
{
    if pos >= file.len() {
        file.len() as int
    } else if file[pos] is Some {
        pos
    } else {
        first_usable_from(file, pos + 1)
    }
}

/// The line of the `i`-th coordinate (counting from 0) at or after `pos` (the
/// file's length if there are fewer).
pub open spec fn nth_usable_from(file: Seq<Option<Coordinate>>, pos: int, i: nat) -> int
    decreases i,
{
    let j = first_usable_from(file, pos);
    if j >= file.len() {
        file.len() as int
    } else if i == 0 {
        j
    } else {
        nth_usable_from(file, j + 1, (i - 1) as nat)
    }
}

/// The lines that hold a coordinate at or after `pos`.
pub open spec fn count_usable_from(file: Seq<Option<Coordinate>>, pos: int) -> nat
    decreases file.len() - pos,
{
    if pos < 0 || pos >= file.len() {
        0
    } else {
        (if file[pos] is Some { 1nat } else { 0nat }) + count_usable_from(file, pos + 1)
    }
}

proof fn lemma_first_usable(file: Seq<Option<Coordinate>>, pos: int)
    requires
        0 <= pos <= file.len(),
    ensures
        pos <= first_usable_from(file, pos) <= file.len(),
        first_usable_from(file, pos) < file.len() ==> file[first_usable_from(file, pos)] is Some,
        forall|t: int| pos <= t < first_usable_from(file, pos) ==> file[t] is None,
    decreases file.len() - pos,
{
    if pos < file.len() && file[pos] is None {
        lemma_first_usable(file, pos + 1);
    }
}

proof fn lemma_none_after(file: Seq<Option<Coordinate>>, pos: int)
    requires
        0 <= pos <= file.len(),
        forall|t: int| pos <= t < file.len() ==> file[t] is None,
    ensures
        first_usable_from(file, pos) == file.len(),
    decreases file.len() - pos,
{
    if pos < file.len() {
        lemma_none_after(file, pos + 1);
    }
}

proof fn lemma_count_skip(file: Seq<Option<Coordinate>>, pos: int)
    requires
        0 <= pos <= file.len(),
    ensures
        count_usable_from(file, pos) == (if first_usable_from(file, pos) < file.len() {
            1 + count_usable_from(file, first_usable_from(file, pos) + 1)
        } else {
            0
        }),
    decreases file.len() - pos,
{
    if pos < file.len() && file[pos] is None {
        lemma_count_skip(file, pos + 1);
    }
}

proof fn lemma_nth_usable(file: Seq<Option<Coordinate>>, pos: int, i: nat)
    requires
        0 <= pos <= file.len(),
    ensures
        (i < count_usable_from(file, pos)) == (nth_usable_from(file, pos, i) < file.len()),
        nth_usable_from(file, pos, i) <= file.len(),
        nth_usable_from(file, pos, i) < file.len() ==> pos <= nth_usable_from(file, pos, i)
            && file[nth_usable_from(file, pos, i)] is Some,
    decreases i,
{
    let j = first_usable_from(file, pos);
    lemma_first_usable(file, pos);
    lemma_count_skip(file, pos);
    if j < file.len() && i > 0 {
        lemma_nth_usable(file, j + 1, (i - 1) as nat);
    }
}

proof fn lemma_nth_next(file: Seq<Option<Coordinate>>, pos: int, i: nat)
    requires
        0 <= pos <= file.len(),
        nth_usable_from(file, pos, i) < file.len(),
    ensures
        nth_usable_from(file, pos, i + 1) == first_usable_from(file, nth_usable_from(file, pos, i) + 1),
    decreases i,
{
    let j = first_usable_from(file, pos);
    lemma_first_usable(file, pos);
    assert(j < file.len());
    lemma_first_usable(file, j + 1);
    if i > 0 {
        lemma_nth_next(file, j + 1, (i - 1) as nat);
        assert(nth_usable_from(file, pos, i) == nth_usable_from(file, j + 1, (i - 1) as nat));
        assert(nth_usable_from(file, pos, i + 1) == nth_usable_from(file, j + 1, i));
    } else {
        assert(nth_usable_from(file, pos, 1) == nth_usable_from(file, j + 1, 0));
    }
}

proof fn lemma_serve(p: Playback, file: Seq<Option<Coordinate>>, pos: int)
    requires
        0 <= pos <= file.len(),
    ensures
        ({
            let j = first_usable_from(file, pos);
            let j0 = first_usable_from(file, 0);
            let r = spec_serve(p, file, pos);
            &&& j < file.len() ==> r == (file[j], Playback { last: file[j], ..p }, j + 1)
            &&& j >= file.len() && p.rewound ==> r == (p.last, p, file.len() as int)
            &&& j >= file.len() && !p.rewound && j0 < file.len() ==> r == (
                file[j0],
                Playback { last: file[j0], rewound: true },
                j0 + 1,
            )
            &&& j >= file.len() && !p.rewound && j0 >= file.len() ==> r == (
                p.last,
                Playback { rewound: true, ..p },
                file.len() as int,
            )
        }),
    decreases (if p.rewound { 0int } else { 1int }), file.len() - pos,
{
    if pos < file.len() {
        if file[pos] is None {
            lemma_serve(p, file, pos + 1);
        }
    } else if !p.rewound {
        lemma_serve(Playback { rewound: true, ..p }, file, 0);
    }
}

/// The number of lines of `file` that hold a coordinate.
pub open spec fn count_usable(file: Seq<Option<Coordinate>>) -> nat {
    count_usable_from(file, 0)
}

/// The line of the `i`-th coordinate of `file` (counting from 0).
pub open spec fn nth_usable(file: Seq<Option<Coordinate>>, i: nat) -> int {
    nth_usable_from(file, 0, i)
}

proof fn lemma_play(file: Seq<Option<Coordinate>>, k: nat)
    ensures
        ({
            let n = count_usable(file);
            let pos = spec_play(file, k).1;
            let next = spec_play(file, k + 1).1;
            &&& 0 <= pos <= file.len()
            &&& 0 <= next <= file.len()
            &&& n > 0 ==> 0 <= nth_usable(file, k % n) < file.len()
                && spec_kth_position(file, k) == file[nth_usable(file, k % n)]
                && next == nth_usable(file, k % n) + 1
            &&& n == 0 ==> spec_play(file, k).0.last is None && spec_kth_position(file, k) is None
                && spec_play(file, k + 1).0.last is None
        }),
    decreases k,
{
    let n = count_usable(file);
    let (p, pos) = spec_play(file, k);
    let p1 = Playback { rewound: false, ..p };
    if k > 0 {
        lemma_play(file, (k - 1) as nat);
        assert(((k - 1) as nat + 1) as nat == k);
    }
    lemma_serve(p1, file, pos);
    lemma_first_usable(file, pos);
    lemma_first_usable(file, 0);
    lemma_nth_usable(file, 0, 0);
    if n == 0 {
        lemma_none_after(file, pos);
    } else if k == 0 {
        assert(k % n == 0);
    } else {
        let i = (((k - 1) as int) % (n as int)) as nat;
        vstd::arithmetic::div_mod::lemma_fundamental_div_mod((k - 1) as int, n as int);
        let q = (k - 1) as int / n as int;
        lemma_nth_usable(file, 0, i);
        lemma_nth_next(file, 0, i);
        lemma_nth_usable(file, 0, i + 1);
        if i + 1 < n {
            vstd::arithmetic::div_mod::lemma_fundamental_div_mod_converse(k as int, n as int, q, (i + 1) as int);
        } else {
            assert(k as int == (q + 1) * n) by (nonlinear_arith)
                requires
                    (k - 1) as int == n * q + i,
                    i + 1 == n,
            ;
            vstd::arithmetic::div_mod::lemma_fundamental_div_mod_converse(k as int, n as int, q + 1, 0);
        }
    }
}

/// Playing back a coordinate file hands out its coordinates in the order of its
/// lines, going back to the start after the last one: request `k` (counting from
/// 0) on a fresh playback hands out the coordinate of usable line `k` modulo the
/// number of usable lines, and a file without one hands out nothing.
pub proof fn law_playback_cycles(file: Seq<Option<Coordinate>>, k: nat)
    ensures
        count_usable(file) > 0 ==> 0 <= nth_usable(file, k % count_usable(file)) < file.len()
            && file[nth_usable(file, k % count_usable(file))] is Some
            && spec_kth_position(file, k) == file[nth_usable(file, k % count_usable(file))],
        count_usable(file) == 0 ==> spec_kth_position(file, k) is None,
{
    lemma_play(file, k);
    if count_usable(file) > 0 {
        lemma_nth_usable(file, 0, k % count_usable(file));
    }
}

/// What a line typed at the console asks for once trimmed: nothing, logging
/// out (`quit` or `exit`), or sending it as a text message.
#[derive(Debug)]
pub enum ConsoleLine {
    Blank,
    Logout,
    Text(String),
}

/// The words that log the client out.
pub open spec fn is_logout_word(t: Seq<char>) -> bool {
    t == "quit"@ || t == "exit"@
}

/// Reads a line typed at the console.
pub fn read_console_line(line: &str) -> (r: ConsoleLine)
    ensures
        match r {
            ConsoleLine::Blank => trimmed(line@).len() == 0,
            ConsoleLine::Logout => is_logout_word(trimmed(line@)),
            ConsoleLine::Text(t) => t@ == trimmed(line@) && t@.len() > 0 && !is_logout_word(t@),
        },
{
    let t = trim(line);
    if t.unicode_len() == 0 {
        ConsoleLine::Blank
    } else if same_text(t.as_str(), "quit") || same_text(t.as_str(), "exit") {
        ConsoleLine::Logout
    } else {
        ConsoleLine::Text(t)
    }
}

/// Typed coordinates, one vehicle position per line.
#[derive(Clone, Copy, Debug)]
pub struct ManualStrategy;

/// The latitude and longitude texts of a typed line: commas count as
/// separators, and there must be exactly two words.
pub open spec fn spec_manual_fields(line: Seq<char>) -> Option<(Seq<char>, Seq<char>)> {
    let ws = words(replaced(line, ',', ' '));
    if ws.len() == 2 {
        Some((ws[0], ws[1]))
    } else {
        None
    }
}

impl ManualStrategy {
    /// Picks the latitude and longitude texts out of a typed line.
    pub fn parse_input(&self, line: &str) -> (r: Option<(String, String)>)
        ensures
            match r {
                Some((lat, lon)) => spec_manual_fields(line@) == Some((lat@, lon@)),
                None => spec_manual_fields(line@) is None,
            },
    {
        let cleaned = replace_char(line, ',', ' ');
        let ws = split_words(cleaned.as_str());
        assert(views(ws@).len() == ws@.len());
        if ws.len() == 2 {
            Some((ws[0].clone(), ws[1].clone()))
        } else {
            None
        }
    }
}

/// The multiplier of the walk's linear congruential generator.
pub const LCG_MUL: u64 = 6364136223846793005;

/// The increment of the walk's linear congruential generator.
pub const LCG_INC: u64 = 1442695040888963407;

/// The seed with which every walk starts.
pub const LCG_SEED: u64 = 123456789;

/// The generator's next state: `state * LCG_MUL + LCG_INC` modulo 2^64.
pub open spec fn lcg_step(state: u64) -> u64 {
    ((state as int * LCG_MUL as int + LCG_INC as int) % 0x1_0000_0000_0000_0000) as u64
}

/// The value that a state yields: its upper 32 bits.
pub open spec fn lcg_output(state: u64) -> u32 {
    (state as int / 0x1_0000_0000) as u32
}

/// The generator's state after `k` steps from the seed.
pub open spec fn lcg_state_after(k: nat) -> u64
    decreases k,
{
    if k == 0 {
        LCG_SEED
    } else {
        lcg_step(lcg_state_after((k - 1) as nat))
    }
}

/// The value that the generator yields at its `k`-th step from the seed
/// (counting from 0): the same for every walk.
pub open spec fn lcg_nth_output(k: nat) -> u32 {
    lcg_output(lcg_state_after(k + 1))
}

/// The pseudo-random generator that drives the random walk.
#[derive(Clone, Copy)]
pub struct Lcg {
    pub state: u64,
    /// The steps taken since the seed.
    pub steps: Ghost<nat>,
}

impl Lcg {
    /// The state is the one reached after `steps` steps from the seed.
    pub open spec fn wf(&self) -> bool {
        self.state == lcg_state_after(self.steps@)
    }

    /// A generator at the walk's fixed seed.
    pub fn new() -> (r: Lcg)
        ensures
            r.state == LCG_SEED,
            r.steps@ == 0,
            r.wf(),
    {
        Lcg { state: LCG_SEED, steps: Ghost(0) }
    }

    /// Advances the generator and yields the upper half of its new state. On a
    /// generator made by `new`, the `k`-th call (counting from 0) yields
    /// `lcg_nth_output(k)`, so every walk draws the same sequence.
    pub fn next_u32(&mut self) -> (r: u32)
        ensures
            final(self).state == lcg_step(old(self).state),
            r == lcg_output(final(self).state),
            final(self).steps@ == old(self).steps@ + 1,
            old(self).wf() ==> final(self).wf() && r == lcg_nth_output(old(self).steps@),
    {
        let s = self.state;
        let m = s.wrapping_mul(LCG_MUL);
        let next = m.wrapping_add(LCG_INC);
        proof {
            let big = 0x1_0000_0000_0000_0000int;
            vstd::arithmetic::div_mod::lemma_add_mod_noop(s as int * LCG_MUL as int, LCG_INC as int, big);
            vstd::arithmetic::div_mod::lemma_small_mod(LCG_INC as nat, big as nat);
            vstd::arithmetic::div_mod::lemma_mod_twice(m as int + LCG_INC as int, big);
            if m as int + LCG_INC as int >= big {
                vstd::arithmetic::div_mod::lemma_fundamental_div_mod_converse(
                    m as int + LCG_INC as int,
                    big,
                    1,
                    m as int + LCG_INC as int - big,
                );
            } else {
                vstd::arithmetic::div_mod::lemma_small_mod((m as int + LCG_INC as int) as nat, big as nat);
            }
        }
        self.state = next;
        self.steps = Ghost(self.steps@ + 1);
        let out = next >> 32;
        assert(next >> 32u64 == next / 0x1_0000_0000) by (bit_vector);
        out as u32
    }
}

} // verus!
