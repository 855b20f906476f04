//! The server's side of the conversation: the replies to client requests and
//! the commands of the operator's console.

use std::sync::mpsc::Sender;
use vstd::prelude::*;
use crate::analysis::TimeInterval;
use crate::model::{status_text, ClientMessage, Coordinate, ServerMessage, TrajectoryPoint, UserStatus};
use crate::state::{spec_login, spec_register, spec_update_position, ServerState, ServerView};
use crate::text::{join_from, joined, same_text, split_words, views, words};
use crate::time::Timestamp;

verus! {

/// The answer to a registration request.
pub open spec fn register_reply_text(success: bool) -> Seq<char> {
    if success {
        "Registration successful."@
    } else {
        "Registration failed: User already exists."@
    }
}

/// The answer to a login request.
pub open spec fn login_reply_text(success: bool) -> Seq<char> {
    if success {
        "Login successful."@
    } else {
        "Login failed: Invalid credentials."@
    }
}

/// The answer to a request that needs a login when there is none.
pub open spec fn unauthorized_text() -> Seq<char> {
    "Unauthorized. Please login first."@
}

/// The answer to an accepted position report.
pub open spec fn position_reply_text(status: UserStatus) -> Seq<char> {
    "Position registered. Status: "@ + status_text(status)
}

/// The answer to a chat message from a logged-in client.
pub open spec fn chat_reply_text() -> Seq<char> {
    "Message received by server."@
}

/// `m` is an authentication answer with the given outcome and text.
pub open spec fn is_auth_reply(m: ServerMessage, success: bool, text: Seq<char>) -> bool {
    m matches ServerMessage::AuthResponse { success: s, message } && s == success && message@ == text
}

/// `m` is a command answer with the given outcome and text.
pub open spec fn is_command_reply(m: ServerMessage, success: bool, text: Seq<char>) -> bool {
    m matches ServerMessage::CommandResponse { success: s, message } && s == success && message@
        == text
}

impl ServerState {
    /// Handles a registration request and builds the answer.
    pub fn handle_register(&mut self, username: String, password: String) -> (r: ServerMessage)
        requires
            old(self).wf(),
        ensures
            final(self).wf(),
            final(self)@ == spec_register(old(self)@, username@, password@).1,
            is_auth_reply(
                r,
                spec_register(old(self)@, username@, password@).0,
                register_reply_text(spec_register(old(self)@, username@, password@).0),
            ),
    {
        let success = self.register(username, password);
        let message = if success {
            String::from_str("Registration successful.")
        } else {
            String::from_str("Registration failed: User already exists.")
        };
        ServerMessage::AuthResponse { success, message }
    }

    /// Handles a login request, with `sender` as the connection of a successful
    /// login, and builds the answer.
    pub fn handle_login(&mut self, username: &str, password: &str, sender: Sender<ServerMessage>) -> (r:
        ServerMessage)
        requires
            old(self).wf(),
        ensures
            final(self).wf(),
            final(self)@ == spec_login(old(self)@, username@, password@, sender).1,
            is_auth_reply(
                r,
                spec_login(old(self)@, username@, password@, sender).0,
                login_reply_text(spec_login(old(self)@, username@, password@, sender).0),
            ),
    {
        let success = self.login(username, password, sender);
        let message = if success {
            String::from_str("Login successful.")
        } else {
            String::from_str("Login failed: Invalid credentials.")
        };
        ServerMessage::AuthResponse { success, message }
    }

    /// Handles a position report from a connection logged in as `logged_in`
    /// (if any) and builds the answer; without a login the report is refused
    /// and the state is left as it was.
    pub fn handle_position_report(
        &mut self,
        logged_in: Option<&str>,
        coord: Coordinate,
        time: Timestamp,
    ) -> (r: ServerMessage)
        requires
            old(self).wf(),
            time.wf(),
        ensures
            final(self).wf(),
            match logged_in {
                Some(u) => {
                    let (status, post) = spec_update_position(old(self)@, u@, coord, time);
                    &&& final(self)@ == post
                    &&& is_command_reply(r, true, position_reply_text(status))
                },
                None => final(self)@ == old(self)@ && is_command_reply(r, false, unauthorized_text()),
            },
    {
        match logged_in {
            Some(u) => {
                let status = self.update_position(u, coord, time);
                let mut message = String::from_str("Position registered. Status: ");
                let name = status.to_string();
                message.append(name.as_str());
                ServerMessage::CommandResponse { success: true, message }
            },
            None => ServerMessage::CommandResponse {
                success: false,
                message: String::from_str("Unauthorized. Please login first."),
            },
        }
    }
}

/// Where an answer goes: straight onto the client's socket, or through the
/// connection that its login opened.
#[derive(Clone, Copy, Debug, PartialEq, Eq, Structural)]
pub enum ReplyRoute {
    Socket,
    Connection,
}

/// What handling one client request calls for besides the change of state.
#[derive(Debug)]
pub struct ClientStep {
    /// The answer to send.
    pub reply: ServerMessage,
    /// Where the answer goes.
    pub route: ReplyRoute,
    /// The name that a successful login binds the client to.
    pub logged_in_as: Option<String>,
    /// Whether the users file must be written again.
    pub save_users: bool,
    /// The report that was appended to the client's trajectory, to be persisted.
    pub recorded: Option<TrajectoryPoint>,
    /// The status before and after the report, where they differ.
    pub transition: Option<(UserStatus, UserStatus)>,
    /// A chat text to show to the operator.
    pub chat: Option<String>,
}

/// The client request `msg` carries a valid instant, if it carries one.
pub open spec fn request_ok(msg: ClientMessage) -> bool {
    msg matches ClientMessage::PositionReport { timestamp, .. } ==> timestamp.wf()
}

/// A step that changes nothing but answers on the socket.
pub open spec fn socket_only(step: ClientStep) -> bool {
    &&& step.route == ReplyRoute::Socket
    &&& step.logged_in_as is None
    &&& !step.save_users
    &&& step.recorded is None
    &&& step.transition is None
    &&& step.chat is None
}

/// What handling `msg` from a client logged in as `logged_in` (if any) does to
/// the state `pre`, leaving `post`, and what it calls for in `step`.
pub open spec fn client_step_spec(
    pre: ServerView,
    logged_in: Option<Seq<char>>,
    msg: ClientMessage,
    connection: Option<Sender<ServerMessage>>,
    post: ServerView,
    step: ClientStep,
) -> bool {
    match msg {
        ClientMessage::Register { username, password } => {
            let (ok, next) = spec_register(pre, username@, password@);
            &&& post == next
            &&& is_auth_reply(step.reply, ok, register_reply_text(ok))
            &&& step.route == ReplyRoute::Socket
            &&& step.logged_in_as is None
            &&& step.save_users == ok
            &&& step.recorded is None
            &&& step.transition is None
            &&& step.chat is None
        },
        ClientMessage::Login { username, password } => {
            let (ok, next) = spec_login(pre, username@, password@, connection->0);
            &&& post == next
            &&& is_auth_reply(step.reply, ok, login_reply_text(ok))
            &&& step.route == (if ok {
                ReplyRoute::Connection
            } else {
                ReplyRoute::Socket
            })
            &&& (if ok {
                step.logged_in_as matches Some(n) && n@ == username@
            } else {
                step.logged_in_as is None
            })
            &&& !step.save_users
            &&& step.recorded is None
            &&& step.transition is None
            &&& step.chat is None
        },
        ClientMessage::PositionReport { coordinate, timestamp } => match logged_in {
            Some(u) => {
                let (status, next) = spec_update_position(pre, u, coordinate, timestamp);
                let active = pre.sessions.contains_key(u) && pre.sessions[u].status
                    != UserStatus::Disconnected;
                &&& post == next
                &&& is_command_reply(step.reply, true, position_reply_text(status))
                &&& step.route == ReplyRoute::Connection
                &&& step.logged_in_as is None
                &&& !step.save_users
                &&& step.recorded == (if active {
                    Some(TrajectoryPoint { time: timestamp, coord: coordinate, status })
                } else {
                    None
                })
                &&& step.transition == (if active && pre.sessions[u].status != status {
                    Some((pre.sessions[u].status, status))
                } else {
                    None
                })
                &&& step.chat is None
            },
            None => post == pre && is_command_reply(step.reply, false, unauthorized_text())
                && socket_only(step),
        },
        ClientMessage::TextMessage { text } => match logged_in {
            Some(u) => {
                &&& post == pre
                &&& is_command_reply(step.reply, true, chat_reply_text())
                &&& step.route == ReplyRoute::Connection
                &&& step.logged_in_as is None
                &&& !step.save_users
                &&& step.recorded is None
                &&& step.transition is None
                &&& step.chat matches Some(t) && t@ == text@
            },
            None => post == pre && is_command_reply(step.reply, false, unauthorized_text())
                && socket_only(step),
        },
    }
}

impl ServerState {
    /// Handles one request of a client logged in as `logged_in` (if any). A login
    /// request takes `connection` as the connection it opens.
    pub fn handle_client_message(
        &mut self,
        logged_in: Option<&str>,
        msg: ClientMessage,
        connection: Option<Sender<ServerMessage>>,
    ) -> (step: ClientStep)
        requires
            old(self).wf(),
            request_ok(msg),
            msg is Login ==> connection is Some,
        ensures
            final(self).wf(),
            client_step_spec(
                old(self)@,
                match logged_in {
                    Some(u) => Some(u@),
                    None => None,
                },
                msg,
                connection,
                final(self)@,
                step,
            ),
    {
        match msg {
            ClientMessage::Register { username, password } => {
                let reply = self.handle_register(username, password);
                let ok = match &reply {
                    ServerMessage::AuthResponse { success, .. } => *success,
                    _ => false,
                };
                ClientStep {
                    reply,
                    route: ReplyRoute::Socket,
                    logged_in_as: None,
                    save_users: ok,
                    recorded: None,
                    transition: None,
                    chat: None,
                }
            },
            ClientMessage::Login { username, password } => {
                let sender = connection.unwrap();
                let reply = self.handle_login(username.as_str(), password.as_str(), sender);
                let ok = match &reply {
                    ServerMessage::AuthResponse { success, .. } => *success,
                    _ => false,
                };
                ClientStep {
                    reply,
                    route: if ok {
                        ReplyRoute::Connection
                    } else {
                        ReplyRoute::Socket
                    },
                    logged_in_as: if ok {
                        Some(username)
                    } else {
                        None
                    },
                    save_users: false,
                    recorded: None,
                    transition: None,
                    chat: None,
                }
            },
            ClientMessage::PositionReport { coordinate, timestamp } => {
                match logged_in {
                    Some(u) => {
                        let before = match self.session(u) {
                            Some(s) => Some(s.status),
                            None => None,
                        };
                        let reply = self.handle_position_report(Some(u), coordinate, timestamp);
                        let after = match self.session(u) {
                            Some(s) => s.status,
                            None => UserStatus::Disconnected,
                        };
                        let (recorded, transition) = match before {
                            Some(old_status) => {
                                if old_status != UserStatus::Disconnected {
                                    let point = TrajectoryPoint {
                                        time: timestamp,
                                        coord: coordinate,
                                        status: after,
                                    };
                                    let change = if old_status != after {
                                        Some((old_status, after))
                                    } else {
                                        None
                                    };
                                    (Some(point), change)
                                } else {
                                    (None, None)
                                }
                            },
                            None => (None, None),
                        };
                        ClientStep {
                            reply,
                            route: ReplyRoute::Connection,
                            logged_in_as: None,
                            save_users: false,
                            recorded,
                            transition,
                            chat: None,
                        }
                    },
                    None => ClientStep {
                        reply: self.handle_position_report(None, coordinate, timestamp),
                        route: ReplyRoute::Socket,
                        logged_in_as: None,
                        save_users: false,
                        recorded: None,
                        transition: None,
                        chat: None,
                    },
                }
            },
            ClientMessage::TextMessage { text } => {
                match logged_in {
                    Some(_) => ClientStep {
                        reply: chat_reply(true),
                        route: ReplyRoute::Connection,
                        logged_in_as: None,
                        save_users: false,
                        recorded: None,
                        transition: None,
                        chat: Some(text),
                    },
                    None => ClientStep {
                        reply: chat_reply(false),
                        route: ReplyRoute::Socket,
                        logged_in_as: None,
                        save_users: false,
                        recorded: None,
                        transition: None,
                        chat: None,
                    },
                }
            },
        }
    }
}

/// The answer to a chat message, from a logged-in client or not.
pub fn chat_reply(logged_in: bool) -> (r: ServerMessage)
    ensures
        logged_in ==> is_command_reply(r, true, chat_reply_text()),
        !logged_in ==> is_command_reply(r, false, unauthorized_text()),
{
    if logged_in {
        ServerMessage::CommandResponse {
            success: true,
            message: String::from_str("Message received by server."),
        }
    } else {
        ServerMessage::CommandResponse {
            success: false,
            message: String::from_str("Unauthorized. Please login first."),
        }
    }
}

/// The text with which the operator's direct messages are signed.
pub fn direct_message(text: String) -> (r: ServerMessage)
    ensures
        r matches ServerMessage::TextMessage { sender, text: t } && sender@ == "Server (DM)"@ && t@
            == text@,
{
    ServerMessage::TextMessage { sender: String::from_str("Server (DM)"), text }
}

/// The text with which the operator's broadcasts are signed.
pub fn broadcast_text_message(text: String) -> (r: ServerMessage)
    ensures
        r matches ServerMessage::TextMessage { sender, text: t } && sender@ == "Server (Broadcast)"@
            && t@ == text@,
{
    ServerMessage::TextMessage { sender: String::from_str("Server (Broadcast)"), text }
}

/// The lower-case form of `s`, as Unicode defines it.
pub uninterp spec fn lowercase(s: Seq<char>) -> Seq<char>;

/// Calls `str::to_lowercase`. The contract names its result; the Unicode case
/// mapping it applies is not written out.
#[verifier::external_body]
fn to_lowercase(s: &str) -> (r: String)
    ensures
        r@ == lowercase(s@),
{
    s.to_lowercase()
}

/// Which usage line a console command with too few words calls for.
#[derive(Clone, Copy, Debug, PartialEq, Eq, Structural)]
pub enum UsageOf {
    Send,
    Broadcast,
    Analyze,
}

/// A line typed at the server's console.
#[derive(Debug)]
pub enum ServerCommand {
    /// Nothing but whitespace.
    Empty,
    /// `list`: show every user with status and last position.
    List,
    /// `send <user> <message...>`.
    Send { target: String, message: String },
    /// `broadcast <message...>`.
    Broadcast { message: String },
    /// `analyze <user> <interval>` with a known interval.
    Analyze { target: String, interval: TimeInterval, interval_name: String },
    /// `analyze` with an interval other than day, week, month or all.
    InvalidInterval,
    /// A known command with too few words.
    Usage(UsageOf),
    /// `exit`.
    Exit,
    /// Any other first word.
    Unknown,
}

/// A console line as plain values.
pub enum CommandView {
    Empty,
    List,
    Send { target: Seq<char>, message: Seq<char> },
    Broadcast { message: Seq<char> },
    Analyze { target: Seq<char>, interval: TimeInterval, interval_name: Seq<char> },
    InvalidInterval,
    Usage(UsageOf),
    Exit,
    Unknown,
}

impl View for ServerCommand {
    type V = CommandView;

    open spec fn view(&self) -> CommandView {
        match self {
            ServerCommand::Empty => CommandView::Empty,
            ServerCommand::List => CommandView::List,
            ServerCommand::Send { target, message } => CommandView::Send {
                target: target@,
                message: message@,
            },
            ServerCommand::Broadcast { message } => CommandView::Broadcast { message: message@ },
            ServerCommand::Analyze { target, interval, interval_name } => CommandView::Analyze {
                target: target@,
                interval: *interval,
                interval_name: interval_name@,
            },
            ServerCommand::InvalidInterval => CommandView::InvalidInterval,
            ServerCommand::Usage(u) => CommandView::Usage(*u),
            ServerCommand::Exit => CommandView::Exit,
            ServerCommand::Unknown => CommandView::Unknown,
        }
    }
}

/// The interval that an interval name (already in lower case) denotes.
pub open spec fn interval_named(name: Seq<char>) -> Option<TimeInterval> {
    if name == "day"@ {
        Some(TimeInterval::CurrentDay)
    } else if name == "week"@ {
        Some(TimeInterval::CurrentWeek)
    } else if name == "month"@ {
        Some(TimeInterval::CurrentMonth)
    } else if name == "all"@ {
        Some(TimeInterval::All)
    } else {
        None
    }
}

/// The command that the words `ws` of a console line make.
pub open spec fn spec_command(ws: Seq<Seq<char>>) -> CommandView {
    if ws.len() == 0 {
        CommandView::Empty
    } else if ws[0] == "list"@ {
        CommandView::List
    } else if ws[0] == "send"@ {
        if ws.len() < 3 {
            CommandView::Usage(UsageOf::Send)
        } else {
            CommandView::Send { target: ws[1], message: joined(ws.skip(2)) }
        }
    } else if ws[0] == "broadcast"@ {
        if ws.len() < 2 {
            CommandView::Usage(UsageOf::Broadcast)
        } else {
            CommandView::Broadcast { message: joined(ws.skip(1)) }
        }
    } else if ws[0] == "analyze"@ {
        if ws.len() < 3 {
            CommandView::Usage(UsageOf::Analyze)
        } else {
            match interval_named(lowercase(ws[2])) {
                Some(i) => CommandView::Analyze {
                    target: ws[1],
                    interval: i,
                    interval_name: lowercase(ws[2]),
                },
                None => CommandView::InvalidInterval,
            }
        }
    } else if ws[0] == "exit"@ {
        CommandView::Exit
    } else {
        CommandView::Unknown
    }
}

/// The interval named by `name`, if any.
pub fn interval_from_name(name: &str) -> (r: Option<TimeInterval>)
    ensures
        r == interval_named(name@),
{
    if same_text(name, "day") {
        Some(TimeInterval::CurrentDay)
    } else if same_text(name, "week") {
        Some(TimeInterval::CurrentWeek)
    } else if same_text(name, "month") {
        Some(TimeInterval::CurrentMonth)
    } else if same_text(name, "all") {
        Some(TimeInterval::All)
    } else {
        None
    }
}

/// Reads a line typed at the server's console.
pub fn parse_server_command(line: &str) -> (r: ServerCommand)
    ensures
        r@ == spec_command(words(line@)),
{
    let ws = split_words(line);
    assert(views(ws@).len() == ws@.len());
    if ws.len() == 0 {
        return ServerCommand::Empty;
    }
    let first = ws[0].as_str();
    if same_text(first, "list") {
        ServerCommand::List
    } else if same_text(first, "send") {
        if ws.len() < 3 {
            ServerCommand::Usage(UsageOf::Send)
        } else {
            ServerCommand::Send { target: ws[1].clone(), message: join_from(&ws, 2) }
        }
    } else if same_text(first, "broadcast") {
        if ws.len() < 2 {
            ServerCommand::Usage(UsageOf::Broadcast)
        } else {
            ServerCommand::Broadcast { message: join_from(&ws, 1) }
        }
    } else if same_text(first, "analyze") {
        if ws.len() < 3 {
            ServerCommand::Usage(UsageOf::Analyze)
        } else {
            let name = to_lowercase(ws[2].as_str());
            match interval_from_name(name.as_str()) {
                Some(interval) => ServerCommand::Analyze {
                    target: ws[1].clone(),
                    interval,
                    interval_name: name,
                },
                None => ServerCommand::InvalidInterval,
            }
        }
    } else if same_text(first, "exit") {
        ServerCommand::Exit
    } else {
        ServerCommand::Unknown
    }
}

} // verus!
