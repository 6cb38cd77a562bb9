//! What travels between the connection tasks and the user interface, and how
//! an incoming protocol message becomes a chat line.
use vstd::prelude::*;

use crate::text::{
    chars_of, copy_opt, has_prefix, has_prefix_exec, join_exec, join_with, keep_nonempty,
    keep_nonempty_exec, opt_view, push_char, same_chars, slice_chars, split_all, split_all_exec, string_of,
    strip_each, strip_each_exec, strs_view,
};

verus! {

/// Everything a connection task needs to log in to one server.
#[derive(Debug, Clone)]
pub struct ConnectionConfig {
    pub host: String,
    pub port: u16,
    pub tls: bool,
    pub nick: String,
    pub user: Option<String>,
    pub realname: Option<String>,
    pub password: Option<String>,
    pub channels: Vec<String>,
}

/// One line shown to the user: an event of a server, or the library's own
/// notice.
#[derive(Debug, Clone)]
pub struct IrcMessage {
    pub server: usize,
    pub target: String,
    pub sender: Option<String>,
    pub text: String,
    pub kind: MessageKind,
    pub time: String,
}

#[derive(Debug, Clone, Copy, PartialEq, Eq, Structural)]
pub enum MessageKind {
    Chat,
    Action,
    Notice,
    Join,
    Part,
    Quit,
    Topic,
    NamesReply,
    Server,
}

#[derive(Debug, Clone)]
pub enum ConnectionState {
    Disconnected,
    Connecting,
    Connected,
    Error(String),
}

impl PartialEq for ConnectionState {
    fn eq(&self, other: &Self) -> (r: bool) {
        match (self, other) {
            (ConnectionState::Disconnected, ConnectionState::Disconnected) => true,
            (ConnectionState::Connecting, ConnectionState::Connecting) => true,
            (ConnectionState::Connected, ConnectionState::Connected) => true,
            (ConnectionState::Error(a), ConnectionState::Error(b)) => {
                let ca = chars_of(a);
                let cb = chars_of(b);
                same_chars(ca.as_slice(), cb.as_slice())
            },
            _ => false,
        }
    }
}

impl vstd::std_specs::cmp::PartialEqSpecImpl for ConnectionState {
    open spec fn obeys_eq_spec() -> bool {
        true
    }

    open spec fn eq_spec(&self, other: &Self) -> bool {
        match (self, other) {
            (ConnectionState::Disconnected, ConnectionState::Disconnected) => true,
            (ConnectionState::Connecting, ConnectionState::Connecting) => true,
            (ConnectionState::Connected, ConnectionState::Connected) => true,
            (ConnectionState::Error(a), ConnectionState::Error(b)) => a@ == b@,
            _ => false,
        }
    }
}

/// The text of `str`'s `Debug` form of a string: the string in double quotes
/// with quotes, backslashes and other special characters escaped.
pub uninterp spec fn debug_text_of(s: Seq<char>) -> Seq<char>;

/// `<str as Debug>::fmt`, through `format!("{:?}")`. Claimed: the result is
/// a function of the string alone, named `debug_text_of`; its escaping rules
/// are left to std.
#[verifier::external_body]
fn debug_text(s: &str) -> (r: String)
    ensures
        r@ == debug_text_of(s@),
{
    format!("{:?}", s)
}

/// How a connection state is written out (its `Debug` form), with `quoted`
/// standing for the `Debug` form of an error's text.
pub open spec fn state_label_with(c: ConnectionState, quoted: Seq<char>) -> Seq<char> {
    match c {
        ConnectionState::Disconnected => "Disconnected"@,
        ConnectionState::Connecting => "Connecting"@,
        ConnectionState::Connected => "Connected"@,
        ConnectionState::Error(_) => "Error("@ + quoted + ")"@,
    }
}

/// How a connection state is written out: `Disconnected`, `Connecting`,
/// `Connected`, or `Error("…")` with the error text in its `Debug` form.
pub open spec fn state_label(c: ConnectionState) -> Seq<char> {
    match c {
        ConnectionState::Error(e) => state_label_with(c, debug_text_of(e@)),
        _ => state_label_with(c, seq![]),
    }
}

/// The written-out state, given the `Debug` form of the error text (which
/// only the `Error` state uses).
pub fn state_label_from(c: &ConnectionState, quoted: &str) -> (r: String)
    ensures
        r@ == state_label_with(*c, quoted@),
{
    match c {
        ConnectionState::Disconnected => "Disconnected".to_owned(),
        ConnectionState::Connecting => "Connecting".to_owned(),
        ConnectionState::Connected => "Connected".to_owned(),
        ConnectionState::Error(_) => {
            let mut r = "Error(".to_owned();
            r.append(quoted);
            r.append(")");
            r
        },
    }
}

/// The written-out state of a connection.
pub fn state_text(c: &ConnectionState) -> (r: String)
    ensures
        r@ == state_label(*c),
{
    match c {
        ConnectionState::Error(e) => {
            let q = debug_text(e.as_str());
            state_label_from(c, q.as_str())
        },
        _ => state_label_from(c, ""),
    }
}

/// What the user interface asks a connection task to do.
#[derive(Debug, Clone)]
pub enum IrcCommand {
    Join(usize, String),
    Part(usize, String),
    SendMsg(usize, String, String),
    SendAction(usize, String, String),
    Nick(usize, String),
    Raw(usize, String),
    Disconnect,
}

/// What the user interface knows of one server.
#[derive(Debug, Clone)]
pub struct ServerState {
    pub idx: usize,
    pub name: String,
    pub connection: ConnectionState,
    pub channels: Vec<String>,
    pub current_nick: String,
}

/// A protocol message as the library reads it: who sent it and which command
/// it carries.
#[derive(Debug)]
pub struct IncomingMessage {
    pub source_nick: Option<String>,
    pub command: IncomingCommand,
}

/// The commands that the chat shows; every other command is `Other`.
#[derive(Debug)]
pub enum IncomingCommand {
    /// `PRIVMSG target :text`
    Privmsg(String, String),
    /// `NOTICE target :text`
    Notice(String, String),
    /// `JOIN channel`
    Join(String),
    /// `PART channel [:reason]`
    Part(String, Option<String>),
    /// `QUIT [:reason]`
    Quit(Option<String>),
    /// `TOPIC channel [:topic]`
    Topic(String, Option<String>),
    /// A numeric reply: its code and arguments.
    Response(u16, Vec<String>),
    Other,
}

// ───────────────────────────── views ─────────────────────────────

/// The contents of a `ConnectionConfig`.
pub struct ConnectionView {
    pub host: Seq<char>,
    pub port: u16,
    pub tls: bool,
    pub nick: Seq<char>,
    pub user: Option<Seq<char>>,
    pub realname: Option<Seq<char>>,
    pub password: Option<Seq<char>>,
    pub channels: Seq<Seq<char>>,
}

impl View for ConnectionConfig {
    type V = ConnectionView;

    open spec fn view(&self) -> ConnectionView {
        ConnectionView {
            host: self.host@,
            port: self.port,
            tls: self.tls,
            nick: self.nick@,
            user: opt_view(self.user),
            realname: opt_view(self.realname),
            password: opt_view(self.password),
            channels: strs_view(self.channels@),
        }
    }
}

/// The contents of an `IrcMessage`.
pub struct MessageView {
    pub server: usize,
    pub target: Seq<char>,
    pub sender: Option<Seq<char>>,
    pub text: Seq<char>,
    pub kind: MessageKind,
    pub time: Seq<char>,
}

impl View for IrcMessage {
    type V = MessageView;

    open spec fn view(&self) -> MessageView {
        MessageView {
            server: self.server,
            target: self.target@,
            sender: opt_view(self.sender),
            text: self.text@,
            kind: self.kind,
            time: self.time@,
        }
    }
}

pub open spec fn messages_view(v: Seq<IrcMessage>) -> Seq<MessageView> {
    v.map_values(|m: IrcMessage| m@)
}

pub open spec fn opt_message_view(o: Option<IrcMessage>) -> Option<MessageView> {
    match o {
        Some(m) => Some(m@),
        None => None,
    }
}

pub enum CommandView {
    Privmsg(Seq<char>, Seq<char>),
    Notice(Seq<char>, Seq<char>),
    Join(Seq<char>),
    Part(Seq<char>, Option<Seq<char>>),
    Quit(Option<Seq<char>>),
    Topic(Seq<char>, Option<Seq<char>>),
    Response(u16, Seq<Seq<char>>),
    Other,
}

pub struct IncomingView {
    pub source_nick: Option<Seq<char>>,
    pub command: CommandView,
}

impl View for IncomingCommand {
    type V = CommandView;

    open spec fn view(&self) -> CommandView {
        match self {
            IncomingCommand::Privmsg(t, x) => CommandView::Privmsg(t@, x@),
            IncomingCommand::Notice(t, x) => CommandView::Notice(t@, x@),
            IncomingCommand::Join(c) => CommandView::Join(c@),
            IncomingCommand::Part(c, r) => CommandView::Part(c@, opt_view(*r)),
            IncomingCommand::Quit(r) => CommandView::Quit(opt_view(*r)),
            IncomingCommand::Topic(c, t) => CommandView::Topic(c@, opt_view(*t)),
            IncomingCommand::Response(code, args) => CommandView::Response(
                *code,
                strs_view(args@),
            ),
            IncomingCommand::Other => CommandView::Other,
        }
    }
}

impl View for IncomingMessage {
    type V = IncomingView;

    open spec fn view(&self) -> IncomingView {
        IncomingView { source_nick: opt_view(self.source_nick), command: self.command@ }
    }
}

/// The contents of a `ServerState`.
pub struct ServerView {
    pub idx: usize,
    pub name: Seq<char>,
    pub connection: ConnectionState,
    pub channels: Seq<Seq<char>>,
    pub current_nick: Seq<char>,
}

impl View for ServerState {
    type V = ServerView;

    open spec fn view(&self) -> ServerView {
        ServerView {
            idx: self.idx,
            name: self.name@,
            connection: self.connection,
            channels: strs_view(self.channels@),
            current_nick: self.current_nick@,
        }
    }
}

pub open spec fn server_views(v: Seq<ServerState>) -> Seq<ServerView> {
    v.map_values(|s: ServerState| s@)
}

/// The contents of a command to a connection task.
pub enum CommandToServer {
    Join(usize, Seq<char>),
    Part(usize, Seq<char>),
    SendMsg(usize, Seq<char>, Seq<char>),
    SendAction(usize, Seq<char>, Seq<char>),
    Nick(usize, Seq<char>),
    Raw(usize, Seq<char>),
    Disconnect,
}

impl View for IrcCommand {
    type V = CommandToServer;

    open spec fn view(&self) -> CommandToServer {
        match self {
            IrcCommand::Join(i, c) => CommandToServer::Join(*i, c@),
            IrcCommand::Part(i, c) => CommandToServer::Part(*i, c@),
            IrcCommand::SendMsg(i, t, x) => CommandToServer::SendMsg(*i, t@, x@),
            IrcCommand::SendAction(i, t, x) => CommandToServer::SendAction(*i, t@, x@),
            IrcCommand::Nick(i, n) => CommandToServer::Nick(*i, n@),
            IrcCommand::Raw(i, r) => CommandToServer::Raw(*i, r@),
            IrcCommand::Disconnect => CommandToServer::Disconnect,
        }
    }
}

// ───────────────────────────── parsing ─────────────────────────────

/// The numeric code of `RPL_NAMREPLY`.
pub const RPL_NAMREPLY: u16 = 353;

/// The CTCP marker in front of an action's text.
pub open spec fn action_marker() -> Seq<char> {
    seq!['\u{1}', 'A', 'C', 'T', 'I', 'O', 'N', ' ']
}

/// A `PRIVMSG` text that is a CTCP `ACTION` (`/me`).
pub open spec fn is_action(t: Seq<char>) -> bool {
    has_prefix(t, action_marker()) && t.last() == '\u{1}'
}

/// The sender's nickname, or `?` where the message names none.
pub open spec fn nick_or_unknown(n: Option<Seq<char>>) -> Seq<char> {
    match n {
        Some(s) => s,
        None => "?"@,
    }
}

pub open spec fn or_empty(o: Option<Seq<char>>) -> Seq<char> {
    match o {
        Some(s) => s,
        None => seq![],
    }
}

/// The nicknames of a NAMES reply's last argument: split at spaces, empty
/// pieces dropped, status prefixes stripped, joined with commas.
pub open spec fn names_text(s: Seq<char>) -> Seq<char> {
    join_with(strip_each(keep_nonempty(split_all(s, ' '))), seq![','])
}

pub open spec fn chat_line(
    idx: usize,
    kind: MessageKind,
    sender: Option<Seq<char>>,
    text: Seq<char>,
    target: Seq<char>,
    time: Seq<char>,
) -> MessageView {
    MessageView { server: idx, target, sender, text, kind, time }
}

/// The chat line that an incoming message becomes on server `idx` at `time`,
/// or `None` for a message that the chat does not show.
pub open spec fn parsed(idx: usize, m: IncomingView, time: Seq<char>) -> Option<MessageView> {
    let nick = m.source_nick;
    match m.command {
        CommandView::Privmsg(target, text) => if is_action(text) {
            Some(
                chat_line(
                    idx,
                    MessageKind::Action,
                    nick,
                    text.subrange(8, text.len() - 1),
                    target,
                    time,
                ),
            )
        } else {
            Some(chat_line(idx, MessageKind::Chat, nick, text, target, time))
        },
        CommandView::Notice(target, text) => Some(
            chat_line(
                idx,
                MessageKind::Notice,
                nick,
                "["@ + target + "] "@ + text,
                seq![],
                time,
            ),
        ),
        CommandView::Join(ch) => Some(
            chat_line(
                idx,
                MessageKind::Join,
                Some(nick_or_unknown(nick)),
                nick_or_unknown(nick) + " joined"@,
                ch,
                time,
            ),
        ),
        CommandView::Part(ch, reason) => Some(
            chat_line(
                idx,
                MessageKind::Part,
                Some(nick_or_unknown(nick)),
                nick_or_unknown(nick) + " left ("@ + or_empty(reason) + ")"@,
                ch,
                time,
            ),
        ),
        CommandView::Quit(reason) => Some(
            chat_line(
                idx,
                MessageKind::Quit,
                Some(nick_or_unknown(nick)),
                nick_or_unknown(nick) + " quit ("@ + or_empty(reason) + ")"@,
                seq![],
                time,
            ),
        ),
        CommandView::Topic(ch, topic) => Some(
            chat_line(
                idx,
                MessageKind::Topic,
                nick,
                match nick {
                    Some(n) => n + " set topic: "@ + or_empty(topic),
                    None => "Topic: "@ + or_empty(topic),
                },
                ch,
                time,
            ),
        ),
        CommandView::Response(code, args) => if code == RPL_NAMREPLY && args.len() >= 4 {
            Some(chat_line(idx, MessageKind::NamesReply, None, names_text(args[3]), args[2], time))
        } else {
            None
        },
        CommandView::Other => None,
    }
}

fn unknown_if_none(n: &Option<String>) -> (r: String)
    ensures
        r@ == nick_or_unknown(opt_view(*n)),
{
    match n {
        Some(s) => s.clone(),
        None => "?".to_owned(),
    }
}

fn empty_if_none(o: &Option<String>) -> (r: String)
    ensures
        r@ == or_empty(opt_view(*o)),
{
    match o {
        Some(s) => s.clone(),
        None => String::new(),
    }
}

/// `a` followed by `b`.
fn cat(a: &str, b: &str) -> (r: String)
    ensures
        r@ == a@ + b@,
{
    let mut r = a.to_owned();
    r.append(b);
    r
}

/// The text of a NAMES reply's nickname list, as a comma-separated list.
pub fn names_list(s: &str) -> (r: String)
    ensures
        r@ == names_text(s@),
{
    let cs = chars_of(s);
    let pieces = split_all_exec(&cs, ' ');
    let kept = keep_nonempty_exec(pieces);
    let stripped = strip_each_exec(&kept);
    let joined = join_exec(&stripped, ',');
    string_of(&joined)
}

fn make_line(
    idx: usize,
    kind: MessageKind,
    sender: Option<String>,
    text: String,
    target: String,
    time: String,
) -> (m: IrcMessage)
    ensures
        m@ == chat_line(idx, kind, opt_view(sender), text@, target@, time@),
{
    IrcMessage { server: idx, target, sender, text, kind, time }
}

/// The chat line for an incoming protocol message on server `idx`, stamped
/// with `time`; `None` for messages the chat does not show.
pub fn parse_message(idx: usize, msg: &IncomingMessage, time: String) -> (r: Option<IrcMessage>)
    ensures
        opt_message_view(r) == parsed(idx, msg@, time@),
{
    let nick = copy_opt(&msg.source_nick);
    match &msg.command {
        IncomingCommand::Privmsg(target, text) => {
            let tv = chars_of(text.as_str());
            let marker = vec!['\u{1}', 'A', 'C', 'T', 'I', 'O', 'N', ' '];
            assert(marker@ =~= action_marker());
            if has_prefix_exec(&tv, &marker) && tv[tv.len() - 1] == '\u{1}' {
                proof {
                    assert(tv@.subrange(0, 8)[7] == ' ');
                }
                let body = slice_chars(&tv, 8, tv.len() - 1);
                Some(
                    make_line(
                        idx,
                        MessageKind::Action,
                        nick,
                        string_of(&body),
                        target.clone(),
                        time,
                    ),
                )
            } else {
                Some(make_line(idx, MessageKind::Chat, nick, text.clone(), target.clone(), time))
            }
        },
        IncomingCommand::Notice(target, text) => {
            let mut t = cat("[", target.as_str());
            t.append("] ");
            t.append(text.as_str());
            Some(make_line(idx, MessageKind::Notice, nick, t, String::new(), time))
        },
        IncomingCommand::Join(ch) => {
            let n = unknown_if_none(&nick);
            let t = cat(n.as_str(), " joined");
            Some(make_line(idx, MessageKind::Join, Some(n), t, ch.clone(), time))
        },
        IncomingCommand::Part(ch, reason) => {
            let n = unknown_if_none(&nick);
            let mut t = cat(n.as_str(), " left (");
            let extra = empty_if_none(reason);
            t.append(extra.as_str());
            t.append(")");
            Some(make_line(idx, MessageKind::Part, Some(n), t, ch.clone(), time))
        },
        IncomingCommand::Quit(reason) => {
            let n = unknown_if_none(&nick);
            let mut t = cat(n.as_str(), " quit (");
            let extra = empty_if_none(reason);
            t.append(extra.as_str());
            t.append(")");
            Some(make_line(idx, MessageKind::Quit, Some(n), t, String::new(), time))
        },
        IncomingCommand::Topic(ch, topic) => {
            let tt = empty_if_none(topic);
            let t = match &nick {
                Some(n) => {
                    let mut t = cat(n.as_str(), " set topic: ");
                    t.append(tt.as_str());
                    t
                },
                None => cat("Topic: ", tt.as_str()),
            };
            Some(make_line(idx, MessageKind::Topic, nick, t, ch.clone(), time))
        },
        IncomingCommand::Response(code, args) => {
            if *code == RPL_NAMREPLY && args.len() >= 4 {
                let ch = args[2].clone();
                let names = names_list(args[3].as_str());
                Some(make_line(idx, MessageKind::NamesReply, None, names, ch, time))
            } else {
                None
            }
        },
        IncomingCommand::Other => None,
    }
}

/// A notice of the library's own about server `idx`.
pub open spec fn server_line(idx: usize, text: Seq<char>, time: Seq<char>) -> MessageView {
    chat_line(idx, MessageKind::Server, None, text, seq![], time)
}

/// A notice of the library's own about server `idx`, stamped with `time`.
pub fn server_msg(idx: usize, text: &str, time: String) -> (m: IrcMessage)
    ensures
        m@ == server_line(idx, text@, time@),
{
    make_line(idx, MessageKind::Server, None, text.to_owned(), String::new(), time)
}

// ───────────────────────────── clock ─────────────────────────────

/// The decimal digit `d` (0 to 9).
pub open spec fn digit(d: int) -> char {
    (48 + d) as char
}

/// A number below 100 in two digits, zero-padded (`{:02}`).
pub open spec fn two_digits(n: int) -> Seq<char> {
    seq![digit(n / 10), digit(n % 10)]
}

/// `HH:MM:SS` of the time of day, `secs` seconds after midnight of the epoch.
pub open spec fn clock_text(secs: int) -> Seq<char> {
    two_digits((secs / 3600) % 24) + seq![':'] + two_digits((secs / 60) % 60) + seq![':']
        + two_digits(secs % 60)
}

pub(crate) fn digit_char(d: u64) -> (c: char)
    requires
        d < 10,
    ensures
        c == digit(d as int),
{
    let b: u8 = 48u8 + (d as u8);
    b as char
}

fn push_two_digits(s: &mut String, n: u64)
    requires
        n < 100,
    ensures
        final(s)@ == old(s)@ + two_digits(n as int),
{
    push_char(s, digit_char(n / 10));
    push_char(s, digit_char(n % 10));
}

/// `HH:MM:SS` for a count of seconds since the epoch (UTC).
pub fn hhmmss(secs: u64) -> (r: String)
    ensures
        r@ == clock_text(secs as int),
{
    let h = (secs / 3600) % 24;
    let m = (secs / 60) % 60;
    let s = secs % 60;
    let mut r = String::new();
    push_two_digits(&mut r, h);
    push_char(&mut r, ':');
    push_two_digits(&mut r, m);
    push_char(&mut r, ':');
    push_two_digits(&mut r, s);
    r
}

#[verifier::external_type_specification]
#[verifier::external_body]
pub struct ExSystemTime(std::time::SystemTime);

/// `SystemTime::now`: the current wall-clock time. Nothing is claimed about it.
#[verifier::external_body]
fn system_now() -> std::time::SystemTime {
    std::time::SystemTime::now()
}

#[verifier::external_type_specification]
#[verifier::external_body]
pub struct ExSystemTimeError(std::time::SystemTimeError);

/// `SystemTime::duration_since(UNIX_EPOCH)`: how long after the epoch `t`
/// lies, or an error for a time before it. Nothing is claimed about the
/// duration.
#[verifier::external_body]
fn duration_since_epoch(
    t: &std::time::SystemTime,
) -> Result<std::time::Duration, std::time::SystemTimeError> {
    t.duration_since(std::time::UNIX_EPOCH)
}

/// `Duration::as_secs`: the whole seconds of `d`. Nothing is claimed about
/// the number.
#[verifier::external_body]
fn whole_seconds(d: &std::time::Duration) -> u64 {
    d.as_secs()
}

/// The seconds to count from the epoch: the elapsed whole seconds, or 0
/// when the clock reads a time before the epoch (`None`).
pub open spec fn seconds_or_zero(elapsed: Option<u64>) -> u64 {
    match elapsed {
        Some(s) => s,
        None => 0,
    }
}

/// The clock text for `elapsed` whole seconds since the epoch, `None`
/// standing for a clock before the epoch, which shows `00:00:00`.
pub fn clock_since_epoch(elapsed: Option<u64>) -> (r: String)
    ensures
        r@ == clock_text(seconds_or_zero(elapsed) as int),
{
    let secs = match elapsed {
        Some(s) => s,
        None => 0,
    };
    hhmmss(secs)
}

/// The current time of day (UTC) as `HH:MM:SS`; `00:00:00` when the clock
/// reads a time before the epoch.
pub fn now_hhmmss() -> (r: String)
    ensures
        exists|elapsed: Option<u64>| r@ == clock_text(seconds_or_zero(elapsed) as int),
{
    let t = system_now();
    let elapsed = match duration_since_epoch(&t) {
        Ok(d) => Some(whole_seconds(&d)),
        Err(_) => None,
    };
    clock_since_epoch(elapsed)
}

/// The nicknames to fall back on when `nick` is taken: `nick_1` to `nick_4`.
pub open spec fn alt_nicks_spec(nick: Seq<char>) -> Seq<Seq<char>> {
    Seq::new(4, |k: int| nick + seq!['_', digit(k + 1)])
}

pub fn alt_nicks(nick: &str) -> (r: Vec<String>)
    ensures
        strs_view(r@) == alt_nicks_spec(nick@),
{
    let mut r: Vec<String> = Vec::new();
    let mut i: u64 = 1;
    while i < 5
        invariant
            1 <= i <= 5,
            strs_view(r@) == alt_nicks_spec(nick@).take(i - 1),
        decreases 5 - i,
    {
        let mut s = nick.to_owned();
        push_char(&mut s, '_');
        push_char(&mut s, digit_char(i));
        let ghost before = strs_view(r@);
        assert(s@ =~= nick@ + seq!['_', digit(i as int)]);
        assert(alt_nicks_spec(nick@)[i - 1] == nick@ + seq!['_', digit(i as int)]);
        r.push(s);
        assert(strs_view(r@) =~= before.push(s@));
        assert(strs_view(r@) =~= alt_nicks_spec(nick@).take(i as int));
        i = i + 1;
    }
    assert(alt_nicks_spec(nick@).take(4) =~= alt_nicks_spec(nick@));
    r
}

} // verus!
