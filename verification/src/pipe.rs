//! The line-based pipe mode: commands come in on standard input, one per
//! line, and what the server says goes out on standard output. The decisions
//! are a step function from the session and one input line to the next
//! session and the actions to carry out (print, open a connection, send a
//! command, stop); the caller performs them and prints the lines that the
//! connection reports.
use vstd::prelude::*;

use crate::chat::{cat2, cat3};
use crate::irc_client::{
    CommandToServer, ConnectionConfig, ConnectionView, IrcCommand, IrcMessage, MessageView,
    or_empty,
};
use crate::order::code_of;
use crate::text::{chars_of, is_word, split_once, split_once_exec, string_of, trim, trim_exec};

verus! {

/// What the pipe mode remembers between lines: whether a connection was
/// opened, and the channel that plain text goes to.
#[derive(Debug)]
pub struct PipeSession {
    pub connected: bool,
    pub channel: Option<String>,
}

pub struct PipeView {
    pub connected: bool,
    pub channel: Option<Seq<char>>,
}

impl View for PipeSession {
    type V = PipeView;

    open spec fn view(&self) -> PipeView {
        PipeView {
            connected: self.connected,
            channel: match self.channel {
                Some(c) => Some(c@),
                None => None,
            },
        }
    }
}

/// One thing for the caller to do.
#[derive(Debug)]
pub enum PipeAction {
    /// Print the text as a line of output.
    Print(String),
    /// Open the connection (the one server of the pipe mode, index 0),
    /// replacing any earlier one.
    Connect(ConnectionConfig),
    /// Send the command over the open connection.
    Send(IrcCommand),
    /// Stop reading input.
    Stop,
}

pub enum PipeActionView {
    Print(Seq<char>),
    Connect(ConnectionView),
    Send(CommandToServer),
    Stop,
}

impl View for PipeAction {
    type V = PipeActionView;

    open spec fn view(&self) -> PipeActionView {
        match self {
            PipeAction::Print(t) => PipeActionView::Print(t@),
            PipeAction::Connect(c) => PipeActionView::Connect(c@),
            PipeAction::Send(c) => PipeActionView::Send(c@),
            PipeAction::Stop => PipeActionView::Stop,
        }
    }
}

pub open spec fn actions_view(v: Seq<PipeAction>) -> Seq<PipeActionView> {
    v.map_values(|a: PipeAction| a@)
}

/// The session before any line was read.
pub open spec fn fresh_pipe() -> PipeView {
    PipeView { connected: false, channel: None }
}

pub open spec fn pipe_help() -> Seq<char> {
    "Commands: /connect host port nick, /join #chan, /msg #chan text, /quit"@
}

pub open spec fn not_connected() -> Seq<char> {
    "Not connected. Use /connect host port nick"@
}

pub open spec fn is_digit(c: char) -> bool {
    48 <= c as int <= 57
}

/// The number that a string of decimal digits writes.
pub open spec fn digits_value(s: Seq<char>) -> int
    decreases s.len(),
{
    if s.len() == 0 {
        0
    } else {
        digits_value(s.drop_last()) * 10 + (s.last() as int - 48)
    }
}

/// The port that `s` names: one to five decimal digits, at most 65535.
pub open spec fn port_of(s: Seq<char>) -> Option<u16> {
    if 0 < s.len() <= 5 && (forall|i: int| 0 <= i < s.len() ==> is_digit(#[trigger] s[i]))
        && digits_value(s) <= 65535 {
        Some(digits_value(s) as u16)
    } else {
        None
    }
}

/// The first word of `s` (up to the first space) and what follows that
/// space (empty when there is none).
pub open spec fn first_word(s: Seq<char>) -> (Seq<char>, Seq<char>) {
    (split_once(s, ' ').0, or_empty(split_once(s, ' ').1))
}

/// What `/connect host port nick` asks for: host, port and nickname, each
/// present (the port as `port_of` reads it).
pub open spec fn connect_args(rest: Seq<char>) -> Option<(Seq<char>, u16, Seq<char>)> {
    let (host, r1) = first_word(rest);
    let (port, r2) = first_word(r1);
    let nick = first_word(r2).0;
    if host.len() > 0 && nick.len() > 0 && port_of(port) is Some {
        Some((host, port_of(port)->0, nick))
    } else {
        None
    }
}

/// The connection that `/connect` opens; TLS on port 6697, the port that
/// IRC over TLS uses.
pub open spec fn pipe_connection(host: Seq<char>, port: u16, nick: Seq<char>) -> ConnectionView {
    ConnectionView {
        host,
        port,
        tls: port == 6697,
        nick,
        user: None,
        realname: None,
        password: None,
        channels: seq![],
    }
}

pub open spec fn quit_first(s: PipeView) -> Seq<PipeActionView> {
    if s.connected {
        seq![PipeActionView::Send(CommandToServer::Disconnect)]
    } else {
        seq![]
    }
}

/// The next session and the actions for one input line.
pub open spec fn pipe_spec(s: PipeView, line: Seq<char>) -> (PipeView, Seq<PipeActionView>) {
    let t = trim(line);
    let (cmd, rest) = first_word(t);
    if t.len() == 0 {
        (s, seq![])
    } else if t == "/quit"@ || t == "/exit"@ {
        (fresh_pipe(), quit_first(s) + seq![PipeActionView::Print("Goodbye."@), PipeActionView::Stop])
    } else if t == "/help"@ {
        (s, seq![PipeActionView::Print(pipe_help())])
    } else if cmd == "/connect"@ {
        match connect_args(rest) {
            Some((host, port, nick)) => (
                PipeView { connected: true, channel: None },
                quit_first(s) + seq![
                    PipeActionView::Connect(pipe_connection(host, port, nick)),
                    PipeActionView::Print("Connecting to "@ + host + "…"@),
                ],
            ),
            None => (s, seq![PipeActionView::Print("Usage: /connect host port nick"@)]),
        }
    } else if cmd == "/join"@ {
        let ch = first_word(rest).0;
        if !s.connected {
            (s, seq![PipeActionView::Print(not_connected())])
        } else if ch.len() == 0 {
            (s, seq![PipeActionView::Print("Usage: /join #chan"@)])
        } else {
            (
                PipeView { channel: Some(ch), ..s },
                seq![PipeActionView::Send(CommandToServer::Join(0, ch))],
            )
        }
    } else if cmd == "/msg"@ {
        let (target, text) = first_word(rest);
        if !s.connected {
            (s, seq![PipeActionView::Print(not_connected())])
        } else if target.len() == 0 || text.len() == 0 {
            (s, seq![PipeActionView::Print("Usage: /msg #chan text"@)])
        } else {
            (s, seq![PipeActionView::Send(CommandToServer::SendMsg(0, target, text))])
        }
    } else if t[0] == '/' {
        (s, seq![PipeActionView::Print("Unknown command: "@ + cmd)])
    } else if !s.connected {
        (s, seq![PipeActionView::Print(not_connected())])
    } else {
        match s.channel {
            Some(c) => (s, seq![PipeActionView::Send(CommandToServer::SendMsg(0, c, t))]),
            None => (s, seq![PipeActionView::Print("Join a channel first: /join #chan"@)]),
        }
    }
}

/// How a line that the connection reports is printed:
/// `[time] target <sender> text`, leaving out an empty target and a missing
/// sender.
pub open spec fn pipe_line(m: MessageView) -> Seq<char> {
    "["@ + m.time + "] "@ + (if m.target.len() > 0 {
        m.target + " "@
    } else {
        seq![]
    }) + match m.sender {
        Some(n) => "<"@ + n + "> "@,
        None => seq![],
    } + m.text
}

impl PipeSession {
    /// The session before any line was read.
    pub fn new() -> (r: PipeSession)
        ensures
            r@ == fresh_pipe(),
    {
        PipeSession { connected: false, channel: None }
    }
}

fn word_and_rest(s: &[char]) -> (r: (Vec<char>, Vec<char>))
    ensures
        (r.0@, r.1@) == first_word(s@),
{
    let (w, rest) = split_once_exec(s, ' ');
    match rest {
        Some(r) => (w, r),
        None => (w, Vec::new()),
    }
}

/// The port that the digits in `s` name, as `port_of` reads them.
fn port_exec(s: &[char]) -> (r: Option<u16>)
    ensures
        r == port_of(s@),
{
    if s.len() == 0 || s.len() > 5 {
        return None;
    }
    let mut v: u32 = 0;
    let mut i: usize = 0;
    while i < s.len()
        invariant
            0 < s@.len() <= 5,
            i <= s@.len(),
            v as int == digits_value(s@.take(i as int)),
            v < 100000,
            i < 5 ==> v < 10000,
            i < 4 ==> v < 1000,
            i < 3 ==> v < 100,
            i < 2 ==> v < 10,
            i < 1 ==> v < 1,
            forall|j: int| 0 <= j < i ==> is_digit(#[trigger] s@[j]),
        decreases s.len() - i,
    {
        let c = s[i];
        let code = code_of(c);
        if code < 48 || code > 57 {
            assert(!is_digit(s@[i as int]));
            return None;
        }
        let d: u32 = code - 48;
        proof {
            assert(s@.take(i as int + 1).drop_last() =~= s@.take(i as int));
            assert(s@.take(i as int + 1).last() == c);
            assert(is_digit(s@[i as int]));
        }
        let ghost before = v as int;
        v = v * 10 + d;
        assert(v as int == before * 10 + (c as int - 48));
        i = i + 1;
    }
    assert(s@.take(s@.len() as int) =~= s@);
    if v <= 65535 {
        Some(v as u16)
    } else {
        None
    }
}

/// Carries out one input line: updates the session and gives the actions
/// for the caller, in order.
pub fn pipe_step(session: &mut PipeSession, line: &str) -> (r: Vec<PipeAction>)
    ensures
        (final(session)@, actions_view(r@)) == pipe_spec(old(session)@, line@),
{
    let ghost s0 = session@;
    let cs = chars_of(line);
    let t = trim_exec(&cs);
    let (cmd, rest) = word_and_rest(&t);
    let mut out: Vec<PipeAction> = Vec::new();
    if t.len() == 0 {
        assert(actions_view(out@) =~= seq![]);
        return out;
    }
    if is_word(&t, "/quit") || is_word(&t, "/exit") {
        if session.connected {
            out.push(PipeAction::Send(IrcCommand::Disconnect));
        }
        out.push(PipeAction::Print("Goodbye.".to_owned()));
        out.push(PipeAction::Stop);
        session.connected = false;
        session.channel = None;
        assert(actions_view(out@) =~= quit_first(s0) + seq![
            PipeActionView::Print("Goodbye."@),
            PipeActionView::Stop,
        ]);
        return out;
    }
    if is_word(&t, "/help") {
        out.push(
            PipeAction::Print(
                "Commands: /connect host port nick, /join #chan, /msg #chan text, /quit".to_owned(),
            ),
        );
        assert(actions_view(out@) =~= seq![PipeActionView::Print(pipe_help())]);
        return out;
    }
    if is_word(&cmd, "/connect") {
        let (host, r1) = word_and_rest(&rest);
        let (port_s, r2) = word_and_rest(&r1);
        let (nick, _r3) = word_and_rest(&r2);
        let port = port_exec(&port_s);
        if host.len() > 0 && nick.len() > 0 && port.is_some() {
            let p = port.unwrap();
            if session.connected {
                out.push(PipeAction::Send(IrcCommand::Disconnect));
            }
            let host_s = string_of(&host);
            let cfg = ConnectionConfig {
                host: string_of(&host),
                port: p,
                tls: p == 6697,
                nick: string_of(&nick),
                user: None,
                realname: None,
                password: None,
                channels: Vec::new(),
            };
            proof {
                assert(cfg.channels@.map_values(|c: String| c@) =~= Seq::<Seq<char>>::empty());
                assert(cfg@ == pipe_connection(host@, p, nick@));
            }
            out.push(PipeAction::Connect(cfg));
            out.push(PipeAction::Print(cat3("Connecting to ", host_s.as_str(), "…")));
            session.connected = true;
            session.channel = None;
            assert(actions_view(out@) =~= quit_first(s0) + seq![
                PipeActionView::Connect(pipe_connection(host@, p, nick@)),
                PipeActionView::Print("Connecting to "@ + host@ + "…"@),
            ]);
        } else {
            out.push(PipeAction::Print("Usage: /connect host port nick".to_owned()));
            assert(actions_view(out@) =~= seq![
                PipeActionView::Print("Usage: /connect host port nick"@),
            ]);
        }
        return out;
    }
    if is_word(&cmd, "/join") {
        let (ch, _r) = word_and_rest(&rest);
        if !session.connected {
            out.push(PipeAction::Print("Not connected. Use /connect host port nick".to_owned()));
            assert(actions_view(out@) =~= seq![PipeActionView::Print(not_connected())]);
        } else if ch.len() == 0 {
            out.push(PipeAction::Print("Usage: /join #chan".to_owned()));
            assert(actions_view(out@) =~= seq![PipeActionView::Print("Usage: /join #chan"@)]);
        } else {
            out.push(PipeAction::Send(IrcCommand::Join(0, string_of(&ch))));
            session.channel = Some(string_of(&ch));
            assert(actions_view(out@) =~= seq![
                PipeActionView::Send(CommandToServer::Join(0, ch@)),
            ]);
        }
        return out;
    }
    if is_word(&cmd, "/msg") {
        let (target, text) = word_and_rest(&rest);
        if !session.connected {
            out.push(PipeAction::Print("Not connected. Use /connect host port nick".to_owned()));
            assert(actions_view(out@) =~= seq![PipeActionView::Print(not_connected())]);
        } else if target.len() == 0 || text.len() == 0 {
            out.push(PipeAction::Print("Usage: /msg #chan text".to_owned()));
            assert(actions_view(out@) =~= seq![
                PipeActionView::Print("Usage: /msg #chan text"@),
            ]);
        } else {
            out.push(
                PipeAction::Send(IrcCommand::SendMsg(0, string_of(&target), string_of(&text))),
            );
            assert(actions_view(out@) =~= seq![
                PipeActionView::Send(CommandToServer::SendMsg(0, target@, text@)),
            ]);
        }
        return out;
    }
    if t[0] == '/' {
        let c = string_of(&cmd);
        out.push(PipeAction::Print(cat2("Unknown command: ", c.as_str())));
        assert(actions_view(out@) =~= seq![PipeActionView::Print("Unknown command: "@ + cmd@)]);
        return out;
    }
    if !session.connected {
        out.push(PipeAction::Print("Not connected. Use /connect host port nick".to_owned()));
        assert(actions_view(out@) =~= seq![PipeActionView::Print(not_connected())]);
        return out;
    }
    match &session.channel {
        Some(c) => {
            out.push(PipeAction::Send(IrcCommand::SendMsg(0, c.clone(), string_of(&t))));
            assert(actions_view(out@) =~= seq![
                PipeActionView::Send(CommandToServer::SendMsg(0, c@, t@)),
            ]);
        },
        None => {
            out.push(PipeAction::Print("Join a channel first: /join #chan".to_owned()));
            assert(actions_view(out@) =~= seq![
                PipeActionView::Print("Join a channel first: /join #chan"@),
            ]);
        },
    }
    out
}

/// The output line for a line that the connection reports.
pub fn pipe_line_of(m: &IrcMessage) -> (r: String)
    ensures
        r@ == pipe_line(m@),
{
    let mut r = cat3("[", m.time.as_str(), "] ");
    let tv = chars_of(m.target.as_str());
    if tv.len() > 0 {
        r.append(m.target.as_str());
        r.append(" ");
    }
    match &m.sender {
        Some(n) => {
            r.append("<");
            r.append(n.as_str());
            r.append("> ");
        },
        None => {},
    }
    r.append(m.text.as_str());
    r
}

} // verus!
