//! The chat window's state and how it reacts: to the user (what is typed,
//! what is clicked) and to what the connections report. Everything that
//! touches the outside world (the connection tasks, the desktop, the
//! configuration file) is handed back as an `Effect` for the caller to carry
//! out.
use vstd::prelude::*;

use crate::config::{Config, ServerConfig, ServerConfigView, blank_server, servers_view};
use crate::irc_client::{
    CommandToServer, ConnectionConfig, ConnectionState, ConnectionView, IrcCommand, IrcMessage, MessageKind,
    MessageView, ServerState, ServerView, messages_view, server_line, server_msg, server_views,
};
use crate::order::{lex_leq, sort_strings, sorted_strings};
use vstd::relations::sorted_by;
use crate::table::{
    ChannelEntry, entry_key, find_entry, keys_unique, lemma_table_at, lemma_table_keys,
    lemma_table_push, lemma_table_update, table_view,
};
use crate::text::{
    chars_of, copy_opt, copy_string, copy_strings, has_prefix, has_prefix_exec, opt_view,
    slice_chars, split_once, split_once_exec, string_of, strs_view, trim, trim_exec,
};

verus! {

// ───────────────────────────── messages of the interface ─────────────────────────────

/// What the interface reports to the application.
#[derive(Debug, Clone)]
pub enum Message {
    NavSelect(usize),
    InputChanged(String),
    SendMessage,
    ToggleContextPage(ContextPage),
    Connect(usize),
    Disconnect(usize),
    Tick,
    AddServerDialog,
    AddServer(ServerConfig),
    Noop,
}

/// What the side drawer shows.
#[derive(Debug, Clone, Copy, PartialEq, Eq, Structural)]
pub enum ContextPage {
    ServerInfo(usize),
    About,
}

/// An entry of the navigation list: a server, or one of its channels.
#[derive(Debug, Clone)]
pub enum NavItem {
    Server(usize),
    Channel(usize, String),
}

pub enum NavTarget {
    Server(usize),
    Channel(usize, Seq<char>),
}

impl View for NavItem {
    type V = NavTarget;

    open spec fn view(&self) -> NavTarget {
        match self {
            NavItem::Server(i) => NavTarget::Server(*i),
            NavItem::Channel(i, c) => NavTarget::Channel(*i, c@),
        }
    }
}

pub open spec fn opt_nav_view(o: Option<NavItem>) -> Option<NavTarget> {
    match o {
        Some(n) => Some(n@),
        None => None,
    }
}

/// The server that a navigation entry belongs to.
pub open spec fn nav_server(n: NavTarget) -> usize {
    match n {
        NavTarget::Server(i) => i,
        NavTarget::Channel(i, _) => i,
    }
}

// ───────────────────────────── slash commands ─────────────────────────────

/// What a slash command does: the command for the server's connection, the
/// line echoed locally, whether the server is dropped, the nickname now
/// used, and whether the selection stays on the current channel.
#[derive(Debug)]
pub struct SlashPlan {
    pub send: Option<IrcCommand>,
    pub echo: Option<String>,
    pub disconnect: bool,
    pub nick: Option<String>,
    pub keeps: bool,
}

pub struct PlanView {
    pub send: Option<CommandToServer>,
    pub echo: Option<Seq<char>>,
    pub disconnect: bool,
    pub nick: Option<Seq<char>>,
    pub keeps: bool,
}

pub open spec fn opt_command_view(o: Option<IrcCommand>) -> Option<CommandToServer> {
    match o {
        Some(c) => Some(c@),
        None => None,
    }
}

impl View for SlashPlan {
    type V = PlanView;

    open spec fn view(&self) -> PlanView {
        PlanView {
            send: opt_command_view(self.send),
            echo: opt_view(self.echo),
            disconnect: self.disconnect,
            nick: opt_view(self.nick),
            keeps: self.keeps,
        }
    }
}

pub open spec fn usage(t: Seq<char>) -> PlanView {
    PlanView { send: None, echo: Some(t), disconnect: false, nick: None, keeps: false }
}

pub open spec fn plan_of(
    send: Option<CommandToServer>,
    echo: Option<Seq<char>>,
    keeps: bool,
) -> PlanView {
    PlanView { send, echo, disconnect: false, nick: None, keeps }
}

/// The command goes out only where the server has a live connection.
pub open spec fn if_linked(linked: bool, c: CommandToServer) -> Option<CommandToServer> {
    if linked {
        Some(c)
    } else {
        None
    }
}

/// What the slash command `cmd` (already in lower case) with arguments `a1`
/// and `a2` does on server `i`, with `cur` the selected channel, if any, and
/// `linked` whether the server has a live connection.
pub open spec fn slash_plan_spec(
    i: usize,
    cmd: Seq<char>,
    a1: Seq<char>,
    a2: Seq<char>,
    cur: Option<Seq<char>>,
    linked: bool,
) -> PlanView {
    if cmd == "join"@ || cmd == "j"@ {
        if a1.len() == 0 {
            usage("Usage: /join #channel"@)
        } else if linked {
            plan_of(Some(CommandToServer::Join(i, a1)), Some("Joining "@ + a1 + "…"@), true)
        } else {
            plan_of(None, None, true)
        }
    } else if cmd == "part"@ || cmd == "leave"@ {
        let ch = if has_prefix(a1, seq!['#']) {
            Some(a1)
        } else {
            cur
        };
        match ch {
            None => usage("Usage: /part [#channel] [reason]"@),
            Some(c) => if linked {
                plan_of(Some(CommandToServer::Part(i, c)), Some("Leaving "@ + c), false)
            } else {
                plan_of(None, None, false)
            },
        }
    } else if cmd == "quit"@ || cmd == "disconnect"@ {
        PlanView {
            send: if_linked(linked, CommandToServer::Disconnect),
            echo: Some("Disconnected"@),
            disconnect: true,
            nick: None,
            keeps: false,
        }
    } else if cmd == "me"@ {
        let action = if a2.len() == 0 {
            a1
        } else {
            a1 + " "@ + a2
        };
        if action.len() == 0 {
            usage("Usage: /me <action>"@)
        } else {
            match cur {
                None => usage("Select a channel first for /me"@),
                Some(c) => plan_of(
                    if_linked(linked, CommandToServer::SendAction(i, c, action)),
                    None,
                    true,
                ),
            }
        }
    } else if cmd == "msg"@ || cmd == "query"@ {
        if a1.len() == 0 || a2.len() == 0 {
            usage("Usage: /msg <nick> <message>"@)
        } else {
            plan_of(
                if_linked(linked, CommandToServer::SendMsg(i, a1, a2)),
                Some("-> *"@ + a1 + "* "@ + a2),
                true,
            )
        }
    } else if cmd == "nick"@ {
        if a1.len() == 0 {
            usage("Usage: /nick <newnick>"@)
        } else {
            PlanView {
                send: if_linked(linked, CommandToServer::Nick(i, a1)),
                echo: Some("Changing nick to "@ + a1 + "…"@),
                disconnect: false,
                nick: Some(a1),
                keeps: true,
            }
        }
    } else if cmd == "topic"@ {
        if has_prefix(a1, seq!['#']) {
            plan_of(if_linked(linked, CommandToServer::Raw(i, "TOPIC "@ + a1 + " :"@ + a2)), None, false)
        } else {
            match cur {
                None => usage("Usage: /topic [#channel] [new topic]"@),
                Some(c) => {
                    let t = trim(a1 + " "@ + a2);
                    if t.len() == 0 {
                        plan_of(if_linked(linked, CommandToServer::Raw(i, "TOPIC "@ + c)), None, true)
                    } else {
                        plan_of(
                            if_linked(linked, CommandToServer::Raw(i, "TOPIC "@ + c + " :"@ + t)),
                            None,
                            true,
                        )
                    }
                },
            }
        }
    } else if cmd == "whois"@ {
        if a1.len() == 0 {
            usage("Usage: /whois <nick>"@)
        } else {
            plan_of(if_linked(linked, CommandToServer::Raw(i, "WHOIS "@ + a1)), None, true)
        }
    } else if cmd == "raw"@ || cmd == "quote"@ {
        let r = trim(a1 + " "@ + a2);
        if r.len() == 0 {
            usage("Usage: /raw <irc command>"@)
        } else {
            plan_of(if_linked(linked, CommandToServer::Raw(i, r)), Some("-> "@ + r), true)
        }
    } else {
        plan_of(None, Some("Unknown command: /"@ + cmd), true)
    }
}

pub(crate) fn cat2(a: &str, b: &str) -> (r: String)
    ensures
        r@ == a@ + b@,
{
    let mut r = a.to_owned();
    r.append(b);
    r
}

pub(crate) fn cat3(a: &str, b: &str, c: &str) -> (r: String)
    ensures
        r@ == a@ + b@ + c@,
{
    let mut r = a.to_owned();
    r.append(b);
    r.append(c);
    r
}

pub(crate) fn cat4(a: &str, b: &str, c: &str, d: &str) -> (r: String)
    ensures
        r@ == a@ + b@ + c@ + d@,
{
    let mut r = a.to_owned();
    r.append(b);
    r.append(c);
    r.append(d);
    r
}

fn trimmed(s: &str) -> (r: String)
    ensures
        r@ == trim(s@),
{
    let cs = chars_of(s);
    let t = trim_exec(&cs);
    string_of(&t)
}

fn starts_with_hash(s: &str) -> (b: bool)
    ensures
        b == has_prefix(s@, seq!['#']),
{
    let cs = chars_of(s);
    let h = vec!['#'];
    assert(h@ =~= seq!['#']);
    has_prefix_exec(&cs, &h)
}

fn word_is(s: &str, lit: &str) -> (b: bool)
    ensures
        b == (s@ == lit@),
{
    let cs = chars_of(s);
    crate::text::is_word(&cs, lit)
}

fn send_if(linked: bool, c: IrcCommand) -> (r: Option<IrcCommand>)
    ensures
        opt_command_view(r) == if_linked(linked, c@),
{
    if linked {
        Some(c)
    } else {
        None
    }
}

fn usage_plan(t: &str) -> (p: SlashPlan)
    ensures
        p@ == usage(t@),
{
    SlashPlan { send: None, echo: Some(t.to_owned()), disconnect: false, nick: None, keeps: false }
}

/// What the slash command `cmd` (already in lower case) with arguments
/// `arg1` and `arg2` does on server `server_idx`, with `current` the
/// selected channel and `linked` whether the server has a live connection.
pub fn slash_plan(
    server_idx: usize,
    cmd: &str,
    arg1: &str,
    arg2: &str,
    current: &Option<String>,
    linked: bool,
) -> (p: SlashPlan)
    ensures
        p@ == slash_plan_spec(server_idx, cmd@, arg1@, arg2@, opt_view(*current), linked),
{
    let i = server_idx;
    if word_is(cmd, "join") || word_is(cmd, "j") {
        if arg1.is_empty() {
            usage_plan("Usage: /join #channel")
        } else if linked {
            SlashPlan {
                send: Some(IrcCommand::Join(i, arg1.to_owned())),
                echo: Some(cat3("Joining ", arg1, "…")),
                disconnect: false,
                nick: None,
                keeps: true,
            }
        } else {
            SlashPlan { send: None, echo: None, disconnect: false, nick: None, keeps: true }
        }
    } else if word_is(cmd, "part") || word_is(cmd, "leave") {
        let ch = if starts_with_hash(arg1) {
            Some(arg1.to_owned())
        } else {
            copy_opt(current)
        };
        match ch {
            None => usage_plan("Usage: /part [#channel] [reason]"),
            Some(c) => if linked {
                let echo = cat2("Leaving ", c.as_str());
                SlashPlan {
                    send: Some(IrcCommand::Part(i, c)),
                    echo: Some(echo),
                    disconnect: false,
                    nick: None,
                    keeps: false,
                }
            } else {
                SlashPlan { send: None, echo: None, disconnect: false, nick: None, keeps: false }
            },
        }
    } else if word_is(cmd, "quit") || word_is(cmd, "disconnect") {
        SlashPlan {
            send: send_if(linked, IrcCommand::Disconnect),
            echo: Some("Disconnected".to_owned()),
            disconnect: true,
            nick: None,
            keeps: false,
        }
    } else if word_is(cmd, "me") {
        let action = if arg2.is_empty() {
            arg1.to_owned()
        } else {
            cat3(arg1, " ", arg2)
        };
        if action.as_str().is_empty() {
            usage_plan("Usage: /me <action>")
        } else {
            match current {
                None => usage_plan("Select a channel first for /me"),
                Some(c) => SlashPlan {
                    send: send_if(linked, IrcCommand::SendAction(i, c.clone(), action)),
                    echo: None,
                    disconnect: false,
                    nick: None,
                    keeps: true,
                },
            }
        }
    } else if word_is(cmd, "msg") || word_is(cmd, "query") {
        if arg1.is_empty() || arg2.is_empty() {
            usage_plan("Usage: /msg <nick> <message>")
        } else {
            SlashPlan {
                send: send_if(linked, IrcCommand::SendMsg(i, arg1.to_owned(), arg2.to_owned())),
                echo: Some(cat4("-> *", arg1, "* ", arg2)),
                disconnect: false,
                nick: None,
                keeps: true,
            }
        }
    } else if word_is(cmd, "nick") {
        if arg1.is_empty() {
            usage_plan("Usage: /nick <newnick>")
        } else {
            SlashPlan {
                send: send_if(linked, IrcCommand::Nick(i, arg1.to_owned())),
                echo: Some(cat3("Changing nick to ", arg1, "…")),
                disconnect: false,
                nick: Some(arg1.to_owned()),
                keeps: true,
            }
        }
    } else if word_is(cmd, "topic") {
        if starts_with_hash(arg1) {
            SlashPlan {
                send: send_if(linked, IrcCommand::Raw(i, cat4("TOPIC ", arg1, " :", arg2))),
                echo: None,
                disconnect: false,
                nick: None,
                keeps: false,
            }
        } else {
            match current {
                None => usage_plan("Usage: /topic [#channel] [new topic]"),
                Some(c) => {
                    let joined = cat3(arg1, " ", arg2);
                    let t = trimmed(joined.as_str());
                    let raw = if t.as_str().is_empty() {
                        cat2("TOPIC ", c.as_str())
                    } else {
                        cat4("TOPIC ", c.as_str(), " :", t.as_str())
                    };
                    SlashPlan {
                        send: send_if(linked, IrcCommand::Raw(i, raw)),
                        echo: None,
                        disconnect: false,
                        nick: None,
                        keeps: true,
                    }
                },
            }
        }
    } else if word_is(cmd, "whois") {
        if arg1.is_empty() {
            usage_plan("Usage: /whois <nick>")
        } else {
            SlashPlan {
                send: send_if(linked, IrcCommand::Raw(i, cat2("WHOIS ", arg1))),
                echo: None,
                disconnect: false,
                nick: None,
                keeps: true,
            }
        }
    } else if word_is(cmd, "raw") || word_is(cmd, "quote") {
        let joined = cat3(arg1, " ", arg2);
        let r = trimmed(joined.as_str());
        if r.as_str().is_empty() {
            usage_plan("Usage: /raw <irc command>")
        } else {
            let echo = cat2("-> ", r.as_str());
            SlashPlan {
                send: send_if(linked, IrcCommand::Raw(i, r)),
                echo: Some(echo),
                disconnect: false,
                nick: None,
                keeps: true,
            }
        }
    } else {
        SlashPlan {
            send: None,
            echo: Some(cat2("Unknown command: /", cmd)),
            disconnect: false,
            nick: None,
            keeps: true,
        }
    }
}


// ───────────────────────────── lower case ─────────────────────────────

/// What `str::to_lowercase` returns for a text (the Unicode lower-case
/// mapping).
pub uninterp spec fn lowercase_of(s: Seq<char>) -> Seq<char>;

/// `str::to_lowercase`: the text in lower case, as Unicode maps it.
#[verifier::external_body]
fn lowercase(s: &str) -> (r: String)
    ensures
        r@ == lowercase_of(s@),
{
    s.to_lowercase()
}

// ───────────────────────────── effects ─────────────────────────────

/// What the caller must carry out after a step of the model.
#[derive(Debug)]
pub enum Effect {
    /// Hand a command to the connection of a server.
    Send(usize, IrcCommand),
    /// Open a connection to a server: its command channel becomes the
    /// server's link, its event channel the one read from now on.
    Open(usize, ConnectionConfig),
    /// Forget the command channel of a server.
    DropLink(usize),
    /// Show a desktop notification: the channel, then the line.
    Notify(String, String),
    /// Write the configuration to its file.
    SaveConfig,
    /// Rebuild the navigation list from the servers.
    RebuildNav,
}

pub enum EffectView {
    Send(usize, CommandToServer),
    Open(usize, ConnectionView),
    DropLink(usize),
    Notify(Seq<char>, Seq<char>),
    SaveConfig,
    RebuildNav,
}

impl View for Effect {
    type V = EffectView;

    open spec fn view(&self) -> EffectView {
        match self {
            Effect::Send(i, c) => EffectView::Send(*i, c@),
            Effect::Open(i, c) => EffectView::Open(*i, c@),
            Effect::DropLink(i) => EffectView::DropLink(*i),
            Effect::Notify(c, b) => EffectView::Notify(c@, b@),
            Effect::SaveConfig => EffectView::SaveConfig,
            Effect::RebuildNav => EffectView::RebuildNav,
        }
    }
}

pub open spec fn effects_view(v: Seq<Effect>) -> Seq<EffectView> {
    v.map_values(|e: Effect| e@)
}

/// The login settings for a configured server.
pub open spec fn connection_for(s: ServerConfigView) -> ConnectionView {
    ConnectionView {
        host: s.host,
        port: s.port,
        tls: s.use_tls,
        nick: s.nick,
        user: s.user,
        realname: s.realname,
        password: s.password,
        channels: s.channels,
    }
}

/// The login settings for a configured server.
pub fn build_connection_config(sc: &ServerConfig) -> (c: ConnectionConfig)
    ensures
        c@ == connection_for(sc@),
{
    ConnectionConfig {
        host: copy_string(&sc.host),
        port: sc.port,
        tls: sc.use_tls,
        nick: copy_string(&sc.nick),
        user: copy_opt(&sc.user),
        realname: copy_opt(&sc.realname),
        password: copy_opt(&sc.password),
        channels: copy_strings(&sc.channels),
    }
}

// ───────────────────────────── the model ─────────────────────────────

/// The contents of a `Message`.
pub enum Event {
    NavSelect(usize),
    InputChanged(Seq<char>),
    SendMessage,
    ToggleContextPage(ContextPage),
    Connect(usize),
    Disconnect(usize),
    Tick,
    AddServerDialog,
    AddServer(ServerConfigView),
    Noop,
}

impl View for Message {
    type V = Event;

    open spec fn view(&self) -> Event {
        match self {
            Message::NavSelect(i) => Event::NavSelect(*i),
            Message::InputChanged(t) => Event::InputChanged(t@),
            Message::SendMessage => Event::SendMessage,
            Message::ToggleContextPage(p) => Event::ToggleContextPage(*p),
            Message::Connect(i) => Event::Connect(*i),
            Message::Disconnect(i) => Event::Disconnect(*i),
            Message::Tick => Event::Tick,
            Message::AddServerDialog => Event::AddServerDialog,
            Message::AddServer(c) => Event::AddServer(c@),
            Message::Noop => Event::Noop,
        }
    }
}

/// The state of the chat window.
#[derive(Debug)]
pub struct ChatModel {
    pub config: Config,
    pub servers: Vec<ServerState>,
    /// The servers with a live command channel.
    pub links: Vec<usize>,
    pub messages: Vec<IrcMessage>,
    pub selected: Option<NavItem>,
    pub input: String,
    pub context_page: ContextPage,
    pub show_context: bool,
    pub dialog_server: ServerConfig,
    pub dialog_channels_str: String,
    pub dialog_profile: String,
    pub dialog_show: bool,
    /// How many messages have been considered for notifications.
    pub last_notified: usize,
    /// The nicknames seen in each channel.
    pub channel_users: Vec<ChannelEntry<Vec<String>>>,
    /// The topic of each channel.
    pub channel_topics: Vec<ChannelEntry<String>>,
}

/// The contents of the chat window's state.
#[verifier::ext_equal]
pub struct ModelView {
    pub config: Seq<ServerConfigView>,
    pub servers: Seq<ServerView>,
    pub links: Set<usize>,
    pub log: Seq<MessageView>,
    pub selected: Option<NavTarget>,
    pub input: Seq<char>,
    pub context_page: ContextPage,
    pub show_context: bool,
    pub dialog_server: ServerConfigView,
    pub dialog_channels: Seq<char>,
    pub dialog_profile: Seq<char>,
    pub dialog_show: bool,
    pub last_notified: nat,
    pub users: Map<(usize, Seq<char>), Seq<Seq<char>>>,
    pub topics: Map<(usize, Seq<char>), Seq<char>>,
}

impl View for ChatModel {
    type V = ModelView;

    open spec fn view(&self) -> ModelView {
        ModelView {
            config: self.config@,
            servers: server_views(self.servers@),
            links: Set::new(|i: usize| self.links@.contains(i)),
            log: messages_view(self.messages@),
            selected: opt_nav_view(self.selected),
            input: self.input@,
            context_page: self.context_page,
            show_context: self.show_context,
            dialog_server: self.dialog_server@,
            dialog_channels: self.dialog_channels_str@,
            dialog_profile: self.dialog_profile@,
            dialog_show: self.dialog_show,
            last_notified: self.last_notified as nat,
            users: table_view(self.channel_users@),
            topics: table_view(self.channel_topics@),
        }
    }
}

/// What every state of the chat window satisfies: one state per configured
/// server, each knowing its own position, and no message considered for
/// notification that is not in the log.
pub open spec fn model_wf(m: ModelView) -> bool {
    &&& m.servers.len() == m.config.len()
    &&& forall|i: int| 0 <= i < m.servers.len() ==> #[trigger] m.servers[i].idx == i
    &&& m.last_notified <= m.log.len()
    &&& users_sorted(m.users)
}

/// Every channel's nickname list is in sorted order.
pub open spec fn users_sorted(u: Map<(usize, Seq<char>), Seq<Seq<char>>>) -> bool {
    forall|k: (usize, Seq<char>)| #[trigger] u.contains_key(k) ==> sorted_by(u[k], lex_leq())
}

impl ChatModel {
    pub open spec fn wf(&self) -> bool {
        &&& model_wf(self@)
        &&& keys_unique(self.channel_users@)
        &&& keys_unique(self.channel_topics@)
    }
}

/// The servers of a fresh window: one per configured server, disconnected.
pub open spec fn initial_servers(c: Seq<ServerConfigView>) -> Seq<ServerView> {
    Seq::new(
        c.len(),
        |i: int|
            ServerView {
                idx: i as usize,
                name: c[i].name,
                connection: ConnectionState::Disconnected,
                channels: c[i].channels,
                current_nick: c[i].nick,
            },
    )
}

/// A fresh window for a configuration.
pub open spec fn initial_model(c: Seq<ServerConfigView>) -> ModelView {
    ModelView {
        config: c,
        servers: initial_servers(c),
        links: Set::empty(),
        log: seq![],
        selected: None,
        input: seq![],
        context_page: ContextPage::About,
        show_context: false,
        dialog_server: blank_server(),
        dialog_channels: seq![],
        dialog_profile: "default"@,
        dialog_show: false,
        last_notified: 0,
        users: Map::empty(),
        topics: Map::empty(),
    }
}

// ── what an incoming line changes ──

pub open spec fn users_of(
    u: Map<(usize, Seq<char>), Seq<Seq<char>>>,
    k: (usize, Seq<char>),
) -> Seq<Seq<char>> {
    if u.contains_key(k) {
        u[k]
    } else {
        seq![]
    }
}

/// `s` without the entries equal to `x` (`Vec::retain(|u| u != x)`).
pub open spec fn without(s: Seq<Seq<char>>, x: Seq<char>) -> Seq<Seq<char>>
    decreases s.len(),
{
    if s.len() == 0 {
        seq![]
    } else if s.last() == x {
        without(s.drop_last(), x)
    } else {
        without(s.drop_last(), x).push(s.last())
    }
}

/// Channel members after a line: a join adds the sender to the channel's
/// list, kept in sorted order; a part or quit removes every entry of the
/// sender from a channel that has a list.
pub open spec fn users_after(
    u: Map<(usize, Seq<char>), Seq<Seq<char>>>,
    m: MessageView,
) -> Map<(usize, Seq<char>), Seq<Seq<char>>> {
    let key = (m.server, m.target);
    match m.sender {
        Some(s) => if m.kind == MessageKind::Join {
            u.insert(key, sorted_strings(users_of(u, key).push(s)))
        } else if (m.kind == MessageKind::Part || m.kind == MessageKind::Quit) && u.contains_key(
            key,
        ) {
            u.insert(key, without(u[key], s))
        } else {
            u
        },
        None => u,
    }
}

/// What a topic line announces as the topic: the text after
/// "<nick> set topic: " (after "Topic: " when the line names no sender);
/// the whole text when the line has another form.
pub open spec fn topic_text(sender: Option<Seq<char>>, text: Seq<char>) -> Seq<char> {
    let lead = match sender {
        Some(n) => n + " set topic: "@,
        None => "Topic: "@,
    };
    if has_prefix(text, lead) {
        text.subrange(lead.len() as int, text.len() as int)
    } else {
        text
    }
}

/// Topics after a line: a topic line sets its channel's topic to the topic
/// it announces.
pub open spec fn topics_after(
    t: Map<(usize, Seq<char>), Seq<char>>,
    m: MessageView,
) -> Map<(usize, Seq<char>), Seq<char>> {
    if m.kind == MessageKind::Topic {
        t.insert((m.server, m.target), topic_text(m.sender, m.text))
    } else {
        t
    }
}

pub open spec fn with_channel(s: ServerView, ch: Seq<char>) -> ServerView {
    ServerView { channels: sorted_strings(s.channels.push(ch)), ..s }
}

/// Servers after a line: a join into a channel that its server does not
/// list adds the channel, and the list is sorted.
pub open spec fn servers_after(sv: Seq<ServerView>, m: MessageView) -> Seq<ServerView> {
    if m.kind == MessageKind::Join && m.server < sv.len() && !sv[m.server as int].channels.contains(
        m.target,
    ) {
        sv.update(m.server as int, with_channel(sv[m.server as int], m.target))
    } else {
        sv
    }
}

/// The window after a line from a connection arrives.
pub open spec fn receive_spec(m: ModelView, msg: MessageView) -> ModelView {
    ModelView {
        log: m.log.push(msg),
        users: users_after(m.users, msg),
        topics: topics_after(m.topics, msg),
        servers: servers_after(m.servers, msg),
        ..m
    }
}

// ── the periodic tick ──

/// The notification for a line: chat and actions from someone other than
/// the server's own nickname.
pub open spec fn note_for(msg: MessageView, sv: Seq<ServerView>) -> Seq<EffectView> {
    if (msg.kind == MessageKind::Chat || msg.kind == MessageKind::Action) && msg.sender is Some {
        let nick = msg.sender->0;
        if msg.server < sv.len() && sv[msg.server as int].current_nick == nick {
            seq![]
        } else {
            seq![
                EffectView::Notify(
                    msg.target,
                    if msg.kind == MessageKind::Action {
                        "* "@ + nick + " "@ + msg.text
                    } else {
                        "<"@ + nick + "> "@ + msg.text
                    },
                ),
            ]
        }
    } else {
        seq![]
    }
}

pub open spec fn notes_for(ms: Seq<MessageView>, sv: Seq<ServerView>) -> Seq<EffectView>
    decreases ms.len(),
{
    if ms.len() == 0 {
        seq![]
    } else {
        notes_for(ms.drop_last(), sv) + note_for(ms.last(), sv)
    }
}

/// A line of the library's own saying that server `i` is connected.
pub open spec fn announces_connected(msg: MessageView, i: int) -> bool {
    &&& msg.server == i
    &&& msg.kind == MessageKind::Server
    &&& has_prefix(msg.text, "Connected"@)
}

pub open spec fn announced(log: Seq<MessageView>, i: int) -> bool {
    exists|k: int| 0 <= k < log.len() && announces_connected(#[trigger] log[k], i)
}

/// A connecting server whose connection has been announced.
pub open spec fn promoted(s: ServerView, log: Seq<MessageView>, i: int) -> bool {
    s.connection is Connecting && announced(log, i)
}

pub open spec fn after_announce(sv: Seq<ServerView>, log: Seq<MessageView>) -> Seq<ServerView> {
    Seq::new(
        sv.len(),
        |i: int|
            if promoted(sv[i], log, i) {
                ServerView { connection: ConnectionState::Connected, ..sv[i] }
            } else {
                sv[i]
            },
    )
}

pub open spec fn any_promoted(sv: Seq<ServerView>, log: Seq<MessageView>) -> bool {
    exists|i: int| 0 <= i < sv.len() && promoted(#[trigger] sv[i], log, i)
}

/// The periodic tick: notify the lines not yet considered, then mark the
/// connecting servers whose connection was announced as connected.
pub open spec fn tick_spec(m: ModelView) -> (ModelView, Seq<EffectView>) {
    let notes = notes_for(m.log.subrange(m.last_notified as int, m.log.len() as int), m.servers);
    (
        ModelView {
            last_notified: m.log.len(),
            servers: after_announce(m.servers, m.log),
            ..m
        },
        notes + if any_promoted(m.servers, m.log) {
            seq![EffectView::RebuildNav]
        } else {
            seq![]
        },
    )
}

// ── typing ──

/// The command word and the two arguments of a slash command line
/// (`text[1..].splitn(3, ' ')`).
pub open spec fn slash_args(text: Seq<char>) -> (Seq<char>, Seq<char>, Seq<char>) {
    let body = text.drop_first();
    let (p0, rest) = split_once(body, ' ');
    match rest {
        Some(r) => {
            let (p1, p2) = split_once(r, ' ');
            (
                p0,
                p1,
                match p2 {
                    Some(x) => x,
                    None => seq![],
                },
            )
        },
        None => (p0, seq![], seq![]),
    }
}

/// The window after a slash command's plan is carried out, and the channel
/// to select afterwards, if any.
pub open spec fn apply_plan(
    m: ModelView,
    i: usize,
    p: PlanView,
    cur: Option<Seq<char>>,
    time: Seq<char>,
) -> (ModelView, Seq<EffectView>, Option<NavTarget>) {
    let sends = match p.send {
        Some(c) => seq![EffectView::Send(i, c)],
        None => seq![],
    };
    let drops = if p.disconnect {
        seq![EffectView::DropLink(i)]
    } else {
        seq![]
    };
    let sv1 = if p.disconnect && i < m.servers.len() {
        m.servers.update(
            i as int,
            ServerView { connection: ConnectionState::Disconnected, ..m.servers[i as int] },
        )
    } else {
        m.servers
    };
    let sv2 = match p.nick {
        Some(n) => if i < sv1.len() {
            sv1.update(i as int, ServerView { current_nick: n, ..sv1[i as int] })
        } else {
            sv1
        },
        None => sv1,
    };
    let log = match p.echo {
        Some(t) => m.log.push(server_line(i, t, time)),
        None => m.log,
    };
    let links = if p.disconnect {
        m.links.remove(i)
    } else {
        m.links
    };
    let selection = if p.keeps && cur is Some {
        Some(NavTarget::Channel(i, cur->0))
    } else {
        None
    };
    (ModelView { servers: sv2, log, links, ..m }, sends + drops, selection)
}

/// A slash command line typed on server `i` with `cur` the selected channel:
/// the window after it, what the caller must do, and the channel to select.
pub open spec fn slash_spec(
    m: ModelView,
    i: usize,
    text: Seq<char>,
    cur: Option<Seq<char>>,
    time: Seq<char>,
) -> (ModelView, Seq<EffectView>, Option<NavTarget>) {
    let (c, a1, a2) = slash_args(text);
    apply_plan(
        m,
        i,
        slash_plan_spec(i, lowercase_of(c), a1, a2, cur, m.links.contains(i)),
        cur,
        time,
    )
}

/// Sending what was typed: nothing for blank input; otherwise the input is
/// cleared and, with a server selected, the line is either a slash command
/// or a message to the selected channel.
pub open spec fn send_spec(m: ModelView, time: Seq<char>) -> (ModelView, Seq<EffectView>) {
    let text = trim(m.input);
    if text.len() == 0 {
        (m, seq![])
    } else {
        let m1 = ModelView { input: seq![], ..m };
        match m.selected {
            None => (m1, seq![]),
            Some(sel) => {
                let i = nav_server(sel);
                if has_prefix(text, seq!['/']) {
                    let cur = match sel {
                        NavTarget::Channel(_, c) => Some(c),
                        NavTarget::Server(_) => None,
                    };
                    let r = slash_spec(m1, i, text, cur, time);
                    match r.2 {
                        Some(ns) => (ModelView { selected: Some(ns), ..r.0 }, r.1),
                        None => (r.0, r.1),
                    }
                } else {
                    match sel {
                        NavTarget::Channel(_, c) => if m.links.contains(i) {
                            (m1, seq![EffectView::Send(i, CommandToServer::SendMsg(i, c, text))])
                        } else {
                            (m1, seq![])
                        },
                        NavTarget::Server(_) => (m1, seq![]),
                    }
                }
            },
        }
    }
}

/// The window after one message of the interface, and what the caller must
/// then do.
pub open spec fn update_spec(m: ModelView, e: Event, time: Seq<char>) -> (ModelView, Seq<EffectView>) {
    match e {
        Event::NavSelect(_) => (m, seq![]),
        Event::InputChanged(t) => (ModelView { input: t, ..m }, seq![]),
        Event::SendMessage => send_spec(m, time),
        Event::ToggleContextPage(p) => if m.show_context && m.context_page == p {
            (ModelView { show_context: false, ..m }, seq![])
        } else {
            (ModelView { context_page: p, show_context: true, ..m }, seq![])
        },
        Event::Connect(i) => if i < m.config.len() {
            let sc = m.config[i as int];
            (
                ModelView {
                    servers: if i < m.servers.len() {
                        m.servers.update(
                            i as int,
                            ServerView {
                                connection: ConnectionState::Connecting,
                                current_nick: sc.nick,
                                ..m.servers[i as int]
                            },
                        )
                    } else {
                        m.servers
                    },
                    links: m.links.insert(i),
                    ..m
                },
                seq![EffectView::RebuildNav, EffectView::Open(i, connection_for(sc))],
            )
        } else {
            (m, seq![])
        },
        Event::Disconnect(i) => (
            ModelView {
                links: m.links.remove(i),
                servers: if i < m.servers.len() {
                    m.servers.update(
                        i as int,
                        ServerView {
                            connection: ConnectionState::Disconnected,
                            ..m.servers[i as int]
                        },
                    )
                } else {
                    m.servers
                },
                ..m
            },
            (if m.links.contains(i) {
                seq![EffectView::Send(i, CommandToServer::Disconnect)]
            } else {
                seq![]
            }) + seq![EffectView::DropLink(i), EffectView::RebuildNav],
        ),
        Event::Tick => tick_spec(m),
        Event::AddServerDialog => (
            ModelView {
                dialog_show: true,
                dialog_server: blank_server(),
                dialog_channels: "#cosmic-chat"@,
                dialog_profile: "default"@,
                ..m
            },
            seq![],
        ),
        Event::AddServer(c) => (
            ModelView {
                dialog_show: false,
                config: m.config.push(c),
                servers: m.servers.push(
                    ServerView {
                        idx: m.config.len() as usize,
                        name: c.name,
                        connection: ConnectionState::Disconnected,
                        channels: c.channels,
                        current_nick: c.nick,
                    },
                ),
                ..m
            },
            seq![EffectView::SaveConfig, EffectView::RebuildNav],
        ),
        Event::Noop => (m, seq![]),
    }
}


// ───────────────────────────── executable helpers ─────────────────────────────

proof fn lemma_deep_strs(v: Vec<String>)
    ensures
        v.deep_view() == strs_view(v@),
{
    assert(v.deep_view() =~= strs_view(v@));
}

fn set_connection(servers: &mut Vec<ServerState>, i: usize, c: ConnectionState)
    requires
        i < old(servers)@.len(),
    ensures
        final(servers)@.len() == old(servers)@.len(),
        server_views(final(servers)@) == server_views(old(servers)@).update(
            i as int,
            ServerView { connection: c, ..server_views(old(servers)@)[i as int] },
        ),
{
    let ghost before = server_views(servers@);
    let mut s = servers.remove(i);
    s.connection = c;
    servers.insert(i, s);
    assert(server_views(servers@) =~= before.update(
        i as int,
        ServerView { connection: c, ..before[i as int] },
    ));
}

fn set_nick(servers: &mut Vec<ServerState>, i: usize, n: String)
    requires
        i < old(servers)@.len(),
    ensures
        final(servers)@.len() == old(servers)@.len(),
        server_views(final(servers)@) == server_views(old(servers)@).update(
            i as int,
            ServerView { current_nick: n@, ..server_views(old(servers)@)[i as int] },
        ),
{
    let ghost before = server_views(servers@);
    let mut s = servers.remove(i);
    s.current_nick = n;
    servers.insert(i, s);
    assert(server_views(servers@) =~= before.update(
        i as int,
        ServerView { current_nick: n@, ..before[i as int] },
    ));
}

fn set_channels(servers: &mut Vec<ServerState>, i: usize, chans: Vec<String>)
    requires
        i < old(servers)@.len(),
    ensures
        final(servers)@.len() == old(servers)@.len(),
        server_views(final(servers)@) == server_views(old(servers)@).update(
            i as int,
            ServerView { channels: strs_view(chans@), ..server_views(old(servers)@)[i as int] },
        ),
{
    let ghost before = server_views(servers@);
    let ghost cv = strs_view(chans@);
    let mut s = servers.remove(i);
    s.channels = chans;
    servers.insert(i, s);
    assert(server_views(servers@) =~= before.update(
        i as int,
        ServerView { channels: cv, ..before[i as int] },
    ));
}

fn links_contain(links: &Vec<usize>, i: usize) -> (b: bool)
    ensures
        b == links@.contains(i),
{
    let mut k: usize = 0;
    while k < links.len()
        invariant
            k <= links@.len(),
            forall|j: int| 0 <= j < k ==> links@[j] != i,
        decreases links.len() - k,
    {
        if links[k] == i {
            return true;
        }
        k = k + 1;
    }
    false
}

fn links_insert(links: &mut Vec<usize>, i: usize)
    ensures
        forall|x: usize| final(links)@.contains(x) <==> (old(links)@.contains(x) || x == i),
{
    if !links_contain(links, i) {
        links.push(i);
        assert forall|x: usize| links@.contains(x) <==> (old(links)@.contains(x) || x == i) by {
            if old(links)@.contains(x) {
                let j = choose|j: int| 0 <= j < old(links)@.len() && old(links)@[j] == x;
                assert(links@[j] == x);
            }
            if links@.contains(x) {
                let j = choose|j: int| 0 <= j < links@.len() && links@[j] == x;
                if j < old(links)@.len() {
                    assert(old(links)@[j] == x);
                }
            }
            if x == i {
                assert(links@[links@.len() - 1] == i);
            }
        }
    }
}

fn links_remove(links: &mut Vec<usize>, i: usize)
    ensures
        forall|x: usize| final(links)@.contains(x) <==> (old(links)@.contains(x) && x != i),
{
    let mut r: Vec<usize> = Vec::new();
    let mut k: usize = 0;
    while k < links.len()
        invariant
            k <= links@.len(),
            forall|x: usize| #[trigger] r@.contains(x) ==> links@.contains(x) && x != i,
            forall|j: int| 0 <= j < k && links@[j] != i ==> r@.contains(#[trigger] links@[j]),
        decreases links.len() - k,
    {
        let v = links[k];
        let ghost before = r@;
        if v != i {
            r.push(v);
            assert(r@[r@.len() - 1] == v);
            assert forall|x: usize| #[trigger] r@.contains(x) implies links@.contains(x) && x != i by {
                let j = choose|j: int| 0 <= j < r@.len() && r@[j] == x;
                if j < before.len() {
                    assert(before[j] == x);
                    assert(before.contains(x));
                } else {
                    assert(links@[k as int] == x);
                }
            }
            assert forall|j: int| 0 <= j < k + 1 && links@[j] != i implies r@.contains(
                #[trigger] links@[j],
            ) by {
                if j < k {
                    assert(before.contains(links@[j]));
                    let jj = choose|jj: int| 0 <= jj < before.len() && before[jj] == links@[j];
                    assert(r@[jj] == links@[j]);
                }
            }
        }
        k = k + 1;
    }
    assert forall|x: usize| old(links)@.contains(x) && x != i implies r@.contains(x) by {
        let j = choose|j: int| 0 <= j < links@.len() && links@[j] == x;
        assert(r@.contains(links@[j]));
    }
    *links = r;
}

/// Whether the list holds the string.
fn strings_contain(v: &Vec<String>, x: &String) -> (b: bool)
    ensures
        b == strs_view(v@).contains(x@),
{
    let mut k: usize = 0;
    while k < v.len()
        invariant
            k <= v@.len(),
            forall|j: int| 0 <= j < k ==> strs_view(v@)[j] != x@,
        decreases v.len() - k,
    {
        if v[k] == *x {
            assert(strs_view(v@)[k as int] == x@);
            return true;
        }
        k = k + 1;
    }
    false
}

/// `v` without the entries equal to `x`.
fn without_exec(v: &Vec<String>, x: &String) -> (r: Vec<String>)
    ensures
        strs_view(r@) == without(strs_view(v@), x@),
{
    let mut r: Vec<String> = Vec::new();
    let mut k: usize = 0;
    while k < v.len()
        invariant
            k <= v@.len(),
            strs_view(r@) == without(strs_view(v@).take(k as int), x@),
        decreases v.len() - k,
    {
        let ghost t = strs_view(v@).take(k + 1);
        assert(t.drop_last() =~= strs_view(v@).take(k as int));
        assert(t.last() == v@[k as int]@);
        if v[k] != *x {
            let ghost before = strs_view(r@);
            r.push(v[k].clone());
            assert(strs_view(r@) =~= before.push(v@[k as int]@));
        }
        k = k + 1;
    }
    assert(strs_view(v@).take(v@.len() as int) =~= strs_view(v@));
    r
}

fn add_user(
    table: &mut Vec<ChannelEntry<Vec<String>>>,
    server: usize,
    channel: &String,
    nick: &String,
)
    requires
        keys_unique(old(table)@),
    ensures
        keys_unique(final(table)@),
        table_view(final(table)@) == table_view(old(table)@).insert(
            (server, channel@),
            sorted_strings(users_of(table_view(old(table)@), (server, channel@)).push(nick@)),
        ),
{
    let key = Ghost((server, channel@));
    match find_entry(table, server, channel) {
        Some(i) => {
            proof {
                lemma_table_at(table@, i as int);
                lemma_deep_strs(table@[i as int].value);
            }
            let mut users = copy_strings(&table[i].value);
            users.push(nick.clone());
            proof {
                assert(strs_view(users@) =~= strs_view(table@[i as int].value@).push(nick@));
            }
            let e = ChannelEntry { server, channel: channel.clone(), value: sort_strings(users) };
            proof {
                lemma_deep_strs(e.value);
                lemma_table_update(table@, i as int, e);
            }
            table.set(i, e);
        },
        None => {
            proof {
                lemma_table_keys(table@, key@);
            }
            let mut users: Vec<String> = Vec::new();
            users.push(nick.clone());
            proof {
                assert(strs_view(users@) =~= Seq::<Seq<char>>::empty().push(nick@));
            }
            let e = ChannelEntry { server, channel: channel.clone(), value: sort_strings(users) };
            proof {
                lemma_deep_strs(e.value);
                lemma_table_push(table@, e);
            }
            table.push(e);
        },
    }
}

fn remove_user(
    table: &mut Vec<ChannelEntry<Vec<String>>>,
    server: usize,
    channel: &String,
    nick: &String,
)
    requires
        keys_unique(old(table)@),
    ensures
        keys_unique(final(table)@),
        table_view(final(table)@) == if table_view(old(table)@).contains_key((server, channel@)) {
            table_view(old(table)@).insert(
                (server, channel@),
                without(table_view(old(table)@)[(server, channel@)], nick@),
            )
        } else {
            table_view(old(table)@)
        },
{
    let key = Ghost((server, channel@));
    match find_entry(table, server, channel) {
        Some(i) => {
            proof {
                lemma_table_at(table@, i as int);
                lemma_deep_strs(table@[i as int].value);
            }
            let users = without_exec(&table[i].value, nick);
            let e = ChannelEntry { server, channel: channel.clone(), value: users };
            proof {
                lemma_deep_strs(e.value);
                lemma_table_update(table@, i as int, e);
            }
            table.set(i, e);
        },
        None => {
            proof {
                lemma_table_keys(table@, key@);
            }
        },
    }
}

fn topic_text_exec(sender: &Option<String>, text: &String) -> (r: String)
    ensures
        r@ == topic_text(opt_view(*sender), text@),
{
    let lead = match sender {
        Some(n) => cat2(n.as_str(), " set topic: "),
        None => "Topic: ".to_owned(),
    };
    let tv = chars_of(text.as_str());
    let lv = chars_of(lead.as_str());
    if has_prefix_exec(&tv, &lv) {
        string_of(&slice_chars(&tv, lv.len(), tv.len()))
    } else {
        text.clone()
    }
}

fn set_topic(table: &mut Vec<ChannelEntry<String>>, server: usize, channel: &String, text: &String)
    requires
        keys_unique(old(table)@),
    ensures
        keys_unique(final(table)@),
        table_view(final(table)@) == table_view(old(table)@).insert((server, channel@), text@),
{
    let e = ChannelEntry { server, channel: channel.clone(), value: text.clone() };
    match find_entry(table, server, channel) {
        Some(i) => {
            proof {
                lemma_table_update(table@, i as int, e);
            }
            table.set(i, e);
        },
        None => {
            proof {
                lemma_table_push(table@, e);
            }
            table.push(e);
        },
    }
}

/// Adds a joined channel to its server's list, keeping the list sorted.
fn track_channel(servers: &mut Vec<ServerState>, server: usize, channel: &String)
    ensures
        server_views(final(servers)@) == if server < old(servers)@.len()
            && !server_views(old(servers)@)[server as int].channels.contains(channel@) {
            server_views(old(servers)@).update(
                server as int,
                with_channel(server_views(old(servers)@)[server as int], channel@),
            )
        } else {
            server_views(old(servers)@)
        },
{
    if server < servers.len() {
        if !strings_contain(&servers[server].channels, channel) {
            let mut chans = copy_strings(&servers[server].channels);
            let ghost before = strs_view(chans@);
            chans.push(channel.clone());
            assert(strs_view(chans@) =~= before.push(channel@));
            let sorted = sort_strings(chans);
            set_channels(servers, server, sorted);
        }
    }
}

/// The notification for a line, if it calls for one.
fn note_exec(msg: &IrcMessage, servers: &Vec<ServerState>) -> (r: Option<Effect>)
    ensures
        match r {
            Some(e) => seq![e@],
            None => Seq::<EffectView>::empty(),
        } == note_for(msg@, server_views(servers@)),
{
    let is_chat = match msg.kind {
        MessageKind::Chat => true,
        MessageKind::Action => true,
        _ => false,
    };
    if !is_chat {
        return None;
    }
    match &msg.sender {
        None => None,
        Some(nick) => {
            if msg.server < servers.len() && servers[msg.server].current_nick == *nick {
                return None;
            }
            let body = if msg.kind == MessageKind::Action {
                cat4("* ", nick.as_str(), " ", msg.text.as_str())
            } else {
                cat4("<", nick.as_str(), "> ", msg.text.as_str())
            };
            Some(Effect::Notify(msg.target.clone(), body))
        },
    }
}

/// Whether the log announces that server `i` is connected.
fn announced_exec(messages: &Vec<IrcMessage>, i: usize) -> (b: bool)
    ensures
        b == announced(messages_view(messages@), i as int),
{
    let word = chars_of("Connected");
    let mut k: usize = 0;
    while k < messages.len()
        invariant
            k <= messages@.len(),
            word@ == "Connected"@,
            forall|j: int|
                0 <= j < k ==> !announces_connected(#[trigger] messages_view(messages@)[j], i as int),
        decreases messages.len() - k,
    {
        let m = &messages[k];
        if m.server == i && m.kind == MessageKind::Server {
            let t = chars_of(m.text.as_str());
            if has_prefix_exec(&t, &word) {
                assert(announces_connected(messages_view(messages@)[k as int], i as int));
                return true;
            }
        }
        assert(!announces_connected(messages_view(messages@)[k as int], i as int));
        k = k + 1;
    }
    false
}

/// Marks the connecting servers whose connection the log announces as
/// connected; whether any was.
fn mark_connected(servers: &mut Vec<ServerState>, messages: &Vec<IrcMessage>) -> (changed: bool)
    ensures
        server_views(final(servers)@) == after_announce(
            server_views(old(servers)@),
            messages_view(messages@),
        ),
        changed == any_promoted(server_views(old(servers)@), messages_view(messages@)),
{
    let ghost sv0 = server_views(servers@);
    let ghost log = messages_view(messages@);
    let mut changed = false;
    let mut i: usize = 0;
    while i < servers.len()
        invariant
            i <= servers@.len(),
            sv0.len() == servers@.len(),
            log == messages_view(messages@),
            forall|j: int|
                0 <= j < i ==> #[trigger] server_views(servers@)[j] == after_announce(sv0, log)[j],
            forall|j: int| i <= j < sv0.len() ==> #[trigger] server_views(servers@)[j] == sv0[j],
            changed == exists|j: int| 0 <= j < i && promoted(#[trigger] sv0[j], log, j),
        decreases servers.len() - i,
    {
        let connecting = match servers[i].connection {
            ConnectionState::Connecting => true,
            _ => false,
        };
        assert(server_views(servers@)[i as int] == servers@[i as int]@);
        assert(sv0[i as int] == servers@[i as int]@);
        if connecting && announced_exec(messages, i) {
            set_connection(servers, i, ConnectionState::Connected);
            changed = true;
            assert(promoted(sv0[i as int], log, i as int));
        } else {
            assert(!promoted(sv0[i as int], log, i as int));
        }
        assert(server_views(servers@)[i as int] == after_announce(sv0, log)[i as int]);
        i = i + 1;
    }
    assert(server_views(servers@) =~= after_announce(sv0, log));
    changed
}

// ───────────────────────────── the model's operations ─────────────────────────────

impl ChatModel {
    /// A fresh window for a configuration: one disconnected server per
    /// configured server, nothing selected, the About page in the drawer.
    pub fn new(config: Config) -> (m: ChatModel)
        ensures
            m.wf(),
            m@ == initial_model(config@),
    {
        let mut servers: Vec<ServerState> = Vec::new();
        let n = config.servers.len();
        let mut i: usize = 0;
        while i < n
            invariant
                i <= n,
                n == config@.len(),
                server_views(servers@) == initial_servers(config@).take(i as int),
            decreases n - i,
        {
            let sc = &config.servers[i];
            let s = ServerState {
                idx: i,
                name: sc.name.clone(),
                connection: ConnectionState::Disconnected,
                channels: copy_strings(&sc.channels),
                current_nick: sc.nick.clone(),
            };
            let ghost before = server_views(servers@);
            servers.push(s);
            assert(server_views(servers@) =~= before.push(s@));
            assert(server_views(servers@) =~= initial_servers(config@).take(i + 1));
            i = i + 1;
        }
        assert(initial_servers(config@).take(n as int) =~= initial_servers(config@));
        let m = ChatModel {
            config,
            servers,
            links: Vec::new(),
            messages: Vec::new(),
            selected: None,
            input: String::new(),
            context_page: ContextPage::About,
            show_context: false,
            dialog_server: ServerConfig::default(),
            dialog_channels_str: String::new(),
            dialog_profile: "default".to_owned(),
            dialog_show: false,
            last_notified: 0,
            channel_users: Vec::new(),
            channel_topics: Vec::new(),
        };
        assert(m@.log =~= Seq::<MessageView>::empty());
        assert(m@.links =~= Set::<usize>::empty());
        assert(m@.users =~= Map::empty());
        assert(m@.topics =~= Map::empty());
        assert(m@ =~= initial_model(m.config@));
        m
    }

    /// Takes in one line that a connection reported.
    pub fn receive(&mut self, msg: IrcMessage)
        requires
            old(self).wf(),
        ensures
            final(self).wf(),
            final(self)@ == receive_spec(old(self)@, msg@),
    {
        let ghost m0 = self@;
        match msg.kind {
            MessageKind::Join => {
                match &msg.sender {
                    Some(s) => add_user(&mut self.channel_users, msg.server, &msg.target, s),
                    None => {},
                }
                track_channel(&mut self.servers, msg.server, &msg.target);
            },
            MessageKind::Part | MessageKind::Quit => {
                match &msg.sender {
                    Some(s) => remove_user(&mut self.channel_users, msg.server, &msg.target, s),
                    None => {},
                }
            },
            MessageKind::Topic => {
                let topic = topic_text_exec(&msg.sender, &msg.text);
                set_topic(&mut self.channel_topics, msg.server, &msg.target, &topic);
            },
            _ => {},
        }
        let ghost mv = msg@;
        self.messages.push(msg);
        proof {
            assert(self@.log =~= m0.log.push(mv));
            assert(self@.servers =~= servers_after(m0.servers, mv));
            assert(self@.users =~= users_after(m0.users, mv));
            assert(self@.topics =~= topics_after(m0.topics, mv));
            assert(self@ =~= receive_spec(m0, mv));
            crate::laws::law_user_lists_stay_sorted(m0, mv);
            assert forall|i: int| 0 <= i < self@.servers.len() implies #[trigger] self@.servers[i].idx
                == i by {
                assert(m0.servers[i].idx == i);
            }
        }
    }

    /// The periodic tick, after the lines that arrived were taken in.
    fn tick(&mut self) -> (effects: Vec<Effect>)
        requires
            old(self).wf(),
        ensures
            final(self).wf(),
            (final(self)@, effects_view(effects@)) == tick_spec(old(self)@),
    {
        let ghost m0 = self@;
        let mut effects: Vec<Effect> = Vec::new();
        let start = self.last_notified;
        let mut k = start;
        while k < self.messages.len()
            invariant
                self@ == m0,
                start == m0.last_notified,
                start <= k <= self.messages@.len(),
                effects_view(effects@) == notes_for(
                    m0.log.subrange(start as int, k as int),
                    m0.servers,
                ),
            decreases self.messages.len() - k,
        {
            let n = note_exec(&self.messages[k], &self.servers);
            let ghost before = effects_view(effects@);
            proof {
                let t = m0.log.subrange(start as int, k + 1);
                assert(t.drop_last() =~= m0.log.subrange(start as int, k as int));
                assert(t.last() == m0.log[k as int]);
            }
            match n {
                Some(e) => {
                    effects.push(e);
                    assert(effects_view(effects@) =~= before + seq![e@]);
                },
                None => {
                    assert(before + Seq::<EffectView>::empty() =~= before);
                },
            }
            k = k + 1;
        }
        self.last_notified = self.messages.len();
        let ghost notes = effects_view(effects@);
        let ghost sv0 = m0.servers;
        let changed = mark_connected(&mut self.servers, &self.messages);
        if changed {
            effects.push(Effect::RebuildNav);
            assert(effects_view(effects@) =~= notes + seq![EffectView::RebuildNav]);
        } else {
            assert(effects_view(effects@) =~= notes + Seq::<EffectView>::empty());
        }
        proof {
            assert(m0.log.subrange(start as int, m0.log.len() as int) =~= m0.log.subrange(
                m0.last_notified as int,
                m0.log.len() as int,
            ));
            assert(server_views(self.servers@) =~= after_announce(sv0, m0.log));
            assert(self@ =~= tick_spec(m0).0);
            assert forall|j: int| 0 <= j < self@.servers.len() implies #[trigger] self@.servers[j].idx
                == j by {
                assert(sv0[j].idx == j);
            }
        }
        effects
    }

    /// Carries out a slash command typed on server `server_idx` while
    /// `current_channel` is selected; gives the channel to select afterwards
    /// and what the caller must do.
    pub fn handle_slash_command(
        &mut self,
        server_idx: usize,
        text: &str,
        current_channel: Option<String>,
        time: String,
    ) -> (r: (Option<NavItem>, Vec<Effect>))
        requires
            old(self).wf(),
            text@.len() > 0,
            (text@[0] as int) < 0x80,
        ensures
            final(self).wf(),
            (final(self)@, effects_view(r.1@), opt_nav_view(r.0)) == slash_spec(
                old(self)@,
                server_idx,
                text@,
                opt_view(current_channel),
                time@,
            ),
    {
        let ghost m0 = self@;
        let cs = chars_of(text);
        let body = crate::text::slice_chars(&cs, 1, cs.len());
        assert(body@ =~= text@.drop_first());
        let (p0, rest) = split_once_exec(&body, ' ');
        let (a1, a2) = match rest {
            Some(r) => {
                let (p1, p2) = split_once_exec(&r, ' ');
                let tail = match p2 {
                    Some(x) => x,
                    None => Vec::new(),
                };
                (p1, tail)
            },
            None => (Vec::new(), Vec::new()),
        };
        let ghost args = slash_args(text@);
        assert(p0@ == args.0);
        assert(a1@ == args.1);
        assert(a2@ == args.2);
        let cmd = lowercase(string_of(&p0).as_str());
        let linked = links_contain(&self.links, server_idx);
        let arg1 = string_of(&a1);
        let arg2 = string_of(&a2);
        let plan = slash_plan(
            server_idx,
            cmd.as_str(),
            arg1.as_str(),
            arg2.as_str(),
            &current_channel,
            linked,
        );
        let ghost pv = plan@;
        let SlashPlan { send, echo, disconnect, nick, keeps } = plan;
        let mut effects: Vec<Effect> = Vec::new();
        match send {
            Some(c) => {
                effects.push(Effect::Send(server_idx, c));
            },
            None => {},
        }
        let ghost sends = effects_view(effects@);
        if disconnect {
            effects.push(Effect::DropLink(server_idx));
            links_remove(&mut self.links, server_idx);
            if server_idx < self.servers.len() {
                set_connection(&mut self.servers, server_idx, ConnectionState::Disconnected);
            }
        }
        match nick {
            Some(n) => {
                if server_idx < self.servers.len() {
                    set_nick(&mut self.servers, server_idx, n);
                }
            },
            None => {},
        }
        match echo {
            Some(t) => {
                let line = server_msg(server_idx, t.as_str(), time);
                self.messages.push(line);
            },
            None => {},
        }
        let selection = if keeps {
            match current_channel {
                Some(c) => Some(NavItem::Channel(server_idx, c)),
                None => None,
            }
        } else {
            None
        };
        proof {
            let expected = apply_plan(
                m0,
                server_idx,
                pv,
                opt_view(current_channel),
                time@,
            );
            if disconnect {
                assert(effects_view(effects@) =~= sends + seq![EffectView::DropLink(server_idx)]);
            } else {
                assert(effects_view(effects@) =~= sends + Seq::<EffectView>::empty());
            }
            if pv.send is Some {
                assert(sends =~= seq![EffectView::Send(server_idx, pv.send->0)]);
            } else {
                assert(sends =~= Seq::<EffectView>::empty());
            }
            assert(effects_view(effects@) =~= expected.1);
            assert(self@.links =~= expected.0.links);
            assert(self@.log =~= expected.0.log);
            assert(self@.servers =~= expected.0.servers);
            assert(self@ =~= expected.0);
            assert forall|j: int| 0 <= j < self@.servers.len() implies #[trigger] self@.servers[j].idx
                == j by {
                assert(m0.servers[j].idx == j);
            }
        }
        (selection, effects)
    }

    /// Sends what was typed (the `SendMessage` message).
    pub fn send_message(&mut self, time: String) -> (effects: Vec<Effect>)
        requires
            old(self).wf(),
        ensures
            final(self).wf(),
            (final(self)@, effects_view(effects@)) == send_spec(old(self)@, time@),
    {
        let ghost m0 = self@;
        let text = trimmed(self.input.as_str());
        if text.as_str().is_empty() {
            let none: Vec<Effect> = Vec::new();
            assert(effects_view(none@) =~= Seq::<EffectView>::empty());
            return none;
        }
        self.input = String::new();
        let server_idx = match &self.selected {
            Some(NavItem::Server(i)) => *i,
            Some(NavItem::Channel(i, _)) => *i,
            None => {
                assert(self@ =~= ModelView { input: seq![], ..m0 });
                let none: Vec<Effect> = Vec::new();
                assert(effects_view(none@) =~= Seq::<EffectView>::empty());
                return none;
            },
        };
        let tv = chars_of(text.as_str());
        let slash = vec!['/'];
        assert(slash@ =~= seq!['/']);
        if has_prefix_exec(&tv, &slash) {
            assert(text@[0] == '/');
            let current = match &self.selected {
                Some(NavItem::Channel(_, c)) => Some(c.clone()),
                _ => None,
            };
            let (selection, effects) = self.handle_slash_command(
                server_idx,
                text.as_str(),
                current,
                time,
            );
            match selection {
                Some(ns) => {
                    self.selected = Some(ns);
                },
                None => {},
            }
            effects
        } else {
            let mut effects: Vec<Effect> = Vec::new();
            match &self.selected {
                Some(NavItem::Channel(_, ch)) => {
                    if links_contain(&self.links, server_idx) {
                        effects.push(
                            Effect::Send(server_idx, IrcCommand::SendMsg(server_idx, ch.clone(), text)),
                        );
                    }
                },
                _ => {},
            }
            proof {
                assert(self@ =~= ModelView { input: seq![], ..m0 });
                assert(effects_view(effects@) =~= send_spec(m0, time@).1);
            }
            effects
        }
    }

    /// Reacts to one message of the interface; gives what the caller must
    /// then do. `time` stamps the lines echoed locally. The lines that the
    /// connections reported are taken in with `receive` before a `Tick`.
    pub fn update(&mut self, message: Message, time: String) -> (effects: Vec<Effect>)
        requires
            old(self).wf(),
        ensures
            final(self).wf(),
            (final(self)@, effects_view(effects@)) == update_spec(old(self)@, message@, time@),
    {
        let ghost m0 = self@;
        let ghost ev = message@;
        let none: Vec<Effect> = Vec::new();
        assert(effects_view(none@) =~= Seq::<EffectView>::empty());
        match message {
            Message::NavSelect(_) => none,
            Message::InputChanged(t) => {
                self.input = t;
                assert(self@ =~= update_spec(m0, ev, time@).0);
                none
            },
            Message::SendMessage => self.send_message(time),
            Message::ToggleContextPage(page) => {
                if self.show_context && self.context_page == page {
                    self.show_context = false;
                } else {
                    self.context_page = page;
                    self.show_context = true;
                }
                assert(self@ =~= update_spec(m0, ev, time@).0);
                none
            },
            Message::Connect(idx) => {
                if idx < self.config.servers.len() {
                    let cfg = build_connection_config(&self.config.servers[idx]);
                    let nick = self.config.servers[idx].nick.clone();
                    let ghost sc = m0.config[idx as int];
                    assert(self.config.servers@[idx as int]@ == sc);
                    if idx < self.servers.len() {
                        set_connection(&mut self.servers, idx, ConnectionState::Connecting);
                        set_nick(&mut self.servers, idx, nick);
                    }
                    links_insert(&mut self.links, idx);
                    let effects = vec![Effect::RebuildNav, Effect::Open(idx, cfg)];
                    proof {
                        let expected = update_spec(m0, ev, time@);
                        assert(effects_view(effects@) =~= expected.1);
                        assert(self@.links =~= expected.0.links);
                        assert(self@.servers =~= expected.0.servers);
                        assert(self@ =~= expected.0);
                        assert forall|j: int| 0 <= j < self@.servers.len() implies #[trigger] self@.servers[j].idx
                            == j by {
                            assert(m0.servers[j].idx == j);
                        }
                    }
                    effects
                } else {
                    none
                }
            },
            Message::Disconnect(idx) => {
                let mut effects: Vec<Effect> = Vec::new();
                if links_contain(&self.links, idx) {
                    effects.push(Effect::Send(idx, IrcCommand::Disconnect));
                }
                links_remove(&mut self.links, idx);
                if idx < self.servers.len() {
                    set_connection(&mut self.servers, idx, ConnectionState::Disconnected);
                }
                effects.push(Effect::DropLink(idx));
                effects.push(Effect::RebuildNav);
                proof {
                    let expected = update_spec(m0, ev, time@);
                    assert(effects_view(effects@) =~= expected.1);
                    assert(self@.links =~= expected.0.links);
                    assert(self@.servers =~= expected.0.servers);
                    assert(self@ =~= expected.0);
                    assert forall|j: int| 0 <= j < self@.servers.len() implies #[trigger] self@.servers[j].idx
                        == j by {
                        assert(m0.servers[j].idx == j);
                    }
                }
                effects
            },
            Message::Tick => self.tick(),
            Message::AddServerDialog => {
                self.dialog_show = true;
                self.dialog_server = ServerConfig::default();
                self.dialog_channels_str = "#cosmic-chat".to_owned();
                self.dialog_profile = "default".to_owned();
                assert(self@ =~= update_spec(m0, ev, time@).0);
                none
            },
            Message::AddServer(cfg) => {
                self.dialog_show = false;
                let idx = self.config.servers.len();
                let state = ServerState {
                    idx,
                    name: cfg.name.clone(),
                    connection: ConnectionState::Disconnected,
                    channels: copy_strings(&cfg.channels),
                    current_nick: cfg.nick.clone(),
                };
                let ghost cv = cfg@;
                self.config.servers.push(cfg);
                self.servers.push(state);
                let effects = vec![Effect::SaveConfig, Effect::RebuildNav];
                proof {
                    let expected = update_spec(m0, ev, time@);
                    assert(effects_view(effects@) =~= expected.1);
                    assert(self@.config =~= expected.0.config);
                    assert(self@.servers =~= expected.0.servers);
                    assert(self@ =~= expected.0);
                    assert forall|j: int| 0 <= j < self@.servers.len() implies #[trigger] self@.servers[j].idx
                        == j by {
                        if j < m0.servers.len() {
                            assert(m0.servers[j].idx == j);
                        }
                    }
                }
                effects
            },
            Message::Noop => none,
        }
    }
}

} // verus!
