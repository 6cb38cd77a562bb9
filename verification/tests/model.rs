use cosmic_chat::chat::{
    slash_plan, ChatModel, ContextPage, Effect, Message, NavItem,
};
use cosmic_chat::config::{Config, ServerConfig};
use cosmic_chat::irc_client::{
    parse_message, ConnectionState, IncomingCommand, IncomingMessage, IrcCommand, IrcMessage, MessageKind,
};

fn server(name: &str, nick: &str, channels: &[&str]) -> ServerConfig {
    ServerConfig {
        name: name.to_string(),
        host: format!("irc.{name}.org"),
        port: 6697,
        nick: nick.to_string(),
        user: None,
        realname: None,
        password: None,
        use_tls: true,
        channels: channels.iter().map(|c| c.to_string()).collect(),
    }
}

fn model() -> ChatModel {
    ChatModel::new(Config { servers: vec![server("net", "me", &["#b", "#a"])] })
}

fn line(server: usize, target: &str, sender: Option<&str>, text: &str, kind: MessageKind) -> IrcMessage {
    IrcMessage {
        server,
        target: target.to_string(),
        sender: sender.map(|s| s.to_string()),
        text: text.to_string(),
        kind,
        time: "10:00:00".to_string(),
    }
}

fn t() -> String {
    "09:08:07".to_string()
}

fn connect(m: &mut ChatModel) {
    let fx = m.update(Message::Connect(0), t());
    assert_eq!(fx.len(), 2);
    assert!(matches!(fx[0], Effect::RebuildNav));
    match &fx[1] {
        Effect::Open(0, cfg) => {
            assert_eq!(cfg.host, "irc.net.org");
            assert_eq!(cfg.nick, "me");
            assert!(cfg.tls);
            assert_eq!(cfg.channels, vec!["#b", "#a"]);
        }
        other => panic!("unexpected {other:?}"),
    }
}

fn type_line(m: &mut ChatModel, s: &str) -> Vec<Effect> {
    m.update(Message::InputChanged(s.to_string()), t());
    m.update(Message::SendMessage, t())
}

#[test]
fn new_model_mirrors_config() {
    let m = model();
    assert_eq!(m.servers.len(), 1);
    assert_eq!(m.servers[0].idx, 0);
    assert_eq!(m.servers[0].name, "net");
    assert_eq!(m.servers[0].current_nick, "me");
    assert_eq!(m.servers[0].channels, vec!["#b", "#a"]);
    assert!(matches!(m.servers[0].connection, ConnectionState::Disconnected));
    assert_eq!(m.context_page, ContextPage::About);
    assert!(!m.show_context);
    assert_eq!(m.dialog_profile, "default");
    assert!(m.selected.is_none());
}

#[test]
fn connect_then_connected_announcement() {
    let mut m = model();
    connect(&mut m);
    assert!(matches!(m.servers[0].connection, ConnectionState::Connecting));
    assert_eq!(m.links, vec![0]);
    m.receive(line(0, "", None, "Connected as me", MessageKind::Server));
    let fx = m.update(Message::Tick, t());
    assert!(matches!(m.servers[0].connection, ConnectionState::Connected));
    assert_eq!(fx.len(), 1);
    assert!(matches!(fx[0], Effect::RebuildNav));
    // a second tick settles
    let fx2 = m.update(Message::Tick, t());
    assert!(fx2.is_empty());
}

#[test]
fn connect_unknown_server_does_nothing() {
    let mut m = model();
    let fx = m.update(Message::Connect(5), t());
    assert!(fx.is_empty());
    assert!(m.links.is_empty());
}

#[test]
fn disconnect_drops_link() {
    let mut m = model();
    connect(&mut m);
    let fx = m.update(Message::Disconnect(0), t());
    assert_eq!(fx.len(), 3);
    assert!(matches!(fx[0], Effect::Send(0, IrcCommand::Disconnect)));
    assert!(matches!(fx[1], Effect::DropLink(0)));
    assert!(matches!(fx[2], Effect::RebuildNav));
    assert!(m.links.is_empty());
    assert!(matches!(m.servers[0].connection, ConnectionState::Disconnected));
    // without a link there is nothing to tell the server
    let fx = m.update(Message::Disconnect(0), t());
    assert_eq!(fx.len(), 2);
    assert!(matches!(fx[0], Effect::DropLink(0)));
}

#[test]
fn join_tracks_users_and_sorted_channels() {
    let mut m = model();
    m.receive(line(0, "#c", Some("zed"), "zed joined", MessageKind::Join));
    assert_eq!(m.servers[0].channels, vec!["#a", "#b", "#c"]);
    assert_eq!(m.users_in(0, &"#c".to_string()), vec!["zed"]);
    // joining a listed channel leaves the list as it is
    m.receive(line(0, "#b", Some("amy"), "amy joined", MessageKind::Join));
    assert_eq!(m.servers[0].channels, vec!["#a", "#b", "#c"]);
    assert_eq!(m.messages.len(), 2);
}

#[test]
fn user_lists_stay_sorted() {
    let mut m = model();
    m.receive(line(0, "#c", Some("zed"), "zed joined", MessageKind::Join));
    m.receive(line(0, "#c", Some("amy"), "amy joined", MessageKind::Join));
    m.receive(line(0, "#c", Some("Bob"), "Bob joined", MessageKind::Join));
    m.receive(line(0, "#c", Some("mia"), "mia joined", MessageKind::Join));
    assert_eq!(m.users_in(0, &"#c".to_string()), vec!["Bob", "amy", "mia", "zed"]);
    m.receive(line(0, "#c", Some("amy"), "amy left ()", MessageKind::Part));
    assert_eq!(m.users_in(0, &"#c".to_string()), vec!["Bob", "mia", "zed"]);
}

#[test]
fn part_after_join_unlists() {
    let mut m = model();
    m.receive(line(0, "#a", Some("x"), "x joined", MessageKind::Join));
    m.receive(line(0, "#a", Some("y"), "y joined", MessageKind::Join));
    m.receive(line(0, "#a", Some("x"), "x left ()", MessageKind::Part));
    assert_eq!(m.users_in(0, &"#a".to_string()), vec!["y"]);
    assert!(m.users_in(0, &"#zz".to_string()).is_empty());
}

#[test]
fn topic_read_back() {
    let mut m = model();
    assert_eq!(m.topic_of(0, &"#a".to_string()), "");
    m.receive(line(0, "#a", Some("alice"), "alice set topic: news", MessageKind::Topic));
    assert_eq!(m.topic_of(0, &"#a".to_string()), "news");
    m.receive(line(0, "#a", None, "Topic: second", MessageKind::Topic));
    assert_eq!(m.topic_of(0, &"#a".to_string()), "second");
    // a line of another form is kept whole
    m.receive(line(0, "#a", Some("x"), "plain", MessageKind::Topic));
    assert_eq!(m.topic_of(0, &"#a".to_string()), "plain");
}

#[test]
fn parsed_topic_line_sets_the_topic() {
    let mut m = model();
    let incoming = IncomingMessage {
        source_nick: Some("alice".to_string()),
        command: IncomingCommand::Topic("#a".to_string(), Some("news of the day".to_string())),
    };
    let l = parse_message(0, &incoming, t()).unwrap();
    assert_eq!(l.text, "alice set topic: news of the day");
    m.receive(l);
    assert_eq!(m.topic_of(0, &"#a".to_string()), "news of the day");
}

#[test]
fn notifications_skip_own_lines() {
    let mut m = model();
    m.receive(line(0, "#a", Some("you"), "hi", MessageKind::Chat));
    m.receive(line(0, "#a", Some("me"), "mine", MessageKind::Chat));
    m.receive(line(0, "#a", Some("you"), "dances", MessageKind::Action));
    m.receive(line(0, "#a", None, "server says", MessageKind::Notice));
    let fx = m.update(Message::Tick, t());
    assert_eq!(fx.len(), 2);
    match (&fx[0], &fx[1]) {
        (Effect::Notify(c1, b1), Effect::Notify(c2, b2)) => {
            assert_eq!(c1, "#a");
            assert_eq!(b1, "<you> hi");
            assert_eq!(c2, "#a");
            assert_eq!(b2, "* you dances");
        }
        _ => panic!("expected notifications"),
    }
    assert_eq!(m.last_notified, 4);
    assert!(m.update(Message::Tick, t()).is_empty());
}

#[test]
fn toggle_drawer_twice() {
    let mut m = model();
    m.update(Message::ToggleContextPage(ContextPage::ServerInfo(0)), t());
    assert!(m.show_context);
    assert_eq!(m.context_page, ContextPage::ServerInfo(0));
    m.update(Message::ToggleContextPage(ContextPage::ServerInfo(0)), t());
    assert!(!m.show_context);
    // another page while shown switches pages
    m.update(Message::ToggleContextPage(ContextPage::About), t());
    m.update(Message::ToggleContextPage(ContextPage::ServerInfo(0)), t());
    assert!(m.show_context);
    assert_eq!(m.context_page, ContextPage::ServerInfo(0));
}

#[test]
fn add_server_dialog_and_add() {
    let mut m = model();
    m.update(Message::AddServerDialog, t());
    assert!(m.dialog_show);
    assert_eq!(m.dialog_channels_str, "#cosmic-chat");
    assert_eq!(m.dialog_server.name, "");
    assert_eq!(m.dialog_server.port, 0);
    let fx = m.update(Message::AddServer(server("other", "you", &["#x"])), t());
    assert!(!m.dialog_show);
    assert!(matches!(fx[0], Effect::SaveConfig));
    assert!(matches!(fx[1], Effect::RebuildNav));
    assert_eq!(m.servers.len(), 2);
    assert_eq!(m.config.servers.len(), 2);
    assert_eq!(m.servers[1].idx, 1);
    assert_eq!(m.servers[1].current_nick, "you");
    assert_eq!(m.servers[1].channels, vec!["#x"]);
}

#[test]
fn blank_input_is_kept() {
    let mut m = model();
    let fx = type_line(&mut m, "   ");
    assert!(fx.is_empty());
    assert_eq!(m.input, "   ");
}

#[test]
fn plain_text_goes_to_selected_channel() {
    let mut m = model();
    connect(&mut m);
    m.selected = Some(NavItem::Channel(0, "#a".to_string()));
    let fx = type_line(&mut m, "  hi all  ");
    assert_eq!(m.input, "");
    assert_eq!(fx.len(), 1);
    match &fx[0] {
        Effect::Send(0, IrcCommand::SendMsg(0, ch, text)) => {
            assert_eq!(ch, "#a");
            assert_eq!(text, "hi all");
        }
        other => panic!("unexpected {other:?}"),
    }
}

#[test]
fn text_without_link_or_selection_is_not_sent() {
    let mut m = model();
    m.selected = Some(NavItem::Channel(0, "#a".to_string()));
    assert!(type_line(&mut m, "hello").is_empty());
    assert_eq!(m.input, "");
    let mut m2 = model();
    connect(&mut m2);
    assert!(type_line(&mut m2, "hello").is_empty());
    m2.selected = Some(NavItem::Server(0));
    assert!(type_line(&mut m2, "hello").is_empty());
}

#[test]
fn slash_join_and_unknown() {
    let mut m = model();
    connect(&mut m);
    m.selected = Some(NavItem::Channel(0, "#a".to_string()));
    let fx = type_line(&mut m, "/JOIN #rust");
    match &fx[0] {
        Effect::Send(0, IrcCommand::Join(0, ch)) => assert_eq!(ch, "#rust"),
        other => panic!("unexpected {other:?}"),
    }
    assert_eq!(m.messages.last().unwrap().text, "Joining #rust…");
    assert_eq!(m.messages.last().unwrap().time, "09:08:07");
    assert_eq!(m.messages.last().unwrap().kind, MessageKind::Server);
    let fx = type_line(&mut m, "/frobnicate x");
    assert!(fx.is_empty());
    assert_eq!(m.messages.last().unwrap().text, "Unknown command: /frobnicate");
    match &m.selected {
        Some(NavItem::Channel(0, c)) => assert_eq!(c, "#a"),
        _ => panic!("selection lost"),
    }
}

#[test]
fn slash_quit_disconnects() {
    let mut m = model();
    connect(&mut m);
    m.selected = Some(NavItem::Server(0));
    let fx = type_line(&mut m, "/quit");
    assert!(matches!(fx[0], Effect::Send(0, IrcCommand::Disconnect)));
    assert!(matches!(fx[1], Effect::DropLink(0)));
    assert!(m.links.is_empty());
    assert!(matches!(m.servers[0].connection, ConnectionState::Disconnected));
    assert_eq!(m.messages.last().unwrap().text, "Disconnected");
}

#[test]
fn slash_nick_changes_current_nick() {
    let mut m = model();
    m.selected = Some(NavItem::Server(0));
    let fx = type_line(&mut m, "/nick newme");
    assert!(fx.is_empty()); // no connection: nothing is sent
    assert_eq!(m.servers[0].current_nick, "newme");
    assert_eq!(m.messages.last().unwrap().text, "Changing nick to newme…");
}

fn plan_of(cmd: &str, a1: &str, a2: &str, cur: Option<&str>, linked: bool) -> cosmic_chat::chat::SlashPlan {
    slash_plan(2, cmd, a1, a2, &cur.map(|s| s.to_string()), linked)
}

fn raw(p: &cosmic_chat::chat::SlashPlan) -> String {
    match &p.send {
        Some(IrcCommand::Raw(2, r)) => r.clone(),
        other => panic!("unexpected {other:?}"),
    }
}

#[test]
fn slash_plans() {
    let p = plan_of("join", "", "", None, true);
    assert_eq!(p.echo.as_deref(), Some("Usage: /join #channel"));
    assert!(!p.keeps && p.send.is_none());

    let p = plan_of("part", "", "", Some("#cur"), true);
    assert!(matches!(&p.send, Some(IrcCommand::Part(2, c)) if c == "#cur"));
    assert_eq!(p.echo.as_deref(), Some("Leaving #cur"));
    assert!(!p.keeps);
    let p = plan_of("leave", "x", "", None, true);
    assert_eq!(p.echo.as_deref(), Some("Usage: /part [#channel] [reason]"));

    let p = plan_of("me", "waves", "hello", Some("#cur"), true);
    assert!(matches!(&p.send, Some(IrcCommand::SendAction(2, c, t)) if c == "#cur" && t == "waves hello"));
    assert!(p.echo.is_none() && p.keeps);
    let p = plan_of("me", "waves", "", None, true);
    assert_eq!(p.echo.as_deref(), Some("Select a channel first for /me"));
    let p = plan_of("me", "", "", Some("#cur"), true);
    assert_eq!(p.echo.as_deref(), Some("Usage: /me <action>"));

    let p = plan_of("msg", "bob", "hi there", None, false);
    assert!(p.send.is_none());
    assert_eq!(p.echo.as_deref(), Some("-> *bob* hi there"));
    let p = plan_of("query", "bob", "", None, true);
    assert_eq!(p.echo.as_deref(), Some("Usage: /msg <nick> <message>"));

    let p = plan_of("topic", "#x", "new topic", None, true);
    assert_eq!(raw(&p), "TOPIC #x :new topic");
    assert!(!p.keeps);
    let p = plan_of("topic", "", "", Some("#cur"), true);
    assert_eq!(raw(&p), "TOPIC #cur");
    let p = plan_of("topic", "hello", "world", Some("#cur"), true);
    assert_eq!(raw(&p), "TOPIC #cur :hello world");
    let p = plan_of("topic", "", "", None, true);
    assert_eq!(p.echo.as_deref(), Some("Usage: /topic [#channel] [new topic]"));

    let p = plan_of("whois", "bob", "", None, true);
    assert_eq!(raw(&p), "WHOIS bob");
    let p = plan_of("whois", "", "", None, true);
    assert_eq!(p.echo.as_deref(), Some("Usage: /whois <nick>"));

    let p = plan_of("quote", "PING", " x ", None, true);
    assert_eq!(raw(&p), "PING  x");
    assert_eq!(p.echo.as_deref(), Some("-> PING  x"));
    let p = plan_of("raw", "", "", None, true);
    assert_eq!(p.echo.as_deref(), Some("Usage: /raw <irc command>"));
    let p = plan_of("nick", "", "", None, true);
    assert_eq!(p.echo.as_deref(), Some("Usage: /nick <newnick>"));
    let p = plan_of("disconnect", "", "", None, false);
    assert!(p.disconnect && p.send.is_none());
    assert_eq!(p.echo.as_deref(), Some("Disconnected"));
}

#[test]
fn slash_never_sends_without_link() {
    for cmd in ["join", "part", "quit", "me", "msg", "nick", "topic", "whois", "raw", "x"] {
        let p = plan_of(cmd, "#a", "b", Some("#c"), false);
        assert!(p.send.is_none(), "{cmd}");
    }
}

#[test]
fn connection_states_compare_by_value() {
    assert!(ConnectionState::Connected == ConnectionState::Connected);
    assert!(ConnectionState::Connecting != ConnectionState::Connected);
    assert!(ConnectionState::Error("refused".to_string()) == ConnectionState::Error("refused".to_string()));
    assert!(ConnectionState::Error("refused".to_string()) != ConnectionState::Error("timeout".to_string()));
    assert!(ConnectionState::Disconnected != ConnectionState::Error(String::new()));
}
