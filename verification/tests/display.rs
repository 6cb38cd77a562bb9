use cosmic_chat::chat::{ChatModel, Message, NavItem};
use cosmic_chat::config::{Config, ServerConfig};
use cosmic_chat::display::{channel_lines, nav_entries, wants_pipe};
use cosmic_chat::irc_client::{state_label_from, state_text, ConnectionState, IrcMessage, MessageKind};

fn msg(target: &str, sender: Option<&str>, text: &str, kind: MessageKind, time: &str) -> IrcMessage {
    IrcMessage {
        server: 0,
        target: target.into(),
        sender: sender.map(|s| s.into()),
        text: text.into(),
        kind,
        time: time.into(),
    }
}

fn one_server() -> ChatModel {
    ChatModel::new(Config {
        servers: vec![ServerConfig {
            name: "net".into(),
            host: "h".into(),
            port: 1,
            nick: "me".into(),
            user: None,
            realname: None,
            password: None,
            use_tls: false,
            channels: vec!["#a".into(), "#b".into()],
        }],
    })
}

#[test]
fn nav_lists_servers_then_channels() {
    let m = one_server();
    let e = nav_entries(&m.servers);
    assert_eq!(e.len(), 3);
    assert_eq!(e[0].text, "net");
    assert_eq!(e[0].icon, "network-offline-symbolic");
    assert!(matches!(e[0].item, NavItem::Server(0)));
    assert_eq!(e[1].text, "  # #a");
    assert_eq!(e[1].icon, "user-available-symbolic");
    assert!(matches!(&e[2].item, NavItem::Channel(0, c) if c == "#b"));
}

#[test]
fn header_status() {
    let mut m = one_server();
    assert_eq!(m.status(), ("network-offline-symbolic".to_string(), "Disconnected".to_string()));
    assert!(m.server_caption().is_none());
    assert!(m.connection_toggle().is_none());
    m.selected = Some(NavItem::Server(0));
    assert_eq!(m.server_caption().as_deref(), Some("  net"));
    assert!(matches!(m.connection_toggle(), Some(Message::Connect(0))));
    m.update(Message::Connect(0), "t".into());
    assert_eq!(m.status().1, "Connecting...");
    assert_eq!(m.status().0, "emblem-synchronizing-symbolic");
}

#[test]
fn channel_lines_format() {
    let ms = vec![
        msg("#a", Some("bob"), "hi", MessageKind::Chat, "12:34:56"),
        msg("#b", Some("bob"), "elsewhere", MessageKind::Chat, "12:34:57"),
        msg("#a", Some("bob"), "waves", MessageKind::Action, "12:35:00"),
        msg("#a", Some("carol"), "carol joined", MessageKind::Join, "12:36:00"),
        msg("#a", None, "news", MessageKind::Topic, "1"),
    ];
    let (lines, empty) = channel_lines(&ms, 0, &"#a".to_string(), 100, true, true);
    assert!(!empty);
    assert_eq!(lines.len(), 4);
    assert_eq!(lines[0].timestamp, "[12:34]");
    assert_eq!(lines[0].prefix, "<bob>");
    assert_eq!(lines[0].body, "hi");
    assert!(!lines[0].is_event);
    assert_eq!(lines[1].prefix, "* bob");
    assert_eq!(lines[2].body, "→ carol joined");
    assert!(lines[2].is_event);
    assert_eq!(lines[3].timestamp, "[1]");
    assert_eq!(lines[3].body, "— news");

    let (lines, _) = channel_lines(&ms, 0, &"#a".to_string(), 2, false, false);
    assert_eq!(lines.len(), 1);
    assert_eq!(lines[0].timestamp, "");
    assert_eq!(lines[0].body, "— news");

    let (lines, empty) = channel_lines(&ms, 0, &"#none".to_string(), 100, true, true);
    assert!(lines.is_empty() && empty);
    let (lines, empty) = channel_lines(&ms, 0, &"#a".to_string(), 0, true, true);
    assert!(lines.is_empty() && empty);
}

#[test]
fn multibyte_stamp_cut_on_boundary() {
    let ms = vec![msg("#a", Some("x"), "y", MessageKind::Chat, "é12:3")];
    let (lines, _) = channel_lines(&ms, 0, &"#a".to_string(), 10, true, true);
    assert_eq!(lines[0].timestamp, "[é12:]");
}

#[test]
fn pipe_flag() {
    assert!(wants_pipe(&vec!["prog".into(), "-p".into()]));
    assert!(wants_pipe(&vec!["prog".into(), "--pipe".into()]));
    assert!(!wants_pipe(&vec!["prog".into(), "--piped".into()]));
}

#[test]
fn server_info_drawer_text() {
    let mut m = one_server();
    assert_eq!(
        m.server_info_text(0).unwrap(),
        "Server: net\nHost: h:1\nNick: me\nProfile: default\nStatus: Disconnected\nChannels: #a, #b"
    );
    assert!(m.server_info_text(1).is_none());
    m.config.servers[0].port = 6697;
    m.servers[0].connection = ConnectionState::Error("refused \"now\"".into());
    m.servers[0].channels = vec![];
    assert_eq!(
        m.server_info_text(0).unwrap(),
        "Server: net\nHost: h:6697\nNick: me\nProfile: default\nStatus: Error(\"refused \\\"now\\\"\")\nChannels: "
    );
}

#[test]
fn server_page_contents() {
    let mut m = one_server();
    let p = m.server_page(0).unwrap();
    assert_eq!(p.title, "net");
    assert_eq!(p.caption, "Nick: me  |  Profile: default  |  Disconnected");
    assert_eq!(p.channels, vec!["  # #a", "  # #b"]);
    assert!(matches!(p.action, Message::Connect(0)));
    m.servers[0].connection = ConnectionState::Connected;
    let p = m.server_page(0).unwrap();
    assert_eq!(p.caption, "Nick: me  |  Profile: default  |  Connected");
    assert!(matches!(p.action, Message::Disconnect(0)));
    assert!(m.server_page(3).is_none());
}

#[test]
fn connection_state_text() {
    assert_eq!(state_text(&ConnectionState::Connecting), "Connecting");
    assert_eq!(state_text(&ConnectionState::Error("x\ty".into())), "Error(\"x\\ty\")");
    assert_eq!(state_label_from(&ConnectionState::Error("ignored".into()), "\"q\""), "Error(\"q\")");
    assert_eq!(state_label_from(&ConnectionState::Connected, "\"q\""), "Connected");
}

#[test]
fn welcome_page_text() {
    let mut m = one_server();
    assert_eq!(
        m.welcome_text(),
        "Servers configured: 1\nUser profiles: 1\n\nConnect to a server or add a new one."
    );
    m.config.servers.clear();
    assert!(m.welcome_text().starts_with("Servers configured: 0\n"));
    for _ in 0..12 {
        m.config.servers.push(ServerConfig::default());
    }
    assert!(m.welcome_text().starts_with("Servers configured: 12\n"));
}
