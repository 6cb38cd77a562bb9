use cosmic_chat::irc_client::{IrcCommand, IrcMessage, MessageKind};
use cosmic_chat::pipe::{pipe_line_of, pipe_step, PipeAction, PipeSession};

fn printed(actions: &[PipeAction]) -> Vec<String> {
    actions
        .iter()
        .filter_map(|a| match a {
            PipeAction::Print(t) => Some(t.clone()),
            _ => None,
        })
        .collect()
}

#[test]
fn blank_help_and_quit() {
    let mut s = PipeSession::new();
    assert!(pipe_step(&mut s, "   ").is_empty());
    let help = pipe_step(&mut s, "/help");
    assert_eq!(
        printed(&help),
        vec!["Commands: /connect host port nick, /join #chan, /msg #chan text, /quit"]
    );
    let quit = pipe_step(&mut s, " /quit ");
    assert_eq!(quit.len(), 2);
    assert!(matches!(&quit[0], PipeAction::Print(t) if t == "Goodbye."));
    assert!(matches!(quit[1], PipeAction::Stop));
    assert!(matches!(pipe_step(&mut PipeSession::new(), "/exit").last(), Some(PipeAction::Stop)));
}

#[test]
fn commands_need_a_connection() {
    let mut s = PipeSession::new();
    for l in ["/join #c", "/msg #c hi", "hello"] {
        assert_eq!(printed(&pipe_step(&mut s, l)), vec!["Not connected. Use /connect host port nick"]);
    }
    assert!(!s.connected);
}

#[test]
fn connect_join_and_talk() {
    let mut s = PipeSession::new();
    let a = pipe_step(&mut s, "/connect irc.libera.chat 6697 nick");
    assert_eq!(a.len(), 2);
    match &a[0] {
        PipeAction::Connect(cfg) => {
            assert_eq!(cfg.host, "irc.libera.chat");
            assert_eq!(cfg.port, 6697);
            assert!(cfg.tls);
            assert_eq!(cfg.nick, "nick");
            assert!(cfg.channels.is_empty());
        }
        other => panic!("unexpected {other:?}"),
    }
    assert_eq!(printed(&a), vec!["Connecting to irc.libera.chat…"]);
    assert!(s.connected);

    let a = pipe_step(&mut s, "hello");
    assert_eq!(printed(&a), vec!["Join a channel first: /join #chan"]);

    let a = pipe_step(&mut s, "/join #c");
    assert!(matches!(&a[..], [PipeAction::Send(IrcCommand::Join(0, c))] if c == "#c"));
    assert_eq!(s.channel.as_deref(), Some("#c"));

    let a = pipe_step(&mut s, "  hello there ");
    assert!(matches!(&a[..], [PipeAction::Send(IrcCommand::SendMsg(0, c, t))] if c == "#c" && t == "hello there"));

    let a = pipe_step(&mut s, "/msg bob how are you");
    assert!(matches!(&a[..], [PipeAction::Send(IrcCommand::SendMsg(0, c, t))] if c == "bob" && t == "how are you"));

    // a second /connect closes the first connection
    let a = pipe_step(&mut s, "/connect other.net 6667 me");
    assert!(matches!(a[0], PipeAction::Send(IrcCommand::Disconnect)));
    assert!(matches!(&a[1], PipeAction::Connect(cfg) if cfg.port == 6667 && !cfg.tls));
    assert_eq!(s.channel, None);

    let a = pipe_step(&mut s, "/quit");
    assert!(matches!(a[0], PipeAction::Send(IrcCommand::Disconnect)));
    assert!(matches!(a.last(), Some(PipeAction::Stop)));
    assert!(!s.connected);
}

#[test]
fn bad_arguments() {
    let mut s = PipeSession::new();
    for l in ["/connect", "/connect host", "/connect host 70000 me", "/connect host 66a me", "/connect host 123456 me", "/connect host 6697"] {
        assert_eq!(printed(&pipe_step(&mut s, l)), vec!["Usage: /connect host port nick"], "{l}");
    }
    assert!(!s.connected);
    pipe_step(&mut s, "/connect host 00042 me");
    assert!(s.connected);
    assert_eq!(printed(&pipe_step(&mut s, "/join")), vec!["Usage: /join #chan"]);
    assert_eq!(printed(&pipe_step(&mut s, "/msg bob")), vec!["Usage: /msg #chan text"]);
    assert_eq!(printed(&pipe_step(&mut s, "/nick x")), vec!["Unknown command: /nick"]);
}

#[test]
fn incoming_lines_printed() {
    let m = IrcMessage {
        server: 0,
        target: "#c".into(),
        sender: Some("amy".into()),
        text: "hi".into(),
        kind: MessageKind::Chat,
        time: "12:00:01".into(),
    };
    assert_eq!(pipe_line_of(&m), "[12:00:01] #c <amy> hi");
    let m = IrcMessage { target: String::new(), sender: None, text: "Connected as me".into(), kind: MessageKind::Server, ..m };
    assert_eq!(pipe_line_of(&m), "[12:00:01] Connected as me");
}
