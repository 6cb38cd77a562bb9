use cosmic_chat::irc_client::{
    alt_nicks, clock_since_epoch, hhmmss, names_list, now_hhmmss, parse_message, server_msg, IncomingCommand,
    IncomingMessage, IrcMessage, MessageKind,
};

fn incoming(nick: Option<&str>, command: IncomingCommand) -> IncomingMessage {
    IncomingMessage { source_nick: nick.map(|s| s.to_string()), command }
}

fn parse(nick: Option<&str>, command: IncomingCommand) -> Option<IrcMessage> {
    parse_message(3, &incoming(nick, command), "12:34:56".to_string())
}

#[test]
fn privmsg_becomes_chat() {
    let m = parse(
        Some("alice"),
        IncomingCommand::Privmsg("#rust".into(), "hello there".into()),
    )
    .unwrap();
    assert_eq!(m.kind, MessageKind::Chat);
    assert_eq!(m.server, 3);
    assert_eq!(m.target, "#rust");
    assert_eq!(m.sender.as_deref(), Some("alice"));
    assert_eq!(m.text, "hello there");
    assert_eq!(m.time, "12:34:56");
}

#[test]
fn ctcp_action_becomes_action() {
    let m = parse(
        Some("bob"),
        IncomingCommand::Privmsg("#rust".into(), "\u{1}ACTION waves\u{1}".into()),
    )
    .unwrap();
    assert_eq!(m.kind, MessageKind::Action);
    assert_eq!(m.text, "waves");
    assert_eq!(m.sender.as_deref(), Some("bob"));
}

#[test]
fn empty_action_body() {
    let m = parse(
        Some("bob"),
        IncomingCommand::Privmsg("#rust".into(), "\u{1}ACTION \u{1}".into()),
    )
    .unwrap();
    assert_eq!(m.kind, MessageKind::Action);
    assert_eq!(m.text, "");
}

#[test]
fn unterminated_action_is_chat() {
    let m = parse(
        Some("bob"),
        IncomingCommand::Privmsg("#rust".into(), "\u{1}ACTION waves".into()),
    )
    .unwrap();
    assert_eq!(m.kind, MessageKind::Chat);
    assert_eq!(m.text, "\u{1}ACTION waves");
}

#[test]
fn notice_names_its_target() {
    let m = parse(
        Some("NickServ"),
        IncomingCommand::Notice("me".into(), "identify please".into()),
    )
    .unwrap();
    assert_eq!(m.kind, MessageKind::Notice);
    assert_eq!(m.text, "[me] identify please");
    assert_eq!(m.target, "");
    assert_eq!(m.sender.as_deref(), Some("NickServ"));
}

#[test]
fn join_part_quit_lines() {
    let j = parse(Some("carol"), IncomingCommand::Join("#a".into())).unwrap();
    assert_eq!(j.kind, MessageKind::Join);
    assert_eq!(j.text, "carol joined");
    assert_eq!(j.target, "#a");
    assert_eq!(j.sender.as_deref(), Some("carol"));

    let p = parse(
        Some("carol"),
        IncomingCommand::Part("#a".into(), Some("bye".into())),
    )
    .unwrap();
    assert_eq!(p.kind, MessageKind::Part);
    assert_eq!(p.text, "carol left (bye)");

    let q = parse(None, IncomingCommand::Quit(None)).unwrap();
    assert_eq!(q.kind, MessageKind::Quit);
    assert_eq!(q.text, "? quit ()");
    assert_eq!(q.sender.as_deref(), Some("?"));
    assert_eq!(q.target, "");
}

#[test]
fn topic_lines() {
    let t = parse(
        Some("dave"),
        IncomingCommand::Topic("#a".into(), Some("news".into())),
    )
    .unwrap();
    assert_eq!(t.kind, MessageKind::Topic);
    assert_eq!(t.text, "dave set topic: news");
    assert_eq!(t.target, "#a");
    let t2 = parse(None, IncomingCommand::Topic("#a".into(), None)).unwrap();
    assert_eq!(t2.text, "Topic: ");
    assert!(t2.sender.is_none());
}

#[test]
fn names_reply_lists_nicks() {
    let args = vec![
        "me".to_string(),
        "=".to_string(),
        "#chan".to_string(),
        "@op +voice  plain ~@owner".to_string(),
    ];
    let m = parse(None, IncomingCommand::Response(353, args)).unwrap();
    assert_eq!(m.kind, MessageKind::NamesReply);
    assert_eq!(m.target, "#chan");
    assert_eq!(m.text, "op,voice,plain,owner");
    assert!(m.sender.is_none());
}

#[test]
fn short_or_other_replies_are_dropped() {
    let short = vec!["me".to_string(), "=".to_string(), "#chan".to_string()];
    assert!(parse(None, IncomingCommand::Response(353, short)).is_none());
    let other = vec!["a".into(), "b".into(), "c".into(), "d".into()];
    assert!(parse(None, IncomingCommand::Response(366, other)).is_none());
    assert!(parse(Some("x"), IncomingCommand::Other).is_none());
}

#[test]
fn names_list_edge_cases() {
    assert_eq!(names_list(""), "");
    assert_eq!(names_list("   "), "");
    assert_eq!(names_list("@@a"), "a");
    assert_eq!(names_list("a b"), "a,b");
}

#[test]
fn server_line_is_empty_targeted() {
    let m = server_msg(7, "Connected as me", "01:02:03".to_string());
    assert_eq!(m.server, 7);
    assert_eq!(m.kind, MessageKind::Server);
    assert_eq!(m.target, "");
    assert!(m.sender.is_none());
    assert_eq!(m.text, "Connected as me");
    assert_eq!(m.time, "01:02:03");
}

#[test]
fn clock_formats_time_of_day() {
    assert_eq!(hhmmss(0), "00:00:00");
    assert_eq!(hhmmss(3661), "01:01:01");
    assert_eq!(hhmmss(86399), "23:59:59");
    // whole days do not change the clock
    assert_eq!(hhmmss(86400 + 45296), hhmmss(45296));
    assert_eq!(hhmmss(45296), "12:34:56");
    let now = now_hhmmss();
    assert_eq!(now.len(), 8);
    assert_eq!(&now[2..3], ":");
}

#[test]
fn clock_before_the_epoch_reads_midnight() {
    assert_eq!(clock_since_epoch(None), "00:00:00");
    assert_eq!(clock_since_epoch(Some(90061)), "01:01:01");
}

#[test]
fn alternative_nicknames() {
    assert_eq!(alt_nicks("me"), vec!["me_1", "me_2", "me_3", "me_4"]);
}
