//! What the main operations promise, stated over their inputs and results:
//! which channel a `/part` leaves, what an incoming message's line says,
//! which servers a tick may change, where a channel's lines come from, and
//! which address a connection is opened to.
use vstd::prelude::*;

use crate::chat::{
    EffectView, Event, ModelView, NavTarget, model_wf, note_for, slash_args, slash_plan_spec, tick_spec, update_spec,
};
use crate::display::{
    NavEntryView, channel_entry, channel_log, cut_bytes, line_of, nav_spec, server_entries, shown_lines,
    state_icon, visible, window,
};
use crate::irc_client::{
    CommandToServer, CommandView, ConnectionState, IncomingView, MessageKind, MessageView,
    alt_nicks_spec, parsed,
};
use crate::pipe::{PipeActionView, PipeView, first_word, pipe_spec, port_of};
use crate::text::{has_prefix, lemma_find_char_at, lemma_find_char_bound, trim};

verus! {

// ───────────────────────────── slash commands ─────────────────────────────

/// `/part #chan` (or `/leave #chan`) leaves the channel it names, whatever
/// channel is selected; without a `#` argument it leaves the selected
/// channel. Nothing is sent without a live connection.
pub proof fn law_part_leaves_named_channel(
    i: usize,
    cmd: Seq<char>,
    a1: Seq<char>,
    a2: Seq<char>,
    cur: Option<Seq<char>>,
    linked: bool,
)
    requires
        cmd == "part"@ || cmd == "leave"@,
    ensures
        a1.len() > 0 && a1[0] == '#' && linked ==> {
            &&& slash_plan_spec(i, cmd, a1, a2, cur, linked).send == Some(CommandToServer::Part(i, a1))
            &&& slash_plan_spec(i, cmd, a1, a2, cur, linked).echo == Some("Leaving "@ + a1)
        },
        !(a1.len() > 0 && a1[0] == '#') && linked && cur is Some ==> slash_plan_spec(
            i,
            cmd,
            a1,
            a2,
            cur,
            linked,
        ).send == Some(CommandToServer::Part(i, cur->0)),
        !linked ==> slash_plan_spec(i, cmd, a1, a2, cur, linked).send is None,
{
    reveal_strlit("part");
    reveal_strlit("leave");
    reveal_strlit("join");
    reveal_strlit("j");
    assert(cmd[0] == 'p' || cmd[0] == 'l');
    assert("join"@[0] == 'j' && "j"@[0] == 'j');
    assert(cmd != "join"@ && cmd != "j"@);
    if a1.len() > 0 && a1[0] == '#' {
        assert(a1.subrange(0, 1) =~= seq!['#']);
    } else if a1.len() > 0 {
        assert(a1.subrange(0, 1)[0] != '#');
    }
}

// ───────────────────────────── incoming messages ─────────────────────────────

/// The line made from a message sent by `nick`: what is said is kept as it
/// was sent, and joins, parts, quits and topic changes name the nick, the
/// reason and the topic.
pub proof fn law_parsed_line_texts(
    idx: usize,
    nick: Seq<char>,
    target: Seq<char>,
    text: Seq<char>,
    reason: Seq<char>,
    time: Seq<char>,
)
    ensures
        !(text.len() > 0 && text[0] == '\u{1}') ==> parsed(
            idx,
            IncomingView { source_nick: Some(nick), command: CommandView::Privmsg(target, text) },
            time,
        ) == Some(
            MessageView {
                server: idx,
                target,
                sender: Some(nick),
                text,
                kind: MessageKind::Chat,
                time,
            },
        ),
        parsed(
            idx,
            IncomingView { source_nick: Some(nick), command: CommandView::Join(target) },
            time,
        ) == Some(
            MessageView {
                server: idx,
                target,
                sender: Some(nick),
                text: nick + " joined"@,
                kind: MessageKind::Join,
                time,
            },
        ),
        parsed(
            idx,
            IncomingView { source_nick: Some(nick), command: CommandView::Part(target, Some(reason)) },
            time,
        ) == Some(
            MessageView {
                server: idx,
                target,
                sender: Some(nick),
                text: nick + " left ("@ + reason + ")"@,
                kind: MessageKind::Part,
                time,
            },
        ),
        parsed(
            idx,
            IncomingView { source_nick: Some(nick), command: CommandView::Quit(Some(reason)) },
            time,
        ) == Some(
            MessageView {
                server: idx,
                target: seq![],
                sender: Some(nick),
                text: nick + " quit ("@ + reason + ")"@,
                kind: MessageKind::Quit,
                time,
            },
        ),
        parsed(
            idx,
            IncomingView { source_nick: Some(nick), command: CommandView::Quit(None) },
            time,
        ) == Some(
            MessageView {
                server: idx,
                target: seq![],
                sender: Some(nick),
                text: nick + " quit ()"@,
                kind: MessageKind::Quit,
                time,
            },
        ),
        parsed(
            idx,
            IncomingView { source_nick: Some(nick), command: CommandView::Notice(target, text) },
            time,
        ) == Some(
            MessageView {
                server: idx,
                target: seq![],
                sender: Some(nick),
                text: "["@ + target + "] "@ + text,
                kind: MessageKind::Notice,
                time,
            },
        ),
        parsed(
            idx,
            IncomingView { source_nick: Some(nick), command: CommandView::Topic(target, Some(text)) },
            time,
        ) == Some(
            MessageView {
                server: idx,
                target,
                sender: Some(nick),
                text: nick + " set topic: "@ + text,
                kind: MessageKind::Topic,
                time,
            },
        ),
{
    reveal_strlit(" quit (");
    reveal_strlit(")");
    reveal_strlit(" quit ()");
    assert(nick + " quit ("@ + seq![] + ")"@ =~= nick + " quit ()"@);
    if !(text.len() > 0 && text[0] == '\u{1}') {
        if text.len() >= 8 {
            assert(text.subrange(0, 8)[0] != '\u{1}');
        }
    }
}


/// A CTCP `ACTION` (`/me`) becomes an action line with the text between the
/// markers; a NAMES reply (353 with at least four arguments) becomes a line
/// for the channel of its third argument that names no sender; every other
/// numeric reply, and any other command, makes no line.
pub proof fn law_parsed_action_and_replies(
    idx: usize,
    nick: Option<Seq<char>>,
    target: Seq<char>,
    body: Seq<char>,
    code: u16,
    args: Seq<Seq<char>>,
    time: Seq<char>,
)
    ensures
        ({
            let text = seq!['\u{1}', 'A', 'C', 'T', 'I', 'O', 'N', ' '] + body + seq!['\u{1}'];
            let line = parsed(
                idx,
                IncomingView { source_nick: nick, command: CommandView::Privmsg(target, text) },
                time,
            );
            &&& line is Some
            &&& line->0.kind == MessageKind::Action
            &&& line->0.text == body
            &&& line->0.target == target
            &&& line->0.sender == nick
            &&& line->0.server == idx
        }),
        code == 353 && args.len() >= 4 ==> ({
            let line = parsed(
                idx,
                IncomingView { source_nick: nick, command: CommandView::Response(code, args) },
                time,
            );
            &&& line is Some
            &&& line->0.kind == MessageKind::NamesReply
            &&& line->0.target == args[2]
            &&& line->0.sender is None
            &&& line->0.server == idx
        }),
        !(code == 353 && args.len() >= 4) ==> parsed(
            idx,
            IncomingView { source_nick: nick, command: CommandView::Response(code, args) },
            time,
        ) is None,
        parsed(idx, IncomingView { source_nick: nick, command: CommandView::Other }, time) is None,
{
    let text = seq!['\u{1}', 'A', 'C', 'T', 'I', 'O', 'N', ' '] + body + seq!['\u{1}'];
    assert(text.subrange(0, 8) =~= crate::irc_client::action_marker());
    assert(text.subrange(8, text.len() - 1) =~= body);
}

// ───────────────────────────── the tick ─────────────────────────────

/// A tick changes no server but connecting ones, and a connecting server it
/// changes becomes connected; the rest of every server stays as it was.
pub proof fn law_tick_only_completes_connecting(m: ModelView)
    ensures
        tick_spec(m).0.servers.len() == m.servers.len(),
        forall|j: int|
            0 <= j < m.servers.len() && !(m.servers[j].connection is Connecting) ==> #[trigger] tick_spec(
                m,
            ).0.servers[j] == m.servers[j],
        forall|j: int|
            0 <= j < m.servers.len() && m.servers[j].connection is Connecting ==> {
                ||| #[trigger] tick_spec(m).0.servers[j] == m.servers[j]
                ||| tick_spec(m).0.servers[j] == crate::irc_client::ServerView {
                    connection: ConnectionState::Connected,
                    ..m.servers[j]
                }
            },
{
}

/// A server that was disconnected stays disconnected through the next tick.
pub proof fn law_disconnected_stays_through_tick(m: ModelView, i: usize, time: Seq<char>)
    requires
        i < m.servers.len(),
    ensures
        ({
            let after = update_spec(update_spec(m, Event::Disconnect(i), time).0, Event::Tick, time).0;
            after.servers[i as int].connection is Disconnected
        }),
{
}

/// The tick's notes are notifications only.
proof fn lemma_notes_are_notifications(
    ms: Seq<MessageView>,
    sv: Seq<crate::irc_client::ServerView>,
)
    ensures
        forall|k: int|
            0 <= k < crate::chat::notes_for(ms, sv).len() ==> #[trigger] crate::chat::notes_for(
                ms,
                sv,
            )[k] is Notify,
    decreases ms.len(),
{
    if ms.len() > 0 {
        lemma_notes_are_notifications(ms.drop_last(), sv);
    }
}

/// When no server is connecting, a tick leaves every server as it was and
/// asks for no redraw of the navigation.
pub proof fn law_tick_without_connecting_server(m: ModelView)
    requires
        forall|j: int| 0 <= j < m.servers.len() ==> !(#[trigger] m.servers[j].connection is Connecting),
    ensures
        tick_spec(m).0.servers == m.servers,
        !tick_spec(m).1.contains(EffectView::RebuildNav),
{
    let notes = crate::chat::notes_for(
        m.log.subrange(m.last_notified as int, m.log.len() as int),
        m.servers,
    );
    lemma_notes_are_notifications(
        m.log.subrange(m.last_notified as int, m.log.len() as int),
        m.servers,
    );
    assert(!crate::chat::any_promoted(m.servers, m.log));
    assert(tick_spec(m).1 =~= notes);
    assert(tick_spec(m).0.servers =~= m.servers);
    if tick_spec(m).1.contains(EffectView::RebuildNav) {
        let k = choose|k: int| 0 <= k < notes.len() && notes[k] == EffectView::RebuildNav;
        assert(notes[k] is Notify);
    }
}

// ───────────────────────────── channel lines ─────────────────────────────

proof fn lemma_channel_log(log: Seq<MessageView>, i: usize, ch: Seq<char>)
    ensures
        forall|k: int|
            0 <= k < channel_log(log, i, ch).len() ==> {
                &&& (#[trigger] channel_log(log, i, ch)[k]).server == i
                &&& channel_log(log, i, ch)[k].target == ch
                &&& log.contains(channel_log(log, i, ch)[k])
            },
        forall|j: int|
            0 <= j < log.len() && (#[trigger] log[j]).server == i && log[j].target == ch
                ==> channel_log(log, i, ch).contains(log[j]),
        channel_log(log, i, ch).len() <= log.len(),
    decreases log.len(),
{
    if log.len() > 0 {
        let rest = log.drop_last();
        lemma_channel_log(rest, i, ch);
        let c = channel_log(log, i, ch);
        let cr = channel_log(rest, i, ch);
        assert forall|k: int| 0 <= k < c.len() implies {
            &&& (#[trigger] c[k]).server == i
            &&& c[k].target == ch
            &&& log.contains(c[k])
        } by {
            if k < cr.len() {
                assert(c[k] == cr[k]);
                let j = choose|j: int| 0 <= j < rest.len() && rest[j] == cr[k];
                assert(log[j] == c[k]);
            } else {
                assert(c[k] == log[log.len() - 1]);
            }
        }
        assert forall|j: int|
            0 <= j < log.len() && (#[trigger] log[j]).server == i && log[j].target == ch implies c.contains(
            log[j],
        ) by {
            if j < rest.len() {
                assert(rest[j] == log[j]);
                assert(cr.contains(log[j]));
                let k = choose|k: int| 0 <= k < cr.len() && cr[k] == log[j];
                assert(c[k] == log[j]);
            } else {
                assert(c[c.len() - 1] == log[j]);
            }
        }
    }
}

proof fn lemma_visible(ms: Seq<MessageView>, show_join_part: bool)
    ensures
        forall|k: int|
            0 <= k < visible(ms, show_join_part).len() ==> ms.contains(
                #[trigger] visible(ms, show_join_part)[k],
            ),
        show_join_part ==> visible(ms, show_join_part) == ms,
    decreases ms.len(),
{
    if ms.len() > 0 {
        let rest = ms.drop_last();
        lemma_visible(rest, show_join_part);
        let v = visible(ms, show_join_part);
        let vr = visible(rest, show_join_part);
        assert forall|k: int| 0 <= k < v.len() implies ms.contains(#[trigger] v[k]) by {
            if k < vr.len() {
                assert(v[k] == vr[k]);
                let j = choose|j: int| 0 <= j < rest.len() && rest[j] == vr[k];
                assert(ms[j] == v[k]);
            } else {
                assert(v[k] == ms[ms.len() - 1]);
            }
        }
        if show_join_part {
            assert(v =~= ms);
        }
    }
}

/// Every line drawn for channel `ch` of server `i` comes from a message of
/// the log that server `i` addressed to `ch`; with the scrollback at least
/// as long as the log and joins and parts shown, every such message is
/// drawn. The channel reads as empty exactly when the log holds no message
/// of it (or the scrollback is 0).
pub proof fn law_channel_lines_come_from_channel(
    log: Seq<MessageView>,
    i: usize,
    ch: Seq<char>,
    max: usize,
    show_join_part: bool,
)
    ensures
        forall|k: int|
            0 <= k < shown_lines(log, i, ch, max, show_join_part).len() ==> {
                &&& (#[trigger] shown_lines(log, i, ch, max, show_join_part)[k]).server == i
                &&& shown_lines(log, i, ch, max, show_join_part)[k].target == ch
                &&& log.contains(shown_lines(log, i, ch, max, show_join_part)[k])
            },
        max >= log.len() && show_join_part ==> forall|j: int|
            0 <= j < log.len() && (#[trigger] log[j]).server == i && log[j].target == ch
                ==> shown_lines(log, i, ch, max, show_join_part).contains(log[j]),
        (window(channel_log(log, i, ch), max).len() == 0) <==> (max == 0 || forall|j: int|
            0 <= j < log.len() ==> !((#[trigger] log[j]).server == i && log[j].target == ch)),
{
    let c = channel_log(log, i, ch);
    let w = window(c, max);
    let s = shown_lines(log, i, ch, max, show_join_part);
    lemma_channel_log(log, i, ch);
    lemma_visible(w, show_join_part);
    assert forall|k: int| 0 <= k < s.len() implies {
        &&& (#[trigger] s[k]).server == i
        &&& s[k].target == ch
        &&& log.contains(s[k])
    } by {
        assert(w.contains(s[k]));
        let a = choose|a: int| 0 <= a < w.len() && w[a] == s[k];
        if c.len() > max {
            assert(w[a] == c[c.len() - max + a]);
        } else {
            assert(w[a] == c[a]);
        }
    }
    if max >= log.len() && show_join_part {
        assert(w == c);
        assert(s == c);
    }
    if w.len() == 0 && max > 0 {
        assert(c.len() == 0);
        assert forall|j: int| 0 <= j < log.len() implies !((#[trigger] log[j]).server == i
            && log[j].target == ch) by {
            if log[j].server == i && log[j].target == ch {
                assert(c.contains(log[j]));
            }
        }
    }
    if max > 0 && w.len() > 0 {
        assert(c.len() > 0);
        assert(c[0].server == i && c[0].target == ch && log.contains(c[0]));
        let j = choose|j: int| 0 <= j < log.len() && log[j] == c[0];
        assert(log[j].server == i && log[j].target == ch);
    }
}

/// Something said is drawn with the sender's nick in angle brackets and its
/// text unchanged; an action with `* ` and the nick.
pub proof fn law_said_lines_show_sender(m: MessageView, n: Seq<char>, show_timestamps: bool)
    requires
        m.sender == Some(n),
    ensures
        m.kind == MessageKind::Chat ==> line_of(m, show_timestamps).prefix == "<"@ + n + ">"@
            && line_of(m, show_timestamps).body == m.text && !line_of(m, show_timestamps).is_event,
        m.kind == MessageKind::Action ==> line_of(m, show_timestamps).prefix == "* "@ + n
            && line_of(m, show_timestamps).body == m.text,
{
}


/// A slash command line splits into its command word and two arguments at
/// its first two spaces: `/cmd a1 a2…` gives `cmd`, `a1` and all the rest.
pub proof fn law_slash_words(cmd: Seq<char>, a1: Seq<char>, a2: Seq<char>)
    requires
        forall|k: int| 0 <= k < cmd.len() ==> cmd[k] != ' ',
        forall|k: int| 0 <= k < a1.len() ==> a1[k] != ' ',
    ensures
        slash_args(seq!['/'] + cmd + seq![' '] + a1 + seq![' '] + a2) == (cmd, a1, a2),
        slash_args(seq!['/'] + cmd) == (cmd, Seq::<char>::empty(), Seq::<char>::empty()),
{
    let text = seq!['/'] + cmd + seq![' '] + a1 + seq![' '] + a2;
    let body = text.drop_first();
    assert(body =~= cmd + seq![' '] + a1 + seq![' '] + a2);
    lemma_find_char_at(body, ' ', cmd.len() as int);
    let r = body.subrange(cmd.len() as int + 1, body.len() as int);
    assert(body.subrange(0, cmd.len() as int) =~= cmd);
    assert(r =~= a1 + seq![' '] + a2);
    lemma_find_char_at(r, ' ', a1.len() as int);
    assert(r.subrange(0, a1.len() as int) =~= a1);
    assert(r.subrange(a1.len() as int + 1, r.len() as int) =~= a2);
    let short = seq!['/'] + cmd;
    assert(short.drop_first() =~= cmd);
    lemma_find_char_at(cmd, ' ', cmd.len() as int);
}

/// With a live connection, each slash command sends what it names, to the
/// server it is typed on: `/join #c` joins `#c`, `/me` acts in the selected
/// channel, `/msg n text` writes `text` to `n`, `/nick n` asks for `n`,
/// `/whois n` and `/raw` send their line, `/topic #c t` sets `#c`'s topic,
/// `/topic t` the selected channel's, and `/quit` disconnects.
pub proof fn law_slash_commands_send(
    i: usize,
    a1: Seq<char>,
    a2: Seq<char>,
    cur: Option<Seq<char>>,
)
    ensures
        a1.len() > 0 ==> slash_plan_spec(i, "join"@, a1, a2, cur, true).send == Some(
            CommandToServer::Join(i, a1),
        ),
        a1.len() > 0 && a2.len() == 0 && cur is Some ==> slash_plan_spec(
            i,
            "me"@,
            a1,
            a2,
            cur,
            true,
        ).send == Some(CommandToServer::SendAction(i, cur->0, a1)),
        a1.len() > 0 && a2.len() > 0 && cur is Some ==> slash_plan_spec(
            i,
            "me"@,
            a1,
            a2,
            cur,
            true,
        ).send == Some(CommandToServer::SendAction(i, cur->0, a1 + " "@ + a2)),
        a1.len() > 0 && a2.len() > 0 ==> slash_plan_spec(i, "msg"@, a1, a2, cur, true).send
            == Some(CommandToServer::SendMsg(i, a1, a2)),
        a1.len() > 0 ==> slash_plan_spec(i, "nick"@, a1, a2, cur, true).send == Some(
            CommandToServer::Nick(i, a1),
        ) && slash_plan_spec(i, "nick"@, a1, a2, cur, true).nick == Some(a1),
        a1.len() > 0 ==> slash_plan_spec(i, "whois"@, a1, a2, cur, true).send == Some(
            CommandToServer::Raw(i, "WHOIS "@ + a1),
        ),
        a1.len() > 0 && a1[0] == '#' ==> slash_plan_spec(i, "topic"@, a1, a2, cur, true).send
            == Some(CommandToServer::Raw(i, "TOPIC "@ + a1 + " :"@ + a2)),
        slash_plan_spec(i, "quit"@, a1, a2, cur, true).send == Some(CommandToServer::Disconnect)
            && slash_plan_spec(i, "quit"@, a1, a2, cur, true).disconnect,
{
    reveal_strlit("join");
    reveal_strlit("j");
    reveal_strlit("part");
    reveal_strlit("leave");
    reveal_strlit("quit");
    reveal_strlit("disconnect");
    reveal_strlit("me");
    reveal_strlit("msg");
    reveal_strlit("query");
    reveal_strlit("nick");
    reveal_strlit("topic");
    reveal_strlit("whois");
    assert("join"@.len() == 4 && "j"@.len() == 1 && "part"@.len() == 4 && "leave"@.len() == 5);
    assert("quit"@.len() == 4 && "disconnect"@.len() == 10 && "me"@.len() == 2);
    assert("msg"@.len() == 3 && "query"@.len() == 5 && "nick"@.len() == 4);
    assert("topic"@.len() == 5 && "whois"@.len() == 5);
    assert("join"@[0] == 'j' && "part"@[0] == 'p' && "leave"@[0] == 'l' && "quit"@[0] == 'q');
    assert("nick"@[0] == 'n' && "query"@[0] == 'q' && "topic"@[0] == 't' && "whois"@[0] == 'w');
    assert("me"@ != "join"@ && "me"@ != "j"@ && "me"@ != "part"@ && "me"@ != "leave"@);
    assert("me"@ != "quit"@ && "me"@ != "disconnect"@);
    assert("msg"@ != "join"@ && "msg"@ != "j"@ && "msg"@ != "part"@ && "msg"@ != "leave"@);
    assert("msg"@ != "quit"@ && "msg"@ != "disconnect"@ && "msg"@ != "me"@);
    assert("nick"@ != "join"@ && "nick"@ != "j"@ && "nick"@ != "part"@ && "nick"@ != "leave"@);
    assert("nick"@ != "quit"@ && "nick"@ != "disconnect"@ && "nick"@ != "me"@);
    assert("nick"@ != "msg"@ && "nick"@ != "query"@);
    assert("topic"@ != "join"@ && "topic"@ != "j"@ && "topic"@ != "part"@ && "topic"@ != "leave"@);
    assert("topic"@ != "quit"@ && "topic"@ != "disconnect"@ && "topic"@ != "me"@);
    assert("topic"@ != "msg"@ && "topic"@ != "query"@ && "topic"@ != "nick"@);
    assert("whois"@ != "join"@ && "whois"@ != "j"@ && "whois"@ != "part"@ && "whois"@ != "leave"@);
    assert("whois"@ != "quit"@ && "whois"@ != "disconnect"@ && "whois"@ != "me"@);
    assert("whois"@ != "msg"@ && "whois"@ != "query"@ && "whois"@ != "nick"@ && "whois"@ != "topic"@);
    assert("quit"@ != "join"@ && "quit"@ != "j"@ && "quit"@ != "part"@ && "quit"@ != "leave"@);
    if a1.len() > 0 && a1[0] == '#' {
        assert(a1.subrange(0, 1) =~= seq!['#']);
    }
}

/// Plain text typed with a channel selected goes, trimmed, to that channel
/// of its server when the server has a live connection, and the input line
/// is cleared.
pub proof fn law_plain_text_goes_to_selected_channel(
    m: ModelView,
    i: usize,
    c: Seq<char>,
    time: Seq<char>,
)
    requires
        m.selected == Some(NavTarget::Channel(i, c)),
        m.links.contains(i),
        trim(m.input).len() > 0,
        trim(m.input)[0] != '/',
    ensures
        update_spec(m, Event::SendMessage, time).1 == seq![
            EffectView::Send(i, CommandToServer::SendMsg(i, c, trim(m.input))),
        ],
        update_spec(m, Event::SendMessage, time).0.input == Seq::<char>::empty(),
{
    assert(!has_prefix(trim(m.input), seq!['/'])) by {
        if has_prefix(trim(m.input), seq!['/']) {
            assert(trim(m.input).subrange(0, 1)[0] == '/');
        }
    }
}

/// The scrollback keeps the latest lines: no more than `max` are drawn,
/// and with joins and parts shown the last line drawn is the channel's
/// latest message.
pub proof fn law_scrollback_keeps_latest(
    log: Seq<MessageView>,
    i: usize,
    ch: Seq<char>,
    max: usize,
    show_join_part: bool,
)
    ensures
        shown_lines(log, i, ch, max, show_join_part).len() <= max,
        show_join_part && max > 0 && channel_log(log, i, ch).len() > 0 ==> shown_lines(
            log,
            i,
            ch,
            max,
            show_join_part,
        ).last() == channel_log(log, i, ch).last(),
        show_join_part && channel_log(log, i, ch).len() >= max ==> shown_lines(
            log,
            i,
            ch,
            max,
            show_join_part,
        ).len() == max,
{
    let w = window(channel_log(log, i, ch), max);
    lemma_visible_len(w, show_join_part);
    lemma_visible(w, show_join_part);
}

proof fn lemma_visible_len(ms: Seq<MessageView>, show_join_part: bool)
    ensures
        visible(ms, show_join_part).len() <= ms.len(),
    decreases ms.len(),
{
    if ms.len() > 0 {
        lemma_visible_len(ms.drop_last(), show_join_part);
    }
}

proof fn lemma_cut_ascii(t: Seq<char>, n: int)
    requires
        0 <= n <= t.len(),
        forall|k: int| 0 <= k < t.len() ==> (t[k] as int) < 0x80,
    ensures
        cut_bytes(t, n) == Some(t.take(n)),
    decreases t.len(),
{
    if n > 0 && t.len() > 0 {
        lemma_cut_ascii(t.drop_first(), n - 1);
        assert(seq![t[0]] + t.drop_first().take(n - 1) =~= t.take(n));
    } else {
        assert(t.take(n) =~= seq![]);
    }
}

/// With time stamps shown, a line's stamp is its time's first five
/// characters in brackets (`[HH:MM]` of an ASCII `HH:MM:SS`); without, there
/// is none.
pub proof fn law_time_stamp(m: MessageView)
    requires
        m.time.len() >= 5,
        forall|k: int| 0 <= k < m.time.len() ==> (m.time[k] as int) < 0x80,
    ensures
        line_of(m, true).timestamp == "["@ + m.time.take(5) + "]"@,
        line_of(m, false).timestamp == Seq::<char>::empty(),
{
    lemma_cut_ascii(m.time, 5);
}


// ───────────────────────────── the pipe mode ─────────────────────────────

proof fn lemma_first_word(a: Seq<char>, b: Seq<char>)
    requires
        forall|k: int| 0 <= k < a.len() ==> a[k] != ' ',
    ensures
        first_word(a + seq![' '] + b) == (a, b),
        first_word(a) == (a, Seq::<char>::empty()),
{
    let s = a + seq![' '] + b;
    lemma_find_char_at(s, ' ', a.len() as int);
    assert(s.subrange(0, a.len() as int) =~= a);
    assert(s.subrange(a.len() as int + 1, s.len() as int) =~= b);
    lemma_find_char_at(a, ' ', a.len() as int);
    assert(a.subrange(0, a.len() as int) =~= a);
}

/// In the pipe mode, with a connection open, `/join #c` joins `#c` and
/// makes it the channel that plain text goes to.
pub proof fn law_pipe_join(s: PipeView, ch: Seq<char>)
    requires
        s.connected,
        ch.len() > 0,
        forall|k: int| 0 <= k < ch.len() ==> ch[k] != ' ',
        trim("/join "@ + ch) == "/join "@ + ch,
    ensures
        pipe_spec(s, "/join "@ + ch) == (
            PipeView { channel: Some(ch), ..s },
            seq![PipeActionView::Send(CommandToServer::Join(0, ch))],
        ),
{
    reveal_strlit("/join ");
    reveal_strlit("/join");
    reveal_strlit("/quit");
    reveal_strlit("/exit");
    reveal_strlit("/help");
    reveal_strlit("/connect");
    let line = "/join "@ + ch;
    assert("/join "@ =~= "/join"@ + seq![' ']);
    assert(line =~= "/join"@ + seq![' '] + ch);
    lemma_first_word("/join"@, ch);
    lemma_first_word(ch, Seq::<char>::empty());
    assert(line.len() > 5);
    assert("/quit"@.len() == 5 && "/exit"@.len() == 5 && "/help"@.len() == 5);
    assert("/connect"@.len() == 8 && "/join"@.len() == 5);
    assert(line != "/quit"@ && line != "/exit"@ && line != "/help"@);
    assert("/join"@ != "/connect"@);
}

/// In the pipe mode, with a connection open and a channel joined, a line of
/// plain text goes to that channel as it was typed.
pub proof fn law_pipe_plain_text(s: PipeView, line: Seq<char>)
    requires
        s.connected,
        s.channel is Some,
        trim(line) == line,
        line.len() > 0,
        line[0] != '/',
    ensures
        pipe_spec(s, line) == (
            s,
            seq![PipeActionView::Send(CommandToServer::SendMsg(0, s.channel->0, line))],
        ),
{
    reveal_strlit("/quit");
    reveal_strlit("/exit");
    reveal_strlit("/help");
    reveal_strlit("/connect");
    reveal_strlit("/join");
    reveal_strlit("/msg");
    assert("/quit"@[0] == '/' && "/exit"@[0] == '/' && "/help"@[0] == '/');
    assert("/connect"@[0] == '/' && "/join"@[0] == '/' && "/msg"@[0] == '/');
    let cmd = first_word(line).0;
    lemma_find_char_bound(line, ' ');
    if cmd.len() > 0 {
        assert(cmd[0] == line[0]);
    }
}

/// In the pipe mode, `/connect host port nick` opens a connection to that
/// host and port under that nick (TLS on port 6697), closing an open one
/// first, and forgets the joined channel.
pub proof fn law_pipe_connect(
    s: PipeView,
    host: Seq<char>,
    port: Seq<char>,
    nick: Seq<char>,
    n: u16,
)
    requires
        host.len() > 0 && nick.len() > 0,
        forall|k: int| 0 <= k < host.len() ==> host[k] != ' ',
        forall|k: int| 0 <= k < port.len() ==> port[k] != ' ',
        forall|k: int| 0 <= k < nick.len() ==> nick[k] != ' ',
        port_of(port) == Some(n),
        trim("/connect "@ + host + " "@ + port + " "@ + nick) == "/connect "@ + host + " "@ + port
            + " "@ + nick,
    ensures
        ({
            let r = pipe_spec(s, "/connect "@ + host + " "@ + port + " "@ + nick);
            let acts = r.1;
            &&& r.0 == PipeView { connected: true, channel: None }
            &&& acts.len() == if s.connected { 3int } else { 2int }
            &&& s.connected ==> acts[0] == PipeActionView::Send(CommandToServer::Disconnect)
            &&& acts[acts.len() - 2] matches PipeActionView::Connect(c) && c.host == host
                && c.port == n && c.nick == nick && c.tls == (n == 6697) && c.channels.len() == 0
        }),
{
    reveal_strlit("/connect ");
    reveal_strlit("/connect");
    reveal_strlit(" ");
    reveal_strlit("/quit");
    reveal_strlit("/exit");
    reveal_strlit("/help");
    let line = "/connect "@ + host + " "@ + port + " "@ + nick;
    assert("/connect "@ =~= "/connect"@ + seq![' ']);
    let rest = host + seq![' '] + port + seq![' '] + nick;
    assert(line =~= "/connect"@ + seq![' '] + rest);
    lemma_first_word("/connect"@, rest);
    assert(rest =~= host + seq![' '] + (port + seq![' '] + nick));
    lemma_first_word(host, port + seq![' '] + nick);
    lemma_first_word(port, nick);
    lemma_first_word(nick, Seq::<char>::empty());
    assert("/quit"@.len() == 5 && "/exit"@.len() == 5 && "/help"@.len() == 5);
    assert(line.len() > 9);
}


// ───────────────────────────── notifications and servers ─────────────────────────────

/// A chat or action line from someone else is notified, under its channel,
/// with the sender and the text; a line of one's own nick, and any line that
/// says nothing (joins, parts, server notices), is not.
pub proof fn law_notify_others_only(msg: MessageView, sv: Seq<crate::irc_client::ServerView>, n: Seq<char>)
    requires
        msg.sender == Some(n),
        msg.server < sv.len(),
    ensures
        msg.kind == MessageKind::Chat && sv[msg.server as int].current_nick != n ==> note_for(msg, sv)
            == seq![EffectView::Notify(msg.target, "<"@ + n + "> "@ + msg.text)],
        msg.kind == MessageKind::Action && sv[msg.server as int].current_nick != n ==> note_for(
            msg,
            sv,
        ) == seq![EffectView::Notify(msg.target, "* "@ + n + " "@ + msg.text)],
        sv[msg.server as int].current_nick == n ==> note_for(msg, sv).len() == 0,
        !(msg.kind == MessageKind::Chat || msg.kind == MessageKind::Action) ==> note_for(msg, sv).len()
            == 0,
{
}

/// Adding a server appends it to the configuration and shows it, at the
/// next position, disconnected, with its name, nick and channels; the
/// configuration is saved. (A window holds fewer than `usize::MAX`
/// servers.)
pub proof fn law_add_server(m: ModelView, c: crate::config::ServerConfigView, time: Seq<char>)
    requires
        model_wf(m),
        m.servers.len() < usize::MAX,
    ensures
        ({
            let r = update_spec(m, Event::AddServer(c), time);
            let k = m.servers.len() as int;
            &&& r.0.config == m.config.push(c)
            &&& r.0.servers.len() == k + 1
            &&& r.0.servers.take(k) == m.servers
            &&& r.0.servers[k].idx == k
            &&& r.0.servers[k].name == c.name
            &&& r.0.servers[k].current_nick == c.nick
            &&& r.0.servers[k].channels == c.channels
            &&& r.0.servers[k].connection is Disconnected
            &&& r.1.contains(EffectView::SaveConfig)
        }),
{
    let r = update_spec(m, Event::AddServer(c), time);
    assert(r.0.servers.take(m.servers.len() as int) =~= m.servers);
    assert(r.1[0] == EffectView::SaveConfig);
}

/// The fallback nicknames are four, all different, each the nick with `_`
/// and a digit from 1 to 4.
pub proof fn law_alt_nicks(nick: Seq<char>)
    ensures
        alt_nicks_spec(nick).len() == 4,
        forall|k: int|
            0 <= k < 4 ==> #[trigger] alt_nicks_spec(nick)[k] == nick + seq![
                '_',
                (('1' as int) + k) as char,
            ],
        forall|a: int, b: int|
            0 <= a < b < 4 ==> #[trigger] alt_nicks_spec(nick)[a] != #[trigger] alt_nicks_spec(nick)[b],
{
    assert forall|a: int, b: int|
        0 <= a < b < 4 implies #[trigger] alt_nicks_spec(nick)[a] != #[trigger] alt_nicks_spec(
        nick,
    )[b] by {
        assert(alt_nicks_spec(nick)[a][nick.len() as int + 1] != alt_nicks_spec(nick)[b][nick.len() as int + 1]);
    }
}


// ───────────────────────────── navigation ─────────────────────────────

/// Every entry of the navigation list stands for a listed server or one of
/// its channels: a server entry shows the server's name and state icon, a
/// channel entry shows `  # ` and the channel; and every server and every
/// channel of it has its entry.
pub proof fn law_nav_entries_match_servers(sv: Seq<crate::irc_client::ServerView>)
    ensures
        forall|k: int|
            0 <= k < nav_spec(sv).len() ==> (exists|a: int|
                0 <= a < sv.len() && (#[trigger] nav_spec(sv)[k] == NavEntryView {
                    text: sv[a].name,
                    icon: state_icon(sv[a].connection),
                    item: NavTarget::Server(sv[a].idx),
                } || (nav_spec(sv)[k].item is Channel && sv[a].channels.contains(
                    nav_spec(sv)[k].item->Channel_1,
                ) && nav_spec(sv)[k] == channel_entry(sv[a].idx, nav_spec(sv)[k].item->Channel_1)))),
        forall|a: int|
            0 <= a < sv.len() ==> nav_spec(sv).contains(
                NavEntryView {
                    text: (#[trigger] sv[a]).name,
                    icon: state_icon(sv[a].connection),
                    item: NavTarget::Server(sv[a].idx),
                },
            ),
        forall|a: int, c: Seq<char>|
            0 <= a < sv.len() && #[trigger] sv[a].channels.contains(c) ==> nav_spec(sv).contains(
                channel_entry(sv[a].idx, c),
            ),
    decreases sv.len(),
{
    if sv.len() > 0 {
        let rest = sv.drop_last();
        law_nav_entries_match_servers(rest);
        let s = sv.last();
        let nr = nav_spec(rest);
        let se = server_entries(s);
        let n = nav_spec(sv);
        assert(n == nr + se);
        let last = sv.len() - 1;
        assert forall|k: int| 0 <= k < n.len() implies (exists|a: int|
            0 <= a < sv.len() && (#[trigger] n[k] == NavEntryView {
                text: sv[a].name,
                icon: state_icon(sv[a].connection),
                item: NavTarget::Server(sv[a].idx),
            } || (n[k].item is Channel && sv[a].channels.contains(n[k].item->Channel_1) && n[k]
                == channel_entry(sv[a].idx, n[k].item->Channel_1)))) by {
            if k < nr.len() {
                assert(n[k] == nr[k]);
                let a = choose|a: int|
                    0 <= a < rest.len() && (#[trigger] nr[k] == NavEntryView {
                        text: rest[a].name,
                        icon: state_icon(rest[a].connection),
                        item: NavTarget::Server(rest[a].idx),
                    } || (nr[k].item is Channel && rest[a].channels.contains(nr[k].item->Channel_1)
                        && nr[k] == channel_entry(rest[a].idx, nr[k].item->Channel_1)));
                assert(sv[a] == rest[a]);
            } else if k == nr.len() {
                assert(n[k] == se[0]);
                assert(sv[last] == s);
            } else {
                let j = k - nr.len() - 1;
                assert(n[k] == se[j + 1]);
                assert(se[j + 1] == channel_entry(s.idx, s.channels[j]));
                assert(s.channels.contains(s.channels[j]));
                assert(sv[last] == s);
            }
        }
        assert forall|a: int| 0 <= a < sv.len() implies n.contains(
            NavEntryView {
                text: (#[trigger] sv[a]).name,
                icon: state_icon(sv[a].connection),
                item: NavTarget::Server(sv[a].idx),
            },
        ) by {
            let e = NavEntryView {
                text: sv[a].name,
                icon: state_icon(sv[a].connection),
                item: NavTarget::Server(sv[a].idx),
            };
            if a < rest.len() {
                assert(rest[a] == sv[a]);
                assert(nr.contains(e));
                let k = choose|k: int| 0 <= k < nr.len() && nr[k] == e;
                assert(n[k] == e);
            } else {
                assert(n[nr.len() as int] == e);
            }
        }
        assert forall|a: int, c: Seq<char>|
            0 <= a < sv.len() && #[trigger] sv[a].channels.contains(c) implies n.contains(
            channel_entry(sv[a].idx, c),
        ) by {
            let e = channel_entry(sv[a].idx, c);
            if a < rest.len() {
                assert(rest[a] == sv[a]);
                assert(nr.contains(e));
                let k = choose|k: int| 0 <= k < nr.len() && nr[k] == e;
                assert(n[k] == e);
            } else {
                let j = choose|j: int| 0 <= j < s.channels.len() && s.channels[j] == c;
                assert(n[nr.len() + 1 + j] == se[j + 1]);
            }
        }
    }
}

// ───────────────────────────── connecting ─────────────────────────────

/// Connecting configured server `i` opens a connection to exactly that
/// server's address, port, TLS setting, login and channels.
pub proof fn law_connect_opens_configured_server(m: ModelView, i: usize, time: Seq<char>)
    requires
        i < m.config.len(),
    ensures
        ({
            let fx = update_spec(m, Event::Connect(i), time).1;
            let sc = m.config[i as int];
            &&& fx.len() == 2
            &&& fx[1] matches EffectView::Open(j, c) && {
                &&& j == i
                &&& c.host == sc.host
                &&& c.port == sc.port
                &&& c.tls == sc.use_tls
                &&& c.nick == sc.nick
                &&& c.user == sc.user
                &&& c.realname == sc.realname
                &&& c.password == sc.password
                &&& c.channels == sc.channels
            }
        }),
{
}

} // verus!
