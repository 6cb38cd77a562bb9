//! What the window shows, computed from the model: the navigation list, the
//! connection status in the header, the lines of a channel, and the replies
//! of the line-based pipe mode.
use vstd::prelude::*;

use crate::chat::{ChatModel, Message, NavItem, NavTarget, ModelView, nav_server, opt_nav_view, users_of};
use crate::chat::{cat2, cat3, cat4};
use crate::irc_client::{
    ConnectionState, IrcMessage, MessageKind, MessageView, ServerState, ServerView, digit,
    digit_char, messages_view, server_views, state_label, state_text,
};
use crate::table::{find_entry, keys_unique, lemma_table_at, lemma_table_keys, table_view};
use crate::text::{
    chars_of, copy_strings, is_word, join_with, push_char, slice_chars, string_of, strs_view, trim,
    trim_exec,
};

verus! {

// ───────────────────────────── navigation ─────────────────────────────

/// One entry of the navigation list.
#[derive(Debug)]
pub struct NavEntry {
    pub text: String,
    pub icon: String,
    pub item: NavItem,
}

pub struct NavEntryView {
    pub text: Seq<char>,
    pub icon: Seq<char>,
    pub item: NavTarget,
}

impl View for NavEntry {
    type V = NavEntryView;

    open spec fn view(&self) -> NavEntryView {
        NavEntryView { text: self.text@, icon: self.icon@, item: self.item@ }
    }
}

pub open spec fn entries_view(v: Seq<NavEntry>) -> Seq<NavEntryView> {
    v.map_values(|e: NavEntry| e@)
}

/// The icon of a server in the navigation list.
pub open spec fn state_icon(c: ConnectionState) -> Seq<char> {
    match c {
        ConnectionState::Connected => "network-transmit-symbolic"@,
        ConnectionState::Connecting => "emblem-synchronizing-symbolic"@,
        ConnectionState::Error(_) => "dialog-error-symbolic"@,
        ConnectionState::Disconnected => "network-offline-symbolic"@,
    }
}

pub open spec fn channel_entry(idx: usize, ch: Seq<char>) -> NavEntryView {
    NavEntryView {
        text: "  # "@ + ch,
        icon: "user-available-symbolic"@,
        item: NavTarget::Channel(idx, ch),
    }
}

/// A server's entries: the server, then each of its channels.
pub open spec fn server_entries(s: ServerView) -> Seq<NavEntryView> {
    seq![NavEntryView { text: s.name, icon: state_icon(s.connection), item: NavTarget::Server(s.idx) }]
        + s.channels.map_values(|ch: Seq<char>| channel_entry(s.idx, ch))
}

/// The navigation list for the servers, in order.
pub open spec fn nav_spec(sv: Seq<ServerView>) -> Seq<NavEntryView>
    decreases sv.len(),
{
    if sv.len() == 0 {
        seq![]
    } else {
        nav_spec(sv.drop_last()) + server_entries(sv.last())
    }
}

fn icon_for(c: &ConnectionState) -> (r: String)
    ensures
        r@ == state_icon(*c),
{
    match c {
        ConnectionState::Connected => "network-transmit-symbolic".to_owned(),
        ConnectionState::Connecting => "emblem-synchronizing-symbolic".to_owned(),
        ConnectionState::Error(_) => "dialog-error-symbolic".to_owned(),
        ConnectionState::Disconnected => "network-offline-symbolic".to_owned(),
    }
}

/// The entries of the navigation list (what `rebuild_nav` inserts).
pub fn nav_entries(servers: &Vec<ServerState>) -> (r: Vec<NavEntry>)
    ensures
        entries_view(r@) == nav_spec(server_views(servers@)),
{
    let ghost sv = server_views(servers@);
    let mut r: Vec<NavEntry> = Vec::new();
    let mut i: usize = 0;
    while i < servers.len()
        invariant
            i <= servers@.len(),
            sv == server_views(servers@),
            entries_view(r@) == nav_spec(sv.take(i as int)),
        decreases servers.len() - i,
    {
        let s = &servers[i];
        let ghost base = entries_view(r@);
        let ghost sview = sv[i as int];
        assert(sview == s@);
        r.push(NavEntry { text: s.name.clone(), icon: icon_for(&s.connection), item: NavItem::Server(s.idx) });
        let mut k: usize = 0;
        while k < s.channels.len()
            invariant
                k <= s.channels@.len(),
                sview == s@,
                entries_view(r@) == base + server_entries(sview).take(k + 1),
            decreases s.channels.len() - k,
        {
            let mut text = "  # ".to_owned();
            text.append(s.channels[k].as_str());
            let e = NavEntry {
                text,
                icon: "user-available-symbolic".to_owned(),
                item: NavItem::Channel(s.idx, s.channels[k].clone()),
            };
            let ghost before = entries_view(r@);
            r.push(e);
            proof {
                assert(sview.channels[k as int] == s.channels@[k as int]@);
                assert(server_entries(sview)[k + 1] == channel_entry(s.idx, sview.channels[k as int]));
                assert(entries_view(r@) =~= before.push(e@));
                assert(server_entries(sview).take(k + 2) =~= server_entries(sview).take(k + 1).push(
                    server_entries(sview)[k + 1],
                ));
                assert(entries_view(r@) =~= base + server_entries(sview).take(k + 2));
            }
            k = k + 1;
        }
        proof {
            assert(server_entries(sview).take(s.channels@.len() as int + 1) =~= server_entries(sview));
            assert(sv.take(i + 1).drop_last() =~= sv.take(i as int));
            assert(sv.take(i + 1).last() == sview);
        }
        i = i + 1;
    }
    assert(sv.take(servers@.len() as int) =~= sv);
    r
}

// ───────────────────────────── header ─────────────────────────────

/// The status icon and text of the header for the selected server.
pub open spec fn status_spec(selected: Option<NavTarget>, sv: Seq<ServerView>) -> (Seq<char>, Seq<char>) {
    let offline = ("network-offline-symbolic"@, "Disconnected"@);
    match selected {
        Some(sel) => {
            let i = nav_server(sel);
            if i < sv.len() {
                match sv[i as int].connection {
                    ConnectionState::Connected => ("emblem-ok-symbolic"@, "Connected"@),
                    ConnectionState::Connecting => ("emblem-synchronizing-symbolic"@, "Connecting..."@),
                    ConnectionState::Error(_) => ("dialog-error-symbolic"@, "Error"@),
                    ConnectionState::Disconnected => offline,
                }
            } else {
                offline
            }
        },
        None => offline,
    }
}

/// The header's caption naming the selected server, if it exists.
pub open spec fn caption_spec(selected: Option<NavTarget>, sv: Seq<ServerView>) -> Option<Seq<char>> {
    match selected {
        Some(sel) => if nav_server(sel) < sv.len() {
            Some("  "@ + sv[nav_server(sel) as int].name)
        } else {
            None
        },
        None => None,
    }
}

/// The header's button for the selected server: disconnect a connected
/// server, connect any other.
pub enum ToggleView {
    Connect(usize),
    Disconnect(usize),
}

pub open spec fn toggle_spec(selected: Option<NavTarget>, sv: Seq<ServerView>) -> Option<ToggleView> {
    match selected {
        Some(sel) => {
            let i = nav_server(sel);
            if i < sv.len() && sv[i as int].connection is Connected {
                Some(ToggleView::Disconnect(i))
            } else {
                Some(ToggleView::Connect(i))
            }
        },
        None => None,
    }
}

pub open spec fn opt_toggle_view(m: Option<Message>) -> Option<ToggleView> {
    match m {
        Some(Message::Connect(i)) => Some(ToggleView::Connect(i)),
        Some(Message::Disconnect(i)) => Some(ToggleView::Disconnect(i)),
        _ => None,
    }
}

fn selected_server(selected: &Option<NavItem>) -> (r: Option<usize>)
    ensures
        r == match opt_nav_view(*selected) {
            Some(sel) => Some(nav_server(sel)),
            None => None,
        },
{
    match selected {
        Some(NavItem::Server(i)) => Some(*i),
        Some(NavItem::Channel(i, _)) => Some(*i),
        None => None,
    }
}

impl ChatModel {
    /// The header's status icon and text.
    pub fn status(&self) -> (r: (String, String))
        ensures
            (r.0@, r.1@) == status_spec(self@.selected, self@.servers),
    {
        match selected_server(&self.selected) {
            Some(i) => {
                if i < self.servers.len() {
                    assert(self@.servers[i as int] == self.servers@[i as int]@);
                    match &self.servers[i].connection {
                        ConnectionState::Connected => ("emblem-ok-symbolic".to_owned(), "Connected".to_owned()),
                        ConnectionState::Connecting => (
                            "emblem-synchronizing-symbolic".to_owned(),
                            "Connecting...".to_owned(),
                        ),
                        ConnectionState::Error(_) => ("dialog-error-symbolic".to_owned(), "Error".to_owned()),
                        ConnectionState::Disconnected => (
                            "network-offline-symbolic".to_owned(),
                            "Disconnected".to_owned(),
                        ),
                    }
                } else {
                    ("network-offline-symbolic".to_owned(), "Disconnected".to_owned())
                }
            },
            None => ("network-offline-symbolic".to_owned(), "Disconnected".to_owned()),
        }
    }

    /// The header's caption with the selected server's name.
    pub fn server_caption(&self) -> (r: Option<String>)
        ensures
            match r {
                Some(s) => Some(s@),
                None => None::<Seq<char>>,
            } == caption_spec(self@.selected, self@.servers),
    {
        match selected_server(&self.selected) {
            Some(i) => if i < self.servers.len() {
                assert(self@.servers[i as int] == self.servers@[i as int]@);
                let mut s = "  ".to_owned();
                s.append(self.servers[i].name.as_str());
                Some(s)
            } else {
                None
            },
            None => None,
        }
    }

    /// The message of the header's connect/disconnect button.
    pub fn connection_toggle(&self) -> (r: Option<Message>)
        ensures
            opt_toggle_view(r) == toggle_spec(self@.selected, self@.servers),
            r matches Some(m) ==> (m is Connect || m is Disconnect),
    {
        match selected_server(&self.selected) {
            Some(i) => {
                let connected = if i < self.servers.len() {
                    assert(self@.servers[i as int] == self.servers@[i as int]@);
                    match &self.servers[i].connection {
                        ConnectionState::Connected => true,
                        _ => false,
                    }
                } else {
                    false
                };
                if connected {
                    Some(Message::Disconnect(i))
                } else {
                    Some(Message::Connect(i))
                }
            },
            None => None,
        }
    }

    /// The nicknames listed for a channel (empty when none were seen).
    pub fn users_in(&self, server: usize, channel: &String) -> (r: Vec<String>)
        requires
            self.wf(),
        ensures
            strs_view(r@) == users_of(self@.users, (server, channel@)),
    {
        match find_entry(&self.channel_users, server, channel) {
            Some(i) => {
                proof {
                    lemma_table_at(self.channel_users@, i as int);
                    assert(self.channel_users@[i as int].value.deep_view() =~= strs_view(
                        self.channel_users@[i as int].value@,
                    ));
                }
                copy_strings(&self.channel_users[i].value)
            },
            None => {
                proof {
                    lemma_table_keys(self.channel_users@, (server, channel@));
                }
                let r: Vec<String> = Vec::new();
                assert(strs_view(r@) =~= Seq::<Seq<char>>::empty());
                r
            },
        }
    }

    /// The topic of a channel (empty when none was set).
    pub fn topic_of(&self, server: usize, channel: &String) -> (r: String)
        requires
            self.wf(),
        ensures
            r@ == if self@.topics.contains_key((server, channel@)) {
                self@.topics[(server, channel@)]
            } else {
                seq![]
            },
    {
        match find_entry(&self.channel_topics, server, channel) {
            Some(i) => {
                proof {
                    lemma_table_at(self.channel_topics@, i as int);
                }
                self.channel_topics[i].value.clone()
            },
            None => {
                proof {
                    lemma_table_keys(self.channel_topics@, (server, channel@));
                }
                String::new()
            },
        }
    }
}


// ───────────────────────────── channel lines ─────────────────────────────

/// One displayed line of a channel: its time stamp, the sender's part, the
/// text, and whether it is an event rather than something said.
#[derive(Debug)]
pub struct ChatLine {
    pub timestamp: String,
    pub prefix: String,
    pub body: String,
    pub is_event: bool,
}

pub struct LineView {
    pub timestamp: Seq<char>,
    pub prefix: Seq<char>,
    pub body: Seq<char>,
    pub is_event: bool,
}

impl View for ChatLine {
    type V = LineView;

    open spec fn view(&self) -> LineView {
        LineView {
            timestamp: self.timestamp@,
            prefix: self.prefix@,
            body: self.body@,
            is_event: self.is_event,
        }
    }
}

pub open spec fn lines_view(v: Seq<ChatLine>) -> Seq<LineView> {
    v.map_values(|l: ChatLine| l@)
}

/// The number of bytes of a character in UTF-8 (`char::len_utf8`).
pub open spec fn utf8_width(c: char) -> int {
    if (c as int) < 0x80 {
        1
    } else if (c as int) < 0x800 {
        2
    } else if (c as int) < 0x10000 {
        3
    } else {
        4
    }
}

/// The characters that make up the first `n` bytes of `t` (all of `t` when
/// it is shorter); `None` when byte `n` falls inside a character, where
/// slicing the string panics.
pub open spec fn cut_bytes(t: Seq<char>, n: int) -> Option<Seq<char>>
    decreases t.len(),
{
    if n <= 0 || t.len() == 0 {
        Some(seq![])
    } else if utf8_width(t[0]) <= n {
        match cut_bytes(t.drop_first(), n - utf8_width(t[0])) {
            Some(r) => Some(seq![t[0]] + r),
            None => None,
        }
    } else {
        None
    }
}

/// The lines of server `i` addressed to channel `ch`, in order.
pub open spec fn channel_log(log: Seq<MessageView>, i: usize, ch: Seq<char>) -> Seq<MessageView>
    decreases log.len(),
{
    if log.len() == 0 {
        seq![]
    } else if log.last().server == i && log.last().target == ch {
        channel_log(log.drop_last(), i, ch).push(log.last())
    } else {
        channel_log(log.drop_last(), i, ch)
    }
}

/// The last `max` of the lines.
pub open spec fn window(ms: Seq<MessageView>, max: usize) -> Seq<MessageView> {
    if ms.len() > max {
        ms.subrange(ms.len() - max, ms.len() as int)
    } else {
        ms
    }
}

pub open spec fn is_membership(k: MessageKind) -> bool {
    k == MessageKind::Join || k == MessageKind::Part || k == MessageKind::Quit
}

/// The lines that are drawn: all of them, or all but joins, parts and quits.
pub open spec fn visible(ms: Seq<MessageView>, show_join_part: bool) -> Seq<MessageView>
    decreases ms.len(),
{
    if ms.len() == 0 {
        seq![]
    } else if !show_join_part && is_membership(ms.last().kind) {
        visible(ms.drop_last(), show_join_part)
    } else {
        visible(ms.drop_last(), show_join_part).push(ms.last())
    }
}

/// How one line is drawn.
pub open spec fn line_of(m: MessageView, show_timestamps: bool) -> LineView {
    let nick = match m.sender {
        Some(n) => n,
        None => "?"@,
    };
    let ts = if show_timestamps {
        "["@ + cut_bytes(m.time, 5)->0 + "]"@
    } else {
        seq![]
    };
    match m.kind {
        MessageKind::Chat => LineView { timestamp: ts, prefix: "<"@ + nick + ">"@, body: m.text, is_event: false },
        MessageKind::Action => LineView { timestamp: ts, prefix: "* "@ + nick, body: m.text, is_event: false },
        MessageKind::Join => LineView { timestamp: ts, prefix: seq![], body: "→ "@ + m.text, is_event: true },
        MessageKind::Part => LineView { timestamp: ts, prefix: seq![], body: "← "@ + m.text, is_event: true },
        MessageKind::Quit => LineView { timestamp: ts, prefix: seq![], body: "← "@ + m.text, is_event: true },
        _ => LineView { timestamp: ts, prefix: seq![], body: "— "@ + m.text, is_event: true },
    }
}

/// How a run of lines is drawn.
pub open spec fn lines_of(ms: Seq<MessageView>, show_timestamps: bool) -> Seq<LineView> {
    ms.map_values(|m: MessageView| line_of(m, show_timestamps))
}

/// The lines drawn for channel `ch` of server `i`.
pub open spec fn shown_lines(
    log: Seq<MessageView>,
    i: usize,
    ch: Seq<char>,
    max: usize,
    show_join_part: bool,
) -> Seq<MessageView> {
    visible(window(channel_log(log, i, ch), max), show_join_part)
}

/// Every drawn line's time stamp can be cut at byte 5.
pub open spec fn stamps_cuttable(ms: Seq<MessageView>) -> bool {
    forall|k: int| 0 <= k < ms.len() ==> (#[trigger] cut_bytes(ms[k].time, 5)) is Some
}

fn width_of(c: char) -> (w: usize)
    ensures
        w as int == utf8_width(c),
{
    let n = c as u32;
    if n < 0x80 {
        1
    } else if n < 0x800 {
        2
    } else if n < 0x10000 {
        3
    } else {
        4
    }
}

/// The first 5 bytes of a time stamp, when they end on a character boundary.
fn cut_time(t: &String) -> (r: Option<String>)
    ensures
        match r {
            Some(s) => Some(s@),
            None => None::<Seq<char>>,
        } == cut_bytes(t@, 5),
{
    let cs = chars_of(t.as_str());
    let mut budget: usize = 5;
    let mut i: usize = 0;
    assert(cs@.subrange(0, cs@.len() as int) =~= cs@);
    assert(cs@.subrange(0, 0) =~= Seq::<char>::empty());
    while i < cs.len() && budget > 0
        invariant
            i <= cs@.len(),
            cs@ == t@,
            budget <= 5,
            cut_bytes(cs@, 5) == match cut_bytes(cs@.subrange(i as int, cs@.len() as int), budget as int) {
                Some(r) => Some(cs@.subrange(0, i as int) + r),
                None => None,
            },
        decreases cs.len() - i,
    {
        let w = width_of(cs[i]);
        let ghost rest = cs@.subrange(i as int, cs@.len() as int);
        if w > budget {
            proof {
                assert(rest[0] == cs@[i as int]);
                assert(cut_bytes(rest, budget as int) is None);
                assert(cut_bytes(cs@, 5) is None);
                assert(cs@ == t@);
            }
            return None;
        }
        proof {
            assert(rest[0] == cs@[i as int]);
            assert(rest.drop_first() =~= cs@.subrange(i + 1, cs@.len() as int));
            assert(cs@.subrange(0, i + 1) =~= cs@.subrange(0, i as int) + seq![cs@[i as int]]);
            match cut_bytes(rest.drop_first(), budget - w) {
                Some(r2) => {
                    assert(cs@.subrange(0, i as int) + (seq![rest[0]] + r2) =~= cs@.subrange(0, i + 1) + r2);
                },
                None => {},
            }
        }
        budget = budget - w;
        i = i + 1;
    }
    proof {
        assert(cut_bytes(cs@.subrange(i as int, cs@.len() as int), budget as int) == Some(Seq::<char>::empty()));
        assert(cs@.subrange(0, i as int) + Seq::<char>::empty() =~= cs@.subrange(0, i as int));
    }
    Some(string_of(&slice_chars(&cs, 0, i)))
}

fn line_for(m: &IrcMessage, show_timestamps: bool) -> (l: ChatLine)
    requires
        show_timestamps ==> cut_bytes(m.time@, 5) is Some,
    ensures
        l@ == line_of(m@, show_timestamps),
{
    let ts = if show_timestamps {
        let cut = match cut_time(&m.time) {
            Some(c) => c,
            None => String::new(),
        };
        let mut t = "[".to_owned();
        t.append(cut.as_str());
        t.append("]");
        t
    } else {
        String::new()
    };
    let nick = match &m.sender {
        Some(n) => n.clone(),
        None => "?".to_owned(),
    };
    match m.kind {
        MessageKind::Chat => {
            let mut p = "<".to_owned();
            p.append(nick.as_str());
            p.append(">");
            ChatLine { timestamp: ts, prefix: p, body: m.text.clone(), is_event: false }
        },
        MessageKind::Action => {
            let mut p = "* ".to_owned();
            p.append(nick.as_str());
            ChatLine { timestamp: ts, prefix: p, body: m.text.clone(), is_event: false }
        },
        MessageKind::Join => {
            let mut b = "→ ".to_owned();
            b.append(m.text.as_str());
            ChatLine { timestamp: ts, prefix: String::new(), body: b, is_event: true }
        },
        MessageKind::Part | MessageKind::Quit => {
            let mut b = "← ".to_owned();
            b.append(m.text.as_str());
            ChatLine { timestamp: ts, prefix: String::new(), body: b, is_event: true }
        },
        _ => {
            let mut b = "— ".to_owned();
            b.append(m.text.as_str());
            ChatLine { timestamp: ts, prefix: String::new(), body: b, is_event: true }
        },
    }
}

/// The lines of server `server_idx`'s channel `channel` as they are drawn
/// (at most the last `max_scrollback`, joins and parts only if
/// `show_join_part`), and whether the window shows no line of the channel
/// at all (then a placeholder is drawn).
pub fn channel_lines(
    messages: &Vec<IrcMessage>,
    server_idx: usize,
    channel: &String,
    max_scrollback: usize,
    show_join_part: bool,
    show_timestamps: bool,
) -> (r: (Vec<ChatLine>, bool))
    requires
        show_timestamps ==> stamps_cuttable(
            shown_lines(messages_view(messages@), server_idx, channel@, max_scrollback, show_join_part),
        ),
    ensures
        lines_view(r.0@) == lines_of(
            shown_lines(messages_view(messages@), server_idx, channel@, max_scrollback, show_join_part),
            show_timestamps,
        ),
        r.1 == (window(channel_log(messages_view(messages@), server_idx, channel@), max_scrollback).len() == 0),
{
    let ghost log = messages_view(messages@);
    // the channel's lines, as positions into the log
    let mut picked: Vec<usize> = Vec::new();
    let mut k: usize = 0;
    while k < messages.len()
        invariant
            k <= messages@.len(),
            log == messages_view(messages@),
            picked@.len() == channel_log(log.take(k as int), server_idx, channel@).len(),
            forall|j: int| 0 <= j < picked@.len() ==> #[trigger] picked@[j] < k,
            forall|j: int|
                0 <= j < picked@.len() ==> log[#[trigger] picked@[j] as int] == channel_log(
                    log.take(k as int),
                    server_idx,
                    channel@,
                )[j],
        decreases messages.len() - k,
    {
        let ghost t = log.take(k + 1);
        let ghost before = picked@;
        proof {
            assert(t.drop_last() =~= log.take(k as int));
            assert(t.last() == log[k as int]);
        }
        if messages[k].server == server_idx && messages[k].target == *channel {
            picked.push(k);
            proof {
                assert forall|j: int| 0 <= j < picked@.len() implies log[#[trigger] picked@[j] as int]
                    == channel_log(t, server_idx, channel@)[j] by {
                    if j < before.len() {
                        assert(picked@[j] == before[j]);
                    }
                }
            }
        }
        k = k + 1;
    }
    assert(log.take(messages@.len() as int) =~= log);
    let ghost all = channel_log(log, server_idx, channel@);
    let n = picked.len();
    let start = if n > max_scrollback {
        n - max_scrollback
    } else {
        0
    };
    let ghost win = window(all, max_scrollback);
    assert(win =~= all.subrange(start as int, n as int));
    let empty = start == n;
    let mut lines: Vec<ChatLine> = Vec::new();
    let mut p: usize = start;
    while p < n
        invariant
            start <= p <= n,
            n == picked@.len(),
            n == all.len(),
            log == messages_view(messages@),
            win == all.subrange(start as int, n as int),
            forall|j: int| 0 <= j < n ==> #[trigger] picked@[j] < messages@.len(),
            forall|j: int| 0 <= j < n ==> log[#[trigger] picked@[j] as int] == all[j],
            show_timestamps ==> stamps_cuttable(visible(win, show_join_part)),
            lines_view(lines@) == lines_of(visible(win.take(p - start), show_join_part), show_timestamps),
        decreases n - p,
    {
        let m = &messages[picked[p]];
        let ghost mv = all[p as int];
        assert(m@ == mv);
        let ghost pre = win.take(p - start);
        let ghost post = win.take(p - start + 1);
        proof {
            assert(post.drop_last() =~= pre);
            assert(post.last() == mv);
            lemma_visible_prefix(win, p - start + 1, show_join_part);
        }
        let membership = match m.kind {
            MessageKind::Join => true,
            MessageKind::Part => true,
            MessageKind::Quit => true,
            _ => false,
        };
        if show_join_part || !membership {
            proof {
                assert(visible(post, show_join_part) == visible(pre, show_join_part).push(mv));
                if show_timestamps {
                    let v = visible(win, show_join_part);
                    let k = visible(pre, show_join_part).len() as int;
                    assert(visible(post, show_join_part)[k] == mv);
                    assert(v[k] == mv);
                    assert(cut_bytes(v[k].time, 5) is Some);
                }
            }
            let l = line_for(m, show_timestamps);
            let ghost before = lines_view(lines@);
            lines.push(l);
            assert(lines_view(lines@) =~= before.push(l@));
            assert(lines_of(visible(post, show_join_part), show_timestamps) =~= lines_of(
                visible(pre, show_join_part),
                show_timestamps,
            ).push(line_of(mv, show_timestamps)));
        } else {
            assert(visible(post, show_join_part) == visible(pre, show_join_part));
        }
        p = p + 1;
    }
    assert(win.take(n - start) =~= win);
    (lines, empty)
}

/// The visible lines of a prefix are a prefix of the visible lines.
proof fn lemma_visible_prefix(ms: Seq<MessageView>, k: int, show_join_part: bool)
    requires
        0 <= k <= ms.len(),
    ensures
        visible(ms.take(k), show_join_part).len() <= visible(ms, show_join_part).len(),
        forall|j: int|
            0 <= j < visible(ms.take(k), show_join_part).len() ==> #[trigger] visible(
                ms.take(k),
                show_join_part,
            )[j] == visible(ms, show_join_part)[j],
    decreases ms.len(),
{
    if k < ms.len() {
        assert(ms.drop_last().take(k) =~= ms.take(k));
        lemma_visible_prefix(ms.drop_last(), k, show_join_part);
    } else {
        assert(ms.take(k) =~= ms);
    }
}

// ───────────────────────────── server pages ─────────────────────────────

/// `n` in decimal (`{}` of an unsigned number).
pub open spec fn decimal(n: nat) -> Seq<char>
    decreases n,
{
    if n < 10 {
        seq![digit(n as int)]
    } else {
        decimal(n / 10).push(digit((n % 10) as int))
    }
}

/// The text of the server drawer for server `i` (below the window's server
/// count): name, address of the configured server (`?:0` when there is
/// none), current nickname, profile, state and channels.
pub open spec fn server_info_spec(m: ModelView, i: int) -> Seq<char> {
    let s = m.servers[i];
    let host = if i < m.config.len() {
        m.config[i].host
    } else {
        "?"@
    };
    let port: nat = if i < m.config.len() {
        m.config[i].port as nat
    } else {
        0
    };
    "Server: "@ + s.name + "\nHost: "@ + host + ":"@ + decimal(port) + "\nNick: "@
        + s.current_nick + "\nProfile: default\nStatus: "@ + state_label(s.connection)
        + "\nChannels: "@ + join_with(s.channels, ", "@)
}

/// The rows of a server page's channel list.
pub open spec fn channel_rows(chs: Seq<Seq<char>>) -> Seq<Seq<char>> {
    chs.map_values(|c: Seq<char>| "  # "@ + c)
}

/// What the page of one server shows: its name, a caption with nickname,
/// profile and state, its channels, and the message of its button.
#[derive(Debug)]
pub struct ServerPage {
    pub title: String,
    pub caption: String,
    pub channels: Vec<String>,
    pub action: Message,
}

pub struct ServerPageView {
    pub title: Seq<char>,
    pub caption: Seq<char>,
    pub channels: Seq<Seq<char>>,
    pub action: Option<ToggleView>,
}

impl View for ServerPage {
    type V = ServerPageView;

    open spec fn view(&self) -> ServerPageView {
        ServerPageView {
            title: self.title@,
            caption: self.caption@,
            channels: strs_view(self.channels@),
            action: opt_toggle_view(Some(self.action)),
        }
    }
}

/// The page of server `i` (below the window's server count); its button
/// disconnects a connected server and connects any other.
pub open spec fn server_page_spec(m: ModelView, i: int) -> ServerPageView {
    let s = m.servers[i];
    ServerPageView {
        title: s.name,
        caption: "Nick: "@ + s.current_nick + "  |  Profile: default  |  "@ + state_label(
            s.connection,
        ),
        channels: channel_rows(s.channels),
        action: Some(
            if s.connection is Connected {
                ToggleView::Disconnect(i as usize)
            } else {
                ToggleView::Connect(i as usize)
            },
        ),
    }
}

/// `n` in decimal.
fn decimal_exec(n: u64) -> (r: String)
    ensures
        r@ == decimal(n as nat),
    decreases n,
{
    if n < 10 {
        let mut s = String::new();
        push_char(&mut s, digit_char(n));
        s
    } else {
        let mut s = decimal_exec(n / 10);
        push_char(&mut s, digit_char(n % 10));
        s
    }
}

/// The strings of `v` joined with `sep` between them.
fn join_strings(v: &Vec<String>, sep: &str) -> (r: String)
    ensures
        r@ == join_with(strs_view(v@), sep@),
{
    let mut r = String::new();
    let mut i: usize = 0;
    while i < v.len()
        invariant
            i <= v@.len(),
            r@ == join_with(strs_view(v@).take(i as int), sep@),
        decreases v.len() - i,
    {
        proof {
            let t = strs_view(v@).take(i as int + 1);
            assert(t.drop_last() =~= strs_view(v@).take(i as int));
            assert(t.last() == v@[i as int]@);
            if i == 0 {
                assert(strs_view(v@).take(0) =~= Seq::<Seq<char>>::empty());
            }
        }
        if i > 0 {
            r.append(sep);
        }
        r.append(v[i].as_str());
        i = i + 1;
    }
    assert(strs_view(v@).take(v@.len() as int) =~= strs_view(v@));
    r
}

impl ChatModel {
    /// The text of the server drawer for server `idx`; `None` when there is
    /// no such server.
    pub fn server_info_text(&self, idx: usize) -> (r: Option<String>)
        ensures
            r is None <==> idx >= self@.servers.len(),
            r matches Some(t) ==> t@ == server_info_spec(self@, idx as int),
    {
        if idx >= self.servers.len() {
            return None;
        }
        let s = &self.servers[idx];
        assert(self@.servers[idx as int] == s@);
        let (host, port) = if idx < self.config.servers.len() {
            assert(self@.config[idx as int] == self.config.servers@[idx as int]@);
            (self.config.servers[idx].host.clone(), self.config.servers[idx].port)
        } else {
            ("?".to_owned(), 0u16)
        };
        let mut r = cat4("Server: ", s.name.as_str(), "\nHost: ", host.as_str());
        r.append(":");
        let p = decimal_exec(port as u64);
        r.append(p.as_str());
        r.append("\nNick: ");
        r.append(s.current_nick.as_str());
        r.append("\nProfile: default\nStatus: ");
        let st = state_text(&s.connection);
        r.append(st.as_str());
        r.append("\nChannels: ");
        let chs = join_strings(&s.channels, ", ");
        r.append(chs.as_str());
        Some(r)
    }

    /// The page of server `idx`; `None` when there is no such server.
    pub fn server_page(&self, idx: usize) -> (r: Option<ServerPage>)
        ensures
            r is None <==> idx >= self@.servers.len(),
            r matches Some(p) ==> p@ == server_page_spec(self@, idx as int),
    {
        if idx >= self.servers.len() {
            return None;
        }
        let s = &self.servers[idx];
        assert(self@.servers[idx as int] == s@);
        let st = state_text(&s.connection);
        let mut caption = cat3("Nick: ", s.current_nick.as_str(), "  |  Profile: default  |  ");
        caption.append(st.as_str());
        let mut rows: Vec<String> = Vec::new();
        let mut k: usize = 0;
        while k < s.channels.len()
            invariant
                k <= s.channels@.len(),
                strs_view(rows@) == channel_rows(strs_view(s.channels@)).take(k as int),
            decreases s.channels.len() - k,
        {
            let row = cat2("  # ", s.channels[k].as_str());
            let ghost before = strs_view(rows@);
            rows.push(row);
            proof {
                let all = channel_rows(strs_view(s.channels@));
                assert(strs_view(s.channels@)[k as int] == s.channels@[k as int]@);
                assert(all[k as int] == "  # "@ + s.channels@[k as int]@);
                assert(strs_view(rows@) =~= before.push(row@));
                assert(all.take(k as int + 1) =~= all.take(k as int).push(all[k as int]));
                assert(strs_view(rows@) =~= all.take(k as int + 1));
            }
            k = k + 1;
        }
        assert(channel_rows(strs_view(s.channels@)).take(k as int) =~= channel_rows(
            strs_view(s.channels@),
        ));
        let action = match &s.connection {
            ConnectionState::Connected => Message::Disconnect(idx),
            _ => Message::Connect(idx),
        };
        Some(ServerPage { title: s.name.clone(), caption, channels: rows, action })
    }
}

/// The text of the welcome page: how many servers are configured, and the
/// one user profile (each server carries its own nickname settings).
pub open spec fn welcome_spec(m: ModelView) -> Seq<char> {
    "Servers configured: "@ + decimal(m.config.len()) + "\nUser profiles: 1\n\nConnect to a server or add a new one."@
}

impl ChatModel {
    /// The text of the welcome page.
    pub fn welcome_text(&self) -> (r: String)
        ensures
            r@ == welcome_spec(self@),
    {
        let n = decimal_exec(self.config.servers.len() as u64);
        cat3(
            "Servers configured: ",
            n.as_str(),
            "\nUser profiles: 1\n\nConnect to a server or add a new one.",
        )
    }
}

/// Whether the command line asks for the pipe mode (`--pipe` or `-p`).
pub fn wants_pipe(args: &Vec<String>) -> (b: bool)
    ensures
        b == exists|k: int|
            0 <= k < args@.len() && (args@[k]@ == "--pipe"@ || args@[k]@ == "-p"@),
{
    let mut k: usize = 0;
    while k < args.len()
        invariant
            k <= args@.len(),
            forall|j: int| 0 <= j < k ==> !(args@[j]@ == "--pipe"@ || args@[j]@ == "-p"@),
        decreases args.len() - k,
    {
        let a = chars_of(args[k].as_str());
        if is_word(&a, "--pipe") || is_word(&a, "-p") {
            return true;
        }
        k = k + 1;
    }
    false
}

} // verus!
