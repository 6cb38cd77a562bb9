//! Properties of the library that span its functions: what every step
//! keeps, what one step undoes of another, and what reading gives back of
//! writing.
use vstd::prelude::*;
use vstd::relations::sorted_by;

use crate::chat::{
    ContextPage, EffectView, Event, ModelView, PlanView, announced, any_promoted, after_announce,
    model_wf, promoted, receive_spec, slash_plan_spec, tick_spec, update_spec, users_of, without,
};
use crate::irc_client::{
    CommandToServer, CommandView, MessageKind, MessageView, IncomingView, clock_text, parsed, names_text,
};
use crate::order::{lex_leq, lemma_lex_total_ordering, sorted_strings};
use crate::text::{
    CharClass, in_class, is_nick_prefix, keep_nonempty, split_all, strip_each, strip_front,
};

verus! {

/// Every reaction of the window keeps its well-formedness: one state per
/// configured server, each at its own position, and the notification mark
/// inside the log. (A window holds fewer than `usize::MAX` servers.)
pub proof fn law_update_keeps_wf(m: ModelView, e: Event, time: Seq<char>)
    requires
        model_wf(m),
        m.servers.len() < usize::MAX,
    ensures
        model_wf(update_spec(m, e, time).0),
{
    let r = update_spec(m, e, time).0;
    match e {
        Event::AddServer(c) => {
            assert forall|i: int| 0 <= i < r.servers.len() implies #[trigger] r.servers[i].idx == i by {
                if i < m.servers.len() {
                    assert(r.servers[i] == m.servers[i]);
                }
            }
        },
        Event::Tick => {
            assert forall|i: int| 0 <= i < r.servers.len() implies #[trigger] r.servers[i].idx == i by {
                assert(m.servers[i].idx == i);
            }
        },
        Event::Connect(i) => {
            assert forall|j: int| 0 <= j < r.servers.len() implies #[trigger] r.servers[j].idx == j by {
                assert(m.servers[j].idx == j);
            }
        },
        Event::Disconnect(i) => {
            assert forall|j: int| 0 <= j < r.servers.len() implies #[trigger] r.servers[j].idx == j by {
                assert(m.servers[j].idx == j);
            }
        },
        Event::SendMessage => {
            assert forall|j: int| 0 <= j < r.servers.len() implies #[trigger] r.servers[j].idx == j by {
                assert(m.servers[j].idx == j);
            }
        },
        _ => {},
    }
}

/// Taking in a line keeps the window's well-formedness, and appends the line
/// to the log.
pub proof fn law_receive_keeps_wf(m: ModelView, msg: MessageView)
    requires
        model_wf(m),
    ensures
        model_wf(receive_spec(m, msg)),
        receive_spec(m, msg).log == m.log.push(msg),
{
    let r = receive_spec(m, msg);
    law_user_lists_stay_sorted(m, msg);
    assert forall|i: int| 0 <= i < r.servers.len() implies #[trigger] r.servers[i].idx == i by {
        assert(m.servers[i].idx == i);
    }
}

proof fn lemma_without_drops(s: Seq<Seq<char>>, x: Seq<char>)
    ensures
        !without(s, x).contains(x),
        forall|y: Seq<char>| #[trigger] without(s, x).contains(y) ==> s.contains(y),
    decreases s.len(),
{
    if s.len() > 0 {
        lemma_without_drops(s.drop_last(), x);
        let w = without(s.drop_last(), x);
        assert forall|y: Seq<char>| without(s, x).contains(y) implies s.contains(y) by {
            let k = choose|k: int| 0 <= k < without(s, x).len() && without(s, x)[k] == y;
            if k < w.len() {
                assert(w[k] == y);
                assert(w.contains(y));
                let j = choose|j: int| 0 <= j < s.drop_last().len() && s.drop_last()[j] == y;
                assert(s[j] == y);
            } else {
                assert(s[s.len() - 1] == y);
            }
        }
        if without(s, x).contains(x) {
            let k = choose|k: int| 0 <= k < without(s, x).len() && without(s, x)[k] == x;
            if s.last() != x {
                assert(k < w.len() ==> w[k] == x);
            }
        }
    }
}

/// A nickname that leaves a channel (a part line after its join line) is no
/// longer listed in it.
pub proof fn law_part_after_join(m: ModelView, join: MessageView, part: MessageView)
    requires
        join.kind == MessageKind::Join,
        part.kind == MessageKind::Part || part.kind == MessageKind::Quit,
        join.sender is Some,
        part.sender == join.sender,
        part.server == join.server,
        part.target == join.target,
    ensures
        !users_of(
            receive_spec(receive_spec(m, join), part).users,
            (join.server, join.target),
        ).contains(join.sender->0),
{
    let key = (join.server, join.target);
    let m1 = receive_spec(m, join);
    assert(m1.users.contains_key(key));
    lemma_without_drops(m1.users[key], join.sender->0);
}

/// A joined nickname is listed in its channel, together with every nickname
/// listed before, and the channel's list is in sorted order.
pub proof fn law_join_lists_sender(m: ModelView, join: MessageView)
    requires
        join.kind == MessageKind::Join,
        join.sender is Some,
    ensures
        ({
            let key = (join.server, join.target);
            let before = users_of(m.users, key);
            let after = users_of(receive_spec(m, join).users, key);
            &&& after.to_multiset() == before.push(join.sender->0).to_multiset()
            &&& after.contains(join.sender->0)
            &&& forall|u: Seq<char>| before.contains(u) ==> after.contains(u)
            &&& sorted_by(after, lex_leq())
        }),
{
    let key = (join.server, join.target);
    let before = users_of(m.users, key);
    let grown = before.push(join.sender->0);
    let after = users_of(receive_spec(m, join).users, key);
    lemma_lex_total_ordering();
    grown.lemma_sort_by_ensures(lex_leq());
    assert(after == sorted_strings(grown));
    broadcast use vstd::seq_lib::group_to_multiset_ensures;
    assert(grown[grown.len() - 1] == join.sender->0);
    assert(grown.to_multiset().count(join.sender->0) > 0);
    assert(after.to_multiset().count(join.sender->0) > 0);
    assert forall|u: Seq<char>| before.contains(u) implies after.contains(u) by {
        let j = choose|j: int| 0 <= j < before.len() && before[j] == u;
        assert(grown[j] == u);
        assert(grown.contains(u));
        assert(grown.to_multiset().count(u) > 0);
    }
}

/// Removing a nickname from a sorted list leaves it sorted.
proof fn lemma_without_sorted(s: Seq<Seq<char>>, x: Seq<char>)
    requires
        sorted_by(s, lex_leq()),
    ensures
        sorted_by(without(s, x), lex_leq()),
    decreases s.len(),
{
    if s.len() > 0 {
        let rest = s.drop_last();
        assert(sorted_by(rest, lex_leq()));
        lemma_without_sorted(rest, x);
        lemma_without_drops(rest, x);
        let w = without(rest, x);
        if s.last() != x {
            let g = w.push(s.last());
            assert forall|i: int, j: int| 0 <= i < j < g.len() implies
                #[trigger] lex_leq()(g[i], g[j]) by {
                if j == w.len() {
                    assert(w.contains(w[i]));
                    let k = choose|k: int| 0 <= k < rest.len() && rest[k] == w[i];
                    assert(s[k] == w[i]);
                    assert(g[j] == s[s.len() - 1]);
                } else {
                    assert(g[i] == w[i] && g[j] == w[j]);
                }
            }
        }
    }
}

/// Every channel's nickname list stays sorted, whatever line comes in.
pub proof fn law_user_lists_stay_sorted(m: ModelView, msg: MessageView)
    requires
        forall|k: (usize, Seq<char>)| #[trigger] m.users.contains_key(k) ==> sorted_by(
            m.users[k],
            lex_leq(),
        ),
    ensures
        forall|k: (usize, Seq<char>)| #[trigger] receive_spec(m, msg).users.contains_key(k)
            ==> sorted_by(receive_spec(m, msg).users[k], lex_leq()),
{
    let key = (msg.server, msg.target);
    let after = receive_spec(m, msg).users;
    lemma_lex_total_ordering();
    if msg.sender is Some {
        if msg.kind == MessageKind::Join {
            users_of(m.users, key).push(msg.sender->0).lemma_sort_by_ensures(lex_leq());
        } else if (msg.kind == MessageKind::Part || msg.kind == MessageKind::Quit)
            && m.users.contains_key(key) {
            lemma_without_sorted(m.users[key], msg.sender->0);
        }
    }
    assert forall|k: (usize, Seq<char>)| #[trigger] after.contains_key(k) implies sorted_by(
        after[k],
        lex_leq(),
    ) by {
        if k != key {
            assert(m.users.contains_key(k));
        }
    }
}

/// The topic that a TOPIC message sets is what the channel's topic reads
/// once its line has come in.
pub proof fn law_topic_read_back(
    m: ModelView,
    idx: usize,
    nick: Option<Seq<char>>,
    channel: Seq<char>,
    topic: Seq<char>,
    time: Seq<char>,
)
    ensures
        ({
            let line = parsed(
                idx,
                IncomingView { source_nick: nick, command: CommandView::Topic(channel, Some(topic)) },
                time,
            )->0;
            &&& receive_spec(m, line).topics.contains_key((idx, channel))
            &&& receive_spec(m, line).topics[(idx, channel)] == topic
        }),
{
    let lead = match nick {
        Some(n) => n + " set topic: "@,
        None => "Topic: "@,
    };
    let text = lead + topic;
    assert(text.subrange(0, lead.len() as int) =~= lead);
    assert(text.subrange(lead.len() as int, text.len() as int) =~= topic);
}

/// A join into a channel that its (existing) server does not list yet
/// leaves the server's channel list sorted, with the channel in it and no
/// other channel lost.
pub proof fn law_join_keeps_channels_sorted(m: ModelView, join: MessageView)
    requires
        join.kind == MessageKind::Join,
        join.server < m.servers.len(),
    ensures
        ({
            let before = m.servers[join.server as int].channels;
            let after = receive_spec(m, join).servers[join.server as int].channels;
            &&& after.contains(join.target)
            &&& forall|c: Seq<char>| before.contains(c) ==> after.contains(c)
            &&& before.contains(join.target) ==> after == before
            &&& !before.contains(join.target) ==> sorted_by(after, lex_leq())
        }),
{
    let before = m.servers[join.server as int].channels;
    if !before.contains(join.target) {
        let grown = before.push(join.target);
        lemma_lex_total_ordering();
        grown.lemma_sort_by_ensures(lex_leq());
        let after = sorted_strings(grown);
        broadcast use vstd::seq_lib::group_to_multiset_ensures;
        assert(grown[grown.len() - 1] == join.target);
        assert(grown.contains(join.target));
        assert(grown.to_multiset().count(join.target) > 0);
        assert(after.to_multiset().count(join.target) > 0);
        assert forall|c: Seq<char>| before.contains(c) implies after.contains(c) by {
            let j = choose|j: int| 0 <= j < before.len() && before[j] == c;
            assert(grown[j] == c);
            assert(grown.contains(c));
            assert(grown.to_multiset().count(c) > 0);
        }
    }
}

/// A second tick right after a tick has nothing to notify and nothing to
/// redraw.
pub proof fn law_tick_settles(m: ModelView)
    requires
        model_wf(m),
    ensures
        tick_spec(tick_spec(m).0).1 == Seq::<crate::chat::EffectView>::empty(),
{
    let m1 = tick_spec(m).0;
    assert(m1.log.subrange(m1.last_notified as int, m1.log.len() as int) =~= Seq::<MessageView>::empty());
    if any_promoted(m1.servers, m1.log) {
        let i = choose|i: int| 0 <= i < m1.servers.len() && promoted(#[trigger] m1.servers[i], m1.log, i);
        assert(m1.servers[i] == if promoted(m.servers[i], m.log, i) {
            crate::irc_client::ServerView { connection: crate::irc_client::ConnectionState::Connected, ..m.servers[i] }
        } else {
            m.servers[i]
        });
    }
}

/// Toggling the same drawer page twice leaves the drawer as it was, unless
/// it was showing another page.
pub proof fn law_toggle_twice(m: ModelView, p: ContextPage, time: Seq<char>)
    requires
        !(m.show_context && m.context_page != p),
    ensures
        update_spec(update_spec(m, Event::ToggleContextPage(p), time).0, Event::ToggleContextPage(p), time).0.show_context
            == m.show_context,
{
}

/// Disconnecting a server drops its link and marks it disconnected; a
/// server with a live link is first told to quit over it.
pub proof fn law_disconnect_unlinks(m: ModelView, i: usize, time: Seq<char>)
    requires
        i < m.servers.len(),
    ensures
        !update_spec(m, Event::Disconnect(i), time).0.links.contains(i),
        update_spec(m, Event::Disconnect(i), time).0.servers[i as int].connection is Disconnected,
        m.links.contains(i) ==> update_spec(m, Event::Disconnect(i), time).1 == seq![
            EffectView::Send(i, CommandToServer::Disconnect),
            EffectView::DropLink(i),
            EffectView::RebuildNav,
        ],
{
    if m.links.contains(i) {
        assert(update_spec(m, Event::Disconnect(i), time).1 =~= seq![
            EffectView::Send(i, CommandToServer::Disconnect),
            EffectView::DropLink(i),
            EffectView::RebuildNav,
        ]);
    }
}

/// Connecting a configured server links it and marks it connecting.
pub proof fn law_connect_links(m: ModelView, i: usize, time: Seq<char>)
    requires
        model_wf(m),
        i < m.config.len(),
    ensures
        update_spec(m, Event::Connect(i), time).0.links.contains(i),
        update_spec(m, Event::Connect(i), time).0.servers[i as int].connection is Connecting,
        update_spec(m, Event::Connect(i), time).0.servers[i as int].current_nick == m.config[i as int].nick,
{
}

/// Sending a non-blank input always clears the input line.
pub proof fn law_send_clears_input(m: ModelView, time: Seq<char>)
    requires
        crate::text::trim(m.input).len() > 0,
    ensures
        update_spec(m, Event::SendMessage, time).0.input == Seq::<char>::empty(),
{
}

/// A slash command never sends anything to a server without a live
/// connection.
pub proof fn law_slash_needs_link(
    i: usize,
    cmd: Seq<char>,
    a1: Seq<char>,
    a2: Seq<char>,
    cur: Option<Seq<char>>,
)
    ensures
        slash_plan_spec(i, cmd, a1, a2, cur, false).send is None,
{
}

/// Every line made from an incoming message belongs to the server it came
/// from and carries the given time.
pub proof fn law_parsed_stamped(idx: usize, m: IncomingView, time: Seq<char>)
    ensures
        parsed(idx, m, time) matches Some(l) ==> l.server == idx && l.time == time,
{
}

/// The clock shows the time of day: whole days do not change it, and it is
/// always eight characters.
pub proof fn law_clock_daily(secs: nat)
    ensures
        clock_text(secs as int + 86400) == clock_text(secs as int),
        clock_text(secs as int).len() == 8,
{
    let s = secs as int;
    assert(((s + 86400) / 3600) == s / 3600 + 24) by (nonlinear_arith);
    assert(((s + 86400) / 60) == s / 60 + 1440) by (nonlinear_arith);
    assert((s / 3600 + 24) % 24 == (s / 3600) % 24) by (nonlinear_arith);
    assert((s / 60 + 1440) % 60 == (s / 60) % 60) by (nonlinear_arith);
    assert((s + 86400) % 60 == s % 60) by (nonlinear_arith);
}

proof fn lemma_strip_front_clean(s: Seq<char>, k: CharClass)
    ensures
        strip_front(s, k).len() == 0 || !in_class(k, strip_front(s, k)[0]),
    decreases s.len(),
{
    if s.len() > 0 && in_class(k, s[0]) {
        lemma_strip_front_clean(s.drop_first(), k);
    }
}

/// No nickname that a NAMES reply yields starts with a status prefix.
pub proof fn law_names_stripped(s: Seq<char>)
    ensures
        forall|j: int|
            0 <= j < strip_each(keep_nonempty(split_all(s, ' '))).len() ==> ({
                let p = #[trigger] strip_each(keep_nonempty(split_all(s, ' ')))[j];
                p.len() == 0 || !is_nick_prefix(p[0])
            }),
{
    let ps = keep_nonempty(split_all(s, ' '));
    assert forall|j: int| 0 <= j < strip_each(ps).len() implies ({
        let p = #[trigger] strip_each(ps)[j];
        p.len() == 0 || !is_nick_prefix(p[0])
    }) by {
        lemma_strip_front_clean(ps[j], CharClass::NickPrefix);
    }
}

} // verus!
