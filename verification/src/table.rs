//! Per-channel records (a channel's users, its topic), kept as a list of
//! entries with distinct keys and read as a map from `(server, channel)`.
use vstd::prelude::*;

verus! {

/// The value recorded for one channel of one server.
#[derive(Debug)]
pub struct ChannelEntry<T> {
    pub server: usize,
    pub channel: String,
    pub value: T,
}

pub open spec fn entry_key<T>(e: ChannelEntry<T>) -> (usize, Seq<char>) {
    (e.server, e.channel@)
}

/// No two entries share a key.
pub open spec fn keys_unique<T>(v: Seq<ChannelEntry<T>>) -> bool {
    forall|i: int, j: int|
        0 <= i < v.len() && 0 <= j < v.len() && i != j ==> entry_key(#[trigger] v[i])
            != entry_key(#[trigger] v[j])
}

/// The entries read as a map from key to value.
pub open spec fn table_view<T: DeepView>(v: Seq<ChannelEntry<T>>) -> Map<
    (usize, Seq<char>),
    T::V,
>
    decreases v.len(),
{
    if v.len() == 0 {
        Map::empty()
    } else {
        table_view(v.drop_last()).insert(entry_key(v.last()), v.last().value.deep_view())
    }
}

pub proof fn lemma_table_keys<T: DeepView>(v: Seq<ChannelEntry<T>>, k: (usize, Seq<char>))
    ensures
        table_view(v).contains_key(k) <==> exists|i: int|
            0 <= i < v.len() && entry_key(#[trigger] v[i]) == k,
    decreases v.len(),
{
    if v.len() > 0 {
        lemma_table_keys(v.drop_last(), k);
        if table_view(v.drop_last()).contains_key(k) {
            let i = choose|i: int| 0 <= i < v.len() - 1 && entry_key(#[trigger] v.drop_last()[i]) == k;
            assert(v[i] == v.drop_last()[i]);
        }
        if exists|i: int| 0 <= i < v.len() && entry_key(#[trigger] v[i]) == k {
            let i = choose|i: int| 0 <= i < v.len() && entry_key(#[trigger] v[i]) == k;
            if i < v.len() - 1 {
                assert(v.drop_last()[i] == v[i]);
            }
        }
    }
}

pub proof fn lemma_table_at<T: DeepView>(v: Seq<ChannelEntry<T>>, i: int)
    requires
        keys_unique(v),
        0 <= i < v.len(),
    ensures
        table_view(v).contains_key(entry_key(v[i])),
        table_view(v)[entry_key(v[i])] == v[i].value.deep_view(),
    decreases v.len(),
{
    if i < v.len() - 1 {
        let w = v.drop_last();
        assert(w[i] == v[i]);
        assert forall|a: int, b: int|
            0 <= a < w.len() && 0 <= b < w.len() && a != b implies entry_key(#[trigger] w[a])
            != entry_key(#[trigger] w[b]) by {
            assert(w[a] == v[a] && w[b] == v[b]);
        }
        lemma_table_at(w, i);
        assert(entry_key(v.last()) != entry_key(v[i]));
    }
}

pub proof fn lemma_table_update<T: DeepView>(v: Seq<ChannelEntry<T>>, i: int, e: ChannelEntry<T>)
    requires
        keys_unique(v),
        0 <= i < v.len(),
        entry_key(e) == entry_key(v[i]),
    ensures
        keys_unique(v.update(i, e)),
        table_view(v.update(i, e)) == table_view(v).insert(entry_key(e), e.value.deep_view()),
    decreases v.len(),
{
    let u = v.update(i, e);
    assert forall|a: int, b: int|
        0 <= a < u.len() && 0 <= b < u.len() && a != b implies entry_key(#[trigger] u[a])
        != entry_key(#[trigger] u[b]) by {
        if a != i && b != i {
            assert(u[a] == v[a] && u[b] == v[b]);
        } else if a == i {
            assert(u[b] == v[b]);
        } else {
            assert(u[a] == v[a]);
        }
    }
    if i == v.len() - 1 {
        assert(u.drop_last() =~= v.drop_last());
    } else {
        let w = v.drop_last();
        assert forall|a: int, b: int|
            0 <= a < w.len() && 0 <= b < w.len() && a != b implies entry_key(#[trigger] w[a])
            != entry_key(#[trigger] w[b]) by {
            assert(w[a] == v[a] && w[b] == v[b]);
        }
        lemma_table_update(w, i, e);
        assert(u.drop_last() =~= w.update(i, e));
        assert(entry_key(v.last()) != entry_key(e));
        assert(table_view(u) =~= table_view(v).insert(entry_key(e), e.value.deep_view()));
    }
}

pub proof fn lemma_table_push<T: DeepView>(v: Seq<ChannelEntry<T>>, e: ChannelEntry<T>)
    requires
        keys_unique(v),
        forall|i: int| 0 <= i < v.len() ==> entry_key(#[trigger] v[i]) != entry_key(e),
    ensures
        keys_unique(v.push(e)),
        table_view(v.push(e)) == table_view(v).insert(entry_key(e), e.value.deep_view()),
{
    let u = v.push(e);
    assert(u.drop_last() =~= v);
    assert forall|a: int, b: int|
        0 <= a < u.len() && 0 <= b < u.len() && a != b implies entry_key(#[trigger] u[a])
        != entry_key(#[trigger] u[b]) by {
        if a < v.len() && b < v.len() {
            assert(u[a] == v[a] && u[b] == v[b]);
        } else if a < v.len() {
            assert(u[a] == v[a]);
        } else {
            assert(u[b] == v[b]);
        }
    }
}

/// The position of the entry for `(server, channel)`, if there is one.
pub fn find_entry<T>(v: &Vec<ChannelEntry<T>>, server: usize, channel: &String) -> (r: Option<
    usize,
>)
    ensures
        r matches Some(i) ==> i < v@.len() && entry_key(v@[i as int]) == (server, channel@),
        r is None ==> forall|i: int|
            0 <= i < v@.len() ==> entry_key(#[trigger] v@[i]) != (server, channel@),
{
    let mut i: usize = 0;
    while i < v.len()
        invariant
            i <= v@.len(),
            forall|j: int| 0 <= j < i ==> entry_key(#[trigger] v@[j]) != (server, channel@),
        decreases v.len() - i,
    {
        if v[i].server == server && v[i].channel == *channel {
            return Some(i);
        }
        i = i + 1;
    }
    None
}

} // verus!
