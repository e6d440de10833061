//! Channel ingestion and the channel tree shown for a guild.
use vstd::prelude::*;
use crate::api::{Channel, CATEGORY_CHANNEL, TEXT_CHANNEL, VOICE_CHANNEL};
use crate::sorting::{lemma_sort_permutes, sort_by_keys, stable_sort};
use vstd::seq_lib::to_multiset_contains;

verus! {

/// One line of the channel tree; each holds an index into the channel list.
#[derive(Clone, Copy, Debug, PartialEq, Eq, Structural)]
pub enum ChannelRow {
    /// A text or voice channel outside any category.
    TopLevel(usize),
    /// A category header.
    Category(usize),
    /// A text or voice channel under the category header above it.
    Nested(usize),
}

/// Kinds a guild's channel list keeps.
pub open spec fn kept_kind(c: Channel) -> bool {
    c.channel_type == TEXT_CHANNEL || c.channel_type == VOICE_CHANNEL || c.channel_type
        == CATEGORY_CHANNEL
}

/// Text and voice channels, the ones a user can open.
pub open spec fn is_leaf(c: Channel) -> bool {
    c.channel_type == TEXT_CHANNEL || c.channel_type == VOICE_CHANNEL
}

pub open spec fn is_category(c: Channel) -> bool {
    c.channel_type == CATEGORY_CHANNEL
}

/// Whether `c` is a text or voice channel whose parent has id `id`.
pub open spec fn is_child_of(c: Channel, id: Seq<char>) -> bool {
    is_leaf(c) && match c.parent_id {
        Some(p) => p@ == id,
        None => false,
    }
}

pub open spec fn kept_kinds() -> spec_fn(Channel) -> bool {
    |c: Channel| kept_kind(c)
}

pub open spec fn position_key() -> spec_fn(Channel) -> int {
    |c: Channel| c.position as int
}

/// What ingestion keeps of a fetched channel list: text, voice and category
/// channels only, stably ordered by position.
pub open spec fn normalized(cs: Seq<Channel>) -> Seq<Channel> {
    stable_sort(cs.filter(kept_kinds()), position_key())
}

/// The indices below `n` that satisfy `p`, ascending.
pub open spec fn indices_where(n: int, p: spec_fn(int) -> bool) -> Seq<usize>
    decreases n,
{
    if n <= 0 {
        Seq::empty()
    } else if p(n - 1) {
        indices_where(n - 1, p).push((n - 1) as usize)
    } else {
        indices_where(n - 1, p)
    }
}

pub open spec fn top_level_at(cs: Seq<Channel>) -> spec_fn(int) -> bool {
    |i: int| is_leaf(cs[i]) && cs[i].parent_id is None
}

pub open spec fn category_at(cs: Seq<Channel>) -> spec_fn(int) -> bool {
    |i: int| is_category(cs[i])
}

pub open spec fn child_at(cs: Seq<Channel>, id: Seq<char>) -> spec_fn(int) -> bool {
    |i: int| is_child_of(cs[i], id)
}

/// Children of the category with id `id`, stably ordered by position.
pub open spec fn children(cs: Seq<Channel>, id: Seq<char>) -> Seq<usize> {
    stable_sort(
        indices_where(cs.len() as int, child_at(cs, id)),
        |i: usize| cs[i as int].position as int,
    )
}

/// Each category of `cats` as a header followed by its children.
pub open spec fn category_groups(cs: Seq<Channel>, cats: Seq<usize>) -> Seq<ChannelRow>
    decreases cats.len(),
{
    if cats.len() == 0 {
        Seq::empty()
    } else {
        let k = cats.last();
        category_groups(cs, cats.drop_last()).push(ChannelRow::Category(k)) + children(
            cs,
            cs[k as int].id@,
        ).map_values(|i: usize| ChannelRow::Nested(i))
    }
}

/// The channel tree: top-level text and voice channels in list order, then
/// each category in list order followed by its children.
pub open spec fn hierarchy(cs: Seq<Channel>) -> Seq<ChannelRow> {
    indices_where(cs.len() as int, top_level_at(cs)).map_values(|i: usize| ChannelRow::TopLevel(i))
        + category_groups(cs, indices_where(cs.len() as int, category_at(cs)))
}

/// The channel index a row refers to.
pub open spec fn row_index(r: ChannelRow) -> usize {
    match r {
        ChannelRow::TopLevel(i) => i,
        ChannelRow::Category(i) => i,
        ChannelRow::Nested(i) => i,
    }
}

proof fn lemma_indices_where(n: int, p: spec_fn(int) -> bool)
    requires
        n <= usize::MAX,
    ensures
        forall|t: int|
            0 <= t < indices_where(n, p).len() ==> {
                let i = #[trigger] indices_where(n, p)[t];
                &&& i < n
                &&& p(i as int)
            },
    decreases n,
{
    if n > 0 {
        let prev = indices_where(n - 1, p);
        lemma_indices_where(n - 1, p);
        assert forall|t: int| 0 <= t < prev.len() implies indices_where(n, p)[t] == prev[t] by {}
    }
}

proof fn lemma_groups_omit(cs: Seq<Channel>, cats: Seq<usize>, j: int)
    requires
        cs.len() <= usize::MAX,
        0 <= j < cs.len(),
        is_leaf(cs[j]),
        forall|t: int| 0 <= t < cats.len() ==> #[trigger] cats[t] < cs.len() && is_category(cs[cats[t] as int]),
        forall|k: int| 0 <= k < cs.len() && is_category(cs[k]) ==> !is_child_of(cs[j], #[trigger] cs[k].id@),
    ensures
        forall|t: int| 0 <= t < category_groups(cs, cats).len() ==> row_index(
            #[trigger] category_groups(cs, cats)[t],
        ) != j,
    decreases cats.len(),
{
    if cats.len() > 0 {
        let k = cats.last();
        let prev = cats.drop_last();
        assert forall|t: int| 0 <= t < prev.len() implies #[trigger] prev[t] < cs.len() && is_category(cs[prev[t] as int]) by {
            assert(prev[t] == cats[t]);
        }
        lemma_groups_omit(cs, prev, j);
        let id = cs[k as int].id@;
        let found = indices_where(cs.len() as int, child_at(cs, id));
        let kids = children(cs, id);
        lemma_indices_where(cs.len() as int, child_at(cs, id));
        lemma_sort_permutes(found, |i: usize| cs[i as int].position as int);
        let head = category_groups(cs, prev).push(ChannelRow::Category(k));
        let tail = kids.map_values(|i: usize| ChannelRow::Nested(i));
        assert forall|t: int| 0 <= t < (head + tail).len() implies row_index(#[trigger] (head + tail)[t]) != j by {
            if t >= head.len() {
                let i = kids[t - head.len()];
                assert(kids.contains(i));
                to_multiset_contains(kids, i);
                to_multiset_contains(found, i);
                let u = choose|u: int| 0 <= u < found.len() && found[u] == i;
                assert(child_at(cs, id)(found[u] as int));
            } else if t < head.len() - 1 {
                assert((head + tail)[t] == category_groups(cs, prev)[t]);
            }
        }
    }
}

/// A text or voice channel whose parent id names no category of the list
/// appears nowhere in the channel tree.
pub proof fn lemma_orphan_omitted(cs: Seq<Channel>, j: int)
    requires
        cs.len() <= usize::MAX,
        0 <= j < cs.len(),
        is_leaf(cs[j]),
        cs[j].parent_id is Some,
        forall|k: int| 0 <= k < cs.len() && is_category(cs[k]) ==> cs[k].id@ != (
        #[trigger] cs[j].parent_id)->Some_0@,
    ensures
        forall|t: int| 0 <= t < hierarchy(cs).len() ==> row_index(#[trigger] hierarchy(cs)[t]) != j,
{
    let top = indices_where(cs.len() as int, top_level_at(cs));
    let cats = indices_where(cs.len() as int, category_at(cs));
    lemma_indices_where(cs.len() as int, top_level_at(cs));
    lemma_indices_where(cs.len() as int, category_at(cs));
    assert forall|t: int| 0 <= t < cats.len() implies #[trigger] cats[t] < cs.len() && is_category(cs[cats[t] as int]) by {
        assert(category_at(cs)(cats[t] as int));
    }
    lemma_groups_omit(cs, cats, j);
    let head = top.map_values(|i: usize| ChannelRow::TopLevel(i));
    assert forall|t: int| 0 <= t < hierarchy(cs).len() implies row_index(#[trigger] hierarchy(cs)[t]) != j by {
        if t < head.len() {
            assert(top_level_at(cs)(top[t] as int));
        } else {
            assert(hierarchy(cs)[t] == category_groups(cs, cats)[t - head.len()]);
        }
    }
}

/// Keeps text, voice and category channels and orders them stably by
/// position, as the channel list of a guild is stored.
pub fn normalize_channels(channels: Vec<Channel>) -> (r: Vec<Channel>)
    ensures
        r@ == normalized(channels@),
{
    let ghost s = channels@;
    let ghost pred = kept_kinds();
    let n = channels.len();
    let mut rest = channels;
    let mut kept: Vec<Channel> = Vec::new();
    let mut keys: Vec<i128> = Vec::new();
    let mut i: usize = 0;
    assert(s.take(0) =~= Seq::<Channel>::empty());
    assert(s.take(0).filter(pred) =~= Seq::<Channel>::empty()) by {
        reveal(Seq::filter);
    }
    assert(s.skip(0) =~= s);
    while i < n
        invariant
            n == s.len(),
            i <= n,
            pred == kept_kinds(),
            rest@ == s.skip(i as int),
            kept@ == s.take(i as int).filter(pred),
            keys.len() == kept.len(),
            forall|t: int| 0 <= t < keys.len() ==> keys[t] as int == position_key()(
                #[trigger] kept@[t],
            ),
        decreases n - i,
    {
        let c = rest.remove(0);
        proof {
            assert(s.skip(i as int).remove(0) =~= s.skip(i + 1));
            assert(s.take(i + 1) =~= s.take(i as int).push(c));
            s.take(i as int).lemma_filter_push(c, pred);
            assert(pred(c) == kept_kind(c));
        }
        if c.channel_type == TEXT_CHANNEL || c.channel_type == VOICE_CHANNEL || c.channel_type
            == CATEGORY_CHANNEL {
            let p = c.position;
            kept.push(c);
            keys.push(p as i128);
        }
        i = i + 1;
    }
    assert(s.take(n as int) =~= s);
    sort_by_keys(kept, &keys, Ghost(position_key()))
}

/// Builds the channel tree of a stored channel list. Channels whose parent is
/// not a category of the list are left out.
pub fn build_hierarchy(channels: &Vec<Channel>) -> (r: Vec<ChannelRow>)
    ensures
        r@ == hierarchy(channels@),
{
    let ghost cs = channels@;
    let n = channels.len();
    let mut rows: Vec<ChannelRow> = Vec::new();
    let mut i: usize = 0;
    while i < n
        invariant
            n == cs.len(),
            cs == channels@,
            i <= n,
            rows@ == indices_where(i as int, top_level_at(cs)).map_values(
                |j: usize| ChannelRow::TopLevel(j),
            ),
        decreases n - i,
    {
        let c = &channels[i];
        if (c.channel_type == TEXT_CHANNEL || c.channel_type == VOICE_CHANNEL)
            && c.parent_id.is_none() {
            rows.push(ChannelRow::TopLevel(i));
        }
        proof {
            assert(rows@ =~= indices_where(i + 1, top_level_at(cs)).map_values(
                |j: usize| ChannelRow::TopLevel(j),
            ));
        }
        i = i + 1;
    }
    let ghost top = rows@;
    let mut k: usize = 0;
    while k < n
        invariant
            n == cs.len(),
            cs == channels@,
            k <= n,
            rows@ == top + category_groups(cs, indices_where(k as int, category_at(cs))),
        decreases n - k,
    {
        if channels[k].channel_type == CATEGORY_CHANNEL {
            let ghost before = rows@;
            rows.push(ChannelRow::Category(k));
            let kids = children_of(channels, k);
            let mut t: usize = 0;
            while t < kids.len()
                invariant
                    t <= kids.len(),
                    rows@ == before.push(ChannelRow::Category(k)) + kids@.take(t as int).map_values(
                        |j: usize| ChannelRow::Nested(j),
                    ),
                decreases kids.len() - t,
            {
                rows.push(ChannelRow::Nested(kids[t]));
                proof {
                    assert(rows@ =~= before.push(ChannelRow::Category(k)) + kids@.take(
                        t + 1,
                    ).map_values(|j: usize| ChannelRow::Nested(j)));
                }
                t = t + 1;
            }
            proof {
                let cats = indices_where(k + 1, category_at(cs));
                assert(cats.drop_last() == indices_where(k as int, category_at(cs)));
                assert(kids@.take(t as int) =~= kids@);
                assert(rows@ =~= top + category_groups(cs, cats));
            }
        }
        k = k + 1;
    }
    rows
}

/// Children of the category at index `k`, stably ordered by position.
fn children_of(channels: &Vec<Channel>, k: usize) -> (r: Vec<usize>)
    requires
        k < channels.len(),
    ensures
        r@ == children(channels@, channels@[k as int].id@),
{
    let ghost cs = channels@;
    let ghost id = cs[k as int].id@;
    let cat_id = &channels[k].id;
    let mut found: Vec<usize> = Vec::new();
    let mut keys: Vec<i128> = Vec::new();
    let mut j: usize = 0;
    while j < channels.len()
        invariant
            cs == channels@,
            id == cat_id@,
            j <= channels.len(),
            found@ == indices_where(j as int, child_at(cs, id)),
            keys.len() == found.len(),
            forall|t: int| 0 <= t < keys.len() ==> keys[t] as int == cs[found@[t] as int].position,
        decreases channels.len() - j,
    {
        let c = &channels[j];
        let child = if c.channel_type == TEXT_CHANNEL || c.channel_type == VOICE_CHANNEL {
            match &c.parent_id {
                Some(p) => *p == *cat_id,
                None => false,
            }
        } else {
            false
        };
        if child {
            found.push(j);
            keys.push(c.position as i128);
        }
        j = j + 1;
    }
    sort_by_keys(found, &keys, Ghost(|i: usize| cs[i as int].position as int))
}

} // verus!
