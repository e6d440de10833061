//! Guild ordering: merging the guild list with the user's saved preference.
use vstd::prelude::*;
use crate::api::{Guild, GuildFolder, UserSettings};
use crate::sorting::{has_key, lemma_sort_of_sorted, lemma_sort_permutes, lemma_sort_sorted,
    lemma_sort_stable, sort_by_keys, sorted_by, stable_sort, with_key};
use crate::text::{blank, is_blank};

verus! {

/// The text of each id.
pub open spec fn id_views(ids: Seq<String>) -> Seq<Seq<char>> {
    ids.map_values(|s: String| s@)
}

/// The ids of all folders, folder after folder.
pub open spec fn folder_ids(fs: Seq<GuildFolder>) -> Seq<Seq<char>>
    decreases fs.len(),
{
    if fs.len() == 0 {
        Seq::empty()
    } else {
        folder_ids(fs.drop_last()) + id_views(fs.last().guild_ids@)
    }
}

/// The preferred order of guild ids: the folders' ids when there are any,
/// otherwise the flat position list.
pub open spec fn preferred_ids(st: UserSettings) -> Seq<Seq<char>> {
    let f = folder_ids(st.guild_folders@);
    if f.len() == 0 {
        id_views(st.guild_positions@)
    } else {
        f
    }
}

/// Index of the first occurrence of `id` in `ids`; `ids.len()` when absent,
/// which ranks it after every listed id.
pub open spec fn rank(ids: Seq<Seq<char>>, id: Seq<char>) -> int
    decreases ids.len(),
{
    if ids.len() == 0 {
        0
    } else if ids[0] == id {
        0
    } else {
        1 + rank(ids.drop_first(), id)
    }
}

/// The rank of each guild's id in `ids`.
pub open spec fn guild_rank(ids: Seq<Seq<char>>) -> spec_fn(Guild) -> int {
    |g: Guild| rank(ids, g.id@)
}

/// Guilds stably ordered by the rank of their id in the preferred order.
pub open spec fn ordered_guilds(gs: Seq<Guild>, st: UserSettings) -> Seq<Guild> {
    stable_sort(gs, guild_rank(preferred_ids(st)))
}

/// Guilds whose id the preferred order does not mention.
pub open spec fn unranked_guilds(gs: Seq<Guild>, st: UserSettings) -> Seq<Guild> {
    gs.filter(|g: Guild| !preferred_ids(st).contains(g.id@))
}

/// Indices of the guilds that may be listed to the user: those whose name is
/// not blank, in order.
pub open spec fn listed_indices(gs: Seq<Guild>) -> Seq<usize>
    decreases gs.len(),
{
    if gs.len() == 0 {
        Seq::empty()
    } else if blank(gs.last().name@) {
        listed_indices(gs.drop_last())
    } else {
        listed_indices(gs.drop_last()).push((gs.len() - 1) as usize)
    }
}

proof fn lemma_rank(ids: Seq<Seq<char>>, id: Seq<char>, i: int)
    requires
        0 <= i <= ids.len(),
        forall|j: int| 0 <= j < i ==> ids[j] != id,
        i == ids.len() || ids[i] == id,
    ensures
        rank(ids, id) == i,
    decreases ids.len(),
{
    if ids.len() > 0 && ids[0] != id {
        assert forall|j: int| 0 <= j < i - 1 implies ids.drop_first()[j] != id by {
            assert(ids.drop_first()[j] == ids[j + 1]);
        }
        lemma_rank(ids.drop_first(), id, i - 1);
    }
}

proof fn lemma_rank_absent(ids: Seq<Seq<char>>, id: Seq<char>)
    ensures
        0 <= rank(ids, id) <= ids.len(),
        rank(ids, id) == ids.len() <==> !ids.contains(id),
    decreases ids.len(),
{
    if ids.len() > 0 {
        lemma_rank_absent(ids.drop_first(), id);
        if ids[0] != id {
            if ids.contains(id) {
                let j = choose|j: int| 0 <= j < ids.len() && ids[j] == id;
                assert(ids.drop_first()[j - 1] == id);
            }
            if ids.drop_first().contains(id) {
                let j = choose|j: int| 0 <= j < ids.len() - 1 && ids.drop_first()[j] == id;
                assert(ids[j + 1] == id);
            }
        } else {
            assert(ids.contains(id) && ids[0] == id);
        }
    }
}

/// Copies each id of `src` to the end of `dst`.
fn append_ids(dst: &mut Vec<String>, src: &Vec<String>)
    ensures
        id_views(final(dst)@) == id_views(old(dst)@) + id_views(src@),
{
    let mut j: usize = 0;
    while j < src.len()
        invariant
            j <= src.len(),
            id_views(dst@) == id_views(old(dst)@) + id_views(src@.take(j as int)),
        decreases src.len() - j,
    {
        let ghost prev = dst@;
        let id = src[j].clone();
        dst.push(id);
        assert(src@.take(j + 1) =~= src@.take(j as int).push(src@[j as int]));
        assert(id_views(dst@) =~= id_views(prev).push(src@[j as int]@));
        assert(id_views(src@.take(j + 1)) =~= id_views(src@.take(j as int)).push(src@[j as int]@));
        assert(id_views(dst@) =~= id_views(old(dst)@) + id_views(src@.take(j + 1)));
        j = j + 1;
    }
    assert(src@.take(j as int) =~= src@);
}

/// The preferred order of guild ids held by `settings`.
fn preferred_id_list(settings: &UserSettings) -> (r: Vec<String>)
    ensures
        id_views(r@) == preferred_ids(*settings),
{
    let fs = &settings.guild_folders;
    let mut ids: Vec<String> = Vec::new();
    let mut i: usize = 0;
    assert(id_views(ids@) =~= folder_ids(fs@.take(0)));
    while i < fs.len()
        invariant
            i <= fs.len(),
            id_views(ids@) == folder_ids(fs@.take(i as int)),
        decreases fs.len() - i,
    {
        append_ids(&mut ids, &fs[i].guild_ids);
        assert(fs@.take(i + 1).drop_last() =~= fs@.take(i as int));
        i = i + 1;
    }
    assert(fs@.take(i as int) =~= fs@);
    if ids.len() == 0 {
        let mut flat: Vec<String> = Vec::new();
        append_ids(&mut flat, &settings.guild_positions);
        assert(id_views(flat@) =~= id_views(settings.guild_positions@));
        flat
    } else {
        ids
    }
}

/// Rank of `id` in `ids`, as `rank` defines it.
fn rank_in(ids: &Vec<String>, id: &String) -> (r: usize)
    ensures
        r as int == rank(id_views(ids@), id@),
{
    let ghost v = id_views(ids@);
    let mut i: usize = 0;
    while i < ids.len()
        invariant
            i <= ids.len(),
            v == id_views(ids@),
            forall|j: int| 0 <= j < i ==> v[j] != id@,
        decreases ids.len() - i,
    {
        if ids[i] == *id {
            proof {
                lemma_rank(v, id@, i as int);
            }
            return i;
        }
        i = i + 1;
    }
    proof {
        lemma_rank(v, id@, i as int);
    }
    i
}

/// Orders `guilds` by the user's saved preference: guilds follow the order of
/// their ids in the folders (or, without folders, in the flat position list);
/// guilds not mentioned come last; ties keep the order they came in.
pub fn order_guilds(guilds: Vec<Guild>, settings: &UserSettings) -> (r: Vec<Guild>)
    ensures
        r@ == ordered_guilds(guilds@, *settings),
{
    let ids = preferred_id_list(settings);
    let ghost key = guild_rank(preferred_ids(*settings));
    let mut keys: Vec<i128> = Vec::new();
    let mut i: usize = 0;
    while i < guilds.len()
        invariant
            i <= guilds.len(),
            keys.len() == i,
            id_views(ids@) == preferred_ids(*settings),
            key == guild_rank(preferred_ids(*settings)),
            forall|j: int| 0 <= j < i ==> keys[j] as int == key(#[trigger] guilds@[j]),
        decreases guilds.len() - i,
    {
        let k = rank_in(&ids, &guilds[i].id);
        keys.push(k as i128);
        i = i + 1;
    }
    sort_by_keys(guilds, &keys, Ghost(key))
}

/// Applies the saved preference when it could be had; without it the guilds
/// keep the order in which they came.
pub fn reconcile_guilds(guilds: Vec<Guild>, settings: Option<&UserSettings>) -> (r: Vec<Guild>)
    ensures
        r@ == match settings {
            Some(st) => ordered_guilds(guilds@, *st),
            None => guilds@,
        },
{
    match settings {
        Some(st) => order_guilds(guilds, st),
        None => guilds,
    }
}

/// Indices of the guilds to list to the user, skipping blank names.
pub fn listed_guilds(guilds: &Vec<Guild>) -> (r: Vec<usize>)
    ensures
        r@ == listed_indices(guilds@),
{
    let mut r: Vec<usize> = Vec::new();
    let mut i: usize = 0;
    assert(guilds@.take(0) =~= Seq::<Guild>::empty());
    while i < guilds.len()
        invariant
            i <= guilds.len(),
            r@ == listed_indices(guilds@.take(i as int)),
        decreases guilds.len() - i,
    {
        assert(guilds@.take(i + 1).drop_last() =~= guilds@.take(i as int));
        assert(guilds@.take(i + 1).last() == guilds@[i as int]);
        if !is_blank(guilds[i].name.as_str()) {
            r.push(i);
        }
        i = i + 1;
    }
    assert(guilds@.take(i as int) =~= guilds@);
    r
}

/// Ordering by preference rearranges the guilds without adding or losing any;
/// doing it again with the same preference changes nothing; the guilds the
/// preference does not mention keep their relative order, after all others.
pub proof fn lemma_reconcile_laws(gs: Seq<Guild>, st: UserSettings)
    ensures
        ordered_guilds(gs, st).to_multiset() == gs.to_multiset(),
        ordered_guilds(ordered_guilds(gs, st), st) == ordered_guilds(gs, st),
        unranked_guilds(ordered_guilds(gs, st), st) == unranked_guilds(gs, st),
        forall|i: int, j: int|
            0 <= i < ordered_guilds(gs, st).len() && 0 <= j < ordered_guilds(gs, st).len()
                && !preferred_ids(st).contains(ordered_guilds(gs, st)[i].id@)
                && preferred_ids(st).contains(ordered_guilds(gs, st)[j].id@) ==> j < i,
{
    let ids = preferred_ids(st);
    let key = guild_rank(ids);
    let r = ordered_guilds(gs, st);
    lemma_sort_permutes(gs, key);
    lemma_sort_sorted(gs, key);
    lemma_sort_of_sorted(r, key);
    lemma_sort_stable(gs, key, ids.len() as int);
    assert(has_key(key, ids.len() as int) =~= (|g: Guild| !ids.contains(g.id@))) by {
        assert forall|g: Guild| #[trigger] has_key(key, ids.len() as int)(g) == !ids.contains(
            g.id@,
        ) by {
            lemma_rank_absent(ids, g.id@);
        }
    }
    assert forall|i: int, j: int|
        0 <= i < r.len() && 0 <= j < r.len() && !ids.contains(r[i].id@) && ids.contains(
            r[j].id@,
        ) implies j < i by {
        lemma_rank_absent(ids, r[i].id@);
        lemma_rank_absent(ids, r[j].id@);
        if i <= j {
            assert(key(r[i]) <= key(r[j]));
        }
    }
}

/// Every listed index points at a guild whose name is not blank, and each
/// guild with a non-blank name is listed.
pub proof fn lemma_listed_indices(gs: Seq<Guild>)
    requires
        gs.len() <= usize::MAX,
    ensures
        forall|k: int| 0 <= k < listed_indices(gs).len() ==> {
            let i = #[trigger] listed_indices(gs)[k];
            &&& i < gs.len()
            &&& !blank(gs[i as int].name@)
        },
        forall|i: int| 0 <= i < gs.len() && !blank(#[trigger] gs[i].name@) ==> listed_indices(
            gs,
        ).contains(i as usize),
    decreases gs.len(),
{
    if gs.len() > 0 {
        let u = gs.drop_last();
        lemma_listed_indices(u);
        let l = listed_indices(u);
        assert forall|i: int| 0 <= i < gs.len() && !blank(#[trigger] gs[i].name@) implies listed_indices(
            gs,
        ).contains(i as usize) by {
            if i < gs.len() - 1 {
                assert(u[i] == gs[i]);
                let k = choose|k: int| 0 <= k < l.len() && l[k] == i as usize;
                if !blank(gs.last().name@) {
                    assert(listed_indices(gs)[k] == i as usize);
                }
            } else {
                assert(listed_indices(gs).last() == i as usize);
            }
        }
        assert forall|k: int| 0 <= k < listed_indices(gs).len() implies {
            let i = #[trigger] listed_indices(gs)[k];
            &&& i < gs.len()
            &&& !blank(gs[i as int].name@)
        } by {
            if k < l.len() {
                assert(listed_indices(gs)[k] == l[k]);
                assert(u[l[k] as int] == gs[l[k] as int]);
            } else {
                assert(!blank(gs.last().name@));
                assert(listed_indices(gs)[k] == (gs.len() - 1) as usize);
            }
        }
    }
}

/// A guild with a blank name is never listed, yet ordering keeps it, so its
/// id still takes its place in the preferred order.
pub proof fn lemma_blank_guild_unlisted(gs: Seq<Guild>, st: UserSettings, i: int)
    requires
        gs.len() <= usize::MAX,
        0 <= i < gs.len(),
        blank(gs[i].name@),
    ensures
        ordered_guilds(gs, st).contains(gs[i]),
        forall|k: int| 0 <= k < listed_indices(ordered_guilds(gs, st)).len() ==>
            ordered_guilds(gs, st)[#[trigger] listed_indices(ordered_guilds(gs, st))[k] as int]
                != gs[i],
{
    let r = ordered_guilds(gs, st);
    lemma_sort_permutes(gs, guild_rank(preferred_ids(st)));
    assert(gs.to_multiset().count(gs[i]) > 0) by {
        vstd::seq_lib::to_multiset_contains(gs, gs[i]);
    }
    vstd::seq_lib::to_multiset_contains(r, gs[i]);
    lemma_listed_indices(r);
}

} // verus!
