//! The query model: sorted snapshots of the table, their serializable
//! projections, and the logs of one endpoint.

use vstd::prelude::*;
use vstd::seq_lib::*;
use crate::collector::{lists_table, stats_views, StatsTable};
use crate::model::{ChannelStats, ChannelStatsView, Stats, StatsView, StreamStats, StreamStatsView};
use crate::order::{lemma_stats_le_total, lemma_stats_le_transitive, may_precede, stats_le};

verus! {

/// Whether every record of `s` may stand before all that follow it.
pub open spec fn sorted_stats(s: Seq<StatsView>) -> bool {
    forall|i: int, j: int| 0 <= i < j < s.len() ==> stats_le(#[trigger] s[i], #[trigger] s[j])
}

/// What occurs in one of two rearrangements of each other occurs in the other.
proof fn lemma_shared_element(a: Seq<Stats>, b: Seq<Stats>, i: int)
    requires
        a.to_multiset() == b.to_multiset(),
        0 <= i < a.len(),
    ensures
        b.contains(a[i]),
{
    assert(a.contains(a[i]));
    to_multiset_contains(a, a[i]);
    to_multiset_contains(b, a[i]);
}

/// A rearrangement of a listing of the table lists the table too.
proof fn lemma_rearranged_listing(a: Seq<Stats>, b: Seq<Stats>, t: Map<u64, StatsView>)
    requires
        a.to_multiset() == b.to_multiset(),
        lists_table(stats_views(a), t),
    ensures
        lists_table(stats_views(b), t),
{
    let va = stats_views(a);
    let vb = stats_views(b);
    assert(a.no_duplicates()) by {
        assert forall|i: int, j: int| 0 <= i < a.len() && 0 <= j < a.len() && i != j implies a[i]
            != a[j] by {
            if a[i] == a[j] {
                assert(va[i].id() == va[j].id());
            }
        }
    }
    a.lemma_multiset_has_no_duplicates();
    b.lemma_multiset_has_no_duplicates_conv();
    assert forall|j: int| 0 <= j < vb.len() implies t.contains_key((#[trigger] vb[j]).id())
        && t[vb[j].id()] == vb[j] by {
        lemma_shared_element(b, a, j);
        let i = choose|i: int| 0 <= i < a.len() && a[i] == b[j];
        assert(va[i] == vb[j]);
    }
    assert forall|i: int, j: int| 0 <= i < j < vb.len() implies (#[trigger] vb[i]).id() != (
    #[trigger] vb[j]).id() by {
        lemma_shared_element(b, a, i);
        lemma_shared_element(b, a, j);
        let p = choose|p: int| 0 <= p < a.len() && a[p] == b[i];
        let q = choose|q: int| 0 <= q < a.len() && a[q] == b[j];
        assert(b[i] != b[j]);
        assert(p != q);
        assert(va[p] == vb[i] && va[q] == vb[j]);
        if p < q {
            assert(va[p].id() != va[q].id());
        } else {
            assert(va[q].id() != va[p].id());
        }
    }
    assert forall|k: u64| t.contains_key(k) implies exists|j: int|
        0 <= j < vb.len() && (#[trigger] vb[j]).id() == k by {
        let i = choose|i: int| 0 <= i < va.len() && (#[trigger] va[i]).id() == k;
        lemma_shared_element(a, b, i);
        let j = choose|j: int| 0 <= j < b.len() && b[j] == a[i];
        assert(vb[j].id() == k);
    }
}

/// Sorts records into the order of listings.
fn sort_stats(input: Vec<Stats>) -> (out: Vec<Stats>)
    ensures
        out@.to_multiset() == input@.to_multiset(),
        sorted_stats(stats_views(out@)),
{
    let mut rest = input;
    let mut out: Vec<Stats> = Vec::new();
    assert(out@ + rest@ =~= input@);
    while rest.len() > 0
        invariant
            (out@ + rest@).to_multiset() == input@.to_multiset(),
            sorted_stats(stats_views(out@)),
        decreases rest.len(),
    {
        let ghost before = rest@;
        let ghost placed = out@;
        let x = rest.pop().unwrap();
        let mut pos: usize = 0;
        while pos < out.len() && may_precede(&out[pos], &x)
            invariant
                pos <= out.len(),
                out@ == placed,
                forall|j: int| 0 <= j < pos ==> stats_le((#[trigger] out@[j])@, x@),
            decreases out.len() - pos,
        {
            pos = pos + 1;
        }
        out.insert(pos, x);
        proof {
            broadcast use vstd::multiset::group_multiset_axioms;

            let joined = placed + before;
            let kept = placed + rest@;
            assert(joined.remove(joined.len() - 1) =~= kept);
            assert(joined[joined.len() - 1] == x);
            assert(kept.insert(pos as int, x) =~= out@ + rest@);
            to_multiset_remove(joined, joined.len() - 1);
            to_multiset_insert(kept, pos as int, x);
            assert(joined.contains(x));
            to_multiset_contains(joined, x);
            assert((out@ + rest@).to_multiset() =~= joined.to_multiset());
            let old_views = stats_views(placed);
            let new_views = stats_views(out@);
            assert forall|i: int, j: int| 0 <= i < j < new_views.len() implies stats_le(
                #[trigger] new_views[i],
                #[trigger] new_views[j],
            ) by {
                if j < pos {
                    assert(new_views[i] == old_views[i] && new_views[j] == old_views[j]);
                } else if j == pos {
                    assert(new_views[i] == placed[i]@);
                } else if i < pos {
                    assert(new_views[i] == old_views[i] && new_views[j] == old_views[j - 1]);
                } else if i == pos {
                    let y = old_views[pos as int];
                    let z = old_views[j - 1];
                    assert(new_views[j] == z);
                    assert(!stats_le(y, x@));
                    lemma_stats_le_total(y, x@);
                    if j - 1 > pos {
                        assert(stats_le(y, z));
                        lemma_stats_le_transitive(x@, y, z);
                    }
                } else {
                    assert(new_views[i] == old_views[i - 1] && new_views[j] == old_views[j - 1]);
                }
            }
        }
    }
    assert(out@ + rest@ =~= out@);
    out
}

/// Every record of the table, sorted: records with a label of their own
/// first, by label, then the others by call site; ties by rank at the call
/// site.
pub fn get_sorted_stats(table: &StatsTable) -> (r: Vec<Stats>)
    requires
        table.wf(),
    ensures
        lists_table(stats_views(r@), table@),
        sorted_stats(stats_views(r@)),
{
    let all = table.get_all_stats();
    let r = sort_stats(all);
    proof {
        lemma_rearranged_listing(all@, r@, table@);
    }
    r
}

/// The views of a sequence of channel records.
pub open spec fn channel_views(s: Seq<ChannelStats>) -> Seq<ChannelStatsView> {
    s.map_values(|x: ChannelStats| x@)
}

/// The views of a sequence of stream records.
pub open spec fn stream_views(s: Seq<StreamStats>) -> Seq<StreamStatsView> {
    s.map_values(|x: StreamStats| x@)
}

/// Whether `ids` names the records of one kind in `t`, the channels or the
/// streams, in the order of listings: nothing but ids of such records, none
/// twice, each before all that its record may stand before, and every one of
/// them.
pub open spec fn orders_kind(ids: Seq<u64>, t: Map<u64, StatsView>, channels: bool) -> bool {
    &&& forall|i: int|
        0 <= i < ids.len() ==> t.contains_key(#[trigger] ids[i]) && (t[ids[i]] is Channel)
            == channels
    &&& forall|i: int, j: int|
        0 <= i < j < ids.len() ==> #[trigger] ids[i] != #[trigger] ids[j] && stats_le(
            t[ids[i]],
            t[ids[j]],
        )
    &&& forall|k: u64|
        #[trigger] t.contains_key(k) && (t[k] is Channel) == channels ==> exists|i: int|
            0 <= i < ids.len() && #[trigger] ids[i] == k
}

/// The ids of a sequence of channel records.
pub open spec fn channel_ids(s: Seq<ChannelStatsView>) -> Seq<u64> {
    s.map_values(|c: ChannelStatsView| c.id)
}

/// The ids of a sequence of stream records.
pub open spec fn stream_ids(s: Seq<StreamStatsView>) -> Seq<u64> {
    s.map_values(|r: StreamStatsView| r.id)
}

/// Whether `s` lists the channels of `t` in the order of listings: nothing
/// but channel records as they stand in the table, none twice, every one of
/// them, and each before all that it may stand before.
pub open spec fn lists_channels(s: Seq<ChannelStatsView>, t: Map<u64, StatsView>) -> bool {
    &&& orders_kind(channel_ids(s), t, true)
    &&& forall|i: int| 0 <= i < s.len() ==> t[(#[trigger] s[i]).id] == StatsView::Channel(s[i])
}

/// Whether `s` lists the streams of `t` in the order of listings.
pub open spec fn lists_streams(s: Seq<StreamStatsView>, t: Map<u64, StatsView>) -> bool {
    &&& orders_kind(stream_ids(s), t, false)
    &&& forall|i: int| 0 <= i < s.len() ==> t[(#[trigger] s[i]).id] == StatsView::Stream(s[i])
}

/// What tells the records of one kind from the others.
pub open spec fn of_kind(channels: bool) -> spec_fn(StatsView) -> bool {
    |v: StatsView| (v is Channel) == channels
}

/// The ids of a sequence of records.
pub open spec fn record_ids(s: Seq<StatsView>) -> Seq<u64> {
    s.map_values(|v: StatsView| v.id())
}

/// What is kept of a sequence is kept in its order: the places in `listed`
/// from which the records of `listed.filter(keep)` come rise from each to
/// the next, and every record that `keep` holds of has a place among them.
proof fn lemma_kept_places(listed: Seq<StatsView>, keep: spec_fn(StatsView) -> bool) -> (place:
    Seq<int>)
    ensures
        place.len() == listed.filter(keep).len(),
        forall|i: int|
            0 <= i < place.len() ==> 0 <= #[trigger] place[i] < listed.len() && listed[place[i]]
                == listed.filter(keep)[i] && keep(listed[place[i]]),
        forall|i: int, j: int|
            0 <= i < j < place.len() ==> #[trigger] place[i] < #[trigger] place[j],
        forall|k: int|
            0 <= k < listed.len() && keep(#[trigger] listed[k]) ==> exists|i: int|
                0 <= i < place.len() && #[trigger] place[i] == k,
    decreases listed.len(),
{
    reveal(Seq::filter);
    if listed.len() == 0 {
        Seq::empty()
    } else {
        let rest = listed.drop_last();
        let before = lemma_kept_places(rest, keep);
        let last = listed.len() - 1;
        let place = if keep(listed.last()) {
            before.push(last)
        } else {
            before
        };
        assert forall|k: int| 0 <= k < listed.len() && keep(#[trigger] listed[k]) implies exists|
            i: int,
        |
            0 <= i < place.len() && #[trigger] place[i] == k by {
            if k < last {
                assert(keep(rest[k]));
                let i = choose|i: int| 0 <= i < before.len() && #[trigger] before[i] == k;
                assert(place[i] == k);
            } else {
                assert(place[place.len() - 1] == k);
            }
        }
        place
    }
}

/// The records of one kind in a sorted listing of the table, in the order
/// of the listing, are the records of that kind in the table, each once and
/// in the order of listings.
proof fn lemma_kept_of_listing(listed: Seq<StatsView>, t: Map<u64, StatsView>, channels: bool)
    requires
        lists_table(listed, t),
        sorted_stats(listed),
    ensures
        orders_kind(record_ids(listed.filter(of_kind(channels))), t, channels),
        forall|i: int|
            0 <= i < listed.filter(of_kind(channels)).len() ==> t[(
            #[trigger] listed.filter(of_kind(channels))[i]).id()] == listed.filter(
                of_kind(channels),
            )[i],
{
    let kept = listed.filter(of_kind(channels));
    let ids = record_ids(kept);
    let place = lemma_kept_places(listed, of_kind(channels));
    assert forall|i: int| 0 <= i < kept.len() implies t.contains_key((#[trigger] kept[i]).id())
        && t[kept[i].id()] == kept[i] && (kept[i] is Channel) == channels by {
        assert(listed[place[i]] == kept[i]);
    }
    assert forall|i: int| 0 <= i < ids.len() implies t.contains_key(#[trigger] ids[i]) && (
    t[ids[i]] is Channel) == channels by {
        assert(ids[i] == kept[i].id());
    }
    assert forall|i: int, j: int| 0 <= i < j < ids.len() implies #[trigger] ids[i]
        != #[trigger] ids[j] && stats_le(t[ids[i]], t[ids[j]]) by {
        assert(ids[i] == kept[i].id() && ids[j] == kept[j].id());
        assert(place[i] < place[j]);
        assert(listed[place[i]] == kept[i] && listed[place[j]] == kept[j]);
        assert(listed[place[i]].id() != listed[place[j]].id());
        assert(stats_le(listed[place[i]], listed[place[j]]));
    }
    assert forall|k: u64|
        #[trigger] t.contains_key(k) && (t[k] is Channel) == channels implies exists|i: int|
        0 <= i < ids.len() && #[trigger] ids[i] == k by {
        let p = choose|p: int| 0 <= p < listed.len() && (#[trigger] listed[p]).id() == k;
        assert(t[listed[p].id()] == listed[p]);
        let i = choose|i: int| 0 <= i < place.len() && #[trigger] place[i] == p;
        assert(listed[place[i]] == kept[i]);
        assert(ids[i] == k);
    }
}

/// The channels of the table, sorted.
pub fn get_sorted_channel_stats(table: &StatsTable) -> (r: Vec<ChannelStats>)
    requires
        table.wf(),
    ensures
        lists_channels(channel_views(r@), table@),
{
    let all = get_sorted_stats(table);
    let ghost listed = all@;
    let ghost views = stats_views(all@);
    let mut r: Vec<ChannelStats> = Vec::new();
    assert(views.take(0) =~= Seq::<StatsView>::empty());
    proof {
        reveal(Seq::filter);
    }
    for x in it: all
        invariant
            it.seq() == listed,
            views == stats_views(listed),
            channel_views(r@).map_values(|c: ChannelStatsView| StatsView::Channel(c))
                == views.take(it.index() as int).filter(of_kind(true)),
    {
        let ghost at = it.index() as int;
        let ghost kept = views.take(at).filter(of_kind(true));
        assert(x == listed[at]);
        proof {
            views.take(at).lemma_filter_push(views[at], of_kind(true));
            assert(views.take(at + 1) =~= views.take(at).push(views[at]));
        }
        match x {
            Stats::Channel(c) => {
                r.push(c);
                assert(channel_views(r@).map_values(|c: ChannelStatsView| StatsView::Channel(c))
                    =~= kept.push(views[at]));
            },
            Stats::Stream(_) => {},
        }
    }
    proof {
        assert(views.take(views.len() as int) =~= views);
        let s = channel_views(r@);
        let kept = views.filter(of_kind(true));
        lemma_kept_of_listing(views, table@, true);
        assert(channel_ids(s) =~= record_ids(kept)) by {
            assert forall|i: int| 0 <= i < s.len() implies channel_ids(s)[i] == record_ids(
                kept,
            )[i] by {
                assert(kept[i] == StatsView::Channel(s[i]));
            }
        }
        assert forall|i: int| 0 <= i < s.len() implies table@[(#[trigger] s[i]).id]
            == StatsView::Channel(s[i]) by {
            assert(kept[i] == StatsView::Channel(s[i]));
            assert(table@[kept[i].id()] == kept[i]);
        }
    }
    r
}

/// The streams of the table, sorted.
pub fn get_sorted_stream_stats(table: &StatsTable) -> (r: Vec<StreamStats>)
    requires
        table.wf(),
    ensures
        lists_streams(stream_views(r@), table@),
{
    let all = get_sorted_stats(table);
    let ghost listed = all@;
    let ghost views = stats_views(all@);
    let mut r: Vec<StreamStats> = Vec::new();
    assert(views.take(0) =~= Seq::<StatsView>::empty());
    proof {
        reveal(Seq::filter);
    }
    for x in it: all
        invariant
            it.seq() == listed,
            views == stats_views(listed),
            stream_views(r@).map_values(|c: StreamStatsView| StatsView::Stream(c))
                == views.take(it.index() as int).filter(of_kind(false)),
    {
        let ghost at = it.index() as int;
        let ghost kept = views.take(at).filter(of_kind(false));
        assert(x == listed[at]);
        proof {
            views.take(at).lemma_filter_push(views[at], of_kind(false));
            assert(views.take(at + 1) =~= views.take(at).push(views[at]));
        }
        match x {
            Stats::Stream(c) => {
                r.push(c);
                assert(stream_views(r@).map_values(|c: StreamStatsView| StatsView::Stream(c))
                    =~= kept.push(views[at]));
            },
            Stats::Channel(_) => {},
        }
    }
    proof {
        assert(views.take(views.len() as int) =~= views);
        let s = stream_views(r@);
        let kept = views.filter(of_kind(false));
        lemma_kept_of_listing(views, table@, false);
        assert(stream_ids(s) =~= record_ids(kept)) by {
            assert forall|i: int| 0 <= i < s.len() implies stream_ids(s)[i] == record_ids(
                kept,
            )[i] by {
                assert(kept[i] == StatsView::Stream(s[i]));
            }
        }
        assert forall|i: int| 0 <= i < s.len() implies table@[(#[trigger] s[i]).id]
            == StatsView::Stream(s[i]) by {
            assert(kept[i] == StatsView::Stream(s[i]));
            assert(table@[kept[i].id()] == kept[i]);
        }
    }
    r
}

} // verus!
