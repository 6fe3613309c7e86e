//! The order in which endpoint records are listed.

use std::cmp::Ordering;
use vstd::prelude::*;
use crate::model::{Stats, StatsView};
use crate::text::{
    lemma_text_order_mirror, lemma_text_order_transitive, order_text, text_order, TextOrder,
};

verus! {

/// Whether `a` may stand before `b` in a listing: records with a label of
/// their own come first, by label; then those without, by call site; among
/// records with the same label or call site, the one created earlier there
/// comes first.
pub open spec fn stats_le(a: StatsView, b: StatsView) -> bool {
    match (a.label(), b.label()) {
        (Some(x), Some(y)) => text_order(x, y) is Before || (text_order(x, y) is Same && a.iter()
            <= b.iter()),
        (Some(_), None) => true,
        (None, Some(_)) => false,
        (None, None) => text_order(a.source(), b.source()) is Before || (text_order(
            a.source(),
            b.source(),
        ) is Same && a.iter() <= b.iter()),
    }
}

/// The comparison of two records by `stats_le`.
pub open spec fn stats_ordering(a: StatsView, b: StatsView) -> Ordering {
    if !stats_le(b, a) {
        Ordering::Less
    } else if !stats_le(a, b) {
        Ordering::Greater
    } else {
        Ordering::Equal
    }
}

/// Of two records, one may stand before the other.
pub proof fn lemma_stats_le_total(a: StatsView, b: StatsView)
    ensures
        stats_le(a, b) || stats_le(b, a),
{
    match (a.label(), b.label()) {
        (Some(x), Some(y)) => {
            lemma_text_order_mirror(x, y);
        },
        (None, None) => {
            lemma_text_order_mirror(a.source(), b.source());
        },
        _ => {},
    }
}

/// What may stand before a record may stand before all that the record may
/// stand before.
pub proof fn lemma_stats_le_transitive(a: StatsView, b: StatsView, c: StatsView)
    requires
        stats_le(a, b),
        stats_le(b, c),
    ensures
        stats_le(a, c),
{
    match (a.label(), b.label(), c.label()) {
        (Some(x), Some(y), Some(z)) => {
            lemma_text_order_transitive(x, y, z);
        },
        (None, None, None) => {
            lemma_text_order_transitive(a.source(), b.source(), c.source());
        },
        _ => {},
    }
}

/// Compares two records for sorting.
pub fn compare_stats(a: &Stats, b: &Stats) -> (r: Ordering)
    ensures
        r == stats_ordering(a@, b@),
{
    let by_text = match (a.label(), b.label()) {
        (Some(x), Some(y)) => {
            proof {
                lemma_text_order_mirror(x@, y@);
            }
            order_text(x, y)
        },
        (Some(_), None) => {
            return Ordering::Less;
        },
        (None, Some(_)) => {
            return Ordering::Greater;
        },
        (None, None) => {
            proof {
                lemma_text_order_mirror(a@.source(), b@.source());
            }
            order_text(a.source(), b.source())
        },
    };
    match by_text {
        TextOrder::Before => Ordering::Less,
        TextOrder::After => Ordering::Greater,
        TextOrder::Same => {
            if a.iter() < b.iter() {
                Ordering::Less
            } else if a.iter() > b.iter() {
                Ordering::Greater
            } else {
                Ordering::Equal
            }
        },
    }
}

/// Whether `a` may stand before `b` in a listing.
pub fn may_precede(a: &Stats, b: &Stats) -> (r: bool)
    ensures
        r == stats_le(a@, b@),
{
    proof {
        lemma_stats_le_total(a@, b@);
    }
    match compare_stats(a, b) {
        Ordering::Greater => false,
        _ => true,
    }
}

} // verus!
