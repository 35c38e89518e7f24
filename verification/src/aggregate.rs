//! The item aggregator, the count aggregator and the export aggregator.
//!
//! Items declare membership in a list by carrying a reference tag whose
//! value equals the header's canonical reference; equality of that string is
//! the sole join key. The count aggregator prefers a store-native count but
//! never depends on it: when the store cannot count, the deduplicated
//! enumeration stands in. The export aggregator combines resolution and
//! aggregation over every header into one nested report.

use vstd::prelude::*;
use crate::event::Event;
use crate::event::EventView;
use crate::event::spec_has_tag_value;
use crate::event::views_of;
use crate::project::Record;
use crate::project::record_views;

verus! {

/// The tag key under which an item names its list: the value of this tag is
/// the header's canonical reference.
pub open spec fn spec_reference_key() -> Seq<char> {
    "z"@
}

/// Keeps exactly the item events whose reference tag equals the given
/// canonical header reference, case-sensitively.
pub fn items_matching(events: Vec<Event>, reference: &str) -> (r: Vec<Event>)
    ensures
        views_of(r@) == views_of(events@).filter(
            |ev: EventView| spec_has_tag_value(ev.tags, spec_reference_key(), reference@),
        ),
{
    let ghost pred = |ev: EventView| spec_has_tag_value(ev.tags, spec_reference_key(), reference@);
    let ghost evs = views_of(events@);
    let mut out: Vec<Event> = Vec::new();
    let mut i: usize = 0;
    proof {
        assert(evs.take(0) =~= Seq::<EventView>::empty());
        assert(views_of(out@) =~= evs.take(0).filter(pred));
    }
    while i < events.len()
        invariant
            evs == views_of(events@),
            evs.len() == events@.len(),
            i <= events@.len(),
            pred == (|ev: EventView| spec_has_tag_value(
                ev.tags,
                spec_reference_key(),
                reference@,
            )),
            views_of(out@) == evs.take(i as int).filter(pred),
        decreases events@.len() - i,
    {
        let ghost cur = views_of(out@);
        proof {
            reveal_strlit("z");
            assert(evs[i as int] == events@[i as int]@);
            assert(evs.take(i + 1).drop_last() =~= evs.take(i as int));
            assert(evs.take(i + 1).last() == evs[i as int]);
            evs.take(i as int).lemma_filter_push(evs[i as int], pred);
            assert(evs.take(i as int).push(evs[i as int]) =~= evs.take(i + 1));
        }
        let e = &events[i];
        if crate::event::has_tag_value(&e.tags, "z", reference) {
            out.push(e.clone());
            proof {
                assert(views_of(out@) =~= cur.push(evs[i as int]));
            }
        }
        i = i + 1;
    }
    proof {
        assert(evs.take(i as int) =~= evs);
    }
    out
}

/// The exact cardinality for a filter: the store's native count where the
/// store supports one, else the length of the deduplicated enumeration.
pub fn count_with_fallback(native: Option<usize>, enumerated: &Vec<Event>) -> (r: usize)
    ensures
        match native {
            Some(n) => r == n,
            None => r == enumerated@.len(),
        },
{
    match native {
        Some(n) => n,
        None => enumerated.len(),
    }
}

/// One exported header with its full item set.
#[derive(Debug)]
pub struct ExportEntry {
    pub header: Record,
    pub items_count: usize,
    pub items: Vec<Record>,
}

/// The full-corpus export: every header, each with its items, plus global
/// totals.
#[derive(Debug)]
pub struct ExportReport {
    pub entries: Vec<ExportEntry>,
    pub headers_count: usize,
    pub items_count: usize,
}

/// The total number of items across all per-header item sets.
pub open spec fn spec_total_items(sets: Seq<Vec<Record>>) -> int
    decreases sets.len(),
{
    if sets.len() == 0 {
        0
    } else {
        sets[0]@.len() + spec_total_items(sets.drop_first())
    }
}

/// Combines the sorted headers with their item sets, in order, into the
/// nested export report: one entry per header, each counting and carrying
/// its items, plus the global header and item totals. The item total
/// saturates instead of overflowing.
pub fn export_report(headers: Vec<Record>, item_sets: Vec<Vec<Record>>) -> (r: ExportReport)
    requires
        headers@.len() == item_sets@.len(),
    ensures
        r.headers_count == headers@.len(),
        r.entries@.len() == headers@.len(),
        forall|i: int|
            0 <= i < r.entries@.len() ==> (#[trigger] r.entries@[i]).header@ == headers@[i]@
                && r.entries@[i].items_count == item_sets@[i]@.len() && record_views(
                r.entries@[i].items@,
            ) == record_views(item_sets@[i]@),
        r.items_count as int == if spec_total_items(item_sets@) <= usize::MAX as int {
            spec_total_items(item_sets@)
        } else {
            usize::MAX as int
        },
{
    let headers_count = headers.len();
    let ghost all_headers = headers@;
    let ghost all_sets = item_sets@;
    let mut headers = headers;
    let mut item_sets = item_sets;
    let mut entries: Vec<ExportEntry> = Vec::new();
    let mut total: usize = 0;
    let ghost mut true_sum: int = 0;
    proof {
        assert(headers@ =~= all_headers.skip(0));
        assert(item_sets@ =~= all_sets.skip(0));
    }
    while headers.len() > 0
        invariant
            all_headers.len() == all_sets.len(),
            all_headers.len() == headers_count,
            entries@.len() + headers@.len() == headers_count,
            headers@ == all_headers.skip(entries@.len() as int),
            item_sets@ == all_sets.skip(entries@.len() as int),
            true_sum >= 0,
            total as int == if true_sum <= usize::MAX as int {
                true_sum
            } else {
                usize::MAX as int
            },
            true_sum + spec_total_items(item_sets@) == spec_total_items(all_sets),
            forall|i: int|
                0 <= i < entries@.len() ==> (#[trigger] entries@[i]).header@ == all_headers[i]@
                    && entries@[i].items_count == all_sets[i]@.len() && record_views(
                    entries@[i].items@,
                ) == record_views(all_sets[i]@),
        decreases headers@.len(),
    {
        let ghost k = entries@.len() as int;
        let ghost sets0 = item_sets@;
        let h = headers.remove(0);
        let items = item_sets.remove(0);
        proof {
            assert(sets0.drop_first() =~= item_sets@);
            assert(sets0[0] == all_sets[k]);
            assert(h@ == all_headers[k]@);
            assert(spec_total_items(sets0) == sets0[0]@.len() + spec_total_items(
                sets0.drop_first(),
            ));
            lemma_total_items_nonneg(item_sets@);
            assert(headers@ =~= all_headers.skip(k + 1));
            assert(item_sets@ =~= all_sets.skip(k + 1));
        }
        let n = items.len();
        let entry = ExportEntry { header: h, items_count: n, items };
        entries.push(entry);
        if total <= usize::MAX - n {
            total = total + n;
        } else {
            total = usize::MAX;
        }
        proof {
            true_sum = true_sum + n as int;
        }
    }
    proof {
        assert(spec_total_items(item_sets@) == 0);
    }
    ExportReport { entries, headers_count, items_count: total }
}

/// An item total is never negative.
proof fn lemma_total_items_nonneg(sets: Seq<Vec<Record>>)
    ensures
        spec_total_items(sets) >= 0,
    decreases sets.len(),
{
    if sets.len() > 0 {
        lemma_total_items_nonneg(sets.drop_first());
    }
}

} // verus!
