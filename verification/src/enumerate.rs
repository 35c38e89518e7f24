//! The exhaustive enumerator.
//!
//! The store caps every fetch at a page size and gives no "more remains"
//! signal, so the enumerator drives a shrinking time cursor: fetch one page,
//! note the oldest creation time seen, and refetch with the upper time bound
//! just below it until a short page, the epoch floor, or a cursor that fails
//! to decrease. Batches may overlap, so every batch is folded in through a
//! membership check on the event identity: the accumulated list never holds
//! the same identity twice.
//!
//! The cursor is explicit state handed between iterations; the network fetch
//! itself happens outside this module, which makes the loop testable without
//! a store.

use vstd::prelude::*;
use crate::event::Event;
use crate::event::EventView;
use crate::event::views_of;
use crate::event::spec_has_tag_value;
use crate::strutil::str_eq;
use crate::strutil::string_eq;

verus! {

/// A tag-equality constraint: the event must carry a tag with this key whose
/// first value equals this value.
#[derive(Debug)]
pub struct TagQuery {
    pub key: String,
    pub value: String,
}

/// A store-side filter: every present criterion must hold of a matching
/// event; the limit caps how many events one fetch may return.
#[derive(Debug)]
pub struct Filter {
    pub id: Option<String>,
    pub kinds: Vec<u16>,
    pub author: Option<String>,
    pub tag: Option<TagQuery>,
    pub until: Option<u64>,
    pub limit: Option<usize>,
}

/// The mathematical value of a filter.
pub ghost struct FilterView {
    pub id: Option<Seq<char>>,
    pub kinds: Seq<u16>,
    pub author: Option<Seq<char>>,
    pub tag_key: Option<Seq<char>>,
    pub tag_value: Option<Seq<char>>,
    pub until: Option<u64>,
    pub limit: Option<usize>,
}

impl View for Filter {
    type V = FilterView;

    open spec fn view(&self) -> FilterView {
        FilterView {
            id: self.id.deep_view(),
            kinds: self.kinds@,
            author: self.author.deep_view(),
            tag_key: match self.tag {
                Some(ref t) => Some(t.key@),
                None => None,
            },
            tag_value: match self.tag {
                Some(ref t) => Some(t.value@),
                None => None,
            },
            until: self.until,
            limit: self.limit,
        }
    }
}

/// Whether an event satisfies every criterion a filter carries. The limit is
/// a result cap, not a match criterion.
pub open spec fn event_matches(ev: EventView, f: FilterView) -> bool {
    &&& (f.id matches Some(id) ==> ev.id == id)
    &&& (f.kinds.len() > 0 ==> f.kinds.contains(ev.kind))
    &&& (f.author matches Some(a) ==> ev.pubkey == a)
    &&& (f.tag_key matches Some(k) ==> f.tag_value matches Some(v) && spec_has_tag_value(
        ev.tags,
        k,
        v,
    ))
    &&& (f.until matches Some(u) ==> ev.created_at <= u)
}

/// Decides whether an event satisfies every criterion of a filter.
pub fn event_matches_exec(e: &Event, f: &Filter) -> (r: bool)
    ensures
        r == event_matches(e@, f@),
{
    if let Some(ref id) = f.id {
        if !string_eq(&e.id, id) {
            return false;
        }
    }
    if f.kinds.len() > 0 {
        let mut found = false;
        let mut i: usize = 0;
        while i < f.kinds.len()
            invariant
                i <= f.kinds@.len(),
                found == exists|j: int| 0 <= j < i && f.kinds@[j] == e.kind,
            decreases f.kinds@.len() - i,
        {
            if f.kinds[i] == e.kind {
                found = true;
            }
            i = i + 1;
        }
        if !found {
            return false;
        }
    }
    if let Some(ref a) = f.author {
        if !string_eq(&e.pubkey, a) {
            return false;
        }
    }
    if let Some(ref t) = f.tag {
        if !crate::event::has_tag_value(&e.tags, t.key.as_str(), t.value.as_str()) {
            return false;
        }
    }
    if let Some(u) = f.until {
        if e.created_at > u {
            return false;
        }
    }
    true
}

/// Whether a sequence of events holds pairwise distinct identities.
pub open spec fn distinct_event_ids(s: Seq<EventView>) -> bool {
    forall|i: int, j: int|
        0 <= i < j < s.len() ==> (#[trigger] s[i].id) != (#[trigger] s[j].id)
}

/// Whether some event in the sequence carries the given identity.
pub open spec fn spec_contains_id(s: Seq<EventView>, id: Seq<char>) -> bool {
    exists|i: int| 0 <= i < s.len() && (#[trigger] s[i].id) == id
}

/// Whether the accumulated event list holds the given identity.
pub fn contains_event_id(events: &Vec<Event>, id: &str) -> (r: bool)
    ensures
        r == spec_contains_id(views_of(events@), id@),
{
    let ghost vs = views_of(events@);
    let mut i: usize = 0;
    while i < events.len()
        invariant
            vs == views_of(events@),
            vs.len() == events@.len(),
            i <= events@.len(),
            forall|j: int| 0 <= j < i ==> (#[trigger] vs[j].id) != id@,
        decreases events@.len() - i,
    {
        proof {
            assert(vs[i as int] == events@[i as int]@);
        }
        if str_eq(events[i].id.as_str(), id) {
            proof {
                assert(vs[i as int].id == id@);
            }
            return true;
        }
        i = i + 1;
    }
    false
}

/// Folds a batch into an accumulated event list, keeping the first
/// occurrence of each identity and passing over every later one.
pub open spec fn spec_dedup_merge(acc: Seq<EventView>, batch: Seq<EventView>) -> Seq<EventView>
    decreases batch.len(),
{
    if batch.len() == 0 {
        acc
    } else if spec_contains_id(acc, batch[0].id) {
        spec_dedup_merge(acc, batch.drop_first())
    } else {
        spec_dedup_merge(acc.push(batch[0]), batch.drop_first())
    }
}

/// Folding a batch into a duplicate-free list keeps it duplicate-free: no
/// identity ever appears twice in the enumerated output, whatever the
/// batches hold and however they overlap. The accumulated list is also only
/// ever extended, and afterwards holds the identity of every batch event.
pub proof fn lemma_dedup_merge_no_duplicates(acc: Seq<EventView>, batch: Seq<EventView>)
    requires
        distinct_event_ids(acc),
    ensures
        distinct_event_ids(spec_dedup_merge(acc, batch)),
        acc.is_prefix_of(spec_dedup_merge(acc, batch)),
        forall|i: int|
            0 <= i < batch.len() ==> spec_contains_id(
                spec_dedup_merge(acc, batch),
                (#[trigger] batch[i].id),
            ),
        forall|i: int|
            0 <= i < spec_dedup_merge(acc, batch).len() ==> spec_contains_id(
                acc,
                (#[trigger] spec_dedup_merge(acc, batch)[i].id),
            ) || spec_contains_id(batch, spec_dedup_merge(acc, batch)[i].id),
    decreases batch.len(),
{
    if batch.len() == 0 {
        assert(acc.is_prefix_of(acc));
    } else {
        let e = batch[0];
        let rest = batch.drop_first();
        if spec_contains_id(acc, e.id) {
            lemma_dedup_merge_no_duplicates(acc, rest);
            let m = spec_dedup_merge(acc, rest);
            assert forall|i: int| 0 <= i < batch.len() implies spec_contains_id(
                m,
                (#[trigger] batch[i].id),
            ) by {
                if i == 0 {
                    let w = choose|w: int| 0 <= w < acc.len() && acc[w].id == e.id;
                    assert(m[w] == acc[w]);
                } else {
                    assert(rest[i - 1] == batch[i]);
                }
            }
            assert forall|i: int| 0 <= i < m.len() implies spec_contains_id(acc, (#[trigger] m[i].id))
                || spec_contains_id(batch, m[i].id) by {
                if spec_contains_id(rest, m[i].id) {
                    let w = choose|w: int| 0 <= w < rest.len() && rest[w].id == m[i].id;
                    assert(batch[w + 1] == rest[w]);
                }
            }
        } else {
            let acc2 = acc.push(e);
            assert forall|i: int, j: int| 0 <= i < j < acc2.len() implies (#[trigger] acc2[i].id)
                != (#[trigger] acc2[j].id) by {
                if j < acc.len() {
                    assert(acc2[i] == acc[i] && acc2[j] == acc[j]);
                } else {
                    assert(acc2[j] == e);
                    assert(acc2[i] == acc[i]);
                    if acc[i].id == e.id {
                        assert(spec_contains_id(acc, e.id));
                    }
                }
            }
            lemma_dedup_merge_no_duplicates(acc2, rest);
            let m = spec_dedup_merge(acc, batch);
            assert(m == spec_dedup_merge(acc2, rest));
            assert(acc.is_prefix_of(acc2));
            assert(acc.is_prefix_of(m)) by {
                assert(acc2.is_prefix_of(m));
                assert(acc =~= acc2.subrange(0, acc.len() as int));
                assert(acc =~= m.subrange(0, acc.len() as int));
            }
            assert forall|i: int| 0 <= i < batch.len() implies spec_contains_id(
                m,
                (#[trigger] batch[i].id),
            ) by {
                if i == 0 {
                    assert(acc2.is_prefix_of(m));
                    assert(m[acc.len() as int] == acc2[acc.len() as int]);
                    assert(m[acc.len() as int].id == e.id);
                } else {
                    assert(rest[i - 1] == batch[i]);
                }
            }
            assert forall|i: int| 0 <= i < m.len() implies spec_contains_id(acc, (#[trigger] m[i].id))
                || spec_contains_id(batch, m[i].id) by {
                if spec_contains_id(acc2, m[i].id) {
                    let w = choose|w: int| 0 <= w < acc2.len() && acc2[w].id == m[i].id;
                    if w < acc.len() {
                        assert(acc[w] == acc2[w]);
                    } else {
                        assert(acc2[w] == e);
                        assert(batch[0].id == m[i].id);
                    }
                } else if spec_contains_id(rest, m[i].id) {
                    let w = choose|w: int| 0 <= w < rest.len() && rest[w].id == m[i].id;
                    assert(batch[w + 1] == rest[w]);
                }
            }
        }
    }
}

/// The oldest creation time in a non-empty batch.
pub open spec fn spec_oldest(batch: Seq<EventView>) -> u64
    recommends
        batch.len() > 0,
    decreases batch.len(),
{
    if batch.len() <= 1 {
        batch[0].created_at
    } else {
        let rest = spec_oldest(batch.drop_first());
        if batch[0].created_at <= rest {
            batch[0].created_at
        } else {
            rest
        }
    }
}

/// The enumerator's explicit cursor state: the deduplicated events gathered
/// so far, the upper time bound for the next fetch, and whether enumeration
/// has finished.
#[derive(Debug)]
pub struct EnumState {
    pub events: Vec<Event>,
    pub until: Option<u64>,
    pub done: bool,
}

/// The state an enumeration starts from: nothing gathered, no upper bound.
pub fn enum_start() -> (r: EnumState)
    ensures
        r.events@.len() == 0,
        r.until is None,
        !r.done,
{
    EnumState { events: Vec::new(), until: None, done: false }
}

/// Folds one fetched batch into the cursor state.
///
/// The accumulated list keeps the first occurrence of every identity: an
/// identity never appears twice, however the batches overlap. Enumeration
/// finishes on an empty or short batch, at the epoch floor, or when the
/// cursor would fail to strictly decrease — the guard against a store that
/// hands back non-monotonic pages. Otherwise the next upper bound is one
/// second below the oldest creation time seen in the batch.
pub fn enum_step(state: EnumState, batch: Vec<Event>, page_size: usize) -> (r: EnumState)
    requires
        !state.done,
    ensures
        views_of(r.events@) == spec_dedup_merge(views_of(state.events@), views_of(batch@)),
        distinct_event_ids(views_of(state.events@)) ==> distinct_event_ids(views_of(r.events@)),
        distinct_event_ids(views_of(state.events@)) ==> views_of(state.events@).is_prefix_of(
            views_of(r.events@),
        ),
        distinct_event_ids(views_of(state.events@)) ==> forall|i: int|
            0 <= i < batch@.len() ==> spec_contains_id(
                views_of(r.events@),
                (#[trigger] batch@[i]@.id),
            ),
        batch@.len() == 0 ==> r.done && r.until == state.until,
        batch@.len() > 0 ==> ({
            let oldest = spec_oldest(views_of(batch@));
            if batch@.len() < page_size || oldest == 0 {
                r.done && r.until == state.until
            } else {
                let next = (oldest - 1) as u64;
                if state.until matches Some(u) && next >= u {
                    r.done && r.until == state.until
                } else {
                    !r.done && r.until == Some(next) && (state.until matches Some(u) ==> next < u)
                }
            }
        }),
{
    let ghost acc0 = views_of(state.events@);
    let ghost bviews = views_of(batch@);
    proof {
        if distinct_event_ids(acc0) {
            lemma_dedup_merge_no_duplicates(acc0, bviews);
        }
        assert(bviews.skip(0) =~= bviews);
    }
    let mut events = state.events;
    let batch_len = batch.len();
    let mut oldest: u64 = u64::MAX;
    let mut first = true;

    let mut i: usize = 0;
    while i < batch.len()
        invariant
            bviews == views_of(batch@),
            bviews.len() == batch@.len(),
            i <= batch@.len(),
            spec_dedup_merge(acc0, bviews) == spec_dedup_merge(
                views_of(events@),
                bviews.skip(i as int),
            ),
            i > 0 ==> oldest == spec_oldest(bviews.take(i as int)),
            first == (i == 0),
        decreases batch@.len() - i,
    {
        let ghost cur = views_of(events@);
        proof {
            assert(bviews[i as int] == batch@[i as int]@);
            assert(bviews.skip(i as int)[0] == bviews[i as int]);
            assert(bviews.skip(i as int).drop_first() =~= bviews.skip(i + 1));
            lemma_oldest_push(bviews.take(i as int), bviews[i as int]);
            assert(bviews.take(i as int).push(bviews[i as int]) =~= bviews.take(i + 1));
        }
        let e = &batch[i];
        if first || e.created_at < oldest {
            oldest = e.created_at;
        }
        first = false;
        if !contains_event_id(&events, e.id.as_str()) {
            events.push(e.clone());
            proof {
                assert(views_of(events@) =~= cur.push(bviews[i as int]));
                assert(spec_dedup_merge(cur, bviews.skip(i as int)) == spec_dedup_merge(
                    cur.push(bviews[i as int]),
                    bviews.skip(i + 1),
                ));
            }
        } else {
            proof {
                assert(spec_dedup_merge(cur, bviews.skip(i as int)) == spec_dedup_merge(
                    cur,
                    bviews.skip(i + 1),
                ));
            }
        }
        i = i + 1;
    }
    proof {
        assert(bviews.take(i as int) =~= bviews);
        assert(bviews.skip(i as int) =~= Seq::<EventView>::empty());
        assert(views_of(events@) == spec_dedup_merge(acc0, bviews));
        if distinct_event_ids(acc0) {
            assert forall|k: int| 0 <= k < batch@.len() implies spec_contains_id(
                views_of(events@),
                (#[trigger] batch@[k]@.id),
            ) by {
                assert(bviews[k] == batch@[k]@);
            }
        }
    }

    if batch_len == 0 {
        return EnumState { events, until: state.until, done: true };
    }
    if batch_len < page_size || oldest == 0 {
        return EnumState { events, until: state.until, done: true };
    }
    let next = oldest - 1;
    match state.until {
        Some(u) if next >= u => EnumState { events, until: state.until, done: true },
        _ => EnumState { events, until: Some(next), done: false },
    }
}

/// How the oldest time of a batch changes when one more event is appended.
proof fn lemma_oldest_push(batch: Seq<EventView>, e: EventView)
    ensures
        batch.len() == 0 ==> spec_oldest(batch.push(e)) == e.created_at,
        batch.len() > 0 ==> spec_oldest(batch.push(e)) == if e.created_at < spec_oldest(batch) {
            e.created_at
        } else {
            spec_oldest(batch)
        },
    decreases batch.len(),
{
    let p = batch.push(e);
    if batch.len() == 0 {
        assert(p.len() == 1);
        assert(p[0] == e);
    } else {
        assert(p.drop_first() =~= batch.drop_first().push(e));
        lemma_oldest_push(batch.drop_first(), e);
        assert(p[0] == batch[0]);
    }
}

} // verus!
