//! The query pipelines: filter construction, projection of whole batches,
//! the client-side name filter, and the final shaping of header and item
//! listings.
//!
//! The store cannot search substrings, so the name filter runs client-side
//! after projection. Every listing uses the same total order and the same
//! windowing, and a query that matches nothing is an empty-result condition,
//! never a connectivity failure.

use vstd::prelude::*;
use vstd::relations::sorted_by;
use crate::HEADER_ADDR_KIND;
use crate::HEADER_KIND;
use crate::ITEM_ADDR_KIND;
use crate::ITEM_KIND;
use crate::error::AppError;
use crate::enumerate::Filter;
use crate::enumerate::TagQuery;
use crate::event::Event;
use crate::event::EventView;
use crate::event::views_of;
use crate::order::record_order;
use crate::order::sort_records;
use crate::paginate::has_more;
use crate::paginate::paginate;
use crate::paginate::spec_window;
use crate::project::Record;
use crate::project::RecordView;
use crate::project::project;
use crate::project::record_views;
use crate::project::spec_project;
use crate::resolve::parse_pubkey;
use crate::resolve::pubkey_parse;
use crate::strutil::lower_of;
use crate::strutil::lowercase;
use crate::strutil::spec_contains_sub;
use crate::strutil::str_contains;

verus! {

/// The filter that lists headers: both header kinds, optionally one author
/// and one topic tag. An author that does not parse as a public key is a
/// malformed-reference error carrying the given string.
pub fn build_header_filter(author: Option<&String>, tag: Option<&String>) -> (r: Result<
    Filter,
    AppError,
>)
    ensures
        match r {
            Ok(f) => {
                &&& f@.kinds =~= seq![HEADER_KIND, HEADER_ADDR_KIND]
                &&& f@.id is None
                &&& f@.until is None
                &&& f@.limit is None
                &&& match author {
                    Some(a) => pubkey_parse(a@) is Some && f@.author == pubkey_parse(a@),
                    None => f@.author is None,
                }
                &&& match tag {
                    Some(t) => f@.tag_key == Some("t"@) && f@.tag_value == Some(t@),
                    None => f@.tag_key is None && f@.tag_value is None,
                }
            },
            Err(e) => author matches Some(a) && pubkey_parse(a@) is None && (e
                matches AppError::InvalidEventId { id } && id@ == a@),
        },
{
    let author_key: Option<String> = match author {
        Some(a) => {
            match parse_pubkey(a.as_str()) {
                Some(pk) => Some(pk),
                None => {
                    return Err(AppError::InvalidEventId { id: a.clone() });
                },
            }
        },
        None => None,
    };
    let tag_query: Option<TagQuery> = match tag {
        Some(t) => Some(TagQuery { key: string_from("t"), value: t.clone() }),
        None => None,
    };
    let mut kinds: Vec<u16> = Vec::new();
    kinds.push(HEADER_KIND);
    kinds.push(HEADER_ADDR_KIND);
    proof {
        assert(kinds@ =~= seq![HEADER_KIND, HEADER_ADDR_KIND]);
    }
    Ok(Filter { id: None, kinds, author: author_key, tag: tag_query, until: None, limit: None })
}

/// A filter that matches the given kinds and nothing else.
pub fn kinds_filter(kinds: Vec<u16>) -> (r: Filter)
    ensures
        r@.kinds == kinds@,
        r@.id is None,
        r@.author is None,
        r@.tag_key is None,
        r@.tag_value is None,
        r@.until is None,
        r@.limit is None,
{
    Filter { id: None, kinds, author: None, tag: None, until: None, limit: None }
}

/// The filter that fetches one event by identity.
pub fn id_filter(id_hex: &String) -> (r: Filter)
    ensures
        r@.id == Some(id_hex@),
        r@.kinds.len() == 0,
        r@.author is None,
        r@.tag_key is None,
        r@.tag_value is None,
        r@.until is None,
        r@.limit == Some(1usize),
{
    Filter {
        id: Some(id_hex.clone()),
        kinds: Vec::new(),
        author: None,
        tag: None,
        until: None,
        limit: Some(1),
    }
}

/// The filter that fetches the items of one list: both item kinds, the
/// reference tag equal to the canonical header reference, and an optional
/// result cap — the capped interactive fetch and the exhaustive enumeration
/// differ only in how this filter is driven.
pub fn items_filter(reference: &String, limit: Option<usize>) -> (r: Filter)
    ensures
        r@.kinds =~= seq![ITEM_KIND, ITEM_ADDR_KIND],
        r@.id is None,
        r@.author is None,
        r@.tag_key == Some("z"@),
        r@.tag_value == Some(reference@),
        r@.until is None,
        r@.limit == limit,
{
    let mut kinds: Vec<u16> = Vec::new();
    kinds.push(ITEM_KIND);
    kinds.push(ITEM_ADDR_KIND);
    proof {
        assert(kinds@ =~= seq![ITEM_KIND, ITEM_ADDR_KIND]);
    }
    Filter {
        id: None,
        kinds,
        author: None,
        tag: Some(TagQuery { key: string_from("z"), value: reference.clone() }),
        until: None,
        limit,
    }
}

/// Copies a string slice into an owned string.
fn string_from(s: &str) -> (r: String)
    ensures
        r@ == s@,
{
    <String as vstd::string::StringExecFns>::from_str(s)
}

/// Projects every event of a batch, in order.
pub fn project_all(events: &Vec<Event>) -> (r: Vec<Record>)
    ensures
        record_views(r@) == views_of(events@).map_values(|ev: EventView| spec_project(ev)),
{
    let ghost evs = views_of(events@);
    let mut out: Vec<Record> = Vec::new();
    let mut i: usize = 0;
    while i < events.len()
        invariant
            evs == views_of(events@),
            evs.len() == events@.len(),
            i <= events@.len(),
            record_views(out@).len() == i,
            forall|j: int|
                0 <= j < i ==> record_views(out@)[j] == spec_project(#[trigger] evs[j]),
        decreases events@.len() - i,
    {
        proof {
            assert(evs[i as int] == events@[i as int]@);
        }
        out.push(project(&events[i]));
        i = i + 1;
    }
    proof {
        assert(record_views(out@) =~= evs.map_values(|ev: EventView| spec_project(ev)));
    }
    out
}

/// Whether a record passes the client-side name filter: it has a name whose
/// lowercase form contains the lowercase form of the query.
pub open spec fn name_matches(rv: RecordView, lowered_query: Seq<char>) -> bool {
    rv.name matches Some(n) && spec_contains_sub(lower_of(n), lowered_query)
}

/// Keeps the records whose name contains the query, case-insensitively. The
/// store cannot search substrings, so this runs client-side after
/// projection.
pub fn filter_by_name(records: Vec<Record>, query: &str) -> (r: Vec<Record>)
    ensures
        record_views(r@) == record_views(records@).filter(
            |rv: RecordView| name_matches(rv, lower_of(query@)),
        ),
{
    let ghost pred = |rv: RecordView| name_matches(rv, lower_of(query@));
    let ghost all = record_views(records@);
    let lowered_query = lowercase(query);
    let mut out: Vec<Record> = Vec::new();
    let mut i: usize = 0;
    proof {
        assert(all.take(0) =~= Seq::<RecordView>::empty());
        assert(record_views(out@) =~= all.take(0).filter(pred));
    }
    while i < records.len()
        invariant
            all == record_views(records@),
            all.len() == records@.len(),
            i <= records@.len(),
            lowered_query@ == lower_of(query@),
            pred == (|rv: RecordView| name_matches(rv, lower_of(query@))),
            record_views(out@) == all.take(i as int).filter(pred),
        decreases records@.len() - i,
    {
        let ghost cur = record_views(out@);
        proof {
            assert(all[i as int] == records@[i as int]@);
            all.take(i as int).lemma_filter_push(all[i as int], pred);
            assert(all.take(i as int).push(all[i as int]) =~= all.take(i + 1));
        }
        let rec = &records[i];
        let keep = match rec.name {
            Some(ref n) => {
                let lowered_name = lowercase(n.as_str());
                str_contains(lowered_name.as_str(), lowered_query.as_str())
            },
            None => false,
        };
        if keep {
            out.push(clone_record(rec));
            proof {
                assert(record_views(out@) =~= cur.push(all[i as int]));
            }
        }
        i = i + 1;
    }
    proof {
        assert(all.take(i as int) =~= all);
    }
    out
}

/// Clones one record, preserving its value exactly.
pub fn clone_record(r: &Record) -> (c: Record)
    ensures
        c@ == r@,
{
    let name: Option<String> = match r.name {
        Some(ref s) => Some(s.clone()),
        None => None,
    };
    let title: Option<String> = match r.title {
        Some(ref s) => Some(s.clone()),
        None => None,
    };
    let description: Option<String> = match r.description {
        Some(ref s) => Some(s.clone()),
        None => None,
    };
    let coordinate: Option<String> = match r.coordinate {
        Some(ref s) => Some(s.clone()),
        None => None,
    };
    Record {
        event_id: r.event_id.clone(),
        kind: r.kind,
        pubkey: r.pubkey.clone(),
        created_at: r.created_at,
        tags: crate::event::clone_tags(&r.tags),
        content: r.content.clone(),
        sig: r.sig.clone(),
        name,
        aliases: crate::event::clone_tag(&r.aliases),
        title,
        description,
        coordinate,
    }
}

/// One page of a header listing, with its navigation facts.
#[derive(Debug)]
pub struct HeadersPage {
    pub total: usize,
    pub count: usize,
    pub offset: usize,
    pub limit: usize,
    pub has_more: bool,
    pub headers: Vec<Record>,
}

/// The records a header listing keeps: every event projected, then — when a
/// name query is given — narrowed to the records whose name contains it.
pub open spec fn spec_kept(events: Seq<EventView>, name_query: Option<Seq<char>>) -> Seq<
    RecordView,
> {
    let projected = events.map_values(|ev: EventView| spec_project(ev));
    match name_query {
        Some(q) => projected.filter(|rv: RecordView| name_matches(rv, lower_of(q))),
        None => projected,
    }
}

/// Shapes one page of the header listing: project, filter by name, sort by
/// the stable total order, window by offset and limit.
///
/// A query that keeps nothing, asked at offset zero, is the empty-result
/// condition — an error distinct from any connectivity failure, which this
/// function can never return. Otherwise the page is the `[offset,
/// offset+limit)` window of a sorted permutation of the kept records, and
/// `has_more` says whether a further page exists.
pub fn page_headers(
    events: Vec<Event>,
    name_query: Option<&String>,
    offset: usize,
    limit: usize,
) -> (r: Result<HeadersPage, AppError>)
    ensures
        ({
            let kept = spec_kept(
                views_of(events@),
                match name_query {
                    Some(q) => Some(q@),
                    None => None,
                },
            );
            match r {
                Err(e) => kept.len() == 0 && offset == 0 && e is NoResults,
                Ok(p) => {
                    &&& !(kept.len() == 0 && offset == 0)
                    &&& p.total == kept.len()
                    &&& p.offset == offset
                    &&& p.limit == limit
                    &&& p.has_more == (limit > 0 && offset + limit < kept.len())
                    &&& p.count == p.headers@.len()
                    &&& sorted_by(record_views(p.headers@), record_order())
                    &&& exists|s: Seq<RecordView>|
                        #[trigger] sorted_by(s, record_order()) && s.to_multiset()
                            == kept.to_multiset() && record_views(p.headers@) == s.subrange(
                            spec_window(s.len() as int, offset as int, limit as int).0,
                            spec_window(s.len() as int, offset as int, limit as int).1,
                        )
                },
            }
        }),
{
    let ghost kept = spec_kept(
        views_of(events@),
        match name_query {
            Some(q) => Some(q@),
            None => None,
        },
    );
    let mut records = project_all(&events);
    if let Some(q) = name_query {
        records = filter_by_name(records, q.as_str());
    }
    proof {
        assert(record_views(records@) == kept);
    }
    let records = sort_records(records);
    let ghost sorted_views = record_views(records@);
    proof {
        vstd::seq_lib::to_multiset_len(sorted_views);
        vstd::seq_lib::to_multiset_len(kept);
    }
    let total = records.len();
    if total == 0 && offset == 0 {
        return Err(AppError::NoResults);
    }
    let more = has_more(offset, limit, total);
    let page = paginate(records, offset, limit);
    let count = page.len();
    proof {
        let w = spec_window(sorted_views.len() as int, offset as int, limit as int);
        assert(record_views(page@) =~= sorted_views.subrange(w.0, w.1));
        assert forall|i1: int, i2: int|
            0 <= i1 < i2 < record_views(page@).len() implies #[trigger] record_order()(
            record_views(page@)[i1],
            record_views(page@)[i2],
        ) by {
            assert(record_views(page@)[i1] == sorted_views[w.0 + i1]);
            assert(record_views(page@)[i2] == sorted_views[w.0 + i2]);
        }
    }
    Ok(HeadersPage { total, count, offset, limit, has_more: more, headers: page })
}

/// One shaped item listing.
#[derive(Debug)]
pub struct ItemsPage {
    pub count: usize,
    pub items: Vec<Record>,
}

/// Shapes an item listing: every fetched item projected, with its count. An
/// empty fetch is the empty-result condition — never a connectivity
/// failure, which this function cannot return.
pub fn page_items(events: Vec<Event>) -> (r: Result<ItemsPage, AppError>)
    ensures
        match r {
            Err(e) => events@.len() == 0 && e is NoResults,
            Ok(p) => events@.len() > 0 && p.count == events@.len() && record_views(p.items@)
                == views_of(events@).map_values(|ev: EventView| spec_project(ev)),
        },
{
    if events.len() == 0 {
        return Err(AppError::NoResults);
    }
    let items = project_all(&events);
    let count = items.len();
    proof {
        assert(record_views(items@).len() == items@.len());
        assert(views_of(events@).len() == events@.len());
        assert(record_views(items@).len() == views_of(events@).map_values(
            |ev: EventView| spec_project(ev),
        ).len());
    }
    Ok(ItemsPage { count, items })
}

} // verus!
