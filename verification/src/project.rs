//! The projector: maps a raw event into a structured record.
//!
//! Known tag keys are promoted into typed fields; when a key occurs on
//! several tags, the last occurrence wins, matching a read of the tag list
//! front to back. Unknown tags are preserved in the raw tag list but never
//! promoted. A short or malformed tag is passed over, never an error.

use vstd::prelude::*;
use vstd::string::StrSliceExecFns;
use vstd::string::StringExecFns;
use crate::event::Event;
use crate::event::EventView;
use crate::event::tag_matches_key;
use crate::numbers::kind_to_string;
use crate::numbers::spec_decimal;
use crate::strutil::str_eq;

verus! {

/// A projected record: the raw event fields plus the list-specific fields
/// read out of tag conventions.
#[derive(Debug)]
pub struct Record {
    pub event_id: String,
    pub kind: u16,
    pub pubkey: String,
    pub created_at: u64,
    pub tags: Vec<Vec<String>>,
    pub content: String,
    pub sig: String,
    pub name: Option<String>,
    pub aliases: Vec<String>,
    pub title: Option<String>,
    pub description: Option<String>,
    pub coordinate: Option<String>,
}

/// The mathematical value of a projected record.
pub ghost struct RecordView {
    pub event_id: Seq<char>,
    pub kind: u16,
    pub pubkey: Seq<char>,
    pub created_at: u64,
    pub tags: Seq<Seq<Seq<char>>>,
    pub content: Seq<char>,
    pub sig: Seq<char>,
    pub name: Option<Seq<char>>,
    pub aliases: Seq<Seq<char>>,
    pub title: Option<Seq<char>>,
    pub description: Option<Seq<char>>,
    pub coordinate: Option<Seq<char>>,
}

impl View for Record {
    type V = RecordView;

    open spec fn view(&self) -> RecordView {
        RecordView {
            event_id: self.event_id@,
            kind: self.kind,
            pubkey: self.pubkey@,
            created_at: self.created_at,
            tags: self.tags.deep_view(),
            content: self.content@,
            sig: self.sig@,
            name: self.name.deep_view(),
            aliases: self.aliases.deep_view(),
            title: self.title.deep_view(),
            description: self.description.deep_view(),
            coordinate: self.coordinate.deep_view(),
        }
    }
}

/// The views of a sequence of records.
pub open spec fn record_views(s: Seq<Record>) -> Seq<RecordView> {
    s.map_values(|r: Record| r@)
}

/// The last tag whose key is `key` and whose length is at least `min_len`,
/// if any.
pub open spec fn spec_last_match(
    tags: Seq<Seq<Seq<char>>>,
    key: Seq<char>,
    min_len: int,
) -> Option<Seq<Seq<char>>>
    decreases tags.len(),
{
    if tags.len() == 0 {
        None
    } else if tags.last().len() >= min_len && tag_matches_key(tags.last(), key) {
        Some(tags.last())
    } else {
        spec_last_match(tags.drop_last(), key, min_len)
    }
}

/// The coordinate string of a mutable entity: `kind:pubkey:identifier`.
pub open spec fn spec_coordinate(kind: u16, pubkey: Seq<char>, d: Seq<char>) -> Seq<char> {
    spec_decimal(kind as int) + seq![':'] + pubkey + seq![':'] + d
}

/// Builds the coordinate string `kind:pubkey:identifier`.
pub fn coordinate_string(kind: u16, pubkey: &str, d: &str) -> (r: String)
    ensures
        r@ == spec_coordinate(kind, pubkey@, d@),
{
    let r = kind_to_string(kind).concat(":").concat(pubkey).concat(":").concat(d);
    proof {
        reveal_strlit(":");
        assert(":"@ =~= seq![':']);
        assert(r@ =~= spec_coordinate(kind, pubkey@, d@));
    }
    r
}

/// The name field: the first value of the last `names` tag.
pub open spec fn spec_projected_name(tags: Seq<Seq<Seq<char>>>) -> Option<Seq<char>> {
    match spec_last_match(tags, "names"@, 2) {
        Some(t) => Some(t[1]),
        None => None,
    }
}

/// The aliases: every value after the first of the last `names` tag that
/// carries more than one value.
pub open spec fn spec_projected_aliases(tags: Seq<Seq<Seq<char>>>) -> Seq<Seq<char>> {
    match spec_last_match(tags, "names"@, 3) {
        Some(t) => t.subrange(2, t.len() as int),
        None => Seq::empty(),
    }
}

/// The title field: the value of the last `title` tag.
pub open spec fn spec_projected_title(tags: Seq<Seq<Seq<char>>>) -> Option<Seq<char>> {
    match spec_last_match(tags, "title"@, 2) {
        Some(t) => Some(t[1]),
        None => None,
    }
}

/// The description field: the value of the last `description` tag.
pub open spec fn spec_projected_description(tags: Seq<Seq<Seq<char>>>) -> Option<Seq<char>> {
    match spec_last_match(tags, "description"@, 2) {
        Some(t) => Some(t[1]),
        None => None,
    }
}

/// The coordinate field: built from the last `d` tag together with the
/// event's kind and author key.
pub open spec fn spec_projected_coordinate(ev: EventView) -> Option<Seq<char>> {
    match spec_last_match(ev.tags, "d"@, 2) {
        Some(t) => Some(spec_coordinate(ev.kind, ev.pubkey, t[1])),
        None => None,
    }
}

/// The record that projecting an event yields.
pub open spec fn spec_project(ev: EventView) -> RecordView {
    RecordView {
        event_id: ev.id,
        kind: ev.kind,
        pubkey: ev.pubkey,
        created_at: ev.created_at,
        tags: ev.tags,
        content: ev.content,
        sig: ev.sig,
        name: spec_projected_name(ev.tags),
        aliases: spec_projected_aliases(ev.tags),
        title: spec_projected_title(ev.tags),
        description: spec_projected_description(ev.tags),
        coordinate: spec_projected_coordinate(ev),
    }
}

/// Copies the values of a tag from the given position on.
fn tag_values_from(tag: &Vec<String>, from: usize) -> (r: Vec<String>)
    requires
        from as int <= tag@.len(),
    ensures
        r.deep_view() == tag.deep_view().subrange(from as int, tag@.len() as int),
{
    let mut out: Vec<String> = Vec::new();
    let mut i: usize = from;
    while i < tag.len()
        invariant
            from as int <= i as int <= tag@.len(),
            out@.len() == i - from,
            forall|j: int| 0 <= j < out@.len() ==> #[trigger] out@[j]@ == tag@[from + j]@,
        decreases tag@.len() - i,
    {
        out.push(tag[i].clone());
        i = i + 1;
    }
    proof {
        assert(out.deep_view() =~= tag.deep_view().subrange(from as int, tag@.len() as int));
    }
    out
}

/// Projects a raw event into a structured record, reading the `names`,
/// `title`, `description` and `d` tag conventions; when a key occurs on
/// several tags, the last occurrence wins.
pub fn project(e: &Event) -> (r: Record)
    ensures
        r@ == spec_project(e@),
{
    let ghost dtags = e.tags.deep_view();
    let mut name: Option<String> = None;
    let mut aliases: Vec<String> = Vec::new();
    let mut has_aliases: bool = false;
    let mut title: Option<String> = None;
    let mut description: Option<String> = None;
    let mut d_val: Option<String> = None;

    let mut i: usize = 0;
    while i < e.tags.len()
        invariant
            dtags == e.tags.deep_view(),
            dtags.len() == e.tags@.len(),
            i <= e.tags@.len(),
            name.deep_view() == spec_projected_name(dtags.take(i as int)),
            aliases.deep_view() == spec_projected_aliases(dtags.take(i as int)),
            has_aliases == (spec_last_match(dtags.take(i as int), "names"@, 3) is Some),
            title.deep_view() == spec_projected_title(dtags.take(i as int)),
            description.deep_view() == spec_projected_description(dtags.take(i as int)),
            match d_val {
                Some(v) => spec_last_match(dtags.take(i as int), "d"@, 2) matches Some(t)
                    && t[1] == v@,
                None => spec_last_match(dtags.take(i as int), "d"@, 2) is None,
            },
        decreases e.tags@.len() - i,
    {
        let tag = &e.tags[i];
        proof {
            reveal_strlit("names");
            reveal_strlit("title");
            reveal_strlit("description");
            reveal_strlit("d");
            assert("names"@.len() == 5 && "title"@.len() == 5 && "description"@.len() == 11
                && "d"@.len() == 1);
            assert("names"@[0] == 'n' && "title"@[0] == 't' && "description"@[0] == 'd');
            assert("names"@ != "title"@ && "names"@ != "description"@ && "names"@ != "d"@);
            assert("title"@ != "description"@ && "title"@ != "d"@);
            assert("description"@ != "d"@);
            assert(dtags[i as int] == tag.deep_view());
            assert(dtags.take(i + 1) =~= dtags.take(i as int).push(dtags[i as int]));
            assert(dtags.take(i + 1).drop_last() =~= dtags.take(i as int));
        }
        if tag.len() >= 2 {
            if str_eq(tag[0].as_str(), "names") {
                name = Some(tag[1].clone());
                if tag.len() > 2 {
                    aliases = tag_values_from(tag, 2);
                    has_aliases = true;
                    proof {
                        assert(aliases.deep_view() =~= dtags[i as int].subrange(
                            2,
                            dtags[i as int].len() as int,
                        ));
                    }
                }
            } else if str_eq(tag[0].as_str(), "title") {
                title = Some(tag[1].clone());
            } else if str_eq(tag[0].as_str(), "description") {
                description = Some(tag[1].clone());
            } else if str_eq(tag[0].as_str(), "d") {
                d_val = Some(tag[1].clone());
            }
        }
        i = i + 1;
    }
    proof {
        assert(dtags.take(i as int) =~= dtags);
    }
    let coordinate: Option<String> = match d_val {
        Some(d) => Some(coordinate_string(e.kind, e.pubkey.as_str(), d.as_str())),
        None => None,
    };
    Record {
        event_id: e.id.clone(),
        kind: e.kind,
        pubkey: e.pubkey.clone(),
        created_at: e.created_at,
        tags: crate::event::clone_tags(&e.tags),
        content: e.content.clone(),
        sig: e.sig.clone(),
        name,
        aliases,
        title,
        description,
        coordinate,
    }
}

} // verus!
