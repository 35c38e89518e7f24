//! The event read-model.
//!
//! An event is an immutable signed record from the store. The engine never
//! verifies signatures or recomputes identities; it only reads the fields the
//! query logic needs, so the model holds them as plain values.

use vstd::prelude::*;
use crate::strutil::str_eq;

verus! {

/// An event as the store delivers it: identity, kind discriminator, author
/// key, creation time in seconds, tag list, free-form content and signature.
#[derive(Debug)]
pub struct Event {
    pub id: String,
    pub kind: u16,
    pub pubkey: String,
    pub created_at: u64,
    pub tags: Vec<Vec<String>>,
    pub content: String,
    pub sig: String,
}

/// The mathematical value of an event: every field as a sequence or number.
pub ghost struct EventView {
    pub id: Seq<char>,
    pub kind: u16,
    pub pubkey: Seq<char>,
    pub created_at: u64,
    pub tags: Seq<Seq<Seq<char>>>,
    pub content: Seq<char>,
    pub sig: Seq<char>,
}

impl View for Event {
    type V = EventView;

    open spec fn view(&self) -> EventView {
        EventView {
            id: self.id@,
            kind: self.kind,
            pubkey: self.pubkey@,
            created_at: self.created_at,
            tags: self.tags.deep_view(),
            content: self.content@,
            sig: self.sig@,
        }
    }
}

/// The views of a sequence of events.
pub open spec fn views_of(s: Seq<Event>) -> Seq<EventView> {
    s.map_values(|e: Event| e@)
}

impl Clone for Event {
    fn clone(&self) -> (r: Self)
        ensures
            r@ == self@,
    {
        let tags = clone_tags(&self.tags);
        Event {
            id: self.id.clone(),
            kind: self.kind,
            pubkey: self.pubkey.clone(),
            created_at: self.created_at,
            tags,
            content: self.content.clone(),
            sig: self.sig.clone(),
        }
    }
}

/// Clones one tag, preserving its value exactly.
pub fn clone_tag(tag: &Vec<String>) -> (r: Vec<String>)
    ensures
        r@ == tag@,
        r.deep_view() == tag.deep_view(),
{
    let mut out: Vec<String> = Vec::new();
    let mut i: usize = 0;
    while i < tag.len()
        invariant
            i <= tag@.len(),
            out@ =~= tag@.subrange(0, i as int),
        decreases tag@.len() - i,
    {
        out.push(tag[i].clone());
        i = i + 1;
    }
    proof {
        assert(out@ =~= tag@);
        assert(out.deep_view() =~= tag.deep_view());
    }
    out
}

/// Clones a whole tag list, preserving its deep value exactly.
pub fn clone_tags(tags: &Vec<Vec<String>>) -> (r: Vec<Vec<String>>)
    ensures
        r.deep_view() == tags.deep_view(),
{
    let mut out: Vec<Vec<String>> = Vec::new();
    let mut i: usize = 0;
    while i < tags.len()
        invariant
            i <= tags@.len(),
            out@.len() == i,
            forall|j: int| 0 <= j < i ==> #[trigger] out@[j].deep_view()
                == tags@[j].deep_view(),
        decreases tags@.len() - i,
    {
        out.push(clone_tag(&tags[i]));
        i = i + 1;
    }
    proof {
        assert(out.deep_view() =~= tags.deep_view());
    }
    out
}

/// Whether a tag carries the given key with at least one value.
pub open spec fn tag_matches_key(tag: Seq<Seq<char>>, key: Seq<char>) -> bool {
    tag.len() >= 2 && tag[0] == key
}

/// The value of the first tag with the given key and at least one value, if
/// any. A tag that carries the key but no value is passed over.
pub open spec fn spec_first_tag_value(tags: Seq<Seq<Seq<char>>>, key: Seq<char>) -> Option<
    Seq<char>,
>
    decreases tags.len(),
{
    if tags.len() == 0 {
        None
    } else if tag_matches_key(tags[0], key) {
        Some(tags[0][1])
    } else {
        spec_first_tag_value(tags.drop_first(), key)
    }
}

/// Finds the first tag with the given key and at least one value and returns
/// a copy of that value.
pub fn first_tag_value(tags: &Vec<Vec<String>>, key: &str) -> (r: Option<String>)
    ensures
        match r {
            Some(v) => spec_first_tag_value(tags.deep_view(), key@) == Some(v@),
            None => spec_first_tag_value(tags.deep_view(), key@) is None,
        },
{
    let ghost dtags = tags.deep_view();
    proof {
        assert(dtags.subrange(0, dtags.len() as int) =~= dtags);
    }
    let mut i: usize = 0;
    while i < tags.len()
        invariant
            dtags == tags.deep_view(),
            dtags.len() == tags@.len(),
            i <= tags@.len(),
            spec_first_tag_value(dtags, key@) == spec_first_tag_value(
                dtags.subrange(i as int, dtags.len() as int),
                key@,
            ),
        decreases tags@.len() - i,
    {
        let tag = &tags[i];
        proof {
            let rest = dtags.subrange(i as int, dtags.len() as int);
            assert(rest[0] == dtags[i as int]);
            assert(rest.drop_first() =~= dtags.subrange(i + 1, dtags.len() as int));
        }
        if tag.len() >= 2 && str_eq(tag[0].as_str(), key) {
            proof {
                assert(dtags[i as int] == tag.deep_view());
                assert(tag_matches_key(dtags[i as int], key@));
            }
            return Some(tag[1].clone());
        }
        i = i + 1;
    }
    proof {
        assert(dtags.subrange(i as int, dtags.len() as int) =~= Seq::<Seq<Seq<char>>>::empty());
    }
    None
}

/// The stable identifier ("d" tag) of a mutable event, if present.
pub fn event_d_tag(e: &Event) -> (r: Option<String>)
    ensures
        match r {
            Some(v) => spec_first_tag_value(e@.tags, "d"@) == Some(v@),
            None => spec_first_tag_value(e@.tags, "d"@) is None,
        },
{
    first_tag_value(&e.tags, "d")
}

/// Whether some tag in the list carries the given key/value pair.
pub open spec fn spec_has_tag_value(
    tags: Seq<Seq<Seq<char>>>,
    key: Seq<char>,
    value: Seq<char>,
) -> bool {
    exists|i: int|
        0 <= i < tags.len() && #[trigger] tag_matches_key(tags[i], key) && tags[i][1] == value
}

/// Whether the tag list carries a tag with the given key/value pair
/// (case-sensitive exact match on both).
pub fn has_tag_value(tags: &Vec<Vec<String>>, key: &str, value: &str) -> (r: bool)
    ensures
        r == spec_has_tag_value(tags.deep_view(), key@, value@),
{
    let ghost dtags = tags.deep_view();
    let mut i: usize = 0;
    while i < tags.len()
        invariant
            dtags == tags.deep_view(),
            dtags.len() == tags@.len(),
            i <= tags@.len(),
            forall|j: int|
                0 <= j < i ==> !(#[trigger] tag_matches_key(dtags[j], key@) && dtags[j][1]
                    == value@),
        decreases tags@.len() - i,
    {
        let tag = &tags[i];
        if tag.len() >= 2 && str_eq(tag[0].as_str(), key) && str_eq(tag[1].as_str(), value) {
            proof {
                assert(dtags[i as int] == tag.deep_view());
                assert(tag_matches_key(dtags[i as int], key@) && dtags[i as int][1] == value@);
            }
            return true;
        }
        proof {
            assert(dtags[i as int] == tag.deep_view());
        }
        i = i + 1;
    }
    false
}

} // verus!
