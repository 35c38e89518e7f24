//! Preparation of a raw event given as data: the tag list is kept only
//! where a tag has a key and at least one value, and the kind discriminator
//! is read with a default and reduced to its 16-bit range.

use vstd::prelude::*;

verus! {

/// Keeps exactly the tags with a key and at least one value; shorter tag
/// arrays are passed over, never an error.
pub fn sanitize_tags(tags: Vec<Vec<String>>) -> (r: Vec<Vec<String>>)
    ensures
        r.deep_view() == tags.deep_view().filter(|t: Seq<Seq<char>>| t.len() >= 2),
{
    let ghost pred = |t: Seq<Seq<char>>| t.len() >= 2;
    let ghost all = tags.deep_view();
    let mut out: Vec<Vec<String>> = Vec::new();
    let mut i: usize = 0;
    proof {
        assert(all.take(0) =~= Seq::<Seq<Seq<char>>>::empty());
        assert(out.deep_view() =~= all.take(0).filter(pred));
    }
    let mut tags = tags;
    while i < tags.len()
        invariant
            all == tags.deep_view(),
            all.len() == tags@.len(),
            i <= tags@.len(),
            pred == (|t: Seq<Seq<char>>| t.len() >= 2),
            out.deep_view() == all.take(i as int).filter(pred),
        decreases tags@.len() - i,
    {
        let ghost cur = out.deep_view();
        proof {
            assert(all[i as int] == tags@[i as int].deep_view());
            all.take(i as int).lemma_filter_push(all[i as int], pred);
            assert(all.take(i as int).push(all[i as int]) =~= all.take(i + 1));
        }
        if tags[i].len() >= 2 {
            let t = crate::event::clone_tag(&tags[i]);
            out.push(t);
            proof {
                assert(out.deep_view() =~= cur.push(all[i as int]));
            }
        }
        i = i + 1;
    }
    proof {
        assert(all.take(i as int) =~= all);
    }
    out
}

/// The kind discriminator of a raw event: the given value, or one when
/// none is given, reduced to the 16-bit range the wire format carries.
pub fn kind_from_value(kind: Option<u64>) -> (r: u16)
    ensures
        r as int == (match kind {
            Some(v) => v as int,
            None => 1int,
        }) % 0x10000,
{
    let v: u64 = match kind {
        Some(v) => v,
        None => 1,
    };
    (v % 0x10000) as u16
}

} // verus!
