//! Construction of list item events: parameter validation, the
//! coordinate-based header reference, the tag set an item carries, and its
//! derived stable identifier.

use vstd::prelude::*;
use vstd::string::StrSliceExecFns;
use vstd::string::StringExecFns;
use crate::HEADER_ADDR_KIND;
use crate::ITEM_ADDR_KIND;
use crate::ITEM_KIND;
use crate::dtag::item_dtag;
use crate::dtag::spec_item_dtag;
use crate::error::AppError;
use crate::error::ArgError;
use crate::project::spec_coordinate;
use crate::resolve::coordinate_ok;
use crate::resolve::parse_coordinate;
use crate::resolve::pubkey_parse;
use crate::resolve::spec_find;
use crate::resolve::spec_split3;

verus! {

/// Everything a new list item is built from.
#[derive(Debug)]
pub struct ItemParams {
    pub relay: String,
    pub header: Option<String>,
    pub header_coordinate: Option<String>,
    pub resource: String,
    pub content: Option<String>,
    pub fields: Vec<String>,
    pub addressable: bool,
    pub d_tag: Option<String>,
}

/// Whether the parameters name a header at all: either by identity or by
/// coordinate. Anything else is a missing-argument error.
pub fn validate_item_params(params: &ItemParams) -> (r: Result<(), ArgError>)
    ensures
        match r {
            Ok(_) => params.header is Some || params.header_coordinate is Some,
            Err(e) => params.header is None && params.header_coordinate is None && e.code@
                == "MISSING_ARG"@,
        },
{
    if params.header.is_none() && params.header_coordinate.is_none() {
        return Err(
            ArgError {
                message: <String as StringExecFns>::from_str(
                    "Specify --header=<event-id> or --header-coordinate=<kind:pubkey:d-tag>",
                ),
                code: <String as StringExecFns>::from_str("MISSING_ARG"),
                fix: <String as StringExecFns>::from_str(
                    "Use --header with an event ID, or --header-coordinate with kind:pubkey:d-tag",
                ),
            },
        );
    }
    Ok(())
}

/// Resolves the coordinate form of a header reference without any fetch:
/// the coordinate must parse and must name the mutable header kind; the
/// canonical reference is its normalized string form.
pub fn header_coordinate_reference(coord_str: &str) -> (r: Result<String, AppError>)
    ensures
        match r {
            Ok(c) => coordinate_ok(coord_str@) && (spec_split3(coord_str@) matches Some(
                (_, b, d),
            ) && pubkey_parse(b) matches Some(pk) && c@ == spec_coordinate(
                HEADER_ADDR_KIND,
                pk,
                d,
            ) && (crate::strutil::is_lower_hex_64(b) ==> c@ == spec_coordinate(
                HEADER_ADDR_KIND,
                b,
                d,
            ))),
            Err(e) => (e matches AppError::InvalidCoordinate { input } && input@ == coord_str@)
                && (coordinate_ok(coord_str@) ==> !(spec_split3(coord_str@) matches Some((a, _, _))
                && crate::numbers::spec_decimal_value(a) == Some(HEADER_ADDR_KIND as int))),
        },
{
    let coord = match parse_coordinate(coord_str) {
        Ok(c) => c,
        Err(e) => {
            return Err(e);
        },
    };
    if coord.kind != HEADER_ADDR_KIND {
        return Err(
            AppError::InvalidCoordinate {
                input: <String as StringExecFns>::from_str(coord_str),
            },
        );
    }
    Ok(crate::project::coordinate_string(
        HEADER_ADDR_KIND,
        coord.pubkey.as_str(),
        coord.d_tag.as_str(),
    ))
}

/// What one extra field contributes to the tag set: a two-part tag split at
/// the first equals sign, or nothing when there is none.
pub open spec fn spec_field_tag(f: Seq<char>) -> Option<Seq<Seq<char>>> {
    let i = spec_find(f, '=');
    if 0 <= i < f.len() {
        Some(seq![f.take(i), f.skip(i + 1)])
    } else {
        None
    }
}

/// The tag set of a new list item, in order: the reference tag naming the
/// list, the resource, the client mark, one tag per `key=value` field —
/// a field without an equals sign is passed over — and the stable
/// identifier when one is given.
pub open spec fn spec_item_tags(
    parent_ref: Seq<char>,
    resource: Seq<char>,
    fields: Seq<Seq<char>>,
    d_tag: Option<Seq<char>>,
) -> Seq<Seq<Seq<char>>> {
    let base = seq![
        seq!["z"@, parent_ref],
        seq!["r"@, resource],
        seq!["client"@, "wokhei"@],
    ];
    let with_fields = base + fields.filter_map(|f: Seq<char>| spec_field_tag(f));
    with_fields + (match d_tag {
        Some(d) => seq![seq!["d"@, d]],
        None => Seq::empty(),
    })
}

/// A tag of exactly two parts.
fn pair_tag(key: &str, value: &str) -> (r: Vec<String>)
    ensures
        r.deep_view() =~= seq![key@, value@],
{
    let mut t: Vec<String> = Vec::new();
    t.push(<String as StringExecFns>::from_str(key));
    t.push(<String as StringExecFns>::from_str(value));
    proof {
        assert(t.deep_view() =~= seq![key@, value@]);
    }
    t
}

/// Builds the tag set of a new list item.
pub fn build_item_tags(
    parent_z_ref: &str,
    resource: &str,
    fields: &Vec<String>,
    d_tag: Option<&String>,
) -> (r: Vec<Vec<String>>)
    ensures
        r.deep_view() == spec_item_tags(
            parent_z_ref@,
            resource@,
            fields.deep_view(),
            match d_tag {
                Some(d) => Some(d@),
                None => None,
            },
        ),
{
    let ghost field_map = |f: Seq<char>| spec_field_tag(f);
    let mut tags: Vec<Vec<String>> = Vec::new();
    tags.push(pair_tag("z", parent_z_ref));
    tags.push(pair_tag("r", resource));
    tags.push(pair_tag("client", "wokhei"));
    proof {
        assert(tags.deep_view() =~= seq![
            seq!["z"@, parent_z_ref@],
            seq!["r"@, resource@],
            seq!["client"@, "wokhei"@],
        ]);
    }
    let ghost base = tags.deep_view();
    let ghost fl = fields.deep_view();
    let mut i: usize = 0;
    proof {
        assert(fl.take(0) =~= Seq::<Seq<char>>::empty());
        assert(fl.take(0).filter_map(field_map) =~= Seq::<Seq<Seq<char>>>::empty());
        assert(tags.deep_view() =~= base + fl.take(0).filter_map(field_map));
    }
    while i < fields.len()
        invariant
            fl == fields.deep_view(),
            fl.len() == fields@.len(),
            i <= fields@.len(),
            field_map == (|f: Seq<char>| spec_field_tag(f)),
            tags.deep_view() == base + fl.take(i as int).filter_map(field_map),
        decreases fields@.len() - i,
    {
        proof {
            assert(fl[i as int] == fields@[i as int]@);
            assert(fl.take(i + 1).drop_last() =~= fl.take(i as int));
            assert(fl.take(i + 1).last() == fl[i as int]);
        }
        let field = &fields[i];
        match crate::resolve::find_char_from(field.as_str(), 0, '=') {
            Some(q) => {
                proof {
                    crate::resolve::lemma_find_at(field@, '=', q as int);
                }
                let flen = field.as_str().unicode_len();
                let key = field.as_str().substring_char(0, q);
                let val = field.as_str().substring_char(q + 1, flen);
                let ftag = pair_tag(key, val);
                let ghost before = tags.deep_view();
                tags.push(ftag);
                proof {
                    assert(key@ =~= fl[i as int].take(q as int));
                    assert(val@ =~= fl[i as int].skip(q + 1));
                    assert(spec_field_tag(fl[i as int]) == Some(seq![key@, val@]));
                    assert(tags.deep_view() =~= before.push(seq![key@, val@]));
                    assert(tags.deep_view() =~= base + fl.take(i + 1).filter_map(field_map));
                }
            },
            None => {
                proof {
                    crate::resolve::lemma_find_none(field@, '=');
                    assert(spec_field_tag(fl[i as int]) is None);
                    assert(fl.take(i + 1).filter_map(field_map) == fl.take(i as int).filter_map(
                        field_map,
                    ));
                }
            },
        }
        i = i + 1;
    }
    proof {
        assert(fl.take(i as int) =~= fl);
    }
    if let Some(d) = d_tag {
        let dt = pair_tag("d", d.as_str());
        let ghost before = tags.deep_view();
        tags.push(dt);
        proof {
            assert(tags.deep_view() =~= before.push(seq!["d"@, d@]));
        }
    }
    proof {
        assert(tags.deep_view() =~= spec_item_tags(
            parent_z_ref@,
            resource@,
            fields.deep_view(),
            match d_tag {
                Some(d) => Some(d@),
                None => None,
            },
        ));
    }
    tags
}

/// The event kind an item gets: the mutable kind when addressable, else
/// the immutable one.
pub fn item_kind(addressable: bool) -> (r: u16)
    ensures
        r == if addressable {
            ITEM_ADDR_KIND
        } else {
            ITEM_KIND
        },
{
    if addressable {
        ITEM_ADDR_KIND
    } else {
        ITEM_KIND
    }
}

/// The stable identifier a new item carries: the given one, or — for an
/// addressable item without one — the identifier derived from the parent
/// reference and the resource.
pub fn item_d_tag_for(
    addressable: bool,
    d_tag: Option<String>,
    parent_ref: &str,
    resource: &str,
) -> (r: Option<String>)
    ensures
        match r {
            Some(d) => match d_tag {
                Some(given) => d@ == given@,
                None => addressable && d@ == spec_item_dtag(parent_ref@, resource@),
            },
            None => d_tag is None && !addressable,
        },
{
    if addressable && d_tag.is_none() {
        Some(item_dtag(parent_ref, resource))
    } else {
        d_tag
    }
}

} // verus!
