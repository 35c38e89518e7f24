//! Construction of list header events: the tag set a header carries, the
//! kind it gets, and the validity rule for its parameters.

use vstd::prelude::*;
use vstd::string::StringExecFns;
use crate::HEADER_ADDR_KIND;
use crate::HEADER_KIND;

verus! {

/// Everything a new list header is built from.
#[derive(Debug)]
pub struct HeaderParams {
    pub relay: String,
    pub name: String,
    pub aliases: Vec<String>,
    pub title: String,
    pub description: Option<String>,
    pub required: Vec<String>,
    pub recommended: Vec<String>,
    pub tags_list: Vec<String>,
    pub alt: Option<String>,
    pub addressable: bool,
    pub d_tag: Option<String>,
}

/// The alternative text a header carries: the given one, or a summary built
/// from the name and the title.
pub open spec fn spec_alt_text(name: Seq<char>, title: Seq<char>, alt: Option<Seq<char>>) -> Seq<
    char,
> {
    match alt {
        Some(a) => a,
        None => "DCoSL list header: "@ + name + " — "@ + title,
    }
}

/// The tag set of a new list header, in order: the names tag with the
/// primary name and its aliases, the title, the optional description, the
/// item field requirements when any are given, one topic tag per entry, the
/// alternative text, the client mark, and the stable identifier when one is
/// given.
pub open spec fn spec_header_tags(
    name: Seq<char>,
    aliases: Seq<Seq<char>>,
    title: Seq<char>,
    description: Option<Seq<char>>,
    required: Seq<Seq<char>>,
    recommended: Seq<Seq<char>>,
    tags_list: Seq<Seq<char>>,
    alt: Option<Seq<char>>,
    d_tag: Option<Seq<char>>,
) -> Seq<Seq<Seq<char>>> {
    let names_tag = seq!["names"@, name] + aliases;
    let base = seq![names_tag, seq!["title"@, title]];
    let with_desc = base + (match description {
        Some(d) => seq![seq!["description"@, d]],
        None => Seq::empty(),
    });
    let with_req = with_desc + (if required.len() > 0 {
        seq![seq!["required"@] + required]
    } else {
        Seq::empty()
    });
    let with_rec = with_req + (if recommended.len() > 0 {
        seq![seq!["recommended"@] + recommended]
    } else {
        Seq::empty()
    });
    let with_topics = with_rec + tags_list.map_values(|t: Seq<char>| seq!["t"@, t]);
    let with_alt = with_topics + seq![seq!["alt"@, spec_alt_text(name, title, alt)]];
    let with_client = with_alt + seq![seq!["client"@, "wokhei"@]];
    with_client + (match d_tag {
        Some(d) => seq![seq!["d"@, d]],
        None => Seq::empty(),
    })
}

/// A tag of exactly two parts.
fn pair_tag(key: &str, value: &str) -> (r: Vec<String>)
    ensures
        r.deep_view() =~= seq![key@, value@],
{
    let mut t: Vec<String> = Vec::new();
    t.push(<String as StringExecFns>::from_str(key));
    t.push(<String as StringExecFns>::from_str(value));
    proof {
        assert(t.deep_view() =~= seq![key@, value@]);
    }
    t
}

/// A tag of a key followed by a list of values.
fn list_tag(key: &str, values: &Vec<String>) -> (r: Vec<String>)
    ensures
        r.deep_view() =~= seq![key@] + values.deep_view(),
{
    let mut t: Vec<String> = Vec::new();
    t.push(<String as StringExecFns>::from_str(key));
    let mut i: usize = 0;
    while i < values.len()
        invariant
            i <= values@.len(),
            t.deep_view().len() == i + 1,
            t.deep_view()[0] == key@,
            forall|j: int| 0 <= j < i ==> t.deep_view()[j + 1] == values.deep_view()[j],
        decreases values@.len() - i,
    {
        t.push(values[i].clone());
        i = i + 1;
    }
    proof {
        assert(t.deep_view() =~= seq![key@] + values.deep_view());
    }
    t
}

/// Builds the tag set of a new list header from its parameters.
pub fn build_header_tags(params: &HeaderParams) -> (r: Vec<Vec<String>>)
    ensures
        r.deep_view() == spec_header_tags(
            params.name@,
            params.aliases.deep_view(),
            params.title@,
            params.description.deep_view(),
            params.required.deep_view(),
            params.recommended.deep_view(),
            params.tags_list.deep_view(),
            params.alt.deep_view(),
            params.d_tag.deep_view(),
        ),
{
    let ghost goal = spec_header_tags(
        params.name@,
        params.aliases.deep_view(),
        params.title@,
        params.description.deep_view(),
        params.required.deep_view(),
        params.recommended.deep_view(),
        params.tags_list.deep_view(),
        params.alt.deep_view(),
        params.d_tag.deep_view(),
    );
    let mut tags: Vec<Vec<String>> = Vec::new();

    let mut names_tag: Vec<String> = Vec::new();
    names_tag.push(<String as StringExecFns>::from_str("names"));
    names_tag.push(params.name.clone());
    let mut i: usize = 0;
    while i < params.aliases.len()
        invariant
            i <= params.aliases@.len(),
            names_tag.deep_view().len() == i + 2,
            names_tag.deep_view()[0] == "names"@,
            names_tag.deep_view()[1] == params.name@,
            forall|j: int|
                0 <= j < i ==> names_tag.deep_view()[j + 2] == params.aliases.deep_view()[j],
        decreases params.aliases@.len() - i,
    {
        names_tag.push(params.aliases[i].clone());
        i = i + 1;
    }
    proof {
        assert(names_tag.deep_view() =~= seq!["names"@, params.name@]
            + params.aliases.deep_view());
    }
    let ghost names_view = names_tag.deep_view();
    tags.push(names_tag);
    proof {
        assert(tags.deep_view() =~= seq![names_view]);
    }
    let title_tag = pair_tag("title", params.title.as_str());
    let ghost t0 = tags.deep_view();
    tags.push(title_tag);
    proof {
        assert(tags.deep_view() =~= t0.push(seq!["title"@, params.title@]));
    }

    if let Some(ref d) = params.description {
        let desc_tag = pair_tag("description", d.as_str());
        let ghost t1 = tags.deep_view();
        tags.push(desc_tag);
        proof {
            assert(tags.deep_view() =~= t1.push(seq!["description"@, d@]));
        }
    }
    if params.required.len() > 0 {
        let req_tag = list_tag("required", &params.required);
        let ghost t2 = tags.deep_view();
        tags.push(req_tag);
        proof {
            assert(tags.deep_view() =~= t2.push(seq!["required"@] + params.required.deep_view()));
        }
    }
    if params.recommended.len() > 0 {
        let rec_tag = list_tag("recommended", &params.recommended);
        let ghost t3 = tags.deep_view();
        tags.push(rec_tag);
        proof {
            assert(tags.deep_view() =~= t3.push(
                seq!["recommended"@] + params.recommended.deep_view(),
            ));
        }
    }

    let ghost with_rec = tags.deep_view();
    let ghost topic_map = |t: Seq<char>| seq!["t"@, t];
    let mut k: usize = 0;
    proof {
        assert(params.tags_list.deep_view().take(0).map_values(topic_map)
            =~= Seq::<Seq<Seq<char>>>::empty());
        assert(tags.deep_view() =~= with_rec + params.tags_list.deep_view().take(0).map_values(
            topic_map,
        ));
    }
    while k < params.tags_list.len()
        invariant
            k <= params.tags_list@.len(),
            params.tags_list.deep_view().len() == params.tags_list@.len(),
            topic_map == (|t: Seq<char>| seq!["t"@, t]),
            tags.deep_view() == with_rec + params.tags_list.deep_view().take(k as int).map_values(
                topic_map,
            ),
        decreases params.tags_list@.len() - k,
    {
        let ghost tl = params.tags_list.deep_view();
        let ttag = pair_tag("t", params.tags_list[k].as_str());
        let ghost before = tags.deep_view();
        tags.push(ttag);
        proof {
            assert(tl[k as int] == params.tags_list@[k as int]@);
            assert(tags.deep_view() =~= before.push(seq!["t"@, tl[k as int]]));
            assert(tl.take(k + 1).map_values(topic_map) =~= tl.take(k as int).map_values(
                topic_map,
            ).push(topic_map(tl[k as int])));
            assert(tags.deep_view() =~= with_rec + tl.take(k + 1).map_values(topic_map));
        }
        k = k + 1;
    }
    proof {
        assert(params.tags_list.deep_view().take(k as int) =~= params.tags_list.deep_view());
    }

    let alt_text: String = match params.alt {
        Some(ref a) => a.clone(),
        None => <String as StringExecFns>::from_str("DCoSL list header: ").concat(
            params.name.as_str(),
        ).concat(" — ").concat(params.title.as_str()),
    };
    proof {
        assert(alt_text@ == spec_alt_text(params.name@, params.title@, params.alt.deep_view()))
            by {
            if params.alt is None {
                assert(alt_text@ =~= "DCoSL list header: "@ + params.name@ + " — "@
                    + params.title@);
            }
        }
    }
    let alt_tag = pair_tag("alt", alt_text.as_str());
    let ghost t4 = tags.deep_view();
    tags.push(alt_tag);
    proof {
        assert(tags.deep_view() =~= t4.push(seq!["alt"@, alt_text@]));
    }
    let client_tag = pair_tag("client", "wokhei");
    let ghost t5 = tags.deep_view();
    tags.push(client_tag);
    proof {
        assert(tags.deep_view() =~= t5.push(seq!["client"@, "wokhei"@]));
    }
    if let Some(ref d) = params.d_tag {
        let d_tag = pair_tag("d", d.as_str());
        let ghost t6 = tags.deep_view();
        tags.push(d_tag);
        proof {
            assert(tags.deep_view() =~= t6.push(seq!["d"@, d@]));
        }
    }
    proof {
        assert(tags.deep_view() =~= goal);
    }
    tags
}

/// The event kind a header gets: the mutable kind when addressable, else
/// the immutable one.
pub fn header_kind(addressable: bool) -> (r: u16)
    ensures
        r == if addressable {
            HEADER_ADDR_KIND
        } else {
            HEADER_KIND
        },
{
    if addressable {
        HEADER_ADDR_KIND
    } else {
        HEADER_KIND
    }
}

/// Whether the parameters are admissible: an addressable header must name
/// its stable identifier.
pub fn header_params_valid(params: &HeaderParams) -> (r: bool)
    ensures
        r == !(params.addressable && params.d_tag is None),
{
    !(params.addressable && params.d_tag.is_none())
}

/// Whether an event kind is one of the two header kinds.
pub fn is_header_kind(kind: u16) -> (r: bool)
    ensures
        r == (kind == HEADER_KIND || kind == HEADER_ADDR_KIND),
{
    kind == HEADER_KIND || kind == HEADER_ADDR_KIND
}

} // verus!
