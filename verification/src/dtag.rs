//! Deterministic stable identifiers for mutable entities.
//!
//! A mutable header or item needs a stable per-author identifier. It is
//! derived, not chosen: a URL-safe slug of the human name, joined to a short
//! hex suffix of a digest over a context-tagged preimage, so that the same
//! inputs always address the same entity.

use vstd::prelude::*;
use vstd::string::StrSliceExecFns;
use vstd::string::StringExecFns;
use crate::strutil::lower_of;
use crate::strutil::lowercase;

verus! {

/// Whether the slug keeps this character as it stands: a lowercase ASCII
/// letter or a digit.
pub open spec fn keepable(c: char) -> bool {
    (('a' as u32) <= (c as u32) && (c as u32) <= ('z' as u32)) || (('0' as u32) <= (c as u32) && (
    c as u32) <= ('9' as u32))
}

/// Whether the slug treats this character as a separator: ASCII whitespace
/// or a hyphen.
pub open spec fn sepish(c: char) -> bool {
    c == '-' || c == ' ' || c == '\t' || c == '\n' || c == '\x0c' || c == '\r'
}

/// What one character contributes to the raw slug: itself if keepable, a
/// hyphen if a separator, nothing otherwise.
pub open spec fn norm_one(c: char) -> Seq<char> {
    if keepable(c) {
        seq![c]
    } else if sepish(c) {
        seq!['-']
    } else {
        Seq::empty()
    }
}

/// The raw slug: separators become hyphens, keepable characters stay,
/// everything else is dropped.
pub open spec fn norm(s: Seq<char>) -> Seq<char> {
    s.filter(|c: char| keepable(c) || sepish(c)).map_values(
        |c: char| if sepish(c) {
            '-'
        } else {
            c
        },
    )
}

/// Collapses every run of hyphens to a single hyphen.
pub open spec fn collapse(s: Seq<char>) -> Seq<char>
    decreases s.len(),
{
    if s.len() <= 1 {
        s
    } else if s.last() == '-' && s[s.len() - 2] == '-' {
        collapse(s.drop_last())
    } else {
        collapse(s.drop_last()).push(s.last())
    }
}

/// Drops every leading hyphen.
pub open spec fn trim_front(s: Seq<char>) -> Seq<char>
    decreases s.len(),
{
    if s.len() > 0 && s[0] == '-' {
        trim_front(s.drop_first())
    } else {
        s
    }
}

/// Drops every trailing hyphen.
pub open spec fn trim_back(s: Seq<char>) -> Seq<char>
    decreases s.len(),
{
    if s.len() > 0 && s.last() == '-' {
        trim_back(s.drop_last())
    } else {
        s
    }
}

/// The slug of a lowercased string: normalize each character, collapse
/// hyphen runs, and strip hyphens from both ends.
pub open spec fn spec_slug(s: Seq<char>) -> Seq<char> {
    trim_back(trim_front(collapse(norm(s))))
}

/// The normalized form of a human string: the slug of its lowercase form,
/// or the fallback when that slug is empty.
pub open spec fn spec_normalize(s: Seq<char>, fallback: Seq<char>) -> Seq<char> {
    if spec_slug(lower_of(s)).len() == 0 {
        fallback
    } else {
        spec_slug(lower_of(s))
    }
}

/// Relies on `String::push`: appends the given character to the end of the
/// string.
#[verifier::external_body]
fn push_char(s: &mut String, c: char)
    ensures
        final(s)@ == old(s)@.push(c),
{
    s.push(c);
}

/// Normalizing one more character extends the raw slug by that character's
/// contribution.
proof fn lemma_norm_push(s: Seq<char>, c: char)
    ensures
        norm(s.push(c)) == norm(s) + norm_one(c),
{
    let p = |c: char| keepable(c) || sepish(c);
    let m = |c: char|
        if sepish(c) {
            '-'
        } else {
            c
        };
    s.lemma_filter_push(c, p);
    if p(c) {
        assert(s.push(c).filter(p) == s.filter(p).push(c));
        assert(s.filter(p).push(c).map_values(m) =~= s.filter(p).map_values(m).push(m(c)));
        assert(norm(s.push(c)) =~= norm(s) + norm_one(c));
    } else {
        assert(s.push(c).filter(p) == s.filter(p));
        assert(norm(s.push(c)) =~= norm(s) + norm_one(c));
    }
}

/// Collapsing keeps the last character, and keeps the sequence non-empty.
proof fn lemma_collapse_last(s: Seq<char>)
    requires
        s.len() > 0,
    ensures
        collapse(s).len() > 0,
        collapse(s).last() == s.last(),
    decreases s.len(),
{
    if s.len() > 1 {
        lemma_collapse_last(s.drop_last());
    }
}

/// How front-trimming behaves when one character is appended at the back.
proof fn lemma_trim_front_push(s: Seq<char>, c: char)
    ensures
        trim_front(s).len() > 0 ==> trim_front(s.push(c)) == trim_front(s).push(c),
        trim_front(s).len() == 0 ==> trim_front(s.push(c)) == if c == '-' {
            Seq::<char>::empty()
        } else {
            seq![c]
        },
    decreases s.len(),
{
    if s.len() == 0 {
        assert(s.push(c).drop_first() =~= Seq::<char>::empty());
        assert(trim_front(Seq::<char>::empty()) == Seq::<char>::empty());
        if c == '-' {
            assert(s.push(c)[0] == c);
            assert(trim_front(s.push(c)) == trim_front(s.push(c).drop_first()));
            assert(trim_front(s.push(c)) =~= Seq::<char>::empty());
        } else {
            assert(trim_front(s.push(c)) =~= seq![c]);
        }
    } else if s[0] == '-' {
        assert(s.push(c).drop_first() =~= s.drop_first().push(c));
        lemma_trim_front_push(s.drop_first(), c);
    } else {
        assert(trim_front(s) == s);
        assert(trim_front(s.push(c)) == s.push(c));
    }
}

/// Back-trimming a sequence that ends in no hyphen changes nothing.
proof fn lemma_trim_back_noop(s: Seq<char>)
    requires
        s.len() == 0 || s.last() != '-',
    ensures
        trim_back(s) == s,
{
}

/// Front-trimming never touches the last character.
proof fn lemma_trim_front_keeps_last(s: Seq<char>)
    ensures
        trim_front(s).len() > 0 ==> s.len() > 0 && trim_front(s).last() == s.last(),
    decreases s.len(),
{
    if s.len() > 0 && s[0] == '-' {
        lemma_trim_front_keeps_last(s.drop_first());
        if trim_front(s).len() > 0 {
            assert(s.drop_first().last() == s.last());
        }
    }
}

/// Builds the slug of an already-lowercased string: separators to hyphens,
/// other characters kept only if a lowercase letter or digit, hyphen runs
/// collapsed, no hyphen at either end.
fn build_slug(s: &str) -> (r: String)
    ensures
        r@ == spec_slug(s@),
{
    let len = s.unicode_len();
    let mut out = String::new();
    let mut pending = false;
    let mut i: usize = 0;
    proof {
        assert(s@.take(0) =~= Seq::<char>::empty());
        assert(norm(Seq::<char>::empty()).len() == 0) by {
            assert(Seq::<char>::empty().filter(|c: char| keepable(c) || sepish(c))
                =~= Seq::<char>::empty());
        }
    }
    while i < len
        invariant
            len == s@.len(),
            i <= len,
            pending ==> out@.len() > 0,
            out@.len() > 0 ==> out@.last() != '-',
            trim_front(collapse(norm(s@.take(i as int)))) == out@ + if pending {
                seq!['-']
            } else {
                Seq::<char>::empty()
            },
        decreases len - i,
    {
        let ghost prefix = s@.take(i as int);
        let ghost np = norm(prefix);
        let ghost cn = collapse(np);
        let c = s.get_char(i);
        proof {
            assert(s@.take(i + 1) =~= prefix.push(s@[i as int]));
            lemma_norm_push(prefix, s@[i as int]);
        }
        let keep = (('a' as u32) <= (c as u32) && (c as u32) <= ('z' as u32)) || (('0' as u32) <= (
        c as u32) && (c as u32) <= ('9' as u32));
        let sep = c == '-' || c == ' ' || c == '\t' || c == '\n' || c == '\x0c' || c == '\r';
        if keep {
            proof {
                assert(norm(s@.take(i + 1)) =~= np.push(c));
                if np.len() > 0 {
                    lemma_collapse_last(np);
                    assert(np.push(c).drop_last() =~= np);
                    assert(collapse(np.push(c)) == cn.push(c));
                } else {
                    assert(np.push(c) =~= seq![c]);
                    assert(collapse(np.push(c)) == seq![c]);
                    assert(cn.len() == 0);
                    assert(trim_front(cn) == cn);
                    assert(out@.len() == 0 && !pending);
                    assert(seq![c] =~= Seq::<char>::empty().push(c));
                }
                lemma_trim_front_push(cn, c);
                if pending {
                    assert(trim_front(cn) == out@ + seq!['-']);
                    assert(trim_front(cn).len() > 0);
                    assert(trim_front(cn.push(c)) == (out@ + seq!['-']).push(c));
                    assert((out@ + seq!['-']).push(c) =~= (out@.push('-')).push(c));
                } else {
                    assert(trim_front(cn) == out@ + Seq::<char>::empty());
                    assert(trim_front(cn) =~= out@);
                    if out@.len() > 0 {
                        assert(trim_front(cn.push(c)) == out@.push(c));
                    } else {
                        assert(trim_front(cn.push(c)) == seq![c]);
                        assert(seq![c] =~= out@.push(c));
                    }
                }
            }
            if pending {
                push_char(&mut out, '-');
            }
            push_char(&mut out, c);
            pending = false;
            proof {
                assert(trim_front(collapse(norm(s@.take(i + 1)))) == out@
                    + Seq::<char>::empty());
            }
        } else if sep {
            proof {
                assert(norm(s@.take(i + 1)) =~= np.push('-'));
                if np.len() == 0 {
                    assert(np.push('-') =~= seq!['-']);
                    assert(collapse(np.push('-')) == seq!['-']);
                    assert(seq!['-'].drop_first() =~= Seq::<char>::empty());
                    assert(trim_front(collapse(np.push('-'))) =~= Seq::<char>::empty());
                    assert(out@ + if pending {
                        seq!['-']
                    } else {
                        Seq::<char>::empty()
                    } =~= trim_front(cn));
                    assert(norm(Seq::<char>::empty()).len() == 0) by {
                        assert(Seq::<char>::empty().filter(|c: char| keepable(c) || sepish(c))
                            =~= Seq::<char>::empty());
                    }
                    assert(cn.len() == 0);
                    assert(out@.len() == 0 && !pending);
                } else {
                    lemma_collapse_last(np);
                    assert(np.push('-').drop_last() =~= np);
                    lemma_trim_front_keeps_last(cn);
                    if np.last() == '-' {
                        assert(collapse(np.push('-')) == cn);
                        if out@.len() > 0 && !pending {
                            assert(trim_front(cn) =~= out@);
                            assert(cn.last() == np.last());
                            assert(out@.last() == '-');
                            assert(false);
                        }
                    } else {
                        assert(collapse(np.push('-')) == cn.push('-'));
                        lemma_trim_front_push(cn, '-');
                        if pending {
                            assert(trim_front(cn) == out@ + seq!['-']);
                            assert(trim_front(cn).last() == '-');
                            assert(cn.last() == '-');
                            assert(false);
                        } else if out@.len() > 0 {
                            assert(trim_front(cn) =~= out@);
                            assert(trim_front(cn.push('-')) == out@.push('-'));
                            assert(out@.push('-') =~= out@ + seq!['-']);
                        } else {
                            assert(trim_front(cn) =~= Seq::<char>::empty());
                            assert(trim_front(cn.push('-')) =~= Seq::<char>::empty());
                        }
                    }
                }
            }
            if out.as_str().unicode_len() > 0 {
                pending = true;
            }
        } else {
            proof {
                assert(norm(s@.take(i + 1)) =~= np + Seq::<char>::empty());
                assert(np + Seq::<char>::empty() =~= np);
            }
        }
        i = i + 1;
    }
    proof {
        assert(s@.take(i as int) =~= s@);
        let t = trim_front(collapse(norm(s@)));
        if pending {
            assert(t == out@ + seq!['-']);
            assert(t.len() > 0 && t.last() == '-');
            assert(t.drop_last() =~= out@);
            assert(trim_back(t) == trim_back(out@));
            lemma_trim_back_noop(out@);
        } else {
            assert(t =~= out@);
            lemma_trim_back_noop(out@);
        }
    }
    out
}

/// Normalizes a human string into a URL-safe slug over `a`-`z`, `0`-`9` and
/// `-`: lowercase, separators become single hyphens, no hyphen at either
/// end. Returns `fallback` when the input normalizes to empty.
pub fn normalize(input: &str, fallback: &str) -> (r: String)
    ensures
        r@ == spec_normalize(input@, fallback@),
{
    let lowered = lowercase(input);
    let slug = build_slug(lowered.as_str());
    if slug.as_str().unicode_len() == 0 {
        <String as StringExecFns>::from_str(fallback)
    } else {
        slug
    }
}

/// A name for the SHA-256 digest of a string's bytes, rendered in hex. The
/// digest is a function of the input alone.
pub uninterp spec fn sha256_hex_of(s: Seq<char>) -> Seq<char>;

/// Relies on bitcoin_hashes' `sha256::Hash::hash` and its display form: the
/// digest of the string's UTF-8 bytes, rendered as 64 lowercase hex
/// characters, a function of the input alone.
#[verifier::external_body]
fn sha256_hex(s: &str) -> (r: String)
    ensures
        r@ == sha256_hex_of(s@),
        r@.len() == 64,
{
    <bitcoin_hashes::sha256::Hash as bitcoin_hashes::Hash>::hash(s.as_bytes()).to_string()
}

/// The deterministic suffix: the first eight hex characters of the digest
/// of the preimage.
pub open spec fn spec_suffix(s: Seq<char>) -> Seq<char> {
    sha256_hex_of(s).take(8)
}

/// Computes the eight-character hex suffix of a preimage string.
pub fn suffix(preimage: &str) -> (r: String)
    ensures
        r@ == spec_suffix(preimage@),
        r@.len() == 8,
{
    let digest = sha256_hex(preimage);
    let cut = digest.as_str().substring_char(0, 8);
    let r = <String as StringExecFns>::from_str(cut);
    proof {
        assert(r@ =~= sha256_hex_of(preimage@).take(8));
    }
    r
}

/// The stable identifier of a mutable list header derived from its primary
/// name and its author key: `{slug}--{8-hex-suffix}`, with the suffix drawn
/// from a header-tagged preimage of the key and the slug.
pub open spec fn spec_header_dtag(name: Seq<char>, pubkey: Seq<char>) -> Seq<char> {
    let slug = spec_normalize(name, "list"@);
    slug + "--"@ + spec_suffix("header|"@ + pubkey + "|"@ + slug)
}

/// Derives the stable identifier for a mutable list header:
/// `{slug}--{8-hex-suffix}`, deterministic in the name and the author key.
/// An empty or unusable name falls back to the slug `list`.
pub fn header_dtag(name_singular: &str, pubkey_hex: &str) -> (r: String)
    ensures
        r@ == spec_header_dtag(name_singular@, pubkey_hex@),
{
    let slug = normalize(name_singular, "list");
    let preimage = <String as StringExecFns>::from_str("header|").concat(pubkey_hex).concat(
        "|",
    ).concat(slug.as_str());
    proof {
        assert(preimage@ =~= "header|"@ + pubkey_hex@ + "|"@ + slug@);
    }
    let sfx = suffix(preimage.as_str());
    let r = slug.concat("--").concat(sfx.as_str());
    proof {
        assert(r@ =~= spec_header_dtag(name_singular@, pubkey_hex@));
    }
    r
}

/// The stable identifier of a mutable list item derived from its parent
/// reference and its anchor value: `{slug}--{8-hex-suffix}`. The suffix is
/// drawn from the raw anchor value, not the slug, so it stays sensitive to
/// the original input.
pub open spec fn spec_item_dtag(parent: Seq<char>, anchor: Seq<char>) -> Seq<char> {
    let slug = spec_normalize(anchor, "item"@);
    slug + "--"@ + spec_suffix("item|"@ + parent + "|"@ + anchor)
}

/// Derives the stable identifier for a mutable list item:
/// `{slug}--{8-hex-suffix}`, deterministic in the parent reference and the
/// anchor value. An empty or unusable anchor falls back to the slug `item`.
pub fn item_dtag(parent_z: &str, anchor_value: &str) -> (r: String)
    ensures
        r@ == spec_item_dtag(parent_z@, anchor_value@),
{
    let slug = normalize(anchor_value, "item");
    let preimage = <String as StringExecFns>::from_str("item|").concat(parent_z).concat(
        "|",
    ).concat(anchor_value);
    proof {
        assert(preimage@ =~= "item|"@ + parent_z@ + "|"@ + anchor_value@);
    }
    let sfx = suffix(preimage.as_str());
    let r = slug.concat("--").concat(sfx.as_str());
    proof {
        assert(r@ =~= spec_item_dtag(parent_z@, anchor_value@));
    }
    r
}

} // verus!
