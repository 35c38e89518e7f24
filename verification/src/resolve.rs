//! The reference resolver.
//!
//! A header is addressed either by its event identity (immutable header) or
//! by a textual coordinate `kind:author:identifier` (mutable header). Both
//! forms resolve to one canonical reference string: the identity itself for
//! an immutable header, the normalized coordinate for a mutable one. That
//! string is the sole join key between headers and their items.

use vstd::prelude::*;
use vstd::string::StrSliceExecFns;
use vstd::string::StringExecFns;
use crate::HEADER_ADDR_KIND;
use crate::HEADER_KIND;
use crate::error::AppError;
use crate::event::Event;
use crate::event::event_d_tag;
use crate::event::spec_first_tag_value;
use crate::numbers::parse_u16;
use crate::numbers::spec_decimal;
use crate::numbers::spec_decimal_value;
use crate::numbers::spec_digit_char;
use crate::numbers::spec_digits_value;
use crate::numbers::spec_char_digit;
use crate::numbers::spec_is_digit;
use crate::project::coordinate_string;
use crate::project::spec_coordinate;
use crate::strutil::is_lower_hex_64;

verus! {

/// A name for what `PublicKey::parse` composed with `to_hex` computes: the
/// normalized hex form of a public key given in hex, bech32 or URI form, or
/// nothing when the string is no valid key. The result depends on the string
/// alone.
pub uninterp spec fn pubkey_parse(s: Seq<char>) -> Option<Seq<char>>;

/// Relies on nostr_sdk's `PublicKey::parse` and `PublicKey::to_hex`: parsing
/// accepts a hex, bech32 or URI key and is a function of the string alone;
/// `to_hex` renders the 32 key bytes as 64 lowercase hex characters; and a
/// 64-character lowercase hex string decodes to exactly the bytes it spells,
/// so it normalizes to itself.
#[verifier::external_body]
pub(crate) fn parse_pubkey(s: &str) -> (r: Option<String>)
    ensures
        r.deep_view() == pubkey_parse(s@),
        match r {
            Some(h) => is_lower_hex_64(h@) && (is_lower_hex_64(s@) ==> h@ == s@),
            None => !is_lower_hex_64(s@),
        },
{
    match nostr_sdk::prelude::PublicKey::parse(s) {
        Ok(pk) => Some(pk.to_hex()),
        Err(_) => None,
    }
}

/// A name for what `EventId::parse` composed with `to_hex` computes: the
/// normalized hex form of an event identity given in hex, bech32 or URI
/// form, or nothing when the string is no valid identity. The result depends
/// on the string alone.
pub uninterp spec fn event_id_parse(s: Seq<char>) -> Option<Seq<char>>;

/// Relies on nostr_sdk's `EventId::parse` and `EventId::to_hex`: parsing
/// accepts a hex, bech32 or URI identity and is a function of the string
/// alone; `to_hex` renders the 32 identity bytes as 64 lowercase hex
/// characters; and a 64-character lowercase hex string decodes to exactly
/// the bytes it spells, so it normalizes to itself.
#[verifier::external_body]
pub(crate) fn parse_event_id(s: &str) -> (r: Option<String>)
    ensures
        r.deep_view() == event_id_parse(s@),
        match r {
            Some(h) => is_lower_hex_64(h@) && (is_lower_hex_64(s@) ==> h@ == s@),
            None => !is_lower_hex_64(s@),
        },
{
    match nostr_sdk::prelude::EventId::parse(s) {
        Ok(id) => Some(id.to_hex()),
        Err(_) => None,
    }
}

/// The index of the first occurrence of a character, or -1.
pub open spec fn spec_find(s: Seq<char>, c: char) -> int
    decreases s.len(),
{
    if s.len() == 0 {
        -1
    } else if s[0] == c {
        0
    } else {
        let r = spec_find(s.drop_first(), c);
        if r < 0 {
            -1
        } else {
            r + 1
        }
    }
}

/// What a found index means: the character stands there and nowhere before.
pub proof fn lemma_find_at(s: Seq<char>, c: char, i: int)
    requires
        0 <= i < s.len(),
        s[i] == c,
        forall|j: int| 0 <= j < i ==> s[j] != c,
    ensures
        spec_find(s, c) == i,
    decreases s.len(),
{
    if i > 0 {
        assert(s[0] != c);
        assert forall|j: int| 0 <= j < i - 1 implies s.drop_first()[j] != c by {
            assert(s.drop_first()[j] == s[j + 1]);
        }
        assert(s.drop_first()[i - 1] == s[i]);
        lemma_find_at(s.drop_first(), c, i - 1);
    }
}

/// A sequence without the character has no found index.
pub proof fn lemma_find_none(s: Seq<char>, c: char)
    requires
        forall|j: int| 0 <= j < s.len() ==> s[j] != c,
    ensures
        spec_find(s, c) == -1,
    decreases s.len(),
{
    if s.len() > 0 {
        assert forall|j: int| 0 <= j < s.drop_first().len() implies s.drop_first()[j] != c by {
            assert(s.drop_first()[j] == s[j + 1]);
        }
        lemma_find_none(s.drop_first(), c);
    }
}

/// The three segments of a coordinate string: the text before the first
/// colon, the text between the first and second colons, and everything after
/// the second colon, which may itself contain colons.
pub open spec fn spec_split3(s: Seq<char>) -> Option<(Seq<char>, Seq<char>, Seq<char>)> {
    let i = spec_find(s, ':');
    if i < 0 {
        None
    } else {
        let rest = s.skip(i + 1);
        let j = spec_find(rest, ':');
        if j < 0 {
            None
        } else {
            Some((s.take(i), rest.take(j), rest.skip(j + 1)))
        }
    }
}

/// Finds the first occurrence of a character at or after `from`.
pub fn find_char_from(s: &str, from: usize, c: char) -> (r: Option<usize>)
    requires
        from as int <= s@.len(),
    ensures
        match r {
            Some(k) => from <= k < s@.len() && s@[k as int] == c && forall|j: int|
                from <= j < k ==> s@[j] != c,
            None => forall|j: int| from <= j < s@.len() ==> s@[j] != c,
        },
{
    let len = s.unicode_len();
    let mut i: usize = from;
    while i < len
        invariant
            from <= i,
            i as int <= s@.len(),
            len == s@.len(),
            forall|j: int| from <= j < i ==> s@[j] != c,
        decreases len - i,
    {
        if s.get_char(i) == c {
            return Some(i);
        }
        i = i + 1;
    }
    None
}

/// A parsed coordinate: the kind discriminator, the normalized author key,
/// and the stable identifier.
#[derive(Debug)]
pub struct Coordinate {
    pub kind: u16,
    pub pubkey: String,
    pub d_tag: String,
}

/// Whether a coordinate string is well-formed: three colon-delimited
/// segments, a numeric kind that fits the discriminator range, and an author
/// segment that parses as a public key.
pub open spec fn coordinate_ok(s: Seq<char>) -> bool {
    spec_split3(s) matches Some((a, b, _)) && spec_decimal_value(a) matches Some(v) && v
        <= u16::MAX as int && pubkey_parse(b) is Some
}

/// Parses a textual coordinate `kind:author:identifier`. The kind must be
/// numeric, the author must parse as a public key and is normalized to hex;
/// the identifier is taken verbatim and may contain colons. Anything else is
/// a malformed-coordinate error carrying the input.
pub fn parse_coordinate(input: &str) -> (r: Result<Coordinate, AppError>)
    ensures
        match r {
            Ok(c) => coordinate_ok(input@) && (spec_split3(input@) matches Some((a, b, d))
                && spec_decimal_value(a) == Some(c.kind as int) && pubkey_parse(b) == Some(
                c.pubkey@,
            ) && c.d_tag@ == d && (is_lower_hex_64(b) ==> c.pubkey@ == b)),
            Err(e) => !coordinate_ok(input@) && (e matches AppError::InvalidCoordinate { input: s }
                && s@ == input@),
        },
{
    let len = s_len(input);
    let i = match find_char_from(input, 0, ':') {
        Some(i) => i,
        None => {
            proof {
                lemma_find_none(input@, ':');
            }
            return Err(AppError::InvalidCoordinate { input: String::from_str(input) });
        },
    };
    proof {
        lemma_find_at(input@, ':', i as int);
    }
    let j = match find_char_from(input, i + 1, ':') {
        Some(j) => j,
        None => {
            proof {
                let rest = input@.skip(i + 1);
                assert forall|j: int| 0 <= j < rest.len() implies rest[j] != ':' by {
                    assert(rest[j] == input@[i + 1 + j]);
                }
                lemma_find_none(rest, ':');
            }
            return Err(AppError::InvalidCoordinate { input: String::from_str(input) });
        },
    };
    proof {
        let rest = input@.skip(i + 1);
        assert forall|k: int| 0 <= k < j - i - 1 implies rest[k] != ':' by {
            assert(rest[k] == input@[i + 1 + k]);
        }
        assert(rest[j - i - 1] == input@[j as int]);
        lemma_find_at(rest, ':', j - i - 1);
    }
    let kind_part = input.substring_char(0, i);
    let pk_part = input.substring_char(i + 1, j);
    let d_part = input.substring_char(j + 1, len);
    proof {
        assert(kind_part@ =~= input@.take(i as int));
        assert(pk_part@ =~= input@.skip(i + 1).take(j - i - 1));
        assert(d_part@ =~= input@.skip(i + 1).skip(j - i - 1 + 1));
    }
    let kind = match parse_u16(kind_part) {
        Some(k) => k,
        None => {
            return Err(AppError::InvalidCoordinate { input: String::from_str(input) });
        },
    };
    let pubkey = match parse_pubkey(pk_part) {
        Some(pk) => pk,
        None => {
            return Err(AppError::InvalidCoordinate { input: String::from_str(input) });
        },
    };
    Ok(Coordinate { kind, pubkey, d_tag: String::from_str(d_part) })
}

/// The character length of a string slice.
fn s_len(s: &str) -> (r: usize)
    ensures
        r == s@.len(),
{
    s.unicode_len()
}

/// The canonical reference string of a parsed coordinate.
pub fn coordinate_reference(c: &Coordinate) -> (r: String)
    ensures
        r@ == spec_coordinate(c.kind, c.pubkey@, c.d_tag@),
{
    coordinate_string(c.kind, c.pubkey.as_str(), c.d_tag.as_str())
}

/// How resolving a fetched header can fail.
#[derive(Debug, PartialEq, Eq, Structural)]
pub enum ResolveError {
    /// No event carries the requested identity.
    NotFound,
    /// The event is a mutable header but lacks its stable identifier tag:
    /// upstream data corruption, distinct from any parse failure.
    MissingIdentifier,
    /// The identity resolves to neither header kind; the caller holds the
    /// wrong kind of reference.
    WrongReferenceKind,
}

/// The canonical reference of a header event fetched by identity: the
/// coordinate for a mutable header — whose identifier tag must be present —
/// and the identity itself for an immutable one. Any other kind is a
/// wrong-reference-kind error; a missing event is a not-found error.
pub fn resolve_fetched_header(found: Option<&Event>) -> (r: Result<String, ResolveError>)
    ensures
        match found {
            None => r == Err::<String, ResolveError>(ResolveError::NotFound),
            Some(e) => {
                if e@.kind == HEADER_ADDR_KIND {
                    match spec_first_tag_value(e@.tags, "d"@) {
                        Some(d) => r matches Ok(c) && c@ == spec_coordinate(
                            HEADER_ADDR_KIND,
                            e@.pubkey,
                            d,
                        ),
                        None => r == Err::<String, ResolveError>(ResolveError::MissingIdentifier),
                    }
                } else if e@.kind == HEADER_KIND {
                    r matches Ok(c) && c@ == e@.id
                } else {
                    r == Err::<String, ResolveError>(ResolveError::WrongReferenceKind)
                }
            },
        },
{
    let e = match found {
        Some(e) => e,
        None => {
            return Err(ResolveError::NotFound);
        },
    };
    if e.kind == HEADER_ADDR_KIND {
        match event_d_tag(e) {
            Some(d) => Ok(coordinate_string(HEADER_ADDR_KIND, e.pubkey.as_str(), d.as_str())),
            None => Err(ResolveError::MissingIdentifier),
        }
    } else if e.kind == HEADER_KIND {
        Ok(e.id.clone())
    } else {
        Err(ResolveError::WrongReferenceKind)
    }
}

/// Every character of a canonical decimal rendering is a digit.
proof fn lemma_decimal_all_digits(n: int)
    requires
        n >= 0,
    ensures
        forall|i: int|
            0 <= i < spec_decimal(n).len() ==> spec_is_digit(#[trigger] spec_decimal(n)[i]),
        spec_decimal(n).len() > 0,
    decreases n,
{
    if n >= 10 {
        lemma_decimal_all_digits(n / 10);
        let s = spec_decimal(n);
        let p = spec_decimal(n / 10);
        assert(s == p.push(spec_digit_char(n % 10)));
        assert forall|i: int| 0 <= i < s.len() implies spec_is_digit(#[trigger] s[i]) by {
            if i < p.len() {
                assert(s[i] == p[i]);
            } else {
                assert(s[i] == spec_digit_char(n % 10));
            }
        }
    }
}

/// Rendering a number in decimal and evaluating the digits gives the number
/// back.
proof fn lemma_decimal_value_round_trip(n: int)
    requires
        n >= 0,
    ensures
        spec_digits_value(spec_decimal(n)) == n,
    decreases n,
{
    if n < 10 {
        let s = spec_decimal(n);
        crate::numbers::lemma_digit_char_value(n);
        assert(s == seq![spec_digit_char(n)]);
        assert(s.len() == 1);
        assert(s.last() == spec_digit_char(n));
        assert(s.drop_last() =~= Seq::<char>::empty());
        assert(spec_digits_value(s.drop_last()) == 0);
        assert(spec_digits_value(s) == 0 * 10 + spec_char_digit(s.last()));
    } else {
        lemma_decimal_value_round_trip(n / 10);
        crate::numbers::lemma_digit_char_value(n % 10);
        let s = spec_decimal(n);
        assert(s == spec_decimal(n / 10).push(spec_digit_char(n % 10)));
        assert(s.drop_last() =~= spec_decimal(n / 10));
        assert(s.last() == spec_digit_char(n % 10));
        assert(spec_digits_value(s) == spec_digits_value(s.drop_last()) * 10 + spec_char_digit(
            s.last(),
        ));
        assert(spec_digits_value(s.drop_last()) == n / 10);
        assert(spec_char_digit(s.last()) == n % 10);
        assert((n / 10) * 10 + n % 10 == n) by (nonlinear_arith)
            requires
                n >= 10,
        ;
    }
}

/// Splitting a coordinate string built from a kind, a hex author key and an
/// identifier gives back exactly those three segments, and the kind segment
/// evaluates back to the kind. The identifier may itself contain colons; the
/// key, being hex, cannot. So the canonical reference a mutable header
/// resolves to by identity parses back into its own coordinate: both
/// reference forms meet in the same canonical string.
pub proof fn lemma_coordinate_round_trip(kind: u16, pubkey: Seq<char>, d: Seq<char>)
    requires
        is_lower_hex_64(pubkey),
    ensures
        spec_split3(spec_coordinate(kind, pubkey, d)) == Some(
            (spec_decimal(kind as int), pubkey, d),
        ),
        spec_decimal_value(spec_decimal(kind as int)) == Some(kind as int),
{
    let ks = spec_decimal(kind as int);
    let s = spec_coordinate(kind, pubkey, d);
    lemma_decimal_all_digits(kind as int);
    lemma_decimal_value_round_trip(kind as int);

    assert forall|j: int| 0 <= j < ks.len() implies s[j] != ':' by {
        assert(s[j] == ks[j]);
        assert(spec_is_digit(ks[j]));
    }
    assert(s[ks.len() as int] == ':');
    lemma_find_at(s, ':', ks.len() as int);
    assert(s.take(ks.len() as int) =~= ks);

    let rest = s.skip(ks.len() as int + 1);
    assert(rest =~= pubkey + seq![':'] + d);
    assert forall|j: int| 0 <= j < pubkey.len() implies rest[j] != ':' by {
        assert(rest[j] == pubkey[j]);
        assert(crate::strutil::is_lower_hex_char(pubkey[j]));
    }
    assert(rest[pubkey.len() as int] == ':');
    lemma_find_at(rest, ':', pubkey.len() as int);
    assert(rest.take(pubkey.len() as int) =~= pubkey);
    assert(rest.skip(pubkey.len() as int + 1) =~= d);

    assert(ks.len() > 0);
    assert(ks[0] != '+') by {
        assert(spec_is_digit(ks[0]));
    }
    assert(crate::numbers::spec_decimal_body(ks) == ks);
    assert(crate::numbers::spec_all_digits(ks));
}

} // verus!
