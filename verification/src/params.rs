//! Parsing of command flag values: comma-separated lists, strict boolean
//! flags, numeric flags with defaults, and the import-source form.

use vstd::prelude::*;
use vstd::string::StrSliceExecFns;
use vstd::string::StringExecFns;
use crate::error::ArgError;
use crate::numbers::parse_usize;
use crate::numbers::spec_decimal_value;
use crate::resolve::spec_find;
use crate::strutil::str_eq;

verus! {

/// Whether the character is ASCII whitespace.
pub open spec fn is_ascii_ws(c: char) -> bool {
    c == ' ' || c == '\t' || c == '\n' || c == '\x0c' || c == '\r'
}

/// Drops every leading ASCII whitespace character.
pub open spec fn trim_front_ws(s: Seq<char>) -> Seq<char>
    decreases s.len(),
{
    if s.len() > 0 && is_ascii_ws(s[0]) {
        trim_front_ws(s.drop_first())
    } else {
        s
    }
}

/// Drops every trailing ASCII whitespace character.
pub open spec fn trim_back_ws(s: Seq<char>) -> Seq<char>
    decreases s.len(),
{
    if s.len() > 0 && is_ascii_ws(s.last()) {
        trim_back_ws(s.drop_last())
    } else {
        s
    }
}

/// A value with ASCII whitespace stripped from both ends.
pub open spec fn spec_trim(s: Seq<char>) -> Seq<char> {
    trim_back_ws(trim_front_ws(s))
}

/// The pieces of a sequence split on a separator character; a separator at
/// either end or two in a row yield empty pieces.
pub open spec fn spec_split(s: Seq<char>, c: char) -> Seq<Seq<char>>
    decreases s.len(),
{
    let i = spec_find(s, c);
    if 0 <= i < s.len() {
        seq![s.take(i)] + spec_split(s.skip(i + 1), c)
    } else {
        seq![s]
    }
}

/// What a comma-separated flag value denotes: nothing for an absent or
/// empty flag, else the comma-separated pieces with each piece trimmed.
pub open spec fn spec_csv(v: Option<Seq<char>>) -> Seq<Seq<char>> {
    match v {
        None => Seq::empty(),
        Some(s) => if s.len() == 0 {
            Seq::empty()
        } else {
            spec_split(s, ',').map_values(|p: Seq<char>| spec_trim(p))
        },
    }
}

/// Front-trimming is skipping exactly the leading whitespace run.
proof fn lemma_trim_front_ws_skip(s: Seq<char>, k: int)
    requires
        0 <= k <= s.len(),
        forall|j: int| 0 <= j < k ==> is_ascii_ws(#[trigger] s[j]),
        k == s.len() || !is_ascii_ws(s[k]),
    ensures
        trim_front_ws(s) == s.skip(k),
    decreases s.len(),
{
    if k == 0 {
        assert(s.skip(0) =~= s);
    } else {
        assert(is_ascii_ws(s[0]));
        assert forall|j: int| 0 <= j < k - 1 implies is_ascii_ws(#[trigger] s.drop_first()[j]) by {
            assert(s.drop_first()[j] == s[j + 1]);
        }
        if k - 1 < s.drop_first().len() {
            assert(s.drop_first()[k - 1] == s[k]);
        }
        lemma_trim_front_ws_skip(s.drop_first(), k - 1);
        assert(s.drop_first().skip(k - 1) =~= s.skip(k));
    }
}

/// Back-trimming is taking exactly up to the trailing whitespace run.
proof fn lemma_trim_back_ws_take(s: Seq<char>, m: int)
    requires
        0 <= m <= s.len(),
        forall|j: int| m <= j < s.len() ==> is_ascii_ws(#[trigger] s[j]),
        m == 0 || !is_ascii_ws(s[m - 1]),
    ensures
        trim_back_ws(s) == s.take(m),
    decreases s.len(),
{
    if m == s.len() {
        if s.len() > 0 {
            assert(!is_ascii_ws(s.last()));
        }
        assert(s.take(m) =~= s);
    } else {
        assert(is_ascii_ws(s.last()));
        assert forall|j: int| m <= j < s.drop_last().len() implies is_ascii_ws(
            #[trigger] s.drop_last()[j],
        ) by {
            assert(s.drop_last()[j] == s[j]);
        }
        if m > 0 {
            assert(s.drop_last()[m - 1] == s[m - 1]);
        }
        lemma_trim_back_ws_take(s.drop_last(), m);
        assert(s.drop_last().take(m) =~= s.take(m));
    }
}

/// Whether the character at a string position is ASCII whitespace.
fn ws_at(s: &str, i: usize) -> (r: bool)
    requires
        i < s@.len(),
    ensures
        r == is_ascii_ws(s@[i as int]),
{
    let c = s.get_char(i);
    c == ' ' || c == '\t' || c == '\n' || c == '\x0c' || c == '\r'
}

/// Copies the `[start, end)` segment of a string with ASCII whitespace
/// stripped from both ends.
fn trimmed_segment(s: &str, start: usize, end: usize) -> (r: String)
    requires
        start <= end,
        end as int <= s@.len(),
    ensures
        r@ == spec_trim(s@.subrange(start as int, end as int)),
{
    let ghost seg = s@.subrange(start as int, end as int);
    let mut a = start;
    while a < end && ws_at(s, a)
        invariant
            start <= a <= end,
            end as int <= s@.len(),
            forall|j: int| start <= j < a ==> is_ascii_ws(#[trigger] s@[j]),
        decreases end - a,
    {
        a = a + 1;
    }
    let mut b = end;
    while b > a && ws_at(s, b - 1)
        invariant
            a <= b <= end,
            end as int <= s@.len(),
            forall|j: int| b <= j < end ==> is_ascii_ws(#[trigger] s@[j]),
        decreases b,
    {
        b = b - 1;
    }
    proof {
        assert forall|j: int| 0 <= j < a - start implies is_ascii_ws(#[trigger] seg[j]) by {
            assert(seg[j] == s@[start + j]);
        }
        if a < end {
            assert(seg[a - start] == s@[a as int]);
        }
        lemma_trim_front_ws_skip(seg, a - start);
        let mid = seg.skip(a - start);
        assert forall|j: int| b - a <= j < mid.len() implies is_ascii_ws(#[trigger] mid[j]) by {
            assert(mid[j] == s@[a + j]);
        }
        if b > a {
            assert(mid[b - a - 1] == s@[b - 1]);
        }
        lemma_trim_back_ws_take(mid, b - a);
        assert(mid.take(b - a) =~= s@.subrange(a as int, b as int));
    }
    let cut = s.substring_char(a, b);
    let r = <String as StringExecFns>::from_str(cut);
    proof {
        assert(r@ =~= spec_trim(seg));
    }
    r
}

/// Splits a comma-separated flag value into its trimmed pieces. An absent
/// or empty flag yields no pieces; a comma at either end or two in a row
/// yield empty pieces.
pub fn parse_csv(flag_value: Option<&str>) -> (r: Vec<String>)
    ensures
        r.deep_view() == spec_csv(
            match flag_value {
                Some(s) => Some(s@),
                None => None,
            },
        ),
{
    let s = match flag_value {
        Some(s) => s,
        None => {
            let r: Vec<String> = Vec::new();
            proof {
                assert(r.deep_view() =~= Seq::<Seq<char>>::empty());
            }
            return r;
        },
    };
    let len = s.unicode_len();
    if len == 0 {
        let r: Vec<String> = Vec::new();
        proof {
            assert(r.deep_view() =~= Seq::<Seq<char>>::empty());
        }
        return r;
    }
    let ghost trim_map = |p: Seq<char>| spec_trim(p);
    let ghost full = spec_split(s@, ',').map_values(trim_map);
    let mut out: Vec<String> = Vec::new();
    let mut p: usize = 0;
    let mut done = false;
    proof {
        assert(s@.skip(0) =~= s@);
        assert(out.deep_view() =~= Seq::<Seq<char>>::empty());
        assert(out.deep_view() + spec_split(s@.skip(0), ',').map_values(trim_map) =~= full);
    }
    while !done
        invariant
            len == s@.len(),
            p as int <= s@.len(),
            full == spec_split(s@, ',').map_values(trim_map),
            trim_map == (|p: Seq<char>| spec_trim(p)),
            !done ==> out.deep_view() + spec_split(s@.skip(p as int), ',').map_values(trim_map)
                == full,
            done ==> out.deep_view() == full,
        decreases (if done {
            0int
        } else {
            s@.len() - p + 1
        }),
    {
        let ghost rest = s@.skip(p as int);
        match crate::resolve::find_char_from(s, p, ',') {
            Some(q) => {
                proof {
                    assert forall|k: int| 0 <= k < q - p implies rest[k] != ',' by {
                        assert(rest[k] == s@[p + k]);
                    }
                    assert(rest[q - p] == s@[q as int]);
                    crate::resolve::lemma_find_at(rest, ',', q - p);
                    assert(spec_split(rest, ',') == seq![rest.take(q - p)] + spec_split(
                        rest.skip(q - p + 1),
                        ',',
                    ));
                    assert(rest.take(q - p) =~= s@.subrange(p as int, q as int));
                    assert(rest.skip(q - p + 1) =~= s@.skip(q + 1));
                }
                let piece = trimmed_segment(s, p, q);
                let ghost out0 = out.deep_view();
                out.push(piece);
                proof {
                    assert(out.deep_view() =~= out0.push(spec_trim(s@.subrange(
                        p as int,
                        q as int,
                    ))));
                    assert((seq![rest.take(q - p)] + spec_split(s@.skip(q + 1), ',')).map_values(
                        trim_map,
                    ) =~= seq![trim_map(rest.take(q - p))] + spec_split(s@.skip(q + 1), ',')
                        .map_values(trim_map));
                    assert(out.deep_view() + spec_split(s@.skip(q + 1), ',').map_values(trim_map)
                        =~= full);
                }
                p = q + 1;
            },
            None => {
                proof {
                    assert forall|k: int| 0 <= k < rest.len() implies rest[k] != ',' by {
                        assert(rest[k] == s@[p + k]);
                    }
                    crate::resolve::lemma_find_none(rest, ',');
                    assert(spec_split(rest, ',') == seq![rest]);
                    assert(rest =~= s@.subrange(p as int, len as int));
                }
                let piece = trimmed_segment(s, p, len);
                let ghost out0 = out.deep_view();
                out.push(piece);
                proof {
                    assert(out.deep_view() =~= out0.push(spec_trim(rest)));
                    assert(seq![rest].map_values(trim_map) =~= seq![trim_map(rest)]);
                    assert(out.deep_view() =~= full);
                }
                done = true;
            },
        }
    }
    out
}

/// Reads a strict boolean flag: absent means false, the bare form means
/// true, and any other value is an invalid-arguments error naming the flag.
pub fn parse_bool_value(name: &str, value: Option<&String>) -> (r: Result<bool, ArgError>)
    ensures
        match r {
            Ok(b) => match value {
                None => !b,
                Some(v) => v@ == "true"@ && b,
            },
            Err(e) => value matches Some(v) && v@ != "true"@ && e.code@ == "INVALID_ARGS"@,
        },
{
    match value {
        None => Ok(false),
        Some(v) => {
            if str_eq(v.as_str(), "true") {
                Ok(true)
            } else {
                let message = <String as StringExecFns>::from_str("--").concat(name).concat(
                    " is a boolean flag, got unexpected value: ",
                ).concat(v.as_str());
                let fix = <String as StringExecFns>::from_str("Use --").concat(name).concat(
                    " without a value, or remove it",
                );
                Err(ArgError { message, code: <String as StringExecFns>::from_str("INVALID_ARGS"), fix })
            }
        },
    }
}

/// Reads a numeric flag with a default: absent means the default, a decimal
/// value parses, and anything else is an invalid-arguments error naming the
/// flag.
pub fn parse_usize_value(name: &str, value: Option<&String>, default: usize) -> (r: Result<
    usize,
    ArgError,
>)
    ensures
        match r {
            Ok(n) => match value {
                None => n == default,
                Some(v) => spec_decimal_value(v@) == Some(n as int),
            },
            Err(e) => value matches Some(v) && (match spec_decimal_value(v@) {
                Some(n) => n > usize::MAX as int,
                None => true,
            }) && e.code@ == "INVALID_ARGS"@,
        },
{
    let v = match value {
        None => {
            return Ok(default);
        },
        Some(v) => v,
    };
    match parse_usize(v.as_str()) {
        Some(n) => Ok(n),
        None => {
            let message = <String as StringExecFns>::from_str("--").concat(name).concat(
                " must be a positive integer, got: ",
            ).concat(v.as_str());
            let fix = <String as StringExecFns>::from_str("Provide a valid number for --").concat(
                name,
            );
            Err(ArgError { message, code: <String as StringExecFns>::from_str("INVALID_ARGS"), fix })
        },
    }
}

/// Resolves the import-source form: an absent flag imports nothing, the
/// bare form takes the first positional argument as the source — and
/// demands one — and an explicit value is the source itself.
pub fn normalize_import_source(import_flag: Option<&String>, first_arg: Option<&String>) -> (r:
    Result<Option<String>, ArgError>)
    ensures
        match r {
            Ok(src) => match import_flag {
                None => src is None,
                Some(f) => {
                    if f@ == "true"@ {
                        first_arg matches Some(a) && src matches Some(s) && s@ == a@
                    } else {
                        src matches Some(s) && s@ == f@
                    }
                },
            },
            Err(e) => import_flag matches Some(f) && f@ == "true"@ && first_arg is None
                && e.code@ == "INVALID_ARGS"@,
        },
{
    let f = match import_flag {
        None => {
            return Ok(None);
        },
        Some(f) => f,
    };
    if str_eq(f.as_str(), "true") {
        match first_arg {
            Some(a) => Ok(Some(a.clone())),
            None => Err(
                ArgError {
                    message: <String as StringExecFns>::from_str("--import requires a source"),
                    code: <String as StringExecFns>::from_str("INVALID_ARGS"),
                    fix: <String as StringExecFns>::from_str(
                        "Use --import=<file>, --import=-, or --import <file-or->",
                    ),
                },
            ),
        }
    } else {
        Ok(Some(f.clone()))
    }
}

} // verus!
