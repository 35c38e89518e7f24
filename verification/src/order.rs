//! The stable total order on records, and the verified sort.
//!
//! Every consumer — listing, pagination navigation, first-of-page selection,
//! export — orders records the same way: newest creation time first, ties
//! broken by ascending event-identity string. Two records with equal
//! `created_at` are therefore always ordered by identity, and when the
//! identities are distinct the sorted sequence is unique, so repeated sorts
//! of the same set agree.

use vstd::prelude::*;
use vstd::relations::sorted_by;
use vstd::string::StrSliceExecFns;
use crate::project::Record;
use crate::project::RecordView;
use crate::project::record_views;

verus! {

/// Lexicographic order on character sequences, by code point, with a prefix
/// ordered before its extensions.
pub open spec fn lex_le(a: Seq<char>, b: Seq<char>) -> bool
    decreases a.len(),
{
    if a.len() == 0 {
        true
    } else if b.len() == 0 {
        false
    } else if (a[0] as u32) < (b[0] as u32) {
        true
    } else if (a[0] as u32) > (b[0] as u32) {
        false
    } else {
        lex_le(a.drop_first(), b.drop_first())
    }
}

proof fn lemma_lex_le_refl(a: Seq<char>)
    ensures
        lex_le(a, a),
    decreases a.len(),
{
    if a.len() > 0 {
        lemma_lex_le_refl(a.drop_first());
    }
}

proof fn lemma_lex_le_total(a: Seq<char>, b: Seq<char>)
    ensures
        lex_le(a, b) || lex_le(b, a),
    decreases a.len(),
{
    if a.len() == 0 || b.len() == 0 {
    } else if (a[0] as u32) == (b[0] as u32) {
        lemma_lex_le_total(a.drop_first(), b.drop_first());
    }
}

proof fn lemma_lex_le_trans(a: Seq<char>, b: Seq<char>, c: Seq<char>)
    requires
        lex_le(a, b),
        lex_le(b, c),
    ensures
        lex_le(a, c),
    decreases a.len(),
{
    if a.len() == 0 {
    } else if b.len() == 0 || c.len() == 0 {
    } else if (a[0] as u32) == (b[0] as u32) && (b[0] as u32) == (c[0] as u32) {
        lemma_lex_le_trans(a.drop_first(), b.drop_first(), c.drop_first());
    }
}

proof fn lemma_lex_le_antisym(a: Seq<char>, b: Seq<char>)
    requires
        lex_le(a, b),
        lex_le(b, a),
    ensures
        a == b,
    decreases a.len(),
{
    if a.len() == 0 {
        assert(b.len() == 0);
        assert(a =~= b);
    } else {
        assert(b.len() > 0);
        assert((a[0] as u32) == (b[0] as u32));
        vstd::utf8::char_u32_cast(a[0], a[0] as u32);
        vstd::utf8::char_u32_cast(b[0], b[0] as u32);
        assert(a[0] == b[0]);
        lemma_lex_le_antisym(a.drop_first(), b.drop_first());
        assert forall|k: int| 0 <= k < a.len() implies a[k] == b[k] by {
            if k > 0 {
                assert(a.drop_first()[k - 1] == b.drop_first()[k - 1]);
            }
        }
        assert(a =~= b);
    }
}

/// Compares two string slices in the lexicographic order.
pub fn str_lex_le(a: &str, b: &str) -> (r: bool)
    ensures
        r == lex_le(a@, b@),
{
    let a_len = a.unicode_len();
    let b_len = b.unicode_len();
    let mut i: usize = 0;
    proof {
        assert(a@.skip(0) =~= a@);
        assert(b@.skip(0) =~= b@);
    }
    while i < a_len && i < b_len
        invariant
            a_len == a@.len(),
            b_len == b@.len(),
            i <= a_len,
            i <= b_len,
            lex_le(a@, b@) == lex_le(a@.skip(i as int), b@.skip(i as int)),
        decreases a_len - i,
    {
        let ca = a.get_char(i);
        let cb = b.get_char(i);
        proof {
            let sa = a@.skip(i as int);
            let sb = b@.skip(i as int);
            assert(sa[0] == a@[i as int]);
            assert(sb[0] == b@[i as int]);
            assert(sa.drop_first() =~= a@.skip(i + 1));
            assert(sb.drop_first() =~= b@.skip(i + 1));
        }
        if (ca as u32) < (cb as u32) {
            return true;
        }
        if (ca as u32) > (cb as u32) {
            return false;
        }
        i = i + 1;
    }
    if i >= a_len {
        proof {
            assert(a@.skip(i as int).len() == 0);
        }
        true
    } else {
        proof {
            assert(b@.skip(i as int).len() == 0);
            assert(a@.skip(i as int).len() > 0);
        }
        false
    }
}

/// The total order on records: newest `created_at` first, ties broken by
/// ascending event-identity string.
pub open spec fn record_le(a: RecordView, b: RecordView) -> bool {
    a.created_at > b.created_at || (a.created_at == b.created_at && lex_le(
        a.event_id,
        b.event_id,
    ))
}

/// The record order as a relation value, for use with `sorted_by`.
pub open spec fn record_order() -> spec_fn(RecordView, RecordView) -> bool {
    |a: RecordView, b: RecordView| record_le(a, b)
}

/// The record order is reflexive.
pub proof fn lemma_record_le_refl(a: RecordView)
    ensures
        record_le(a, a),
{
    lemma_lex_le_refl(a.event_id);
}

/// Any two records compare in at least one direction.
pub proof fn lemma_record_le_total(a: RecordView, b: RecordView)
    ensures
        record_le(a, b) || record_le(b, a),
{
    if a.created_at == b.created_at {
        lemma_lex_le_total(a.event_id, b.event_id);
    }
}

/// The record order is transitive.
pub proof fn lemma_record_le_trans(a: RecordView, b: RecordView, c: RecordView)
    requires
        record_le(a, b),
        record_le(b, c),
    ensures
        record_le(a, c),
{
    if a.created_at == b.created_at && b.created_at == c.created_at {
        lemma_lex_le_trans(a.event_id, b.event_id, c.event_id);
    }
}

/// Records ordered both ways share their creation time and identity.
pub proof fn lemma_record_le_antisym_key(a: RecordView, b: RecordView)
    requires
        record_le(a, b),
        record_le(b, a),
    ensures
        a.created_at == b.created_at,
        a.event_id == b.event_id,
{
    lemma_lex_le_antisym(a.event_id, b.event_id);
}

/// Decides the record order on two records.
pub fn record_le_exec(a: &Record, b: &Record) -> (r: bool)
    ensures
        r == record_le(a@, b@),
{
    if a.created_at > b.created_at {
        true
    } else if a.created_at == b.created_at {
        str_lex_le(a.event_id.as_str(), b.event_id.as_str())
    } else {
        false
    }
}

/// Whether the event identities in a sequence of records are pairwise
/// distinct.
pub open spec fn distinct_ids(s: Seq<RecordView>) -> bool {
    forall|i: int, j: int|
        0 <= i < j < s.len() ==> (#[trigger] s[i].event_id) != (#[trigger] s[j].event_id)
}

/// Sorts records by the stable total order: newest `created_at` first, ties
/// broken by ascending event-identity string. The result is a permutation of
/// the input.
pub fn sort_records(records: Vec<Record>) -> (r: Vec<Record>)
    ensures
        sorted_by(record_views(r@), record_order()),
        record_views(r@).to_multiset() == record_views(records@).to_multiset(),
{
    let ghost all = record_views(records@);
    let mut input = records;
    let mut out: Vec<Record> = Vec::new();
    proof {
        broadcast use vstd::seq_lib::group_to_multiset_ensures;

        assert(record_views(out@) =~= Seq::<RecordView>::empty());
        assert(record_views(out@).to_multiset().add(record_views(input@).to_multiset())
            =~= all.to_multiset());
    }
    while input.len() > 0
        invariant
            sorted_by(record_views(out@), record_order()),
            record_views(out@).to_multiset().add(record_views(input@).to_multiset())
                == all.to_multiset(),
        decreases input@.len(),
    {
        let ghost in0 = record_views(input@);
        let ghost out0 = record_views(out@);
        let x = input.pop().unwrap();
        proof {
            broadcast use vstd::seq_lib::group_to_multiset_ensures;
            broadcast use vstd::multiset::group_multiset_axioms;

            assert(in0 =~= record_views(input@).push(x@));
            assert(in0.to_multiset() =~= record_views(input@).to_multiset().insert(x@));
        }
        let ghost pre = record_views(out@);
        let mut j: usize = 0;
        while j < out.len() && record_le_exec(&out[j], &x)
            invariant
                record_views(out@) == pre,
                j <= out@.len(),
                forall|k: int| 0 <= k < j ==> record_le(#[trigger] pre[k], x@),
            decreases out@.len() - j,
        {
            proof {
                assert(pre[j as int] == out@[j as int]@);
            }
            j = j + 1;
        }
        proof {
            assert(j < out@.len() ==> !record_le(pre[j as int], x@));
            if j < out@.len() {
                lemma_record_le_total(pre[j as int], x@);
            }
        }
        out.insert(j, x);
        proof {
            broadcast use vstd::seq_lib::group_to_multiset_ensures;
            broadcast use vstd::multiset::group_multiset_axioms;

            let now = record_views(out@);
            assert(now =~= pre.insert(j as int, x@));
            assert(now.to_multiset() =~= pre.to_multiset().insert(x@)) by {
                vstd::seq_lib::to_multiset_insert(pre, j as int, x@);
            }
            assert(now.to_multiset().add(record_views(input@).to_multiset())
                =~= out0.to_multiset().add(in0.to_multiset()));
            assert forall|i1: int, i2: int| 0 <= i1 < i2 < now.len() implies #[trigger] record_le(
                now[i1],
                now[i2],
            ) by {
                let leq = record_order();
                if i1 < j && i2 == j {
                    assert(record_le(pre[i1], x@));
                } else if i1 == j && i2 > j {
                    if j < pre.len() {
                        assert(record_le(x@, pre[j as int]));
                        if i2 > j + 1 {
                            assert(leq(pre[j as int], pre[i2 - 1]));
                            lemma_record_le_trans(x@, pre[j as int], pre[i2 - 1]);
                        }
                    }
                } else if i1 < j && i2 > j {
                    assert(leq(pre[i1], pre[i2 - 1]));
                } else if i1 > j && i2 > j {
                    assert(leq(pre[i1 - 1], pre[i2 - 1]));
                } else if i1 < j && i2 < j {
                    assert(leq(pre[i1], pre[i2]));
                }
            }
        }
    }
    proof {
        assert(record_views(input@) =~= Seq::<RecordView>::empty());
        broadcast use vstd::seq_lib::group_to_multiset_ensures;

        assert(record_views(out@).to_multiset().add(Seq::<RecordView>::empty().to_multiset())
            =~= record_views(out@).to_multiset());
    }
    out
}

/// The sorted order is deterministic: two sorted sequences over the same
/// records, with pairwise distinct event identities, are equal — so the
/// ordering is stable under repeated calls, and any two consumers that sort
/// the same result set see the same sequence.
pub proof fn lemma_sorted_unique_ids(x: Seq<RecordView>, y: Seq<RecordView>)
    requires
        sorted_by(x, record_order()),
        sorted_by(y, record_order()),
        x.to_multiset() == y.to_multiset(),
        distinct_ids(x),
    ensures
        x =~= y,
    decreases x.len(),
{
    broadcast use vstd::seq_lib::group_to_multiset_ensures;
    broadcast use vstd::multiset::group_multiset_axioms;

    if x.len() == 0 {
        assert(y.to_multiset().len() == 0);
    } else {
        assert(x.to_multiset().len() == x.len());
        assert(y.len() == x.len());
        assert(y.to_multiset().contains(y[0]));
        assert(x.to_multiset().contains(y[0]));
        assert(x.contains(y[0]));
        let i = choose|i: int| 0 <= i < x.len() && x[i] == y[0];
        assert(x.to_multiset().contains(x[0]));
        assert(y.to_multiset().contains(x[0]));
        assert(y.contains(x[0]));
        let m = choose|m: int| 0 <= m < y.len() && y[m] == x[0];
        let leq = record_order();
        lemma_record_le_refl(x[0]);
        lemma_record_le_refl(y[0]);
        if i > 0 {
            assert(leq(x[0], x[i]));
        }
        if m > 0 {
            assert(leq(y[0], y[m]));
        }
        assert(record_le(x[0], y[0]) && record_le(y[0], x[0]));
        lemma_record_le_antisym_key(x[0], y[0]);
        assert(x[i].event_id == x[0].event_id);
        if i != 0 {
            assert(x[0].event_id != x[i].event_id);
            assert(false);
        }
        assert(x[0] == y[0]);
        assert(x.drop_first() =~= x.remove(0));
        assert(y.drop_first() =~= y.remove(0));
        vstd::seq_lib::to_multiset_remove(x, 0);
        vstd::seq_lib::to_multiset_remove(y, 0);
        assert(x.drop_first().to_multiset() =~= x.to_multiset().remove(x[0]));
        assert(y.drop_first().to_multiset() =~= y.to_multiset().remove(y[0]));
        assert(distinct_ids(x.drop_first()));
        assert(sorted_by(x.drop_first(), leq));
        assert(sorted_by(y.drop_first(), leq));
        lemma_sorted_unique_ids(x.drop_first(), y.drop_first());
        assert forall|k: int| 0 <= k < x.len() implies x[k] == y[k] by {
            if k > 0 {
                assert(x.drop_first()[k - 1] == y.drop_first()[k - 1]);
            }
        }
        assert(x =~= y);
    }
}

} // verus!
