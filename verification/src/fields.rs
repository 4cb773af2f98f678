//! The elastic-record core: splitting an object's fields into the known ones
//! and the residual, and the facts about that split that every record codec
//! reuses.
//!
//! Decoding takes each known field by its first occurrence and keeps every
//! other field, in document order, as the residual.  Encoding emits the
//! known fields first and the residual after them, so decoding an encoded
//! record finds each known field at once and recovers the residual exactly.

use vstd::prelude::*;

use crate::json::{distinct_keys, entries_v, obj_get, obj_residual, wfb, wfb_entries, Json, JsonV};
use crate::numtext::{dec_to_i32, dec_to_unsigned, i32_field_val, unsigned_field_val};

verus! {

broadcast use vstd::std_specs::vec::group_vec_axioms;

/// The mathematical image of a list of field names.
pub open spec fn names_v(s: Seq<String>) -> Seq<Seq<char>> {
    Seq::new(s.len(), |i: int| s[i]@)
}

/// How `obj_get` extends when a field is appended.
pub proof fn lemma_get_push(
    o: Seq<(Seq<char>, JsonV)>,
    e: (Seq<char>, JsonV),
    k: Seq<char>,
)
    ensures
        obj_get(o.push(e), k) == if obj_get(o, k) is Some {
            obj_get(o, k)
        } else if e.0 == k {
            Some(e.1)
        } else {
            None::<JsonV>
        },
    decreases o.len(),
{
    if o.len() == 0 {
        assert(o.push(e)[0] == e);
        assert(o.push(e).drop_first() =~= Seq::empty());
    } else {
        assert(o.push(e)[0] == o[0]);
        assert(o.push(e).drop_first() =~= o.drop_first().push(e));
        lemma_get_push(o.drop_first(), e, k);
    }
}

/// `obj_get` over a concatenation looks left first.
pub proof fn lemma_get_concat(a: Seq<(Seq<char>, JsonV)>, b: Seq<(Seq<char>, JsonV)>, k: Seq<char>)
    ensures
        obj_get(a + b, k) == if obj_get(a, k) is Some {
            obj_get(a, k)
        } else {
            obj_get(b, k)
        },
    decreases a.len(),
{
    if a.len() == 0 {
        assert(a + b =~= b);
    } else {
        assert((a + b)[0] == a[0]);
        assert((a + b).drop_first() =~= a.drop_first() + b);
        lemma_get_concat(a.drop_first(), b, k);
    }
}

/// `obj_get` finds the field at `idx` when no earlier field shares its name.
pub proof fn lemma_get_at(o: Seq<(Seq<char>, JsonV)>, idx: int)
    requires
        0 <= idx < o.len(),
        forall|t: int| 0 <= t < idx ==> (#[trigger] o[t]).0 != o[idx].0,
    ensures
        obj_get(o, o[idx].0) == Some(o[idx].1),
    decreases idx,
{
    if idx > 0 {
        assert(o[0].0 != o[idx].0);
        assert forall|t: int| 0 <= t < idx - 1 implies (#[trigger] o.drop_first()[t]).0
            != o.drop_first()[idx - 1].0 by {
            assert(o.drop_first()[t] == o[t + 1]);
            assert(o.drop_first()[idx - 1] == o[idx]);
        }
        lemma_get_at(o.drop_first(), idx - 1);
        assert(o.drop_first()[idx - 1] == o[idx]);
    }
}

/// An object none of whose fields is named `k` has no field `k`.
pub proof fn lemma_get_absent(o: Seq<(Seq<char>, JsonV)>, k: Seq<char>)
    requires
        forall|i: int| 0 <= i < o.len() ==> (#[trigger] o[i]).0 != k,
    ensures
        obj_get(o, k) is None,
    decreases o.len(),
{
    if o.len() > 0 {
        lemma_get_absent(o.drop_first(), k);
    }
}

/// How the residual extends when a field is appended.
pub proof fn lemma_residual_push(
    o: Seq<(Seq<char>, JsonV)>,
    e: (Seq<char>, JsonV),
    known: Seq<Seq<char>>,
)
    ensures
        obj_residual(o.push(e), known) == if known.contains(e.0) {
            obj_residual(o, known)
        } else {
            obj_residual(o, known).push(e)
        },
{
    reveal(Seq::filter);
    assert(o.push(e).drop_last() =~= o);
    assert(o.push(e).last() == e);
}

/// The residual of an object whose fields are all known is empty.
pub proof fn lemma_residual_all_known(o: Seq<(Seq<char>, JsonV)>, known: Seq<Seq<char>>)
    requires
        forall|i: int| 0 <= i < o.len() ==> known.contains((#[trigger] o[i]).0),
    ensures
        obj_residual(o, known) =~= Seq::empty(),
    decreases o.len(),
{
    reveal(Seq::filter);
    if o.len() > 0 {
        assert(o.drop_last().len() == o.len() - 1);
        lemma_residual_all_known(o.drop_last(), known);
        assert(known.contains(o.last().0));
    }
}

/// The residual of an object none of whose fields is known is the object.
pub proof fn lemma_residual_none_known(o: Seq<(Seq<char>, JsonV)>, known: Seq<Seq<char>>)
    requires
        forall|i: int| 0 <= i < o.len() ==> !known.contains((#[trigger] o[i]).0),
    ensures
        obj_residual(o, known) =~= o,
    decreases o.len(),
{
    reveal(Seq::filter);
    if o.len() > 0 {
        lemma_residual_none_known(o.drop_last(), known);
        assert(!known.contains(o.last().0));
    }
}

/// Every residual field comes from the object, and no residual field is
/// known; distinct keys stay distinct.
pub proof fn lemma_residual_from(o: Seq<(Seq<char>, JsonV)>, known: Seq<Seq<char>>)
    ensures
        forall|i: int|
            0 <= i < obj_residual(o, known).len() ==> !known.contains(
                (#[trigger] obj_residual(o, known)[i]).0,
            ),
        forall|i: int|
            0 <= i < obj_residual(o, known).len() ==> o.contains(
                #[trigger] obj_residual(o, known)[i],
            ),
        distinct_keys(o) ==> distinct_keys(obj_residual(o, known)),
        obj_residual(o, known).len() <= o.len(),
    decreases o.len(),
{
    reveal(Seq::filter);
    let r = obj_residual(o, known);
    if o.len() > 0 {
        lemma_residual_from(o.drop_last(), known);
        let rp = obj_residual(o.drop_last(), known);
        assert forall|i: int| 0 <= i < r.len() implies o.contains(#[trigger] r[i]) by {
            if i < rp.len() {
                assert(o.drop_last().contains(rp[i]));
                let j = choose|j: int| 0 <= j < o.drop_last().len() && o.drop_last()[j] == rp[i];
                assert(o[j] == rp[i]);
            } else {
                assert(r[i] == o.last());
                assert(o[o.len() - 1] == o.last());
            }
        }
        if distinct_keys(o) {
            assert(distinct_keys(o.drop_last()));
            assert forall|i: int, j: int| 0 <= i < j < r.len() implies r[i].0 != r[j].0 by {
                if j < rp.len() {
                } else {
                    assert(r[j] == o.last());
                    assert(o.drop_last().contains(rp[i]));
                    let w = choose|w: int|
                        0 <= w < o.drop_last().len() && o.drop_last()[w] == rp[i];
                    assert(o[w] == r[i]);
                }
            }
        }
    }
}

/// `wfb_entries` gives well-formedness of each single value.
pub proof fn lemma_wfb_entries_index(o: Seq<(Seq<char>, JsonV)>, d: int, i: int)
    requires
        wfb_entries(o, d),
        0 <= i < o.len(),
    ensures
        wfb(o[i].1, d),
    decreases o.len(),
{
    if i < o.len() - 1 {
        lemma_wfb_entries_index(o.drop_last(), d, i);
    } else {
        assert(o[i] == o.last());
    }
}

/// `wfb_seq` gives well-formedness of each single element.
pub proof fn lemma_wfb_seq_index(a: Seq<JsonV>, d: int, i: int)
    requires
        crate::json::wfb_seq(a, d),
        0 <= i < a.len(),
    ensures
        wfb(a[i], d),
    decreases a.len(),
{
    if i < a.len() - 1 {
        lemma_wfb_seq_index(a.drop_last(), d, i);
    } else {
        assert(a[i] == a.last());
    }
}

/// An array all of whose elements are well-formed satisfies `wfb_seq`.
pub proof fn lemma_wfb_seq_all(a: Seq<JsonV>, d: int)
    requires
        forall|i: int| 0 <= i < a.len() ==> wfb(#[trigger] a[i], d),
    ensures
        crate::json::wfb_seq(a, d),
    decreases a.len(),
{
    if a.len() > 0 {
        lemma_wfb_seq_all(a.drop_last(), d);
        assert(a.last() == a[a.len() - 1]);
    }
}

/// An object all of whose values are well-formed satisfies `wfb_entries`.
pub proof fn lemma_wfb_entries_all(o: Seq<(Seq<char>, JsonV)>, d: int)
    requires
        forall|i: int| 0 <= i < o.len() ==> wfb((#[trigger] o[i]).1, d),
    ensures
        wfb_entries(o, d),
    decreases o.len(),
{
    if o.len() > 0 {
        lemma_wfb_entries_all(o.drop_last(), d);
        assert(o.last() == o[o.len() - 1]);
    }
}

/// A `u32` field: absent defaults to zero; present, it must be a plain
/// decimal integer within range.
pub open spec fn spec_field_u32(f: Option<JsonV>) -> Option<u32> {
    match f {
        None => Some(0u32),
        Some(JsonV::Num(s)) => match unsigned_field_val(s, u32::MAX as int) {
            Some(v) => Some(v as u32),
            None => None,
        },
        Some(_) => None,
    }
}

/// A required `u16` field: absent is an error; present, it must be a plain
/// decimal integer within range.
pub open spec fn spec_field_u16_req(f: Option<JsonV>) -> Option<u16> {
    match f {
        Some(JsonV::Num(s)) => match unsigned_field_val(s, u16::MAX as int) {
            Some(v) => Some(v as u16),
            None => None,
        },
        _ => None,
    }
}

/// An `i32` field: absent defaults to zero; present, it must be a plain
/// decimal integer within range.
pub open spec fn spec_field_i32(f: Option<JsonV>) -> Option<i32> {
    match f {
        None => Some(0i32),
        Some(JsonV::Num(s)) => match i32_field_val(s) {
            Some(v) => Some(v as i32),
            None => None,
        },
        Some(_) => None,
    }
}

/// A required `i32` field: absent is an error.
pub open spec fn spec_field_i32_req(f: Option<JsonV>) -> Option<i32> {
    match f {
        Some(JsonV::Num(s)) => match i32_field_val(s) {
            Some(v) => Some(v as i32),
            None => None,
        },
        _ => None,
    }
}

/// A boolean field: absent defaults to false.
pub open spec fn spec_field_bool(f: Option<JsonV>) -> Option<bool> {
    match f {
        None => Some(false),
        Some(JsonV::Bool(b)) => Some(b),
        Some(_) => None,
    }
}

/// A string field: absent defaults to the empty string.
pub open spec fn spec_field_string(f: Option<JsonV>) -> Option<Seq<char>> {
    match f {
        None => Some(Seq::empty()),
        Some(JsonV::Str(s)) => Some(s),
        Some(_) => None,
    }
}

pub(crate) fn field_u32(slot: Option<Json>) -> (r: Option<u32>)
    ensures
        r == spec_field_u32(slot.deep_view()),
{
    match slot {
        None => Some(0),
        Some(Json::Num(s)) => match dec_to_unsigned(s.as_str(), 0xffff_ffff) {
            Some(v) => Some(v as u32),
            None => None,
        },
        Some(_) => None,
    }
}

pub(crate) fn field_u16_req(slot: Option<Json>) -> (r: Option<u16>)
    ensures
        r == spec_field_u16_req(slot.deep_view()),
{
    match slot {
        Some(Json::Num(s)) => match dec_to_unsigned(s.as_str(), 0xffff) {
            Some(v) => Some(v as u16),
            None => None,
        },
        _ => None,
    }
}

pub(crate) fn field_i32(slot: Option<Json>) -> (r: Option<i32>)
    ensures
        r == spec_field_i32(slot.deep_view()),
{
    match slot {
        None => Some(0),
        Some(Json::Num(s)) => dec_to_i32(s.as_str()),
        Some(_) => None,
    }
}

pub(crate) fn field_i32_req(slot: Option<Json>) -> (r: Option<i32>)
    ensures
        r == spec_field_i32_req(slot.deep_view()),
{
    match slot {
        Some(Json::Num(s)) => dec_to_i32(s.as_str()),
        _ => None,
    }
}

pub(crate) fn field_bool(slot: Option<Json>) -> (r: Option<bool>)
    ensures
        r == spec_field_bool(slot.deep_view()),
{
    match slot {
        None => Some(false),
        Some(Json::Bool(b)) => Some(b),
        Some(_) => None,
    }
}

pub(crate) fn field_string(slot: Option<Json>) -> (r: Option<String>)
    ensures
        r matches Some(s) ==> spec_field_string(slot.deep_view()) == Some(s@),
        r is Some <==> spec_field_string(slot.deep_view()) is Some,
{
    match slot {
        None => Some(String::new()),
        Some(Json::Str(s)) => Some(s),
        Some(_) => None,
    }
}

/// The first index of `k` among the names, if any.
fn name_index(names: &Vec<String>, k: &String) -> (r: Option<usize>)
    ensures
        r matches Some(j) ==> j < names@.len() && names@[j as int]@ == k@,
        r is None ==> forall|j: int| 0 <= j < names@.len() ==> (#[trigger] names@[j])@ != k@,
{
    let mut j: usize = 0;
    while j < names.len()
        invariant
            j <= names@.len(),
            forall|t: int| 0 <= t < j ==> (#[trigger] names@[t])@ != k@,
        decreases names@.len() - j,
    {
        if k.eq(&names[j]) {
            return Some(j);
        }
        j = j + 1;
    }
    None
}

/// Removes and returns the first slot.
pub(crate) fn take_slot(slots: &mut Vec<Option<Json>>) -> (r: Option<Json>)
    requires
        old(slots)@.len() > 0,
    ensures
        r == old(slots)@[0],
        final(slots)@ == old(slots)@.skip(1),
{
    let r = slots.remove(0);
    proof {
        assert(slots@ =~= old(slots)@.skip(1));
    }
    r
}

/// Splits an object's fields: for each name the first field of that name,
/// and the residual of everything else, in document order.
pub(crate) fn split_fields(entries: Vec<(String, Json)>, names: &Vec<String>) -> (r: (
    Vec<Option<Json>>,
    Vec<(String, Json)>,
))
    requires
        forall|i: int, j: int|
            0 <= i < j < names@.len() ==> (#[trigger] names@[i])@ != (#[trigger] names@[j])@,
    ensures
        r.0@.len() == names@.len(),
        forall|j: int|
            0 <= j < names@.len() ==> (#[trigger] r.0@[j]).deep_view() == obj_get(
                entries_v(entries@),
                names@[j]@,
            ),
        entries_v(r.1@) == obj_residual(entries_v(entries@), names_v(names@)),
{
    let ghost all = entries_v(entries@);
    let n = names.len();
    let mut slots: Vec<Option<Json>> = Vec::new();
    let mut t: usize = 0;
    while t < n
        invariant
            slots@.len() == t <= n,
            forall|j: int| 0 <= j < t ==> (#[trigger] slots@[j]) is None,
        decreases n - t,
    {
        slots.push(None);
        t = t + 1;
    }
    let mut rest: Vec<(String, Json)> = Vec::new();
    let mut src = entries;
    let ghost mut done: int = 0;
    proof {
        assert(all.take(0) =~= Seq::empty());
        assert(obj_residual(all.take(0), names_v(names@)) =~= Seq::empty()) by {
            reveal(Seq::filter);
        }
        assert(entries_v(rest@) =~= Seq::empty());
        assert(entries_v(src@) =~= all.skip(0));
        assert forall|j: int| 0 <= j < names@.len() implies (#[trigger] slots@[j]).deep_view()
            == obj_get(all.take(0), names@[j]@) by {}
    }
    while src.len() > 0
        invariant
            0 <= done <= all.len(),
            entries_v(src@) =~= all.skip(done),
            slots@.len() == names@.len(),
            forall|i: int, j: int|
                0 <= i < j < names@.len() ==> (#[trigger] names@[i])@ != (#[trigger] names@[j])@,
            forall|j: int|
                0 <= j < names@.len() ==> (#[trigger] slots@[j]).deep_view() == obj_get(
                    all.take(done),
                    names@[j]@,
                ),
            entries_v(rest@) == obj_residual(all.take(done), names_v(names@)),
        decreases src@.len(),
    {
        proof {
            assert(entries_v(src@).len() == src@.len());
            assert(all.skip(done).len() == all.len() - done);
        }
        let ghost pre = src@;
        let (k, v) = src.remove(0);
        let ghost e = (k@, v.deep_view());
        proof {
            assert(entries_v(pre)[0] == e);
            assert(e == all.skip(done)[0]);
            assert(e == all[done]);
            assert(all.take(done + 1) =~= all.take(done).push(e));
            assert forall|x: int| 0 <= x < src@.len() implies entries_v(src@)[x] == all.skip(
                done + 1,
            )[x] by {
                assert(pre.remove(0) =~= pre.drop_first());
                assert(src@[x] == pre[x + 1]);
                assert(entries_v(pre)[x + 1] == (pre[x + 1].0@, pre[x + 1].1.deep_view()));
                assert(entries_v(pre)[x + 1] == all.skip(done)[x + 1]);
            }
            assert(entries_v(src@) =~= all.skip(done + 1));
        }
        let hit = name_index(names, &k);
        match hit {
            Some(j) => {
                proof {
                    assert(names_v(names@)[j as int] == names@[j as int]@);
                    assert(names_v(names@).contains(e.0));
                }
                if slots[j].is_none() {
                    slots[j] = Some(v);
                }
                proof {
                    assert forall|q: int| 0 <= q < names@.len() implies (
                    #[trigger] slots@[q]).deep_view() == obj_get(
                        all.take(done + 1),
                        names@[q]@,
                    ) by {
                        lemma_get_push(all.take(done), e, names@[q]@);
                    }
                    lemma_residual_push(all.take(done), e, names_v(names@));
                }
            },
            None => {
                let ghost rest_pre = rest@;
                rest.push((k, v));
                proof {
                    if names_v(names@).contains(e.0) {
                        let w = choose|w: int|
                            0 <= w < names_v(names@).len() && names_v(names@)[w] == e.0;
                        assert(names@[w]@ == e.0);
                        assert(false);
                    }
                    assert forall|q: int| 0 <= q < names@.len() implies (
                    #[trigger] slots@[q]).deep_view() == obj_get(
                        all.take(done + 1),
                        names@[q]@,
                    ) by {
                        lemma_get_push(all.take(done), e, names@[q]@);
                    }
                    lemma_residual_push(all.take(done), e, names_v(names@));
                    assert(entries_v(rest@) =~= entries_v(rest_pre).push(e));
                }
            },
        }
        proof {
            done = done + 1;
        }
    }
    proof {
        assert(all.take(done) =~= all);
    }
    (slots, rest)
}

} // verus!
