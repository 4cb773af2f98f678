//! The world-simulation document: actors, kill statistics and player
//! statistics, nested as a JSON string under the parent's `VailWorldSim`
//! field, with elastic residuals at every level.
//!
//! A health value is a numeric-with-sentinel field: the source data may
//! write it as a JSON number or as the literal string `"NaN"`, and it is
//! written back in the same two shapes.

use vstd::prelude::*;

use crate::error::{schema_error, SaveError};
use crate::fields::{
    field_i32, field_u32, lemma_get_at, lemma_get_concat, lemma_residual_all_known,
    lemma_residual_from, lemma_residual_none_known, lemma_wfb_entries_all,
    lemma_wfb_entries_index, names_v, spec_field_i32, spec_field_u32, split_fields, take_slot,
};
use crate::json::{
    arr_v, depth_budget, distinct_keys, entries_clone, entries_v, is_num_text, num_token,
    obj_get, obj_residual, wfb, wfb_entries, Json, JsonV,
};
use crate::numtext::{
    i32_to_dec, int_text, lemma_i32_text_round, lemma_int_text_token, lemma_unsigned_text_round,
    nat_text, num_le_zero, u64_to_dec,
};
use crate::text::{json_parse, json_text_of, json_to_text, parse_json};

verus! {

broadcast use vstd::std_specs::vec::group_vec_axioms, vstd::seq_lib::group_seq_lib_default, vstd::string::group_string_axioms;

/// A health-like value: either the `NaN` sentinel or a number, carried as
/// its token text.
#[derive(Debug, PartialEq)]
pub enum Health {
    NaN,
    Num(String),
}

/// Mathematical image of `Health`.
pub enum HealthV {
    NaN,
    Num(Seq<char>),
}

impl DeepView for Health {
    type V = HealthV;

    open spec fn deep_view(&self) -> HealthV {
        match self {
            Health::NaN => HealthV::NaN,
            Health::Num(s) => HealthV::Num(s@),
        }
    }
}

/// A health value is well-formed when its number, if it is one, is a
/// well-formed token.
pub open spec fn health_wf(h: HealthV) -> bool {
    h is Num ==> num_token(h->Num_0)
}

/// The health a wholly absent field decodes to: zero.
pub open spec fn default_health_v() -> HealthV {
    HealthV::Num("0.0"@)
}

/// The default health token is well-formed and not positive.
pub proof fn lemma_default_health()
    ensures
        health_wf(default_health_v()),
        health_dead(default_health_v()),
{
    reveal_strlit("0.0");
    let s = "0.0"@;
    assert(s.len() == 3);
    assert(s[0] == '0' && s[1] == '.' && s[2] == '0');
    assert(crate::json::num_frac_digits(s, 3));
    assert(crate::json::num_frac(s, 2));
    assert(crate::json::num_after_int(s, 1));
    assert(crate::numtext::zero_mantissa(s, 3));
    assert(crate::numtext::zero_mantissa(s, 2));
    assert(crate::numtext::zero_mantissa(s, 1));
    assert(crate::numtext::zero_mantissa(s, 0));
}

impl Health {
    /// A numeric health from its token text; `None` if the text is not a
    /// number token.  `"100.0"` and `"12"` pass; `"1E5"` and `"x"` do not.
    pub fn from_text(s: String) -> (r: Option<Health>)
        ensures
            r is Some <==> num_token(s@),
            r matches Some(h) ==> h.deep_view() == HealthV::Num(s@) && health_wf(h.deep_view()),
    {
        if is_num_text(s.as_str()) {
            Some(Health::Num(s))
        } else {
            None
        }
    }

    /// Whether this health reads as dead: the sentinel, or a value at or
    /// below zero.
    pub fn is_dead_value(&self) -> (r: bool)
        ensures
            r == health_dead(self.deep_view()),
    {
        match self {
            Health::NaN => true,
            Health::Num(s) => crate::numtext::dec_le_zero(s.as_str()),
        }
    }
}

/// A health value that reads as dead: the sentinel, or a number at or
/// below zero.
pub open spec fn health_dead(h: HealthV) -> bool {
    h is NaN || num_le_zero(h->Num_0)
}

/// A health field: absent defaults to zero; a number is kept as its token;
/// the string `"NaN"` (and only that string) is the sentinel.
pub open spec fn spec_field_health(f: Option<JsonV>) -> Option<HealthV> {
    match f {
        None => Some(default_health_v()),
        Some(JsonV::Num(s)) => Some(HealthV::Num(s)),
        Some(JsonV::Str(s)) => if s == "NaN"@ {
            Some(HealthV::NaN)
        } else {
            None
        },
        Some(_) => None,
    }
}

/// Encoding a health value: the sentinel becomes the string `"NaN"`, a
/// number stays a number.
pub open spec fn encode_health_v(h: HealthV) -> JsonV {
    match h {
        HealthV::NaN => JsonV::Str("NaN"@),
        HealthV::Num(s) => JsonV::Num(s),
    }
}

pub(crate) fn field_health(slot: Option<Json>) -> (r: Option<Health>)
    ensures
        r matches Some(h) ==> spec_field_health(slot.deep_view()) == Some(h.deep_view()),
        r is Some <==> spec_field_health(slot.deep_view()) is Some,
{
    match slot {
        None => Some(Health::Num("0.0".to_owned())),
        Some(Json::Num(s)) => Some(Health::Num(s)),
        Some(Json::Str(s)) => {
            if s.eq(&"NaN".to_owned()) {
                Some(Health::NaN)
            } else {
                None
            }
        },
        Some(_) => None,
    }
}

pub(crate) fn encode_health(h: &Health) -> (r: Json)
    ensures
        r.deep_view() == encode_health_v(h.deep_view()),
{
    match h {
        Health::NaN => Json::Str("NaN".to_owned()),
        Health::Num(s) => Json::Num(s.clone()),
    }
}

/// Sentinel symmetry: the sentinel encodes to the string `"NaN"` and never
/// to a number or a null; every other health encodes to a number, never to
/// a string.  Decoding inverts encoding exactly.
pub proof fn lemma_health_sentinel_symmetry(h: HealthV)
    ensures
        h is NaN ==> encode_health_v(h) == JsonV::Str("NaN"@),
        !(h is NaN) ==> encode_health_v(h) is Num,
        spec_field_health(Some(encode_health_v(h))) == Some(h),
{
}

/// The actor-statistics record: health plus whatever else the document
/// carried.
#[derive(Debug, PartialEq)]
pub struct ActorStats {
    pub health: Health,
    /// Every field of the source document that is not known above, in
    /// document order.
    pub other: Vec<(String, Json)>,
}

/// Mathematical image of `ActorStats`.
pub struct ActorStatsV {
    pub health: HealthV,
    pub other: Seq<(Seq<char>, JsonV)>,
}

impl DeepView for ActorStats {
    type V = ActorStatsV;

    open spec fn deep_view(&self) -> ActorStatsV {
        ActorStatsV { health: self.health.deep_view(), other: entries_v(self.other@) }
    }
}

/// The known field names of `ActorStats`.
pub open spec fn stats_known() -> Seq<Seq<char>> {
    seq!["Health"@]
}

fn stats_names() -> (r: Vec<String>)
    ensures
        names_v(r@) == stats_known(),
        forall|i: int, j: int|
            0 <= i < j < r@.len() ==> (#[trigger] r@[i])@ != (#[trigger] r@[j])@,
{
    let mut v: Vec<String> = Vec::new();
    v.push("Health".to_owned());
    proof {
        assert(names_v(v@) =~= stats_known());
    }
    v
}

/// Decoding a JSON value into an `ActorStats`: it must be an object.
pub open spec fn decode_stats_v(v: JsonV) -> Option<ActorStatsV> {
    match v {
        JsonV::Obj(o) => {
            match spec_field_health(obj_get(o, "Health"@)) {
                Some(h) => Some(
                    ActorStatsV { health: h, other: obj_residual(o, stats_known()) },
                ),
                None => None,
            }
        },
        _ => None,
    }
}

/// Encoding an `ActorStats`: the health first, then the residual.
pub open spec fn encode_stats_v(st: ActorStatsV) -> JsonV {
    JsonV::Obj(seq![("Health"@, encode_health_v(st.health))] + st.other)
}

/// Well-formed within depth budget `d`.
pub open spec fn stats_wf(st: ActorStatsV, d: int) -> bool {
    &&& d >= 1
    &&& health_wf(st.health)
    &&& wfb_entries(st.other, d - 1)
    &&& distinct_keys(st.other)
    &&& forall|i: int| 0 <= i < st.other.len() ==> !stats_known().contains((#[trigger] st.other[i]).0)
}

/// Decodes an actor-statistics record from a JSON value.
pub fn decode_actor_stats(j: Json) -> (r: Result<ActorStats, SaveError>)
    ensures
        r is Ok <==> decode_stats_v(j.deep_view()) is Some,
        r matches Ok(st) ==> decode_stats_v(j.deep_view()) == Some(st.deep_view()),
{
    let o = match j {
        Json::Obj(o) => o,
        _ => {
            return Err(schema_error("actor stats: not an object"));
        },
    };
    let ghost ov = entries_v(o@);
    let names = stats_names();
    let res = split_fields(o, &names);
    let mut slots = res.0;
    let rest = res.1;
    proof {
        assert(names_v(names@).len() == names@.len());
        assert(stats_known().len() == 1);
    }
    let s0 = take_slot(&mut slots);
    proof {
        assert(names_v(names@)[0] == names@[0]@);
        assert(s0.deep_view() == obj_get(ov, "Health"@));
    }
    let health = match field_health(s0) {
        Some(h) => h,
        None => {
            return Err(schema_error("Health: not a number or \"NaN\""));
        },
    };
    Ok(ActorStats { health, other: rest })
}

/// Encodes an actor-statistics record as a JSON object.
pub fn encode_actor_stats(st: &ActorStats) -> (r: Json)
    ensures
        r.deep_view() == encode_stats_v(st.deep_view()),
{
    let mut out: Vec<(String, Json)> = Vec::new();
    out.push(("Health".to_owned(), encode_health(&st.health)));
    let mut rest = entries_clone(&st.other);
    out.append(&mut rest);
    proof {
        assert(entries_v(out@) =~= seq![("Health"@, encode_health_v(st.deep_view().health))]
            + entries_v(st.other@));
    }
    Json::Obj(out)
}

/// A decoded record is well-formed at the budget its document satisfied.
pub proof fn lemma_decode_stats_wf(v: JsonV, d: int)
    requires
        wfb(v, d),
        decode_stats_v(v) is Some,
    ensures
        stats_wf(decode_stats_v(v)->0, d),
{
    let o = v->Obj_0;
    let st = decode_stats_v(v)->0;
    lemma_residual_from(o, stats_known());
    assert forall|i: int| 0 <= i < st.other.len() implies wfb((#[trigger] st.other[i]).1, d - 1) by {
        assert(o.contains(st.other[i]));
        let w = choose|w: int| 0 <= w < o.len() && o[w] == st.other[i];
        lemma_wfb_entries_index(o, d - 1, w);
    }
    lemma_wfb_entries_all(st.other, d - 1);
    let f = obj_get(o, "Health"@);
    if f is None {
        lemma_default_health();
    } else if f->0 is Num {
        let w = lemma_get_index(o, "Health"@);
        lemma_wfb_entries_index(o, d - 1, w);
    }
}

/// An encoded well-formed record is a well-formed object at the same budget.
pub proof fn lemma_encode_stats_wf(st: ActorStatsV, d: int)
    requires
        stats_wf(st, d),
    ensures
        wfb(encode_stats_v(st), d),
{
    let known = seq![("Health"@, encode_health_v(st.health))];
    let o = known + st.other;
    assert forall|i: int, j: int| 0 <= i < j < o.len() implies o[i].0 != o[j].0 by {
        if i == 0 {
            assert(stats_known().contains(stats_known()[0]));
            assert(o[j] == st.other[j - 1]);
        } else {
            assert(o[i] == st.other[i - 1]);
            assert(o[j] == st.other[j - 1]);
        }
    }
    assert forall|i: int| 0 <= i < o.len() implies wfb((#[trigger] o[i]).1, d - 1) by {
        if i == 0 {
            reveal_strlit("NaN");
        } else {
            lemma_wfb_entries_index(st.other, d - 1, i - 1);
        }
    }
    lemma_wfb_entries_all(o, d - 1);
}

/// Round trip: decoding an encoded record gives the record back.
pub proof fn lemma_stats_round_trip(st: ActorStatsV)
    requires
        forall|i: int|
            0 <= i < st.other.len() ==> !stats_known().contains((#[trigger] st.other[i]).0),
    ensures
        decode_stats_v(encode_stats_v(st)) == Some(st),
{
    let known = seq![("Health"@, encode_health_v(st.health))];
    let o = known + st.other;
    lemma_get_at(known, 0);
    lemma_get_concat(known, st.other, "Health"@);
    lemma_health_sentinel_symmetry(st.health);
    assert forall|i: int| 0 <= i < known.len() implies stats_known().contains(
        (#[trigger] known[i]).0,
    ) by {
        assert(known[i].0 == stats_known()[0]);
    }
    lemma_residual_all_known(known, stats_known());
    lemma_residual_none_known(st.other, stats_known());
    assert(obj_residual(o, stats_known()) =~= st.other);
}

/// The index where `obj_get` found its field.
pub proof fn lemma_get_index(o: Seq<(Seq<char>, JsonV)>, k: Seq<char>) -> (w: int)
    requires
        obj_get(o, k) is Some,
    ensures
        0 <= w < o.len(),
        o[w].0 == k,
        o[w].1 == obj_get(o, k)->0,
    decreases o.len(),
{
    if o[0].0 == k {
        0
    } else {
        let w = lemma_get_index(o.drop_first(), k);
        assert(o.drop_first()[w] == o[w + 1]);
        w + 1
    }
}


/// The kill-statistics record for one character.
#[derive(Debug, PartialEq)]
pub struct KillStat {
    pub type_id: u32,
    pub player_killed: i32,
    /// Every field of the source document that is not known above, in
    /// document order.
    pub other: Vec<(String, Json)>,
}

/// Mathematical image of `KillStat`.
pub struct KillStatV {
    pub type_id: u32,
    pub player_killed: i32,
    pub other: Seq<(Seq<char>, JsonV)>,
}

impl DeepView for KillStat {
    type V = KillStatV;

    open spec fn deep_view(&self) -> KillStatV {
        KillStatV {
            type_id: self.type_id,
            player_killed: self.player_killed,
            other: entries_v(self.other@),
        }
    }
}

/// The known field names of `KillStat`.
pub open spec fn kill_known() -> Seq<Seq<char>> {
    seq!["TypeId"@, "PlayerKilled"@]
}

/// The known names of `KillStat` are pairwise distinct.
pub proof fn kill_known_distinct()
    ensures
        forall|i: int, j: int|
            0 <= i < j < kill_known().len() ==> kill_known()[i] != kill_known()[j],
{
    reveal_strlit("TypeId");
    reveal_strlit("PlayerKilled");
    assert("TypeId"@.len() == 6);
    assert("PlayerKilled"@.len() == 12);
    assert forall|i: int, j: int| 0 <= i < j < kill_known().len() implies kill_known()[i]
        != kill_known()[j] by {
        assert(kill_known().len() == 2);
    }
}

fn kill_names() -> (r: Vec<String>)
    ensures
        names_v(r@) == kill_known(),
        forall|i: int, j: int|
            0 <= i < j < r@.len() ==> (#[trigger] r@[i])@ != (#[trigger] r@[j])@,
{
    let mut v: Vec<String> = Vec::new();
    v.push("TypeId".to_owned());
    v.push("PlayerKilled".to_owned());
    proof {
        assert(names_v(v@) =~= kill_known());
        kill_known_distinct();
        assert forall|i: int, j: int| 0 <= i < j < v@.len() implies (#[trigger] v@[i])@ != (
        #[trigger] v@[j])@ by {
            assert(names_v(v@)[i] == v@[i]@);
            assert(names_v(v@)[j] == v@[j]@);
        }
    }
    v
}

/// Decoding a JSON value into a `KillStat`: it must be an object.
pub open spec fn decode_kill_v(v: JsonV) -> Option<KillStatV> {
    match v {
        JsonV::Obj(o) => {
            let ti = spec_field_u32(obj_get(o, "TypeId"@));
            let pk = spec_field_i32(obj_get(o, "PlayerKilled"@));
            if ti is Some && pk is Some {
                Some(
                    KillStatV {
                        type_id: ti->0,
                        player_killed: pk->0,
                        other: obj_residual(o, kill_known()),
                    },
                )
            } else {
                None
            }
        },
        _ => None,
    }
}

/// The known fields a `KillStat` encodes to, in order.
pub open spec fn kill_fields_v(k: KillStatV) -> Seq<(Seq<char>, JsonV)> {
    seq![
        ("TypeId"@, JsonV::Num(nat_text(k.type_id as nat))),
        ("PlayerKilled"@, JsonV::Num(int_text(k.player_killed as int))),
    ]
}

/// Encoding a `KillStat`: the known fields first, then the residual.
pub open spec fn encode_kill_v(k: KillStatV) -> JsonV {
    JsonV::Obj(kill_fields_v(k) + k.other)
}

/// Well-formed within depth budget `d`.
pub open spec fn kill_wf(k: KillStatV, d: int) -> bool {
    &&& d >= 1
    &&& wfb_entries(k.other, d - 1)
    &&& distinct_keys(k.other)
    &&& forall|i: int| 0 <= i < k.other.len() ==> !kill_known().contains((#[trigger] k.other[i]).0)
}

/// Decodes a kill-statistics record from a JSON value.
pub fn decode_kill_stat(j: Json) -> (r: Result<KillStat, SaveError>)
    ensures
        r is Ok <==> decode_kill_v(j.deep_view()) is Some,
        r matches Ok(k) ==> decode_kill_v(j.deep_view()) == Some(k.deep_view()),
{
    let o = match j {
        Json::Obj(o) => o,
        _ => {
            return Err(schema_error("kill stat: not an object"));
        },
    };
    let ghost ov = entries_v(o@);
    let names = kill_names();
    let res = split_fields(o, &names);
    let mut slots = res.0;
    let rest = res.1;
    let ghost sl = slots@;
    proof {
        assert(names_v(names@).len() == names@.len());
        assert(kill_known().len() == 2);
        assert(sl.len() == 2);
    }
    let s0 = take_slot(&mut slots);
    proof {
        assert(slots@ =~= sl.skip(1));
    }
    let s1 = take_slot(&mut slots);
    proof {
        assert(s1 == sl[1]);
        assert(names_v(names@)[0] == names@[0]@);
        assert(names_v(names@)[1] == names@[1]@);
    }
    let type_id = match field_u32(s0) {
        Some(v) => v,
        None => {
            return Err(schema_error("TypeId: not an unsigned integer"));
        },
    };
    let player_killed = match field_i32(s1) {
        Some(v) => v,
        None => {
            return Err(schema_error("PlayerKilled: not an integer"));
        },
    };
    Ok(KillStat { type_id, player_killed, other: rest })
}

/// Encodes a kill-statistics record as a JSON object.
pub fn encode_kill_stat(k: &KillStat) -> (r: Json)
    ensures
        r.deep_view() == encode_kill_v(k.deep_view()),
{
    let mut out: Vec<(String, Json)> = Vec::new();
    out.push(("TypeId".to_owned(), Json::Num(u64_to_dec(k.type_id as u64))));
    out.push(("PlayerKilled".to_owned(), Json::Num(i32_to_dec(k.player_killed))));
    let mut rest = entries_clone(&k.other);
    out.append(&mut rest);
    proof {
        assert(entries_v(out@) =~= kill_fields_v(k.deep_view()) + entries_v(k.other@));
    }
    Json::Obj(out)
}

/// A decoded record is well-formed at the budget its document satisfied.
pub proof fn lemma_decode_kill_wf(v: JsonV, d: int)
    requires
        wfb(v, d),
        decode_kill_v(v) is Some,
    ensures
        kill_wf(decode_kill_v(v)->0, d),
{
    let o = v->Obj_0;
    let k = decode_kill_v(v)->0;
    lemma_residual_from(o, kill_known());
    assert forall|i: int| 0 <= i < k.other.len() implies wfb((#[trigger] k.other[i]).1, d - 1) by {
        assert(o.contains(k.other[i]));
        let w = choose|w: int| 0 <= w < o.len() && o[w] == k.other[i];
        lemma_wfb_entries_index(o, d - 1, w);
    }
    lemma_wfb_entries_all(k.other, d - 1);
}

/// An encoded well-formed record is a well-formed object at the same budget.
pub proof fn lemma_encode_kill_wf(k: KillStatV, d: int)
    requires
        kill_wf(k, d),
    ensures
        wfb(encode_kill_v(k), d),
{
    let known = kill_fields_v(k);
    let o = known + k.other;
    kill_known_distinct();
    assert forall|i: int, j: int| 0 <= i < j < o.len() implies o[i].0 != o[j].0 by {
        if j < known.len() {
            assert(o[i].0 == kill_known()[i]);
            assert(o[j].0 == kill_known()[j]);
        } else if i < known.len() {
            assert(o[i].0 == kill_known()[i]);
            assert(kill_known().contains(kill_known()[i]));
            assert(o[j] == k.other[j - known.len()]);
        } else {
            assert(o[i] == k.other[i - known.len()]);
            assert(o[j] == k.other[j - known.len()]);
        }
    }
    assert forall|i: int| 0 <= i < o.len() implies wfb((#[trigger] o[i]).1, d - 1) by {
        if i < known.len() {
            lemma_nat_text_token_u32(k.type_id);
            lemma_int_text_token(k.player_killed as int);
        } else {
            lemma_wfb_entries_index(k.other, d - 1, i - known.len());
        }
    }
    lemma_wfb_entries_all(o, d - 1);
}

/// The decimal text of a `u32` is a well-formed number token.
pub proof fn lemma_nat_text_token_u32(n: u32)
    ensures
        num_token(nat_text(n as nat)),
{
    crate::numtext::lemma_nat_text_token(n as nat);
}

/// Round trip: decoding an encoded record gives the record back.
pub proof fn lemma_kill_round_trip(k: KillStatV)
    requires
        forall|i: int|
            0 <= i < k.other.len() ==> !kill_known().contains((#[trigger] k.other[i]).0),
    ensures
        decode_kill_v(encode_kill_v(k)) == Some(k),
{
    let known = kill_fields_v(k);
    let o = known + k.other;
    kill_known_distinct();
    assert forall|t: int| 0 <= t < known.len() implies obj_get(o, kill_known()[t]) == Some(
        known[t].1,
    ) by {
        assert(known[t].0 == kill_known()[t]);
        lemma_get_at(known, t);
        lemma_get_concat(known, k.other, kill_known()[t]);
    }
    lemma_unsigned_text_round(k.type_id as nat, u32::MAX as int);
    lemma_i32_text_round(k.player_killed as int);
    assert forall|i: int| 0 <= i < known.len() implies kill_known().contains(
        (#[trigger] known[i]).0,
    ) by {
        assert(known[i].0 == kill_known()[i]);
    }
    lemma_residual_all_known(known, kill_known());
    lemma_residual_none_known(k.other, kill_known());
    assert(obj_residual(o, kill_known()) =~= k.other);
}

/// One simulated character: its type id, its state, its statistics where
/// present.
#[derive(Debug, PartialEq)]
pub struct Actor {
    pub type_id: u32,
    pub state: u32,
    pub stats: Option<ActorStats>,
    /// Every field of the source document that is not known above, in
    /// document order.
    pub other: Vec<(String, Json)>,
}

/// Mathematical image of `Actor`.
pub struct ActorV {
    pub type_id: u32,
    pub state: u32,
    pub stats: Option<ActorStatsV>,
    pub other: Seq<(Seq<char>, JsonV)>,
}

impl DeepView for Actor {
    type V = ActorV;

    open spec fn deep_view(&self) -> ActorV {
        ActorV {
            type_id: self.type_id,
            state: self.state,
            stats: match self.stats {
                Some(st) => Some(st.deep_view()),
                None => None,
            },
            other: entries_v(self.other@),
        }
    }
}

/// The known field names of `Actor`.
pub open spec fn actor_known() -> Seq<Seq<char>> {
    seq!["TypeId"@, "State"@, "Stats"@]
}

/// The known names of `Actor` are pairwise distinct.
pub proof fn actor_known_distinct()
    ensures
        forall|i: int, j: int|
            0 <= i < j < actor_known().len() ==> actor_known()[i] != actor_known()[j],
{
    reveal_strlit("TypeId");
    reveal_strlit("State");
    reveal_strlit("Stats");
    assert("TypeId"@.len() == 6);
    assert("State"@.len() == 5);
    assert("Stats"@.len() == 5);
    assert("State"@[4] == 'e');
    assert("Stats"@[4] == 's');
    assert forall|i: int, j: int| 0 <= i < j < actor_known().len() implies actor_known()[i]
        != actor_known()[j] by {
        assert(actor_known().len() == 3);
    }
}

fn actor_names() -> (r: Vec<String>)
    ensures
        names_v(r@) == actor_known(),
        forall|i: int, j: int|
            0 <= i < j < r@.len() ==> (#[trigger] r@[i])@ != (#[trigger] r@[j])@,
{
    let mut v: Vec<String> = Vec::new();
    v.push("TypeId".to_owned());
    v.push("State".to_owned());
    v.push("Stats".to_owned());
    proof {
        assert(names_v(v@) =~= actor_known());
        actor_known_distinct();
        assert forall|i: int, j: int| 0 <= i < j < v@.len() implies (#[trigger] v@[i])@ != (
        #[trigger] v@[j])@ by {
            assert(names_v(v@)[i] == v@[i]@);
            assert(names_v(v@)[j] == v@[j]@);
        }
    }
    v
}

/// A statistics field: absent or null is no statistics; an object is
/// decoded; anything else is an error.
pub open spec fn spec_field_stats(f: Option<JsonV>) -> Option<Option<ActorStatsV>> {
    match f {
        None => Some(None::<ActorStatsV>),
        Some(JsonV::Null) => Some(None::<ActorStatsV>),
        Some(JsonV::Obj(o)) => match decode_stats_v(JsonV::Obj(o)) {
            Some(st) => Some(Some(st)),
            None => None,
        },
        Some(_) => None,
    }
}

/// Encoding a statistics field: no statistics becomes null.
pub open spec fn encode_stats_field(st: Option<ActorStatsV>) -> JsonV {
    match st {
        None => JsonV::Null,
        Some(st) => encode_stats_v(st),
    }
}

fn field_stats(slot: Option<Json>) -> (r: Result<Option<ActorStats>, SaveError>)
    ensures
        r is Ok <==> spec_field_stats(slot.deep_view()) is Some,
        r matches Ok(st) ==> spec_field_stats(slot.deep_view()) == Some(st.deep_view()),
{
    match slot {
        None => Ok(None),
        Some(Json::Null) => Ok(None),
        Some(Json::Obj(o)) => {
            match decode_actor_stats(Json::Obj(o)) {
                Ok(st) => Ok(Some(st)),
                Err(e) => Err(e),
            }
        },
        Some(_) => Err(schema_error("Stats: not an object or null")),
    }
}

/// Decoding a JSON value into an `Actor`: it must be an object.
pub open spec fn decode_actor_v(v: JsonV) -> Option<ActorV> {
    match v {
        JsonV::Obj(o) => {
            let ti = spec_field_u32(obj_get(o, "TypeId"@));
            let st = spec_field_u32(obj_get(o, "State"@));
            let sx = spec_field_stats(obj_get(o, "Stats"@));
            if ti is Some && st is Some && sx is Some {
                Some(
                    ActorV {
                        type_id: ti->0,
                        state: st->0,
                        stats: sx->0,
                        other: obj_residual(o, actor_known()),
                    },
                )
            } else {
                None
            }
        },
        _ => None,
    }
}

/// The known fields an `Actor` encodes to, in order.
pub open spec fn actor_fields_v(a: ActorV) -> Seq<(Seq<char>, JsonV)> {
    seq![
        ("TypeId"@, JsonV::Num(nat_text(a.type_id as nat))),
        ("State"@, JsonV::Num(nat_text(a.state as nat))),
        ("Stats"@, encode_stats_field(a.stats)),
    ]
}

/// Encoding an `Actor`: the known fields first, then the residual.
pub open spec fn encode_actor_v(a: ActorV) -> JsonV {
    JsonV::Obj(actor_fields_v(a) + a.other)
}

/// Well-formed within depth budget `d`.
pub open spec fn actor_wf(a: ActorV, d: int) -> bool {
    &&& d >= 1
    &&& (a.stats matches Some(st) ==> stats_wf(st, d - 1))
    &&& wfb_entries(a.other, d - 1)
    &&& distinct_keys(a.other)
    &&& forall|i: int| 0 <= i < a.other.len() ==> !actor_known().contains((#[trigger] a.other[i]).0)
}

/// Decodes an actor record from a JSON value.
pub fn decode_actor(j: Json) -> (r: Result<Actor, SaveError>)
    ensures
        r is Ok <==> decode_actor_v(j.deep_view()) is Some,
        r matches Ok(a) ==> decode_actor_v(j.deep_view()) == Some(a.deep_view()),
{
    let o = match j {
        Json::Obj(o) => o,
        _ => {
            return Err(schema_error("actor: not an object"));
        },
    };
    let ghost ov = entries_v(o@);
    let names = actor_names();
    let res = split_fields(o, &names);
    let mut slots = res.0;
    let rest = res.1;
    let ghost sl = slots@;
    proof {
        assert(names_v(names@).len() == names@.len());
        assert(actor_known().len() == 3);
        assert(sl.len() == 3);
    }
    let s0 = take_slot(&mut slots);
    proof {
        assert(slots@ =~= sl.skip(1));
    }
    let s1 = take_slot(&mut slots);
    proof {
        assert(slots@ =~= sl.skip(2));
        assert(s1 == sl[1]);
    }
    let s2 = take_slot(&mut slots);
    proof {
        assert(s2 == sl[2]);
        assert(names_v(names@)[0] == names@[0]@);
        assert(names_v(names@)[1] == names@[1]@);
        assert(names_v(names@)[2] == names@[2]@);
    }
    let type_id = match field_u32(s0) {
        Some(v) => v,
        None => {
            return Err(schema_error("TypeId: not an unsigned integer"));
        },
    };
    let state = match field_u32(s1) {
        Some(v) => v,
        None => {
            return Err(schema_error("State: not an unsigned integer"));
        },
    };
    let stats = match field_stats(s2) {
        Ok(v) => v,
        Err(e) => {
            return Err(e);
        },
    };
    Ok(Actor { type_id, state, stats, other: rest })
}

/// Encodes an actor record as a JSON object.
pub fn encode_actor(a: &Actor) -> (r: Json)
    ensures
        r.deep_view() == encode_actor_v(a.deep_view()),
{
    let mut out: Vec<(String, Json)> = Vec::new();
    out.push(("TypeId".to_owned(), Json::Num(u64_to_dec(a.type_id as u64))));
    out.push(("State".to_owned(), Json::Num(u64_to_dec(a.state as u64))));
    let stats_json = match &a.stats {
        None => Json::Null,
        Some(st) => encode_actor_stats(st),
    };
    out.push(("Stats".to_owned(), stats_json));
    let mut rest = entries_clone(&a.other);
    out.append(&mut rest);
    proof {
        assert(entries_v(out@) =~= actor_fields_v(a.deep_view()) + entries_v(a.other@));
    }
    Json::Obj(out)
}

/// A decoded record is well-formed at the budget its document satisfied.
pub proof fn lemma_decode_actor_wf(v: JsonV, d: int)
    requires
        wfb(v, d),
        decode_actor_v(v) is Some,
    ensures
        actor_wf(decode_actor_v(v)->0, d),
{
    let o = v->Obj_0;
    let a = decode_actor_v(v)->0;
    lemma_residual_from(o, actor_known());
    assert forall|i: int| 0 <= i < a.other.len() implies wfb((#[trigger] a.other[i]).1, d - 1) by {
        assert(o.contains(a.other[i]));
        let w = choose|w: int| 0 <= w < o.len() && o[w] == a.other[i];
        lemma_wfb_entries_index(o, d - 1, w);
    }
    lemma_wfb_entries_all(a.other, d - 1);
    if a.stats is Some {
        let f = obj_get(o, "Stats"@);
        let w = lemma_get_index(o, "Stats"@);
        lemma_wfb_entries_index(o, d - 1, w);
        lemma_decode_stats_wf(f->0, d - 1);
    }
}

/// An encoded well-formed record is a well-formed object at the same budget.
pub proof fn lemma_encode_actor_wf(a: ActorV, d: int)
    requires
        actor_wf(a, d),
    ensures
        wfb(encode_actor_v(a), d),
{
    let known = actor_fields_v(a);
    let o = known + a.other;
    actor_known_distinct();
    assert forall|i: int, j: int| 0 <= i < j < o.len() implies o[i].0 != o[j].0 by {
        if j < known.len() {
            assert(o[i].0 == actor_known()[i]);
            assert(o[j].0 == actor_known()[j]);
        } else if i < known.len() {
            assert(o[i].0 == actor_known()[i]);
            assert(actor_known().contains(actor_known()[i]));
            assert(o[j] == a.other[j - known.len()]);
        } else {
            assert(o[i] == a.other[i - known.len()]);
            assert(o[j] == a.other[j - known.len()]);
        }
    }
    assert forall|i: int| 0 <= i < o.len() implies wfb((#[trigger] o[i]).1, d - 1) by {
        if i < known.len() {
            lemma_nat_text_token_u32(a.type_id);
            lemma_nat_text_token_u32(a.state);
            if a.stats is Some {
                lemma_encode_stats_wf(a.stats->0, d - 1);
            }
        } else {
            lemma_wfb_entries_index(a.other, d - 1, i - known.len());
        }
    }
    lemma_wfb_entries_all(o, d - 1);
}

/// Round trip: decoding an encoded record gives the record back.
pub proof fn lemma_actor_round_trip(a: ActorV)
    requires
        forall|i: int|
            0 <= i < a.other.len() ==> !actor_known().contains((#[trigger] a.other[i]).0),
        a.stats matches Some(st) ==> forall|i: int|
            0 <= i < st.other.len() ==> !stats_known().contains((#[trigger] st.other[i]).0),
    ensures
        decode_actor_v(encode_actor_v(a)) == Some(a),
{
    let known = actor_fields_v(a);
    let o = known + a.other;
    actor_known_distinct();
    assert forall|t: int| 0 <= t < known.len() implies obj_get(o, actor_known()[t]) == Some(
        known[t].1,
    ) by {
        assert(known[t].0 == actor_known()[t]);
        lemma_get_at(known, t);
        lemma_get_concat(known, a.other, actor_known()[t]);
    }
    lemma_unsigned_text_round(a.type_id as nat, u32::MAX as int);
    lemma_unsigned_text_round(a.state as nat, u32::MAX as int);
    if a.stats is Some {
        lemma_stats_round_trip(a.stats->0);
    }
    assert forall|i: int| 0 <= i < known.len() implies actor_known().contains(
        (#[trigger] known[i]).0,
    ) by {
        assert(known[i].0 == actor_known()[i]);
    }
    lemma_residual_all_known(known, actor_known());
    lemma_residual_none_known(a.other, actor_known());
    assert(obj_residual(o, actor_known()) =~= a.other);
}

/// The player-statistics record.
#[derive(Debug, PartialEq)]
pub struct PlayerStats {
    pub cut_trees: i32,
    pub seen_in_village_count: i32,
    pub last_sighted_time_hours: Health,
    /// Every field of the source document that is not known above, in
    /// document order.
    pub other: Vec<(String, Json)>,
}

/// Mathematical image of `PlayerStats`.
pub struct PlayerStatsV {
    pub cut_trees: i32,
    pub seen_in_village_count: i32,
    pub last_sighted_time_hours: HealthV,
    pub other: Seq<(Seq<char>, JsonV)>,
}

impl DeepView for PlayerStats {
    type V = PlayerStatsV;

    open spec fn deep_view(&self) -> PlayerStatsV {
        PlayerStatsV {
            cut_trees: self.cut_trees,
            seen_in_village_count: self.seen_in_village_count,
            last_sighted_time_hours: self.last_sighted_time_hours.deep_view(),
            other: entries_v(self.other@),
        }
    }
}

/// The known field names of `PlayerStats`.
pub open spec fn ps_known() -> Seq<Seq<char>> {
    seq!["CutTrees"@, "SeenInVillageCount"@, "LastSightedTimeHours"@]
}

/// The known names of `PlayerStats` are pairwise distinct.
pub proof fn ps_known_distinct()
    ensures
        forall|i: int, j: int|
            0 <= i < j < ps_known().len() ==> ps_known()[i] != ps_known()[j],
{
    reveal_strlit("CutTrees");
    reveal_strlit("SeenInVillageCount");
    reveal_strlit("LastSightedTimeHours");
    assert("CutTrees"@.len() == 8);
    assert("SeenInVillageCount"@.len() == 18);
    assert("LastSightedTimeHours"@.len() == 20);
    assert forall|i: int, j: int| 0 <= i < j < ps_known().len() implies ps_known()[i]
        != ps_known()[j] by {
        assert(ps_known().len() == 3);
    }
}

fn ps_names() -> (r: Vec<String>)
    ensures
        names_v(r@) == ps_known(),
        forall|i: int, j: int|
            0 <= i < j < r@.len() ==> (#[trigger] r@[i])@ != (#[trigger] r@[j])@,
{
    let mut v: Vec<String> = Vec::new();
    v.push("CutTrees".to_owned());
    v.push("SeenInVillageCount".to_owned());
    v.push("LastSightedTimeHours".to_owned());
    proof {
        assert(names_v(v@) =~= ps_known());
        ps_known_distinct();
        assert forall|i: int, j: int| 0 <= i < j < v@.len() implies (#[trigger] v@[i])@ != (
        #[trigger] v@[j])@ by {
            assert(names_v(v@)[i] == v@[i]@);
            assert(names_v(v@)[j] == v@[j]@);
        }
    }
    v
}

/// Decoding a JSON value into a `PlayerStats`: it must be an object.
pub open spec fn decode_ps_v(v: JsonV) -> Option<PlayerStatsV> {
    match v {
        JsonV::Obj(o) => {
            let ct = spec_field_i32(obj_get(o, "CutTrees"@));
            let sv = spec_field_i32(obj_get(o, "SeenInVillageCount"@));
            let ls = spec_field_health(obj_get(o, "LastSightedTimeHours"@));
            if ct is Some && sv is Some && ls is Some {
                Some(
                    PlayerStatsV {
                        cut_trees: ct->0,
                        seen_in_village_count: sv->0,
                        last_sighted_time_hours: ls->0,
                        other: obj_residual(o, ps_known()),
                    },
                )
            } else {
                None
            }
        },
        _ => None,
    }
}

/// The known fields a `PlayerStats` encodes to, in order.
pub open spec fn ps_fields_v(p: PlayerStatsV) -> Seq<(Seq<char>, JsonV)> {
    seq![
        ("CutTrees"@, JsonV::Num(int_text(p.cut_trees as int))),
        ("SeenInVillageCount"@, JsonV::Num(int_text(p.seen_in_village_count as int))),
        ("LastSightedTimeHours"@, encode_health_v(p.last_sighted_time_hours)),
    ]
}

/// Encoding a `PlayerStats`: the known fields first, then the residual.
pub open spec fn encode_ps_v(p: PlayerStatsV) -> JsonV {
    JsonV::Obj(ps_fields_v(p) + p.other)
}

/// Well-formed within depth budget `d`.
pub open spec fn ps_wf(p: PlayerStatsV, d: int) -> bool {
    &&& d >= 1
    &&& health_wf(p.last_sighted_time_hours)
    &&& wfb_entries(p.other, d - 1)
    &&& distinct_keys(p.other)
    &&& forall|i: int| 0 <= i < p.other.len() ==> !ps_known().contains((#[trigger] p.other[i]).0)
}

/// The record a wholly absent `PlayerStats` field decodes to.
pub open spec fn default_ps_v() -> PlayerStatsV {
    PlayerStatsV {
        cut_trees: 0,
        seen_in_village_count: 0,
        last_sighted_time_hours: default_health_v(),
        other: Seq::empty(),
    }
}

impl Default for PlayerStats {
    /// The zero record, used when the world-simulation document has no
    /// `PlayerStats` field at all.
    fn default() -> (r: Self)
        ensures
            r.deep_view() == default_ps_v(),
    {
        let r = PlayerStats {
            cut_trees: 0,
            seen_in_village_count: 0,
            last_sighted_time_hours: Health::Num("0.0".to_owned()),
            other: Vec::new(),
        };
        proof {
            assert(entries_v(r.other@) =~= Seq::empty());
        }
        r
    }
}

/// Decodes a player-statistics record from a JSON value.
pub fn decode_player_stats(j: Json) -> (r: Result<PlayerStats, SaveError>)
    ensures
        r is Ok <==> decode_ps_v(j.deep_view()) is Some,
        r matches Ok(p) ==> decode_ps_v(j.deep_view()) == Some(p.deep_view()),
{
    let o = match j {
        Json::Obj(o) => o,
        _ => {
            return Err(schema_error("player stats: not an object"));
        },
    };
    let ghost ov = entries_v(o@);
    let names = ps_names();
    let res = split_fields(o, &names);
    let mut slots = res.0;
    let rest = res.1;
    let ghost sl = slots@;
    proof {
        assert(names_v(names@).len() == names@.len());
        assert(ps_known().len() == 3);
        assert(sl.len() == 3);
    }
    let s0 = take_slot(&mut slots);
    proof {
        assert(slots@ =~= sl.skip(1));
    }
    let s1 = take_slot(&mut slots);
    proof {
        assert(slots@ =~= sl.skip(2));
        assert(s1 == sl[1]);
    }
    let s2 = take_slot(&mut slots);
    proof {
        assert(s2 == sl[2]);
        assert(names_v(names@)[0] == names@[0]@);
        assert(names_v(names@)[1] == names@[1]@);
        assert(names_v(names@)[2] == names@[2]@);
    }
    let cut_trees = match field_i32(s0) {
        Some(v) => v,
        None => {
            return Err(schema_error("CutTrees: not an integer"));
        },
    };
    let seen_in_village_count = match field_i32(s1) {
        Some(v) => v,
        None => {
            return Err(schema_error("SeenInVillageCount: not an integer"));
        },
    };
    let last_sighted_time_hours = match field_health(s2) {
        Some(v) => v,
        None => {
            return Err(schema_error("LastSightedTimeHours: not a number or \"NaN\""));
        },
    };
    Ok(PlayerStats { cut_trees, seen_in_village_count, last_sighted_time_hours, other: rest })
}

/// Encodes a player-statistics record as a JSON object.
pub fn encode_player_stats(p: &PlayerStats) -> (r: Json)
    ensures
        r.deep_view() == encode_ps_v(p.deep_view()),
{
    let mut out: Vec<(String, Json)> = Vec::new();
    out.push(("CutTrees".to_owned(), Json::Num(i32_to_dec(p.cut_trees))));
    out.push(("SeenInVillageCount".to_owned(), Json::Num(i32_to_dec(p.seen_in_village_count))));
    out.push(("LastSightedTimeHours".to_owned(), encode_health(&p.last_sighted_time_hours)));
    let mut rest = entries_clone(&p.other);
    out.append(&mut rest);
    proof {
        assert(entries_v(out@) =~= ps_fields_v(p.deep_view()) + entries_v(p.other@));
    }
    Json::Obj(out)
}

/// A decoded record is well-formed at the budget its document satisfied.
pub proof fn lemma_decode_ps_wf(v: JsonV, d: int)
    requires
        wfb(v, d),
        decode_ps_v(v) is Some,
    ensures
        ps_wf(decode_ps_v(v)->0, d),
{
    let o = v->Obj_0;
    let p = decode_ps_v(v)->0;
    lemma_residual_from(o, ps_known());
    assert forall|i: int| 0 <= i < p.other.len() implies wfb((#[trigger] p.other[i]).1, d - 1) by {
        assert(o.contains(p.other[i]));
        let w = choose|w: int| 0 <= w < o.len() && o[w] == p.other[i];
        lemma_wfb_entries_index(o, d - 1, w);
    }
    lemma_wfb_entries_all(p.other, d - 1);
    let f = obj_get(o, "LastSightedTimeHours"@);
    if f is None {
        lemma_default_health();
    } else if f->0 is Num {
        let w = lemma_get_index(o, "LastSightedTimeHours"@);
        lemma_wfb_entries_index(o, d - 1, w);
    }
}

/// An encoded well-formed record is a well-formed object at the same budget.
pub proof fn lemma_encode_ps_wf(p: PlayerStatsV, d: int)
    requires
        ps_wf(p, d),
    ensures
        wfb(encode_ps_v(p), d),
{
    let known = ps_fields_v(p);
    let o = known + p.other;
    ps_known_distinct();
    assert forall|i: int, j: int| 0 <= i < j < o.len() implies o[i].0 != o[j].0 by {
        if j < known.len() {
            assert(o[i].0 == ps_known()[i]);
            assert(o[j].0 == ps_known()[j]);
        } else if i < known.len() {
            assert(o[i].0 == ps_known()[i]);
            assert(ps_known().contains(ps_known()[i]));
            assert(o[j] == p.other[j - known.len()]);
        } else {
            assert(o[i] == p.other[i - known.len()]);
            assert(o[j] == p.other[j - known.len()]);
        }
    }
    assert forall|i: int| 0 <= i < o.len() implies wfb((#[trigger] o[i]).1, d - 1) by {
        if i < known.len() {
            lemma_int_text_token(p.cut_trees as int);
            lemma_int_text_token(p.seen_in_village_count as int);
            reveal_strlit("NaN");
        } else {
            lemma_wfb_entries_index(p.other, d - 1, i - known.len());
        }
    }
    lemma_wfb_entries_all(o, d - 1);
}

/// Round trip: decoding an encoded record gives the record back.
pub proof fn lemma_ps_round_trip(p: PlayerStatsV)
    requires
        forall|i: int|
            0 <= i < p.other.len() ==> !ps_known().contains((#[trigger] p.other[i]).0),
    ensures
        decode_ps_v(encode_ps_v(p)) == Some(p),
{
    let known = ps_fields_v(p);
    let o = known + p.other;
    ps_known_distinct();
    assert forall|t: int| 0 <= t < known.len() implies obj_get(o, ps_known()[t]) == Some(
        known[t].1,
    ) by {
        assert(known[t].0 == ps_known()[t]);
        lemma_get_at(known, t);
        lemma_get_concat(known, p.other, ps_known()[t]);
    }
    lemma_i32_text_round(p.cut_trees as int);
    lemma_i32_text_round(p.seen_in_village_count as int);
    lemma_health_sentinel_symmetry(p.last_sighted_time_hours);
    assert forall|i: int| 0 <= i < known.len() implies ps_known().contains(
        (#[trigger] known[i]).0,
    ) by {
        assert(known[i].0 == ps_known()[i]);
    }
    lemma_residual_all_known(known, ps_known());
    lemma_residual_none_known(p.other, ps_known());
    assert(obj_residual(o, ps_known()) =~= p.other);
}


/// The mathematical image of a list of actors.
pub open spec fn actors_v(s: Seq<Actor>) -> Seq<ActorV> {
    Seq::new(s.len(), |i: int| s[i].deep_view())
}

/// The mathematical image of a list of kill statistics.
pub open spec fn kills_v(s: Seq<KillStat>) -> Seq<KillStatV> {
    Seq::new(s.len(), |i: int| s[i].deep_view())
}

/// Decoding a list of actors: every element must decode.
pub open spec fn decode_actors_v(s: Seq<JsonV>) -> Option<Seq<ActorV>> {
    if forall|i: int| 0 <= i < s.len() ==> decode_actor_v(#[trigger] s[i]) is Some {
        Some(Seq::new(s.len(), |i: int| decode_actor_v(s[i])->0))
    } else {
        None
    }
}

/// Decoding a list of kill statistics: every element must decode.
pub open spec fn decode_kills_v(s: Seq<JsonV>) -> Option<Seq<KillStatV>> {
    if forall|i: int| 0 <= i < s.len() ==> decode_kill_v(#[trigger] s[i]) is Some {
        Some(Seq::new(s.len(), |i: int| decode_kill_v(s[i])->0))
    } else {
        None
    }
}

/// Encoding a list of actors, elementwise.
pub open spec fn actors_enc_v(s: Seq<ActorV>) -> Seq<JsonV> {
    Seq::new(s.len(), |i: int| encode_actor_v(s[i]))
}

/// Encoding a list of kill statistics, elementwise.
pub open spec fn kills_enc_v(s: Seq<KillStatV>) -> Seq<JsonV> {
    Seq::new(s.len(), |i: int| encode_kill_v(s[i]))
}

/// An actors field: absent defaults to the empty list; present, it must be
/// an array of decodable actor objects.
pub open spec fn spec_field_actors(f: Option<JsonV>) -> Option<Seq<ActorV>> {
    match f {
        None => Some(Seq::empty()),
        Some(JsonV::Arr(a)) => decode_actors_v(a),
        Some(_) => None,
    }
}

/// A kill-statistics field: absent defaults to the empty list.
pub open spec fn spec_field_kills(f: Option<JsonV>) -> Option<Seq<KillStatV>> {
    match f {
        None => Some(Seq::empty()),
        Some(JsonV::Arr(a)) => decode_kills_v(a),
        Some(_) => None,
    }
}

/// A player-statistics field: absent defaults to the zero record.
pub open spec fn spec_field_ps(f: Option<JsonV>) -> Option<PlayerStatsV> {
    match f {
        None => Some(default_ps_v()),
        Some(v) => decode_ps_v(v),
    }
}

fn decode_actor_list(v: Vec<Json>) -> (r: Result<Vec<Actor>, SaveError>)
    ensures
        r is Ok <==> decode_actors_v(arr_v(v@)) is Some,
        r matches Ok(out) ==> decode_actors_v(arr_v(v@)) == Some(actors_v(out@)),
{
    let ghost av = arr_v(v@);
    let mut out: Vec<Actor> = Vec::new();
    let mut src = v;
    let ghost mut done: int = 0;
    proof {
        assert(arr_v(src@) =~= av.skip(0));
    }
    while src.len() > 0
        invariant
            av == arr_v(v@),
            0 <= done <= av.len(),
            arr_v(src@) =~= av.skip(done),
            out@.len() == done,
            forall|k: int|
                0 <= k < done ==> decode_actor_v(#[trigger] av[k]) == Some(out@[k].deep_view()),
        decreases src@.len(),
    {
        proof {
            assert(arr_v(src@).len() == src@.len());
            assert(av.skip(done).len() == av.len() - done);
        }
        let ghost pre = src@;
        let j = src.remove(0);
        proof {
            assert(arr_v(pre)[0] == j.deep_view());
            assert(j.deep_view() == av[done]);
            assert forall|x: int| 0 <= x < src@.len() implies arr_v(src@)[x] == av.skip(
                done + 1,
            )[x] by {
                assert(pre.remove(0) =~= pre.drop_first());
                assert(src@[x] == pre[x + 1]);
                assert(arr_v(pre)[x + 1] == pre[x + 1].deep_view());
                assert(arr_v(pre)[x + 1] == av.skip(done)[x + 1]);
            }
            assert(arr_v(src@) =~= av.skip(done + 1));
        }
        match decode_actor(j) {
            Ok(a) => {
                out.push(a);
            },
            Err(e) => {
                proof {
                    assert(decode_actor_v(av[done]) is None);
                    assert(0 <= done < av.len());
                    assert(!(forall|i: int|
                        0 <= i < av.len() ==> decode_actor_v(#[trigger] av[i]) is Some)) by {
                        if forall|i: int|
                            0 <= i < av.len() ==> decode_actor_v(#[trigger] av[i]) is Some {
                            assert(decode_actor_v(av[done]) is Some);
                        }
                    }
                    assert(decode_actors_v(av) is None);
                }
                return Err(e);
            },
        }
        proof {
            done = done + 1;
        }
    }
    proof {
        assert(done == av.len());
        assert forall|i: int| 0 <= i < av.len() implies decode_actor_v(#[trigger] av[i]) is Some by {}
        assert(decode_actors_v(av) == Some(actors_v(out@))) by {
            assert(Seq::new(av.len(), |i: int| decode_actor_v(av[i])->0) =~= actors_v(out@));
        }
    }
    Ok(out)
}

fn decode_kill_list(v: Vec<Json>) -> (r: Result<Vec<KillStat>, SaveError>)
    ensures
        r is Ok <==> decode_kills_v(arr_v(v@)) is Some,
        r matches Ok(out) ==> decode_kills_v(arr_v(v@)) == Some(kills_v(out@)),
{
    let ghost av = arr_v(v@);
    let mut out: Vec<KillStat> = Vec::new();
    let mut src = v;
    let ghost mut done: int = 0;
    proof {
        assert(arr_v(src@) =~= av.skip(0));
    }
    while src.len() > 0
        invariant
            av == arr_v(v@),
            0 <= done <= av.len(),
            arr_v(src@) =~= av.skip(done),
            out@.len() == done,
            forall|k: int|
                0 <= k < done ==> decode_kill_v(#[trigger] av[k]) == Some(out@[k].deep_view()),
        decreases src@.len(),
    {
        proof {
            assert(arr_v(src@).len() == src@.len());
            assert(av.skip(done).len() == av.len() - done);
        }
        let ghost pre = src@;
        let j = src.remove(0);
        proof {
            assert(arr_v(pre)[0] == j.deep_view());
            assert(j.deep_view() == av[done]);
            assert forall|x: int| 0 <= x < src@.len() implies arr_v(src@)[x] == av.skip(
                done + 1,
            )[x] by {
                assert(pre.remove(0) =~= pre.drop_first());
                assert(src@[x] == pre[x + 1]);
                assert(arr_v(pre)[x + 1] == pre[x + 1].deep_view());
                assert(arr_v(pre)[x + 1] == av.skip(done)[x + 1]);
            }
            assert(arr_v(src@) =~= av.skip(done + 1));
        }
        match decode_kill_stat(j) {
            Ok(a) => {
                out.push(a);
            },
            Err(e) => {
                proof {
                    assert(decode_kill_v(av[done]) is None);
                    assert(0 <= done < av.len());
                    assert(!(forall|i: int|
                        0 <= i < av.len() ==> decode_kill_v(#[trigger] av[i]) is Some)) by {
                        if forall|i: int|
                            0 <= i < av.len() ==> decode_kill_v(#[trigger] av[i]) is Some {
                            assert(decode_kill_v(av[done]) is Some);
                        }
                    }
                    assert(decode_kills_v(av) is None);
                }
                return Err(e);
            },
        }
        proof {
            done = done + 1;
        }
    }
    proof {
        assert(done == av.len());
        assert(decode_kills_v(av) == Some(kills_v(out@))) by {
            assert(Seq::new(av.len(), |i: int| decode_kill_v(av[i])->0) =~= kills_v(out@));
        }
    }
    Ok(out)
}

/// The world-simulation record: the actors, the kill statistics, the
/// player statistics, and everything else the document carried.
#[derive(Debug, PartialEq)]
pub struct VailWorldSim {
    pub actors: Vec<Actor>,
    pub kill_stats_list: Vec<KillStat>,
    pub player_stats: PlayerStats,
    /// Every field of the source document that is not known above, in
    /// document order.
    pub other: Vec<(String, Json)>,
}

/// Mathematical image of `VailWorldSim`.
pub struct VailWorldSimV {
    pub actors: Seq<ActorV>,
    pub kill_stats_list: Seq<KillStatV>,
    pub player_stats: PlayerStatsV,
    pub other: Seq<(Seq<char>, JsonV)>,
}

impl DeepView for VailWorldSim {
    type V = VailWorldSimV;

    open spec fn deep_view(&self) -> VailWorldSimV {
        VailWorldSimV {
            actors: actors_v(self.actors@),
            kill_stats_list: kills_v(self.kill_stats_list@),
            player_stats: self.player_stats.deep_view(),
            other: entries_v(self.other@),
        }
    }
}

/// The known field names of `VailWorldSim`.
pub open spec fn vail_known() -> Seq<Seq<char>> {
    seq!["Actors"@, "KillStatsList"@, "PlayerStats"@]
}

/// The known names of `VailWorldSim` are pairwise distinct.
pub proof fn vail_known_distinct()
    ensures
        forall|i: int, j: int|
            0 <= i < j < vail_known().len() ==> vail_known()[i] != vail_known()[j],
{
    reveal_strlit("Actors");
    reveal_strlit("KillStatsList");
    reveal_strlit("PlayerStats");
    assert("Actors"@.len() == 6);
    assert("KillStatsList"@.len() == 13);
    assert("PlayerStats"@.len() == 11);
    assert forall|i: int, j: int| 0 <= i < j < vail_known().len() implies vail_known()[i]
        != vail_known()[j] by {
        assert(vail_known().len() == 3);
    }
}

fn vail_names() -> (r: Vec<String>)
    ensures
        names_v(r@) == vail_known(),
        forall|i: int, j: int|
            0 <= i < j < r@.len() ==> (#[trigger] r@[i])@ != (#[trigger] r@[j])@,
{
    let mut v: Vec<String> = Vec::new();
    v.push("Actors".to_owned());
    v.push("KillStatsList".to_owned());
    v.push("PlayerStats".to_owned());
    proof {
        assert(names_v(v@) =~= vail_known());
        vail_known_distinct();
        assert forall|i: int, j: int| 0 <= i < j < v@.len() implies (#[trigger] v@[i])@ != (
        #[trigger] v@[j])@ by {
            assert(names_v(v@)[i] == v@[i]@);
            assert(names_v(v@)[j] == v@[j]@);
        }
    }
    v
}

/// Decoding a JSON value into a `VailWorldSim`: it must be an object.
pub open spec fn decode_vail_v(v: JsonV) -> Option<VailWorldSimV> {
    match v {
        JsonV::Obj(o) => {
            let ac = spec_field_actors(obj_get(o, "Actors"@));
            let kl = spec_field_kills(obj_get(o, "KillStatsList"@));
            let ps = spec_field_ps(obj_get(o, "PlayerStats"@));
            if ac is Some && kl is Some && ps is Some {
                Some(
                    VailWorldSimV {
                        actors: ac->0,
                        kill_stats_list: kl->0,
                        player_stats: ps->0,
                        other: obj_residual(o, vail_known()),
                    },
                )
            } else {
                None
            }
        },
        _ => None,
    }
}

/// The known fields a `VailWorldSim` encodes to, in order.
pub open spec fn vail_fields_v(w: VailWorldSimV) -> Seq<(Seq<char>, JsonV)> {
    seq![
        ("Actors"@, JsonV::Arr(actors_enc_v(w.actors))),
        ("KillStatsList"@, JsonV::Arr(kills_enc_v(w.kill_stats_list))),
        ("PlayerStats"@, encode_ps_v(w.player_stats)),
    ]
}

/// Encoding a `VailWorldSim`: the known fields first, then the residual.
pub open spec fn encode_vail_v(w: VailWorldSimV) -> JsonV {
    JsonV::Obj(vail_fields_v(w) + w.other)
}

/// Well-formed within depth budget `d`: the lists sit one level down, so
/// their records must fit two levels down.
pub open spec fn vail_wf(w: VailWorldSimV, d: int) -> bool {
    &&& d >= 2
    &&& forall|i: int| 0 <= i < w.actors.len() ==> actor_wf(#[trigger] w.actors[i], d - 2)
    &&& forall|i: int|
        0 <= i < w.kill_stats_list.len() ==> kill_wf(#[trigger] w.kill_stats_list[i], d - 2)
    &&& ps_wf(w.player_stats, d - 1)
    &&& wfb_entries(w.other, d - 1)
    &&& distinct_keys(w.other)
    &&& forall|i: int| 0 <= i < w.other.len() ==> !vail_known().contains((#[trigger] w.other[i]).0)
}

/// The record a wholly absent nested document decodes to: no actors, no
/// kill statistics, zero player statistics.
pub open spec fn default_vail_v() -> VailWorldSimV {
    VailWorldSimV {
        actors: Seq::empty(),
        kill_stats_list: Seq::empty(),
        player_stats: default_ps_v(),
        other: Seq::empty(),
    }
}

impl Default for VailWorldSim {
    /// The zero record, used when the parent document has no
    /// `VailWorldSim` field at all.
    fn default() -> (r: Self)
        ensures
            r.deep_view() == default_vail_v(),
    {
        let r = VailWorldSim {
            actors: Vec::new(),
            kill_stats_list: Vec::new(),
            player_stats: PlayerStats::default(),
            other: Vec::new(),
        };
        proof {
            assert(actors_v(r.actors@) =~= Seq::empty());
            assert(kills_v(r.kill_stats_list@) =~= Seq::empty());
            assert(entries_v(r.other@) =~= Seq::empty());
        }
        r
    }
}

/// Decodes a world-simulation record from a JSON value.
pub fn decode_vail_world_sim(j: Json) -> (r: Result<VailWorldSim, SaveError>)
    ensures
        r is Ok <==> decode_vail_v(j.deep_view()) is Some,
        r matches Ok(w) ==> decode_vail_v(j.deep_view()) == Some(w.deep_view()),
{
    let o = match j {
        Json::Obj(o) => o,
        _ => {
            return Err(schema_error("world sim: not an object"));
        },
    };
    let ghost ov = entries_v(o@);
    let names = vail_names();
    let res = split_fields(o, &names);
    let mut slots = res.0;
    let rest = res.1;
    let ghost sl = slots@;
    proof {
        assert(names_v(names@).len() == names@.len());
        assert(vail_known().len() == 3);
        assert(sl.len() == 3);
    }
    let s0 = take_slot(&mut slots);
    proof {
        assert(slots@ =~= sl.skip(1));
    }
    let s1 = take_slot(&mut slots);
    proof {
        assert(slots@ =~= sl.skip(2));
        assert(s1 == sl[1]);
    }
    let s2 = take_slot(&mut slots);
    proof {
        assert(s2 == sl[2]);
        assert(names_v(names@)[0] == names@[0]@);
        assert(names_v(names@)[1] == names@[1]@);
        assert(names_v(names@)[2] == names@[2]@);
    }
    let actors = match s0 {
        None => Vec::new(),
        Some(Json::Arr(a)) => {
            match decode_actor_list(a) {
                Ok(v) => v,
                Err(e) => {
                    return Err(e);
                },
            }
        },
        Some(_) => {
            return Err(schema_error("Actors: not an array"));
        },
    };
    proof {
        if s0 is None {
            assert(actors_v(actors@) =~= Seq::<ActorV>::empty());
        }
    }
    let kill_stats_list = match s1 {
        None => Vec::new(),
        Some(Json::Arr(a)) => {
            match decode_kill_list(a) {
                Ok(v) => v,
                Err(e) => {
                    return Err(e);
                },
            }
        },
        Some(_) => {
            return Err(schema_error("KillStatsList: not an array"));
        },
    };
    proof {
        if s1 is None {
            assert(kills_v(kill_stats_list@) =~= Seq::<KillStatV>::empty());
        }
    }
    let player_stats = match s2 {
        None => PlayerStats::default(),
        Some(pj) => {
            match decode_player_stats(pj) {
                Ok(p) => p,
                Err(e) => {
                    return Err(e);
                },
            }
        },
    };
    Ok(VailWorldSim { actors, kill_stats_list, player_stats, other: rest })
}

fn encode_actor_list(v: &Vec<Actor>) -> (r: Vec<Json>)
    ensures
        arr_v(r@) == actors_enc_v(actors_v(v@)),
{
    let mut out: Vec<Json> = Vec::new();
    let mut i: usize = 0;
    while i < v.len()
        invariant
            i <= v@.len(),
            out@.len() == i,
            forall|k: int|
                0 <= k < i ==> arr_v(out@)[k] == encode_actor_v((#[trigger] v@[k]).deep_view()),
        decreases v@.len() - i,
    {
        out.push(encode_actor(&v[i]));
        i = i + 1;
    }
    proof {
        assert(arr_v(out@) =~= actors_enc_v(actors_v(v@)));
    }
    out
}

fn encode_kill_list(v: &Vec<KillStat>) -> (r: Vec<Json>)
    ensures
        arr_v(r@) == kills_enc_v(kills_v(v@)),
{
    let mut out: Vec<Json> = Vec::new();
    let mut i: usize = 0;
    while i < v.len()
        invariant
            i <= v@.len(),
            out@.len() == i,
            forall|k: int|
                0 <= k < i ==> arr_v(out@)[k] == encode_kill_v((#[trigger] v@[k]).deep_view()),
        decreases v@.len() - i,
    {
        out.push(encode_kill_stat(&v[i]));
        i = i + 1;
    }
    proof {
        assert(arr_v(out@) =~= kills_enc_v(kills_v(v@)));
    }
    out
}

/// Encodes a world-simulation record as a JSON object.
pub fn encode_vail_world_sim(w: &VailWorldSim) -> (r: Json)
    ensures
        r.deep_view() == encode_vail_v(w.deep_view()),
{
    let mut out: Vec<(String, Json)> = Vec::new();
    out.push(("Actors".to_owned(), Json::Arr(encode_actor_list(&w.actors))));
    out.push(("KillStatsList".to_owned(), Json::Arr(encode_kill_list(&w.kill_stats_list))));
    out.push(("PlayerStats".to_owned(), encode_player_stats(&w.player_stats)));
    let mut rest = entries_clone(&w.other);
    out.append(&mut rest);
    proof {
        assert(entries_v(out@) =~= vail_fields_v(w.deep_view()) + entries_v(w.other@));
    }
    Json::Obj(out)
}

/// A decoded record is well-formed at the budget its document satisfied.
pub proof fn lemma_decode_vail_wf(v: JsonV, d: int)
    requires
        wfb(v, d),
        d >= 2,
        decode_vail_v(v) is Some,
    ensures
        vail_wf(decode_vail_v(v)->0, d),
{
    let o = v->Obj_0;
    let w = decode_vail_v(v)->0;
    lemma_residual_from(o, vail_known());
    assert forall|i: int| 0 <= i < w.other.len() implies wfb((#[trigger] w.other[i]).1, d - 1) by {
        assert(o.contains(w.other[i]));
        let t = choose|t: int| 0 <= t < o.len() && o[t] == w.other[i];
        lemma_wfb_entries_index(o, d - 1, t);
    }
    lemma_wfb_entries_all(w.other, d - 1);
    let fa = obj_get(o, "Actors"@);
    if fa is Some {
        let t = lemma_get_index(o, "Actors"@);
        lemma_wfb_entries_index(o, d - 1, t);
        let a = fa->0->Arr_0;
        assert forall|i: int| 0 <= i < w.actors.len() implies actor_wf(
            #[trigger] w.actors[i],
            d - 2,
        ) by {
            crate::fields::lemma_wfb_seq_index(a, d - 2, i);
            lemma_decode_actor_wf(a[i], d - 2);
        }
    }
    let fk = obj_get(o, "KillStatsList"@);
    if fk is Some {
        let t = lemma_get_index(o, "KillStatsList"@);
        lemma_wfb_entries_index(o, d - 1, t);
        let a = fk->0->Arr_0;
        assert forall|i: int| 0 <= i < w.kill_stats_list.len() implies kill_wf(
            #[trigger] w.kill_stats_list[i],
            d - 2,
        ) by {
            crate::fields::lemma_wfb_seq_index(a, d - 2, i);
            lemma_decode_kill_wf(a[i], d - 2);
        }
    }
    let fp = obj_get(o, "PlayerStats"@);
    if fp is None {
        lemma_default_health();
    } else {
        let t = lemma_get_index(o, "PlayerStats"@);
        lemma_wfb_entries_index(o, d - 1, t);
        lemma_decode_ps_wf(fp->0, d - 1);
    }
}

/// An encoded well-formed record is a well-formed object at the same budget.
pub proof fn lemma_encode_vail_wf(w: VailWorldSimV, d: int)
    requires
        vail_wf(w, d),
    ensures
        wfb(encode_vail_v(w), d),
{
    let known = vail_fields_v(w);
    let o = known + w.other;
    vail_known_distinct();
    assert forall|i: int, j: int| 0 <= i < j < o.len() implies o[i].0 != o[j].0 by {
        if j < known.len() {
            assert(o[i].0 == vail_known()[i]);
            assert(o[j].0 == vail_known()[j]);
        } else if i < known.len() {
            assert(o[i].0 == vail_known()[i]);
            assert(vail_known().contains(vail_known()[i]));
            assert(o[j] == w.other[j - known.len()]);
        } else {
            assert(o[i] == w.other[i - known.len()]);
            assert(o[j] == w.other[j - known.len()]);
        }
    }
    assert forall|i: int| 0 <= i < o.len() implies wfb((#[trigger] o[i]).1, d - 1) by {
        if i < known.len() {
            assert forall|t: int| 0 <= t < actors_enc_v(w.actors).len() implies wfb(
                #[trigger] actors_enc_v(w.actors)[t],
                d - 2,
            ) by {
                lemma_encode_actor_wf(w.actors[t], d - 2);
            }
            crate::fields::lemma_wfb_seq_all(actors_enc_v(w.actors), d - 2);
            assert forall|t: int| 0 <= t < kills_enc_v(w.kill_stats_list).len() implies wfb(
                #[trigger] kills_enc_v(w.kill_stats_list)[t],
                d - 2,
            ) by {
                lemma_encode_kill_wf(w.kill_stats_list[t], d - 2);
            }
            crate::fields::lemma_wfb_seq_all(kills_enc_v(w.kill_stats_list), d - 2);
            lemma_encode_ps_wf(w.player_stats, d - 1);
        } else {
            lemma_wfb_entries_index(w.other, d - 1, i - known.len());
        }
    }
    lemma_wfb_entries_all(o, d - 1);
}

/// Round trip for the actor list.
pub proof fn lemma_actors_round_trip(s: Seq<ActorV>)
    requires
        forall|t: int|
            0 <= t < s.len() ==> (forall|i: int|
                0 <= i < (#[trigger] s[t]).other.len() ==> !actor_known().contains(
                    (#[trigger] s[t].other[i]).0,
                )),
        forall|t: int|
            0 <= t < s.len() ==> ((#[trigger] s[t]).stats matches Some(st) ==> forall|i: int|
                0 <= i < st.other.len() ==> !stats_known().contains((#[trigger] st.other[i]).0)),
    ensures
        decode_actors_v(actors_enc_v(s)) == Some(s),
{
    let enc = actors_enc_v(s);
    assert forall|i: int| 0 <= i < enc.len() implies decode_actor_v(#[trigger] enc[i]) == Some(
        s[i],
    ) by {
        lemma_actor_round_trip(s[i]);
    }
    assert(Seq::new(enc.len(), |i: int| decode_actor_v(enc[i])->0) =~= s);
}

/// Round trip for the kill-statistics list.
pub proof fn lemma_kills_round_trip(s: Seq<KillStatV>)
    requires
        forall|t: int|
            0 <= t < s.len() ==> (forall|i: int|
                0 <= i < (#[trigger] s[t]).other.len() ==> !kill_known().contains(
                    (#[trigger] s[t].other[i]).0,
                )),
    ensures
        decode_kills_v(kills_enc_v(s)) == Some(s),
{
    let enc = kills_enc_v(s);
    assert forall|i: int| 0 <= i < enc.len() implies decode_kill_v(#[trigger] enc[i]) == Some(
        s[i],
    ) by {
        lemma_kill_round_trip(s[i]);
    }
    assert(Seq::new(enc.len(), |i: int| decode_kill_v(enc[i])->0) =~= s);
}

/// Round trip: decoding an encoded record gives the record back.
#[verifier::rlimit(50)]
pub proof fn lemma_vail_round_trip(w: VailWorldSimV)
    requires
        forall|i: int|
            0 <= i < w.other.len() ==> !vail_known().contains((#[trigger] w.other[i]).0),
        forall|i: int|
            0 <= i < w.player_stats.other.len() ==> !ps_known().contains(
                (#[trigger] w.player_stats.other[i]).0,
            ),
        forall|t: int|
            0 <= t < w.actors.len() ==> (forall|i: int|
                0 <= i < (#[trigger] w.actors[t]).other.len() ==> !actor_known().contains(
                    (#[trigger] w.actors[t].other[i]).0,
                )),
        forall|t: int|
            0 <= t < w.actors.len() ==> ((#[trigger] w.actors[t]).stats matches Some(st)
                ==> forall|i: int|
                0 <= i < st.other.len() ==> !stats_known().contains((#[trigger] st.other[i]).0)),
        forall|t: int|
            0 <= t < w.kill_stats_list.len() ==> (forall|i: int|
                0 <= i < (#[trigger] w.kill_stats_list[t]).other.len() ==> !kill_known().contains(
                    (#[trigger] w.kill_stats_list[t].other[i]).0,
                )),
    ensures
        decode_vail_v(encode_vail_v(w)) == Some(w),
{
    let known = vail_fields_v(w);
    let o = known + w.other;
    vail_known_distinct();
    assert forall|t: int| 0 <= t < known.len() implies obj_get(o, vail_known()[t]) == Some(
        known[t].1,
    ) by {
        assert(known[t].0 == vail_known()[t]);
        lemma_get_at(known, t);
        lemma_get_concat(known, w.other, vail_known()[t]);
    }
    lemma_actors_round_trip(w.actors);
    lemma_kills_round_trip(w.kill_stats_list);
    lemma_ps_round_trip(w.player_stats);
    assert forall|i: int| 0 <= i < known.len() implies vail_known().contains(
        (#[trigger] known[i]).0,
    ) by {
        assert(known[i].0 == vail_known()[i]);
    }
    lemma_residual_all_known(known, vail_known());
    lemma_residual_none_known(w.other, vail_known());
    assert(obj_residual(o, vail_known()) =~= w.other);
}


/// The parent world-simulation document: the nested record is stored as a
/// JSON string under `VailWorldSim`; every other field rides along
/// unchanged.
#[derive(Debug, PartialEq)]
pub struct SaveData {
    pub vail_world_sim: VailWorldSim,
    /// Every field of the source document that is not known above, in
    /// document order.
    pub other: Vec<(String, Json)>,
}

/// Mathematical image of `SaveData`.
pub struct SaveDataV {
    pub vail_world_sim: VailWorldSimV,
    pub other: Seq<(Seq<char>, JsonV)>,
}

impl DeepView for SaveData {
    type V = SaveDataV;

    open spec fn deep_view(&self) -> SaveDataV {
        SaveDataV { vail_world_sim: self.vail_world_sim.deep_view(), other: entries_v(self.other@) }
    }
}

/// The known field names of `SaveData`.
pub open spec fn sd_known() -> Seq<Seq<char>> {
    seq!["VailWorldSim"@]
}

fn sd_names() -> (r: Vec<String>)
    ensures
        names_v(r@) == sd_known(),
        forall|i: int, j: int|
            0 <= i < j < r@.len() ==> (#[trigger] r@[i])@ != (#[trigger] r@[j])@,
{
    let mut v: Vec<String> = Vec::new();
    v.push("VailWorldSim".to_owned());
    proof {
        assert(names_v(v@) =~= sd_known());
    }
    v
}

/// Decoding a JSON value into a `SaveData`: the `VailWorldSim` field, when
/// present, must be a string holding a parsable nested document; when
/// absent, the nested record defaults to its zero value.
pub open spec fn decode_save_data_v(v: JsonV) -> Option<SaveDataV> {
    match v {
        JsonV::Obj(o) => {
            let f = obj_get(o, "VailWorldSim"@);
            let inner = if f is None {
                Some(default_vail_v())
            } else if f->0 is Str {
                match json_parse(f->0->Str_0) {
                    Some(iv) => decode_vail_v(iv),
                    None => None,
                }
            } else {
                None
            };
            match inner {
                Some(w) => Some(
                    SaveDataV { vail_world_sim: w, other: obj_residual(o, sd_known()) },
                ),
                None => None,
            }
        },
        _ => None,
    }
}

/// Encoding a `SaveData`: the nested record is serialized to text and
/// stored as a string, then the residual follows.
pub open spec fn encode_save_data_v(s: SaveDataV) -> JsonV {
    JsonV::Obj(
        seq![("VailWorldSim"@, JsonV::Str(json_text_of(encode_vail_v(s.vail_world_sim))))]
            + s.other,
    )
}

/// The document-level part of well-formedness.
pub open spec fn sd_outer_wf(s: SaveDataV, d: int) -> bool {
    &&& d >= 1
    &&& wfb_entries(s.other, d - 1)
    &&& distinct_keys(s.other)
    &&& forall|i: int| 0 <= i < s.other.len() ==> !sd_known().contains((#[trigger] s.other[i]).0)
}

/// Well-formed within depth budget `d`.  The nested record carries the
/// full budget of its own document.
pub open spec fn sd_wf(s: SaveDataV, d: int) -> bool {
    &&& sd_outer_wf(s, d)
    &&& vail_wf(s.vail_world_sim, depth_budget())
}

/// Decodes a world-simulation document from a JSON value.
pub fn decode_save_data(j: Json) -> (r: Result<SaveData, SaveError>)
    ensures
        r is Ok <==> decode_save_data_v(j.deep_view()) is Some,
        r matches Ok(s) ==> decode_save_data_v(j.deep_view()) == Some(s.deep_view()),
        r matches Ok(s) ==> vail_wf(s.vail_world_sim.deep_view(), depth_budget()),
{
    let o = match j {
        Json::Obj(o) => o,
        _ => {
            return Err(schema_error("save data document: not an object"));
        },
    };
    let ghost ov = entries_v(o@);
    let names = sd_names();
    let res = split_fields(o, &names);
    let mut slots = res.0;
    let rest = res.1;
    proof {
        assert(names_v(names@).len() == names@.len());
        assert(sd_known().len() == 1);
    }
    let s0 = take_slot(&mut slots);
    proof {
        assert(names_v(names@)[0] == names@[0]@);
        assert(names@[0]@ == "VailWorldSim"@);
        assert(s0.deep_view() == obj_get(ov, "VailWorldSim"@));
    }
    let inner = match s0 {
        None => {
            proof {
                lemma_default_health();
            }
            VailWorldSim::default()
        },
        Some(Json::Str(t)) => {
            match parse_json(t.as_str()) {
                Some(ij) => {
                    match decode_vail_world_sim(ij) {
                        Ok(w) => {
                            proof {
                                lemma_decode_vail_wf(ij.deep_view(), depth_budget());
                            }
                            w
                        },
                        Err(e) => {
                            return Err(e);
                        },
                    }
                },
                None => {
                    return Err(schema_error("VailWorldSim: nested document does not parse"));
                },
            }
        },
        Some(_) => {
            return Err(schema_error("VailWorldSim: not a string"));
        },
    };
    Ok(SaveData { vail_world_sim: inner, other: rest })
}

/// Encodes a world-simulation document as a JSON object.  Besides the
/// encoding itself, this hands the caller the serializer's guarantee that
/// parsing the nested text restores the nested record's encoding.
pub fn encode_save_data(s: &SaveData) -> (r: Json)
    requires
        vail_wf(s.vail_world_sim.deep_view(), depth_budget()),
    ensures
        r.deep_view() == encode_save_data_v(s.deep_view()),
        json_parse(json_text_of(encode_vail_v(s.vail_world_sim.deep_view()))) == Some(
            encode_vail_v(s.vail_world_sim.deep_view()),
        ),
{
    let inner_json = encode_vail_world_sim(&s.vail_world_sim);
    proof {
        lemma_encode_vail_wf(s.vail_world_sim.deep_view(), depth_budget());
    }
    let text = json_to_text(&inner_json);
    let mut out: Vec<(String, Json)> = Vec::new();
    out.push(("VailWorldSim".to_owned(), Json::Str(text)));
    let mut rest = entries_clone(&s.other);
    out.append(&mut rest);
    proof {
        assert(entries_v(out@) =~= seq![
            (
                "VailWorldSim"@,
                JsonV::Str(json_text_of(encode_vail_v(s.vail_world_sim.deep_view()))),
            ),
        ] + entries_v(s.other@));
    }
    Json::Obj(out)
}

/// A decoded document is well-formed at the budget its document satisfied.
/// The nested record's own well-formedness comes with the decoder itself,
/// which saw the nested document parse.
pub proof fn lemma_decode_save_data_outer_wf(v: JsonV, d: int)
    requires
        wfb(v, d),
        decode_save_data_v(v) is Some,
    ensures
        sd_outer_wf(decode_save_data_v(v)->0, d),
{
    let o = v->Obj_0;
    let s = decode_save_data_v(v)->0;
    lemma_residual_from(o, sd_known());
    assert forall|i: int| 0 <= i < s.other.len() implies wfb((#[trigger] s.other[i]).1, d - 1) by {
        assert(o.contains(s.other[i]));
        let w = choose|w: int| 0 <= w < o.len() && o[w] == s.other[i];
        lemma_wfb_entries_index(o, d - 1, w);
    }
    lemma_wfb_entries_all(s.other, d - 1);
}

/// Round trip: decoding an encoded document gives the record back.  The
/// `json_parse` premise is exactly what the serializer promises of the
/// nested text it emits.
pub proof fn lemma_save_data_round_trip(s: SaveDataV)
    requires
        forall|i: int| 0 <= i < s.other.len() ==> !sd_known().contains((#[trigger] s.other[i]).0),
        forall|i: int|
            0 <= i < s.vail_world_sim.other.len() ==> !vail_known().contains(
                (#[trigger] s.vail_world_sim.other[i]).0,
            ),
        forall|i: int|
            0 <= i < s.vail_world_sim.player_stats.other.len() ==> !ps_known().contains(
                (#[trigger] s.vail_world_sim.player_stats.other[i]).0,
            ),
        forall|t: int|
            0 <= t < s.vail_world_sim.actors.len() ==> (forall|i: int|
                0 <= i < (#[trigger] s.vail_world_sim.actors[t]).other.len()
                    ==> !actor_known().contains(
                    (#[trigger] s.vail_world_sim.actors[t].other[i]).0,
                )),
        forall|t: int|
            0 <= t < s.vail_world_sim.actors.len() ==> ((
            #[trigger] s.vail_world_sim.actors[t]).stats matches Some(st) ==> forall|i: int|
                0 <= i < st.other.len() ==> !stats_known().contains((#[trigger] st.other[i]).0)),
        forall|t: int|
            0 <= t < s.vail_world_sim.kill_stats_list.len() ==> (forall|i: int|
                0 <= i < (#[trigger] s.vail_world_sim.kill_stats_list[t]).other.len()
                    ==> !kill_known().contains(
                    (#[trigger] s.vail_world_sim.kill_stats_list[t].other[i]).0,
                )),
        json_parse(json_text_of(encode_vail_v(s.vail_world_sim))) == Some(
            encode_vail_v(s.vail_world_sim),
        ),
    ensures
        decode_save_data_v(encode_save_data_v(s)) == Some(s),
{
    let known = seq![
        ("VailWorldSim"@, JsonV::Str(json_text_of(encode_vail_v(s.vail_world_sim)))),
    ];
    let o = known + s.other;
    lemma_get_at(known, 0);
    lemma_get_concat(known, s.other, "VailWorldSim"@);
    lemma_vail_round_trip(s.vail_world_sim);
    assert forall|i: int| 0 <= i < known.len() implies sd_known().contains(
        (#[trigger] known[i]).0,
    ) by {
        assert(known[i].0 == sd_known()[0]);
    }
    lemma_residual_all_known(known, sd_known());
    lemma_residual_none_known(s.other, sd_known());
    assert(obj_residual(o, sd_known()) =~= s.other);
}


/// Nested-document isolation for the world-simulation parent: the encoded
/// document is exactly the nested entry followed by the parent's residual.
pub proof fn lemma_sd_nested_isolation(s1: SaveDataV, s2: SaveDataV)
    requires
        s1.other == s2.other,
    ensures
        encode_save_data_v(s1)->Obj_0.drop_first() == s1.other,
        encode_save_data_v(s2)->Obj_0.drop_first() == s2.other,
{
    assert(encode_save_data_v(s1)->Obj_0.drop_first() =~= s1.other);
    assert(encode_save_data_v(s2)->Obj_0.drop_first() =~= s2.other);
}

} // verus!
