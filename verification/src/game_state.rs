//! The game-state document: a `GameStateInner` record embedded as a JSON
//! string under the parent's `GameState` field, with elastic residuals at
//! both levels.

use vstd::prelude::*;

use crate::error::{schema_error, SaveError};
use crate::fields::{
    field_bool, field_i32, field_string, lemma_get_at, lemma_get_concat, lemma_residual_all_known,
    lemma_residual_from, lemma_residual_none_known, lemma_wfb_entries_all,
    lemma_wfb_entries_index, names_v, spec_field_bool, spec_field_i32, spec_field_string,
    split_fields, take_slot,
};
use crate::json::{
    depth_budget, distinct_keys, entries_clone, entries_v, obj_get, obj_residual, wfb,
    wfb_entries, Json, JsonV,
};
use crate::numtext::{i32_to_dec, int_text, lemma_i32_text_round, lemma_int_text_token};
use crate::text::{json_parse, json_text_of, json_to_text, parse_json};

verus! {

broadcast use vstd::std_specs::vec::group_vec_axioms, vstd::seq_lib::group_seq_lib_default, vstd::string::group_string_axioms;

/// The nested game-state record: play time, the companion death flags, and
/// the campaign flags, plus everything else the document carried.
#[derive(Debug, PartialEq)]
pub struct GameStateInner {
    pub game_type: String,
    pub game_days: i32,
    pub game_hours: i32,
    pub game_minutes: i32,
    pub game_seconds: i32,
    pub game_milliseconds: i32,
    pub is_robby_dead: bool,
    pub is_virginia_dead: bool,
    pub core_game_completed: bool,
    pub escaped_island: bool,
    pub stayed_on_island: bool,
    /// Every field of the source document that is not known above, in
    /// document order.
    pub other: Vec<(String, Json)>,
}

/// Mathematical image of `GameStateInner`.
pub struct GameStateInnerV {
    pub game_type: Seq<char>,
    pub game_days: i32,
    pub game_hours: i32,
    pub game_minutes: i32,
    pub game_seconds: i32,
    pub game_milliseconds: i32,
    pub is_robby_dead: bool,
    pub is_virginia_dead: bool,
    pub core_game_completed: bool,
    pub escaped_island: bool,
    pub stayed_on_island: bool,
    pub other: Seq<(Seq<char>, JsonV)>,
}

impl DeepView for GameStateInner {
    type V = GameStateInnerV;

    open spec fn deep_view(&self) -> GameStateInnerV {
        GameStateInnerV {
            game_type: self.game_type@,
            game_days: self.game_days,
            game_hours: self.game_hours,
            game_minutes: self.game_minutes,
            game_seconds: self.game_seconds,
            game_milliseconds: self.game_milliseconds,
            is_robby_dead: self.is_robby_dead,
            is_virginia_dead: self.is_virginia_dead,
            core_game_completed: self.core_game_completed,
            escaped_island: self.escaped_island,
            stayed_on_island: self.stayed_on_island,
            other: entries_v(self.other@),
        }
    }
}

/// The known field names of `GameStateInner`, in their emitted order.
pub open spec fn inner_known() -> Seq<Seq<char>> {
    seq![
        "GameType"@,
        "GameDays"@,
        "GameHours"@,
        "GameMinutes"@,
        "GameSeconds"@,
        "GameMilliseconds"@,
        "IsRobbyDead"@,
        "IsVirginiaDead"@,
        "CoreGameCompleted"@,
        "EscapedIsland"@,
        "StayedOnIsland"@,
    ]
}

/// The known names of `GameStateInner` are pairwise distinct.
pub proof fn inner_known_distinct()
    ensures
        forall|i: int, j: int|
            0 <= i < j < inner_known().len() ==> inner_known()[i] != inner_known()[j],
{
    reveal_strlit("GameType");
    reveal_strlit("GameDays");
    reveal_strlit("GameHours");
    reveal_strlit("GameMinutes");
    reveal_strlit("GameSeconds");
    reveal_strlit("GameMilliseconds");
    reveal_strlit("IsRobbyDead");
    reveal_strlit("IsVirginiaDead");
    reveal_strlit("CoreGameCompleted");
    reveal_strlit("EscapedIsland");
    reveal_strlit("StayedOnIsland");
    assert("GameType"@.len() == 8);
    assert("GameDays"@.len() == 8);
    assert("GameHours"@.len() == 9);
    assert("GameMinutes"@.len() == 11);
    assert("GameSeconds"@.len() == 11);
    assert("GameMilliseconds"@.len() == 16);
    assert("IsRobbyDead"@.len() == 11);
    assert("IsVirginiaDead"@.len() == 14);
    assert("CoreGameCompleted"@.len() == 17);
    assert("EscapedIsland"@.len() == 13);
    assert("StayedOnIsland"@.len() == 14);
    assert("GameType"@[4] == 'T');
    assert("GameDays"@[4] == 'D');
    assert("GameMinutes"@[4] == 'M');
    assert("GameSeconds"@[4] == 'S');
    assert("IsRobbyDead"@[0] == 'I');
    assert("GameMinutes"@[0] == 'G');
    assert("GameSeconds"@[0] == 'G');
    assert("IsVirginiaDead"@[0] == 'I');
    assert("StayedOnIsland"@[0] == 'S');
    assert forall|i: int, j: int| 0 <= i < j < inner_known().len() implies inner_known()[i]
        != inner_known()[j] by {
        assert(inner_known().len() == 11);
    }
}

fn inner_names() -> (r: Vec<String>)
    ensures
        names_v(r@) == inner_known(),
        forall|i: int, j: int|
            0 <= i < j < r@.len() ==> (#[trigger] r@[i])@ != (#[trigger] r@[j])@,
{
    let mut v: Vec<String> = Vec::new();
    v.push("GameType".to_owned());
    v.push("GameDays".to_owned());
    v.push("GameHours".to_owned());
    v.push("GameMinutes".to_owned());
    v.push("GameSeconds".to_owned());
    v.push("GameMilliseconds".to_owned());
    v.push("IsRobbyDead".to_owned());
    v.push("IsVirginiaDead".to_owned());
    v.push("CoreGameCompleted".to_owned());
    v.push("EscapedIsland".to_owned());
    v.push("StayedOnIsland".to_owned());
    proof {
        assert(names_v(v@) =~= inner_known());
        inner_known_distinct();
        assert forall|i: int, j: int| 0 <= i < j < v@.len() implies (#[trigger] v@[i])@ != (
        #[trigger] v@[j])@ by {
            assert(names_v(v@)[i] == v@[i]@);
            assert(names_v(v@)[j] == v@[j]@);
        }
    }
    v
}

/// Decoding the fields of an object into a `GameStateInner`.
pub open spec fn decode_inner_fields(o: Seq<(Seq<char>, JsonV)>) -> Option<GameStateInnerV> {
    let gt = spec_field_string(obj_get(o, "GameType"@));
    let gd = spec_field_i32(obj_get(o, "GameDays"@));
    let gh = spec_field_i32(obj_get(o, "GameHours"@));
    let gm = spec_field_i32(obj_get(o, "GameMinutes"@));
    let gs = spec_field_i32(obj_get(o, "GameSeconds"@));
    let gms = spec_field_i32(obj_get(o, "GameMilliseconds"@));
    let rd = spec_field_bool(obj_get(o, "IsRobbyDead"@));
    let vd = spec_field_bool(obj_get(o, "IsVirginiaDead"@));
    let cc = spec_field_bool(obj_get(o, "CoreGameCompleted"@));
    let ei = spec_field_bool(obj_get(o, "EscapedIsland"@));
    let si = spec_field_bool(obj_get(o, "StayedOnIsland"@));
    if gt is Some && gd is Some && gh is Some && gm is Some && gs is Some && gms is Some
        && rd is Some && vd is Some && cc is Some && ei is Some && si is Some {
        Some(
            GameStateInnerV {
                game_type: gt->0,
                game_days: gd->0,
                game_hours: gh->0,
                game_minutes: gm->0,
                game_seconds: gs->0,
                game_milliseconds: gms->0,
                is_robby_dead: rd->0,
                is_virginia_dead: vd->0,
                core_game_completed: cc->0,
                escaped_island: ei->0,
                stayed_on_island: si->0,
                other: obj_residual(o, inner_known()),
            },
        )
    } else {
        None
    }
}

/// Decoding a JSON value into a `GameStateInner`: it must be an object.
pub open spec fn decode_inner_v(v: JsonV) -> Option<GameStateInnerV> {
    match v {
        JsonV::Obj(o) => decode_inner_fields(o),
        _ => None,
    }
}

/// The known fields a `GameStateInner` encodes to, in order.
pub open spec fn inner_fields_v(g: GameStateInnerV) -> Seq<(Seq<char>, JsonV)> {
    seq![
        ("GameType"@, JsonV::Str(g.game_type)),
        ("GameDays"@, JsonV::Num(int_text(g.game_days as int))),
        ("GameHours"@, JsonV::Num(int_text(g.game_hours as int))),
        ("GameMinutes"@, JsonV::Num(int_text(g.game_minutes as int))),
        ("GameSeconds"@, JsonV::Num(int_text(g.game_seconds as int))),
        ("GameMilliseconds"@, JsonV::Num(int_text(g.game_milliseconds as int))),
        ("IsRobbyDead"@, JsonV::Bool(g.is_robby_dead)),
        ("IsVirginiaDead"@, JsonV::Bool(g.is_virginia_dead)),
        ("CoreGameCompleted"@, JsonV::Bool(g.core_game_completed)),
        ("EscapedIsland"@, JsonV::Bool(g.escaped_island)),
        ("StayedOnIsland"@, JsonV::Bool(g.stayed_on_island)),
    ]
}

/// Encoding a `GameStateInner`: the known fields first, then the residual.
pub open spec fn encode_inner_v(g: GameStateInnerV) -> JsonV {
    JsonV::Obj(inner_fields_v(g) + g.other)
}

/// Well-formed within depth budget `d`: the residual is well-formed one
/// level down, its keys are distinct and none of them is a known name.
pub open spec fn inner_wf(g: GameStateInnerV, d: int) -> bool {
    &&& d >= 1
    &&& wfb_entries(g.other, d - 1)
    &&& distinct_keys(g.other)
    &&& forall|i: int|
        0 <= i < g.other.len() ==> !inner_known().contains((#[trigger] g.other[i]).0)
}

/// The record a wholly absent nested document decodes to: all fields at
/// their zero values, no residual.
pub open spec fn default_inner_v() -> GameStateInnerV {
    GameStateInnerV {
        game_type: Seq::empty(),
        game_days: 0,
        game_hours: 0,
        game_minutes: 0,
        game_seconds: 0,
        game_milliseconds: 0,
        is_robby_dead: false,
        is_virginia_dead: false,
        core_game_completed: false,
        escaped_island: false,
        stayed_on_island: false,
        other: Seq::empty(),
    }
}

impl Default for GameStateInner {
    /// The zero record, used when the parent document has no `GameState`
    /// field at all.
    fn default() -> (r: Self)
        ensures
            r.deep_view() == default_inner_v(),
    {
        let r = GameStateInner {
            game_type: String::new(),
            game_days: 0,
            game_hours: 0,
            game_minutes: 0,
            game_seconds: 0,
            game_milliseconds: 0,
            is_robby_dead: false,
            is_virginia_dead: false,
            core_game_completed: false,
            escaped_island: false,
            stayed_on_island: false,
            other: Vec::new(),
        };
        proof {
            assert(entries_v(r.other@) =~= Seq::empty());
        }
        r
    }
}

/// Decodes a game-state record from a JSON value.
pub fn decode_game_state_inner(j: Json) -> (r: Result<GameStateInner, SaveError>)
    ensures
        r is Ok <==> decode_inner_v(j.deep_view()) is Some,
        r matches Ok(g) ==> decode_inner_v(j.deep_view()) == Some(g.deep_view()),
{
    let o = match j {
        Json::Obj(o) => o,
        _ => {
            return Err(schema_error("game state: not an object"));
        },
    };
    let ghost ov = entries_v(o@);
    let names = inner_names();
    let res = split_fields(o, &names);
    let mut slots = res.0;
    let rest = res.1;
    let ghost sl = slots@;
    proof {
        assert(names_v(names@).len() == names@.len());
        assert(inner_known().len() == 11);
        assert(sl.len() == 11);
    }
    let s0 = take_slot(&mut slots);
    proof {
        assert(slots@ =~= sl.skip(1));
    }
    let s1 = take_slot(&mut slots);
    proof {
        assert(slots@ =~= sl.skip(2));
        assert(s1 == sl[1]);
    }
    let s2 = take_slot(&mut slots);
    proof {
        assert(slots@ =~= sl.skip(3));
        assert(s2 == sl[2]);
    }
    let s3 = take_slot(&mut slots);
    proof {
        assert(slots@ =~= sl.skip(4));
        assert(s3 == sl[3]);
    }
    let s4 = take_slot(&mut slots);
    proof {
        assert(slots@ =~= sl.skip(5));
        assert(s4 == sl[4]);
    }
    let s5 = take_slot(&mut slots);
    proof {
        assert(slots@ =~= sl.skip(6));
        assert(s5 == sl[5]);
    }
    let s6 = take_slot(&mut slots);
    proof {
        assert(slots@ =~= sl.skip(7));
        assert(s6 == sl[6]);
    }
    let s7 = take_slot(&mut slots);
    proof {
        assert(slots@ =~= sl.skip(8));
        assert(s7 == sl[7]);
    }
    let s8 = take_slot(&mut slots);
    proof {
        assert(slots@ =~= sl.skip(9));
        assert(s8 == sl[8]);
    }
    let s9 = take_slot(&mut slots);
    proof {
        assert(slots@ =~= sl.skip(10));
        assert(s9 == sl[9]);
    }
    let s10 = take_slot(&mut slots);
    proof {
        assert(s10 == sl[10]);
    }
    let game_type = match field_string(s0) {
        Some(v) => v,
        None => {
            return Err(schema_error("GameType: wrong type"));
        },
    };
    let game_days = match field_i32(s1) {
        Some(v) => v,
        None => {
            return Err(schema_error("GameDays: not an integer"));
        },
    };
    let game_hours = match field_i32(s2) {
        Some(v) => v,
        None => {
            return Err(schema_error("GameHours: not an integer"));
        },
    };
    let game_minutes = match field_i32(s3) {
        Some(v) => v,
        None => {
            return Err(schema_error("GameMinutes: not an integer"));
        },
    };
    let game_seconds = match field_i32(s4) {
        Some(v) => v,
        None => {
            return Err(schema_error("GameSeconds: not an integer"));
        },
    };
    let game_milliseconds = match field_i32(s5) {
        Some(v) => v,
        None => {
            return Err(schema_error("GameMilliseconds: not an integer"));
        },
    };
    let is_robby_dead = match field_bool(s6) {
        Some(v) => v,
        None => {
            return Err(schema_error("IsRobbyDead: not a boolean"));
        },
    };
    let is_virginia_dead = match field_bool(s7) {
        Some(v) => v,
        None => {
            return Err(schema_error("IsVirginiaDead: not a boolean"));
        },
    };
    let core_game_completed = match field_bool(s8) {
        Some(v) => v,
        None => {
            return Err(schema_error("CoreGameCompleted: not a boolean"));
        },
    };
    let escaped_island = match field_bool(s9) {
        Some(v) => v,
        None => {
            return Err(schema_error("EscapedIsland: not a boolean"));
        },
    };
    let stayed_on_island = match field_bool(s10) {
        Some(v) => v,
        None => {
            return Err(schema_error("StayedOnIsland: not a boolean"));
        },
    };
    Ok(
        GameStateInner {
            game_type,
            game_days,
            game_hours,
            game_minutes,
            game_seconds,
            game_milliseconds,
            is_robby_dead,
            is_virginia_dead,
            core_game_completed,
            escaped_island,
            stayed_on_island,
            other: rest,
        },
    )
}

/// Encodes a game-state record as a JSON object.
pub fn encode_game_state_inner(g: &GameStateInner) -> (r: Json)
    ensures
        r.deep_view() == encode_inner_v(g.deep_view()),
{
    let mut out: Vec<(String, Json)> = Vec::new();
    out.push(("GameType".to_owned(), Json::Str(g.game_type.clone())));
    out.push(("GameDays".to_owned(), Json::Num(i32_to_dec(g.game_days))));
    out.push(("GameHours".to_owned(), Json::Num(i32_to_dec(g.game_hours))));
    out.push(("GameMinutes".to_owned(), Json::Num(i32_to_dec(g.game_minutes))));
    out.push(("GameSeconds".to_owned(), Json::Num(i32_to_dec(g.game_seconds))));
    out.push(("GameMilliseconds".to_owned(), Json::Num(i32_to_dec(g.game_milliseconds))));
    out.push(("IsRobbyDead".to_owned(), Json::Bool(g.is_robby_dead)));
    out.push(("IsVirginiaDead".to_owned(), Json::Bool(g.is_virginia_dead)));
    out.push(("CoreGameCompleted".to_owned(), Json::Bool(g.core_game_completed)));
    out.push(("EscapedIsland".to_owned(), Json::Bool(g.escaped_island)));
    out.push(("StayedOnIsland".to_owned(), Json::Bool(g.stayed_on_island)));
    let mut rest = entries_clone(&g.other);
    out.append(&mut rest);
    proof {
        assert(entries_v(out@) =~= inner_fields_v(g.deep_view()) + entries_v(g.other@));
    }
    Json::Obj(out)
}

/// A decoded record is well-formed at the budget its document satisfied.
pub proof fn lemma_decode_inner_wf(v: JsonV, d: int)
    requires
        wfb(v, d),
        decode_inner_v(v) is Some,
    ensures
        inner_wf(decode_inner_v(v)->0, d),
{
    let o = v->Obj_0;
    let g = decode_inner_v(v)->0;
    lemma_residual_from(o, inner_known());
    assert forall|i: int| 0 <= i < g.other.len() implies wfb((#[trigger] g.other[i]).1, d - 1) by {
        assert(o.contains(g.other[i]));
        let w = choose|w: int| 0 <= w < o.len() && o[w] == g.other[i];
        lemma_wfb_entries_index(o, d - 1, w);
    }
    crate::fields::lemma_wfb_entries_all(g.other, d - 1);
}

/// An encoded well-formed record is a well-formed object at the same budget.
pub proof fn lemma_encode_inner_wf(g: GameStateInnerV, d: int)
    requires
        inner_wf(g, d),
    ensures
        wfb(encode_inner_v(g), d),
{
    let known = inner_fields_v(g);
    let o = known + g.other;
    inner_known_distinct();
    assert forall|i: int, j: int| 0 <= i < j < o.len() implies o[i].0 != o[j].0 by {
        if j < known.len() {
            assert(o[i].0 == inner_known()[i]);
            assert(o[j].0 == inner_known()[j]);
        } else if i < known.len() {
            assert(o[i].0 == inner_known()[i]);
            assert(inner_known().contains(inner_known()[i]));
            assert(o[j] == g.other[j - known.len()]);
        } else {
            assert(o[i] == g.other[i - known.len()]);
            assert(o[j] == g.other[j - known.len()]);
        }
    }
    assert forall|i: int| 0 <= i < o.len() implies wfb((#[trigger] o[i]).1, d - 1) by {
        if i < known.len() {
            assert(wfb(o[i].1, d - 1)) by {
                lemma_int_text_token(g.game_days as int);
                lemma_int_text_token(g.game_hours as int);
                lemma_int_text_token(g.game_minutes as int);
                lemma_int_text_token(g.game_seconds as int);
                lemma_int_text_token(g.game_milliseconds as int);
            }
        } else {
            lemma_wfb_entries_index(g.other, d - 1, i - known.len());
        }
    }
    lemma_wfb_entries_all(o, d - 1);
}

/// Round trip: decoding an encoded record gives the record back.
pub proof fn lemma_inner_round_trip(g: GameStateInnerV)
    requires
        forall|i: int|
            0 <= i < g.other.len() ==> !inner_known().contains((#[trigger] g.other[i]).0),
    ensures
        decode_inner_v(encode_inner_v(g)) == Some(g),
{
    let known = inner_fields_v(g);
    let o = known + g.other;
    inner_known_distinct();
    assert forall|k: int| 0 <= k < known.len() implies obj_get(o, inner_known()[k]) == Some(
        known[k].1,
    ) by {
        assert(known[k].0 == inner_known()[k]);
        lemma_get_at(known, k);
        lemma_get_concat(known, g.other, inner_known()[k]);
    }
    lemma_i32_text_round(g.game_days as int);
    lemma_i32_text_round(g.game_hours as int);
    lemma_i32_text_round(g.game_minutes as int);
    lemma_i32_text_round(g.game_seconds as int);
    lemma_i32_text_round(g.game_milliseconds as int);
    assert forall|i: int| 0 <= i < known.len() implies inner_known().contains(
        (#[trigger] known[i]).0,
    ) by {
        assert(known[i].0 == inner_known()[i]);
    }
    lemma_residual_all_known(known, inner_known());
    lemma_residual_none_known(g.other, inner_known());
    assert(obj_residual(o, inner_known()) =~= g.other);
    assert(decode_inner_fields(o) == Some(g));
}


/// The parent game-state document: the nested record is stored as a JSON
/// string under `GameState`; every other field rides along unchanged.
#[derive(Debug, PartialEq)]
pub struct GameState {
    pub game_state: GameStateInner,
    /// Every field of the source document that is not known above, in
    /// document order.
    pub other: Vec<(String, Json)>,
}

/// Mathematical image of `GameState`.
pub struct GameStateV {
    pub game_state: GameStateInnerV,
    pub other: Seq<(Seq<char>, JsonV)>,
}

impl DeepView for GameState {
    type V = GameStateV;

    open spec fn deep_view(&self) -> GameStateV {
        GameStateV { game_state: self.game_state.deep_view(), other: entries_v(self.other@) }
    }
}

/// The known field names of `GameState`.
pub open spec fn gs_known() -> Seq<Seq<char>> {
    seq!["GameState"@]
}

fn gs_names() -> (r: Vec<String>)
    ensures
        names_v(r@) == gs_known(),
        forall|i: int, j: int|
            0 <= i < j < r@.len() ==> (#[trigger] r@[i])@ != (#[trigger] r@[j])@,
{
    let mut v: Vec<String> = Vec::new();
    v.push("GameState".to_owned());
    proof {
        assert(names_v(v@) =~= gs_known());
    }
    v
}

/// Decoding a JSON value into a `GameState`: the `GameState` field, when
/// present, must be a string holding a parsable nested document; when
/// absent, the nested record defaults to its zero value.
pub open spec fn decode_game_state_v(v: JsonV) -> Option<GameStateV> {
    match v {
        JsonV::Obj(o) => {
            let f = obj_get(o, "GameState"@);
            let inner = if f is None {
                Some(default_inner_v())
            } else if f->0 is Str {
                match json_parse(f->0->Str_0) {
                    Some(iv) => decode_inner_v(iv),
                    None => None,
                }
            } else {
                None
            };
            match inner {
                Some(g) => Some(
                    GameStateV { game_state: g, other: obj_residual(o, gs_known()) },
                ),
                None => None,
            }
        },
        _ => None,
    }
}

/// Encoding a `GameState`: the nested record is serialized to text and
/// stored as a string, then the residual follows.
pub open spec fn encode_game_state_v(g: GameStateV) -> JsonV {
    JsonV::Obj(
        seq![("GameState"@, JsonV::Str(json_text_of(encode_inner_v(g.game_state))))] + g.other,
    )
}

/// The document-level part of well-formedness: the residual is well-formed
/// one level down, its keys are distinct and none of them is `GameState`.
pub open spec fn gs_outer_wf(g: GameStateV, d: int) -> bool {
    &&& d >= 1
    &&& wfb_entries(g.other, d - 1)
    &&& distinct_keys(g.other)
    &&& forall|i: int| 0 <= i < g.other.len() ==> !gs_known().contains((#[trigger] g.other[i]).0)
}

/// Well-formed within depth budget `d`.  The nested record carries the full
/// budget of its own document.
pub open spec fn gs_wf(g: GameStateV, d: int) -> bool {
    &&& gs_outer_wf(g, d)
    &&& inner_wf(g.game_state, depth_budget())
}

/// Decodes a game-state document from a JSON value.
pub fn decode_game_state(j: Json) -> (r: Result<GameState, SaveError>)
    ensures
        r is Ok <==> decode_game_state_v(j.deep_view()) is Some,
        r matches Ok(g) ==> decode_game_state_v(j.deep_view()) == Some(g.deep_view()),
        r matches Ok(g) ==> inner_wf(g.game_state.deep_view(), depth_budget()),
{
    let o = match j {
        Json::Obj(o) => o,
        _ => {
            return Err(schema_error("game state document: not an object"));
        },
    };
    let ghost ov = entries_v(o@);
    let names = gs_names();
    let res = split_fields(o, &names);
    let mut slots = res.0;
    let rest = res.1;
    proof {
        assert(names_v(names@).len() == names@.len());
        assert(gs_known().len() == 1);
    }
    let s0 = take_slot(&mut slots);
    proof {
        assert(names_v(names@)[0] == names@[0]@);
        assert(names@[0]@ == "GameState"@);
        assert(s0.deep_view() == obj_get(ov, "GameState"@));
    }
    let inner = match s0 {
        None => GameStateInner::default(),
        Some(Json::Str(t)) => {
            match parse_json(t.as_str()) {
                Some(ij) => {
                    match decode_game_state_inner(ij) {
                        Ok(g) => {
                            proof {
                                lemma_decode_inner_wf(ij.deep_view(), depth_budget());
                            }
                            g
                        },
                        Err(e) => {
                            return Err(e);
                        },
                    }
                },
                None => {
                    return Err(schema_error("GameState: nested document does not parse"));
                },
            }
        },
        Some(_) => {
            return Err(schema_error("GameState: not a string"));
        },
    };
    Ok(GameState { game_state: inner, other: rest })
}

/// Encodes a game-state document as a JSON object.  Besides the encoding
/// itself, this hands the caller the serializer's guarantee that parsing
/// the nested text restores the nested record's encoding.
pub fn encode_game_state(g: &GameState) -> (r: Json)
    requires
        inner_wf(g.game_state.deep_view(), depth_budget()),
    ensures
        r.deep_view() == encode_game_state_v(g.deep_view()),
        json_parse(json_text_of(encode_inner_v(g.game_state.deep_view()))) == Some(
            encode_inner_v(g.game_state.deep_view()),
        ),
{
    let inner_json = encode_game_state_inner(&g.game_state);
    proof {
        lemma_encode_inner_wf(g.game_state.deep_view(), depth_budget());
    }
    let text = json_to_text(&inner_json);
    let mut out: Vec<(String, Json)> = Vec::new();
    out.push(("GameState".to_owned(), Json::Str(text)));
    let mut rest = entries_clone(&g.other);
    out.append(&mut rest);
    proof {
        assert(entries_v(out@) =~= seq![
            ("GameState"@, JsonV::Str(json_text_of(encode_inner_v(g.game_state.deep_view())))),
        ] + entries_v(g.other@));
    }
    Json::Obj(out)
}

/// A decoded document is well-formed at the budget its document satisfied.
/// The nested record's own well-formedness comes with the decoder itself,
/// which saw the nested document parse.
pub proof fn lemma_decode_game_state_outer_wf(v: JsonV, d: int)
    requires
        wfb(v, d),
        decode_game_state_v(v) is Some,
    ensures
        gs_outer_wf(decode_game_state_v(v)->0, d),
{
    let o = v->Obj_0;
    let g = decode_game_state_v(v)->0;
    lemma_residual_from(o, gs_known());
    assert forall|i: int| 0 <= i < g.other.len() implies wfb((#[trigger] g.other[i]).1, d - 1) by {
        assert(o.contains(g.other[i]));
        let w = choose|w: int| 0 <= w < o.len() && o[w] == g.other[i];
        lemma_wfb_entries_index(o, d - 1, w);
    }
    lemma_wfb_entries_all(g.other, d - 1);
}

/// Round trip: decoding an encoded document gives the record back.  The
/// `json_parse` premise is exactly what the serializer promises of the
/// nested text it emits.
pub proof fn lemma_game_state_round_trip(g: GameStateV)
    requires
        forall|i: int| 0 <= i < g.other.len() ==> !gs_known().contains((#[trigger] g.other[i]).0),
        forall|i: int|
            0 <= i < g.game_state.other.len() ==> !inner_known().contains(
                (#[trigger] g.game_state.other[i]).0,
            ),
        json_parse(json_text_of(encode_inner_v(g.game_state))) == Some(
            encode_inner_v(g.game_state),
        ),
    ensures
        decode_game_state_v(encode_game_state_v(g)) == Some(g),
{
    let known = seq![
        ("GameState"@, JsonV::Str(json_text_of(encode_inner_v(g.game_state)))),
    ];
    let o = known + g.other;
    lemma_get_at(known, 0);
    lemma_get_concat(known, g.other, "GameState"@);
    lemma_inner_round_trip(g.game_state);
    assert forall|i: int| 0 <= i < known.len() implies gs_known().contains(
        (#[trigger] known[i]).0,
    ) by {
        assert(known[i].0 == gs_known()[0]);
    }
    lemma_residual_all_known(known, gs_known());
    lemma_residual_none_known(g.other, gs_known());
    assert(obj_residual(o, gs_known()) =~= g.other);
}


/// Nested-document isolation: the encoded parent document is exactly the
/// nested entry followed by the parent's residual, so re-encoding after a
/// change that touches only the nested record leaves every residual field
/// of the parent unchanged, in place and in value.
pub proof fn lemma_nested_isolation(g1: GameStateV, g2: GameStateV)
    requires
        g1.other == g2.other,
    ensures
        encode_game_state_v(g1)->Obj_0.drop_first() == g1.other,
        encode_game_state_v(g2)->Obj_0.drop_first() == g2.other,
{
    assert(encode_game_state_v(g1)->Obj_0.drop_first() =~= g1.other);
    assert(encode_game_state_v(g2)->Obj_0.drop_first() =~= g2.other);
}

} // verus!
