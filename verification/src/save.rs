//! The save aggregate: the versioned envelope around each document, the
//! in-memory join of the two documents, lookup by actor type id, and the
//! text-level read and write operations that the I/O shell drives.

use vstd::prelude::*;

use crate::error::{schema_error, SaveError};
use crate::fields::{lemma_get_at, lemma_wfb_entries_all, lemma_wfb_entries_index};
use crate::game_state::{
    decode_game_state, decode_game_state_v, encode_game_state, encode_game_state_v,
    encode_inner_v, gs_outer_wf, gs_wf, lemma_decode_game_state_outer_wf, GameState, GameStateV,
};
use crate::json::{depth_budget, entries_v, json_clone, obj_get, wfb, Json, JsonV};
use crate::save_data::{
    decode_save_data, decode_save_data_v, encode_save_data, encode_save_data_v, encode_vail_v,
    lemma_decode_save_data_outer_wf, sd_outer_wf, sd_wf, SaveData, SaveDataV,
};
use crate::text::{json_parse, json_text_of, json_to_text, parse_json};

verus! {

broadcast use vstd::std_specs::vec::group_vec_axioms, vstd::seq_lib::group_seq_lib_default, vstd::string::group_string_axioms;

/// The versioned wrapper around each top-level document: a version string,
/// never interpreted here, and the document itself.
#[derive(Debug, PartialEq)]
pub struct GenericData<T> {
    pub version: String,
    pub data: T,
}

/// Mathematical image of `GenericData`.
pub struct GenericDataV<T> {
    pub version: Seq<char>,
    pub data: T,
}

impl<T: DeepView> DeepView for GenericData<T> {
    type V = GenericDataV<T::V>;

    open spec fn deep_view(&self) -> GenericDataV<T::V> {
        GenericDataV { version: self.version@, data: self.data.deep_view() }
    }
}

/// The first field named `name`, if any.
pub(crate) fn obj_find<'a>(o: &'a Vec<(String, Json)>, name: &String) -> (r: Option<&'a Json>)
    ensures
        r matches Some(j) ==> obj_get(entries_v(o@), name@) == Some(j.deep_view()),
        r is None ==> obj_get(entries_v(o@), name@) is None,
{
    let mut i: usize = 0;
    while i < o.len()
        invariant
            i <= o@.len(),
            forall|t: int| 0 <= t < i ==> (#[trigger] entries_v(o@)[t]).0 != name@,
        decreases o@.len() - i,
    {
        if name.eq(&o[i].0) {
            proof {
                lemma_get_at(entries_v(o@), i as int);
            }
            return Some(&o[i].1);
        }
        proof {
            assert(entries_v(o@)[i as int].0 == o@[i as int].0@);
        }
        i = i + 1;
    }
    proof {
        crate::fields::lemma_get_absent(entries_v(o@), name@);
    }
    None
}

/// The envelope's two field names are distinct.
proof fn env_names_distinct()
    ensures
        "Version"@ != "Data"@,
{
    reveal_strlit("Version");
    reveal_strlit("Data");
    assert("Version"@.len() == 7);
    assert("Data"@.len() == 4);
}

/// Decoding a game-state file: a `Version` string and a `Data` document.
/// Fields beyond these two are ignored, as the envelope carries none of
/// its own.
pub open spec fn decode_gs_file_v(v: JsonV) -> Option<GenericDataV<GameStateV>> {
    match v {
        JsonV::Obj(o) => {
            match (obj_get(o, "Version"@), obj_get(o, "Data"@)) {
                (Some(JsonV::Str(ver)), Some(dat)) => match decode_game_state_v(dat) {
                    Some(g) => Some(GenericDataV { version: ver, data: g }),
                    None => None,
                },
                _ => None,
            }
        },
        _ => None,
    }
}

/// Encoding a game-state file.
pub open spec fn encode_gs_file_v(e: GenericDataV<GameStateV>) -> JsonV {
    JsonV::Obj(
        seq![("Version"@, JsonV::Str(e.version)), ("Data"@, encode_game_state_v(e.data))],
    )
}

/// Decoding a world-simulation file.
pub open spec fn decode_sd_file_v(v: JsonV) -> Option<GenericDataV<SaveDataV>> {
    match v {
        JsonV::Obj(o) => {
            match (obj_get(o, "Version"@), obj_get(o, "Data"@)) {
                (Some(JsonV::Str(ver)), Some(dat)) => match decode_save_data_v(dat) {
                    Some(s) => Some(GenericDataV { version: ver, data: s }),
                    None => None,
                },
                _ => None,
            }
        },
        _ => None,
    }
}

/// Encoding a world-simulation file.
pub open spec fn encode_sd_file_v(e: GenericDataV<SaveDataV>) -> JsonV {
    JsonV::Obj(seq![("Version"@, JsonV::Str(e.version)), ("Data"@, encode_save_data_v(e.data))])
}

/// Decodes a game-state file from a JSON value.
pub fn decode_gs_file(j: Json) -> (r: Result<GenericData<GameState>, SaveError>)
    ensures
        r is Ok <==> decode_gs_file_v(j.deep_view()) is Some,
        r matches Ok(e) ==> decode_gs_file_v(j.deep_view()) == Some(e.deep_view()),
        r matches Ok(e) ==> crate::game_state::inner_wf(
            e.data.game_state.deep_view(),
            depth_budget(),
        ),
{
    let o = match j {
        Json::Obj(o) => o,
        _ => {
            return Err(schema_error("file: not an object"));
        },
    };
    let version = match obj_find(&o, &"Version".to_owned()) {
        Some(Json::Str(s)) => s.clone(),
        Some(_) => {
            return Err(schema_error("Version: not a string"));
        },
        None => {
            return Err(schema_error("Version: missing"));
        },
    };
    let dat = match obj_find(&o, &"Data".to_owned()) {
        Some(d) => json_clone(d),
        None => {
            return Err(schema_error("Data: missing"));
        },
    };
    let data = match decode_game_state(dat) {
        Ok(g) => g,
        Err(e) => {
            return Err(e);
        },
    };
    Ok(GenericData { version, data })
}

/// Decodes a world-simulation file from a JSON value.
pub fn decode_sd_file(j: Json) -> (r: Result<GenericData<SaveData>, SaveError>)
    ensures
        r is Ok <==> decode_sd_file_v(j.deep_view()) is Some,
        r matches Ok(e) ==> decode_sd_file_v(j.deep_view()) == Some(e.deep_view()),
        r matches Ok(e) ==> crate::save_data::vail_wf(
            e.data.vail_world_sim.deep_view(),
            depth_budget(),
        ),
{
    let o = match j {
        Json::Obj(o) => o,
        _ => {
            return Err(schema_error("file: not an object"));
        },
    };
    let version = match obj_find(&o, &"Version".to_owned()) {
        Some(Json::Str(s)) => s.clone(),
        Some(_) => {
            return Err(schema_error("Version: not a string"));
        },
        None => {
            return Err(schema_error("Version: missing"));
        },
    };
    let dat = match obj_find(&o, &"Data".to_owned()) {
        Some(d) => json_clone(d),
        None => {
            return Err(schema_error("Data: missing"));
        },
    };
    let data = match decode_save_data(dat) {
        Ok(s) => s,
        Err(e) => {
            return Err(e);
        },
    };
    Ok(GenericData { version, data })
}

/// Well-formed game-state envelope within budget `d`.
pub open spec fn env_gs_wf(e: GenericDataV<GameStateV>, d: int) -> bool {
    &&& d >= 1
    &&& gs_wf(e.data, d - 1)
}

/// Well-formed world-simulation envelope within budget `d`.
pub open spec fn env_sd_wf(e: GenericDataV<SaveDataV>, d: int) -> bool {
    &&& d >= 1
    &&& sd_wf(e.data, d - 1)
}

/// An encoded well-formed game-state document is a well-formed object.
pub proof fn lemma_encode_gs_doc_wf(g: GameStateV, d: int)
    requires
        gs_outer_wf(g, d),
    ensures
        wfb(encode_game_state_v(g), d),
{
    let known = seq![
        ("GameState"@, JsonV::Str(json_text_of(encode_inner_v(g.game_state)))),
    ];
    let o = known + g.other;
    assert forall|i: int, j: int| 0 <= i < j < o.len() implies o[i].0 != o[j].0 by {
        if i == 0 {
            assert(crate::game_state::gs_known().contains(crate::game_state::gs_known()[0]));
            assert(o[j] == g.other[j - 1]);
        } else {
            assert(o[i] == g.other[i - 1]);
            assert(o[j] == g.other[j - 1]);
        }
    }
    assert forall|i: int| 0 <= i < o.len() implies wfb((#[trigger] o[i]).1, d - 1) by {
        if i > 0 {
            lemma_wfb_entries_index(g.other, d - 1, i - 1);
        }
    }
    lemma_wfb_entries_all(o, d - 1);
}

/// An encoded well-formed world-simulation document is a well-formed
/// object.
pub proof fn lemma_encode_sd_doc_wf(s: SaveDataV, d: int)
    requires
        sd_outer_wf(s, d),
    ensures
        wfb(encode_save_data_v(s), d),
{
    let known = seq![
        ("VailWorldSim"@, JsonV::Str(json_text_of(encode_vail_v(s.vail_world_sim)))),
    ];
    let o = known + s.other;
    assert forall|i: int, j: int| 0 <= i < j < o.len() implies o[i].0 != o[j].0 by {
        if i == 0 {
            assert(crate::save_data::sd_known().contains(crate::save_data::sd_known()[0]));
            assert(o[j] == s.other[j - 1]);
        } else {
            assert(o[i] == s.other[i - 1]);
            assert(o[j] == s.other[j - 1]);
        }
    }
    assert forall|i: int| 0 <= i < o.len() implies wfb((#[trigger] o[i]).1, d - 1) by {
        if i > 0 {
            lemma_wfb_entries_index(s.other, d - 1, i - 1);
        }
    }
    lemma_wfb_entries_all(o, d - 1);
}

/// An encoded game-state file is a well-formed document.
pub proof fn lemma_encode_gs_file_wf(e: GenericDataV<GameStateV>, d: int)
    requires
        env_gs_wf(e, d),
    ensures
        wfb(encode_gs_file_v(e), d),
{
    env_names_distinct();
    let o = encode_gs_file_v(e)->Obj_0;
    lemma_encode_gs_doc_wf(e.data, d - 1);
    assert forall|i: int| 0 <= i < o.len() implies wfb((#[trigger] o[i]).1, d - 1) by {}
    lemma_wfb_entries_all(o, d - 1);
}

/// An encoded world-simulation file is a well-formed document.
pub proof fn lemma_encode_sd_file_wf(e: GenericDataV<SaveDataV>, d: int)
    requires
        env_sd_wf(e, d),
    ensures
        wfb(encode_sd_file_v(e), d),
{
    env_names_distinct();
    let o = encode_sd_file_v(e)->Obj_0;
    lemma_encode_sd_doc_wf(e.data, d - 1);
    assert forall|i: int| 0 <= i < o.len() implies wfb((#[trigger] o[i]).1, d - 1) by {}
    lemma_wfb_entries_all(o, d - 1);
}


/// The in-memory save: the two documents, loaded and stored together.
#[derive(Debug, PartialEq)]
pub struct Save {
    pub game_state: GenericData<GameState>,
    pub save_data: GenericData<SaveData>,
}

/// Mathematical image of `Save`.
pub struct SaveV {
    pub game_state: GenericDataV<GameStateV>,
    pub save_data: GenericDataV<SaveDataV>,
}

impl DeepView for Save {
    type V = SaveV;

    open spec fn deep_view(&self) -> SaveV {
        SaveV {
            game_state: self.game_state.deep_view(),
            save_data: self.save_data.deep_view(),
        }
    }
}

/// Both documents are well-formed at the full depth budget.
pub open spec fn save_wf(s: SaveV) -> bool {
    &&& env_gs_wf(s.game_state, depth_budget())
    &&& env_sd_wf(s.save_data, depth_budget())
}

/// What reading a game-state file text yields.
pub open spec fn read_gs_file_v(t: Seq<char>) -> Option<GenericDataV<GameStateV>> {
    match json_parse(t) {
        Some(v) => decode_gs_file_v(v),
        None => None,
    }
}

/// What reading a world-simulation file text yields.
pub open spec fn read_sd_file_v(t: Seq<char>) -> Option<GenericDataV<SaveDataV>> {
    match json_parse(t) {
        Some(v) => decode_sd_file_v(v),
        None => None,
    }
}

/// What reading a whole save from its two file texts yields: both files
/// must parse and decode, or nothing is produced at all.
pub open spec fn save_from_texts_v(gs: Seq<char>, sd: Seq<char>) -> Option<SaveV> {
    match (read_gs_file_v(gs), read_sd_file_v(sd)) {
        (Some(a), Some(b)) => Some(SaveV { game_state: a, save_data: b }),
        _ => None,
    }
}

impl Save {
    /// Builds a save from the two file texts.  Either text failing to
    /// parse or decode fails the whole read; a successful read is
    /// well-formed and can always be written back.
    pub fn from_texts(gs_text: &str, sd_text: &str) -> (r: Result<Save, SaveError>)
        ensures
            r is Ok <==> save_from_texts_v(gs_text@, sd_text@) is Some,
            r matches Ok(s) ==> save_from_texts_v(gs_text@, sd_text@) == Some(s.deep_view()),
            r matches Ok(s) ==> save_wf(s.deep_view()),
    {
        let gj = match parse_json(gs_text) {
            Some(j) => j,
            None => {
                return Err(schema_error("GameStateSaveData.json: malformed JSON"));
            },
        };
        let game_state = match decode_gs_file(gj) {
            Ok(e) => e,
            Err(e) => {
                return Err(e);
            },
        };
        proof {
            let v = gj.deep_view();
            let o = v->Obj_0;
            let w = crate::save_data::lemma_get_index(o, "Data"@);
            lemma_wfb_entries_index(o, depth_budget() - 1, w);
            lemma_decode_game_state_outer_wf(obj_get(o, "Data"@)->0, depth_budget() - 1);
        }
        let sj = match parse_json(sd_text) {
            Some(j) => j,
            None => {
                return Err(schema_error("SaveData.json: malformed JSON"));
            },
        };
        let save_data = match decode_sd_file(sj) {
            Ok(e) => e,
            Err(e) => {
                return Err(e);
            },
        };
        proof {
            let v = sj.deep_view();
            let o = v->Obj_0;
            let w = crate::save_data::lemma_get_index(o, "Data"@);
            lemma_wfb_entries_index(o, depth_budget() - 1, w);
            lemma_decode_save_data_outer_wf(obj_get(o, "Data"@)->0, depth_budget() - 1);
        }
        Ok(Save { game_state, save_data })
    }

    /// Serializes the save back into its two file texts.  The serializer's
    /// guarantee that each text parses back to the encoded document is
    /// part of the contract, so a caller can conclude that what it writes
    /// is what a later read will see.
    pub fn to_texts(&self) -> (r: (String, String))
        requires
            save_wf(self.deep_view()),
        ensures
            r.0@ == json_text_of(encode_gs_file_v(self.deep_view().game_state)),
            r.1@ == json_text_of(encode_sd_file_v(self.deep_view().save_data)),
            json_parse(r.0@) == Some(encode_gs_file_v(self.deep_view().game_state)),
            json_parse(r.1@) == Some(encode_sd_file_v(self.deep_view().save_data)),
            json_parse(json_text_of(encode_inner_v(
                self.deep_view().game_state.data.game_state,
            ))) == Some(encode_inner_v(self.deep_view().game_state.data.game_state)),
            json_parse(json_text_of(encode_vail_v(
                self.deep_view().save_data.data.vail_world_sim,
            ))) == Some(encode_vail_v(self.deep_view().save_data.data.vail_world_sim)),
    {
        let gs_doc = encode_game_state(&self.game_state.data);
        let mut go: Vec<(String, Json)> = Vec::new();
        go.push(("Version".to_owned(), Json::Str(self.game_state.version.clone())));
        go.push(("Data".to_owned(), gs_doc));
        proof {
            assert(entries_v(go@) =~= encode_gs_file_v(self.deep_view().game_state)->Obj_0);
            lemma_encode_gs_file_wf(self.deep_view().game_state, depth_budget());
        }
        let gs_file = Json::Obj(go);
        let gs_text = json_to_text(&gs_file);
        let sd_doc = encode_save_data(&self.save_data.data);
        let mut so: Vec<(String, Json)> = Vec::new();
        so.push(("Version".to_owned(), Json::Str(self.save_data.version.clone())));
        so.push(("Data".to_owned(), sd_doc));
        proof {
            assert(entries_v(so@) =~= encode_sd_file_v(self.deep_view().save_data)->Obj_0);
            lemma_encode_sd_file_wf(self.deep_view().save_data, depth_budget());
        }
        let sd_file = Json::Obj(so);
        let sd_text = json_to_text(&sd_file);
        (gs_text, sd_text)
    }
}

/// The index of the first actor with the given type id.
pub open spec fn actor_idx_v(s: Seq<crate::save_data::ActorV>, id: u32) -> Option<int>
    decreases s.len(),
{
    if s.len() == 0 {
        None
    } else if s[0].type_id == id {
        Some(0)
    } else {
        match actor_idx_v(s.drop_first(), id) {
            Some(i) => Some(i + 1),
            None => None,
        }
    }
}

/// The first actor with the given type id.
pub open spec fn find_actor_v(s: Seq<crate::save_data::ActorV>, id: u32) -> Option<
    crate::save_data::ActorV,
> {
    match actor_idx_v(s, id) {
        Some(i) => Some(s[i]),
        None => None,
    }
}

/// The index of the first kill statistic with the given type id.
pub open spec fn kill_idx_v(s: Seq<crate::save_data::KillStatV>, id: u32) -> Option<int>
    decreases s.len(),
{
    if s.len() == 0 {
        None
    } else if s[0].type_id == id {
        Some(0)
    } else {
        match kill_idx_v(s.drop_first(), id) {
            Some(i) => Some(i + 1),
            None => None,
        }
    }
}

/// The first kill statistic with the given type id.
pub open spec fn find_kill_v(s: Seq<crate::save_data::KillStatV>, id: u32) -> Option<
    crate::save_data::KillStatV,
> {
    match kill_idx_v(s, id) {
        Some(i) => Some(s[i]),
        None => None,
    }
}

/// Where the first match sits and what lies before it.
pub proof fn lemma_actor_idx_props(s: Seq<crate::save_data::ActorV>, id: u32)
    ensures
        actor_idx_v(s, id) matches Some(i) ==> 0 <= i < s.len() && s[i].type_id == id && (
        forall|t: int| 0 <= t < i ==> (#[trigger] s[t]).type_id != id),
        actor_idx_v(s, id) is None ==> forall|t: int|
            0 <= t < s.len() ==> (#[trigger] s[t]).type_id != id,
    decreases s.len(),
{
    if s.len() > 0 && s[0].type_id != id {
        lemma_actor_idx_props(s.drop_first(), id);
        match actor_idx_v(s.drop_first(), id) {
            Some(i0) => {
                assert(s.drop_first()[i0] == s[i0 + 1]);
                assert forall|t: int| 0 <= t < i0 + 1 implies (#[trigger] s[t]).type_id != id by {
                    if t > 0 {
                        assert(s.drop_first()[t - 1] == s[t]);
                    }
                }
            },
            None => {
                assert forall|t: int| 0 <= t < s.len() implies (#[trigger] s[t]).type_id
                    != id by {
                    if t > 0 {
                        assert(s.drop_first()[t - 1] == s[t]);
                    }
                }
            },
        }
    }
}

/// The first match is where the scan says it is.
pub proof fn lemma_actor_idx_at(s: Seq<crate::save_data::ActorV>, id: u32, i: int)
    requires
        0 <= i < s.len(),
        s[i].type_id == id,
        forall|t: int| 0 <= t < i ==> (#[trigger] s[t]).type_id != id,
    ensures
        actor_idx_v(s, id) == Some(i),
    decreases i,
{
    if i > 0 {
        assert(s[0].type_id != id);
        assert forall|t: int| 0 <= t < i - 1 implies (#[trigger] s.drop_first()[t]).type_id
            != id by {
            assert(s.drop_first()[t] == s[t + 1]);
        }
        assert(s.drop_first()[i - 1] == s[i]);
        lemma_actor_idx_at(s.drop_first(), id, i - 1);
    }
}

/// Where the first match sits and what lies before it.
pub proof fn lemma_kill_idx_props(s: Seq<crate::save_data::KillStatV>, id: u32)
    ensures
        kill_idx_v(s, id) matches Some(i) ==> 0 <= i < s.len() && s[i].type_id == id && (
        forall|t: int| 0 <= t < i ==> (#[trigger] s[t]).type_id != id),
        kill_idx_v(s, id) is None ==> forall|t: int|
            0 <= t < s.len() ==> (#[trigger] s[t]).type_id != id,
    decreases s.len(),
{
    if s.len() > 0 && s[0].type_id != id {
        lemma_kill_idx_props(s.drop_first(), id);
        match kill_idx_v(s.drop_first(), id) {
            Some(i0) => {
                assert(s.drop_first()[i0] == s[i0 + 1]);
                assert forall|t: int| 0 <= t < i0 + 1 implies (#[trigger] s[t]).type_id != id by {
                    if t > 0 {
                        assert(s.drop_first()[t - 1] == s[t]);
                    }
                }
            },
            None => {
                assert forall|t: int| 0 <= t < s.len() implies (#[trigger] s[t]).type_id
                    != id by {
                    if t > 0 {
                        assert(s.drop_first()[t - 1] == s[t]);
                    }
                }
            },
        }
    }
}

/// The first match is where the scan says it is.
pub proof fn lemma_kill_idx_at(s: Seq<crate::save_data::KillStatV>, id: u32, i: int)
    requires
        0 <= i < s.len(),
        s[i].type_id == id,
        forall|t: int| 0 <= t < i ==> (#[trigger] s[t]).type_id != id,
    ensures
        kill_idx_v(s, id) == Some(i),
    decreases i,
{
    if i > 0 {
        assert(s[0].type_id != id);
        assert forall|t: int| 0 <= t < i - 1 implies (#[trigger] s.drop_first()[t]).type_id
            != id by {
            assert(s.drop_first()[t] == s[t + 1]);
        }
        assert(s.drop_first()[i - 1] == s[i]);
        lemma_kill_idx_at(s.drop_first(), id, i - 1);
    }
}

impl Save {
    /// The actors of this save, as their mathematical image.
    pub open spec fn actors_view(self) -> Seq<crate::save_data::ActorV> {
        self.deep_view().save_data.data.vail_world_sim.actors
    }

    /// The kill statistics of this save, as their mathematical image.
    pub open spec fn kills_view(self) -> Seq<crate::save_data::KillStatV> {
        self.deep_view().save_data.data.vail_world_sim.kill_stats_list
    }

    fn actor_index(&self, type_id: u32) -> (r: Option<usize>)
        ensures
            r matches Some(i) ==> actor_idx_v(self.actors_view(), type_id) == Some(i as int),
            r is None ==> actor_idx_v(self.actors_view(), type_id) is None,
    {
        let actors = &self.save_data.data.vail_world_sim.actors;
        let ghost av = self.actors_view();
        let mut i: usize = 0;
        while i < actors.len()
            invariant
                i <= actors@.len(),
                av == crate::save_data::actors_v(actors@),
                av == self.actors_view(),
                forall|t: int| 0 <= t < i ==> (#[trigger] av[t]).type_id != type_id,
            decreases actors@.len() - i,
        {
            if actors[i].type_id == type_id {
                proof {
                    assert(av[i as int] == actors@[i as int].deep_view());
                    lemma_actor_idx_at(av, type_id, i as int);
                }
                return Some(i);
            }
            proof {
                assert(av[i as int] == actors@[i as int].deep_view());
            }
            i = i + 1;
        }
        proof {
            lemma_actor_idx_props(av, type_id);
            if actor_idx_v(av, type_id) is Some {
                let w = actor_idx_v(av, type_id)->0;
                assert(av[w].type_id != type_id);
            }
        }
        None
    }

    fn kill_index(&self, type_id: u32) -> (r: Option<usize>)
        ensures
            r matches Some(i) ==> kill_idx_v(self.kills_view(), type_id) == Some(i as int),
            r is None ==> kill_idx_v(self.kills_view(), type_id) is None,
    {
        let kills = &self.save_data.data.vail_world_sim.kill_stats_list;
        let ghost kv = self.kills_view();
        let mut i: usize = 0;
        while i < kills.len()
            invariant
                i <= kills@.len(),
                kv == crate::save_data::kills_v(kills@),
                kv == self.kills_view(),
                forall|t: int| 0 <= t < i ==> (#[trigger] kv[t]).type_id != type_id,
            decreases kills@.len() - i,
        {
            if kills[i].type_id == type_id {
                proof {
                    assert(kv[i as int] == kills@[i as int].deep_view());
                    lemma_kill_idx_at(kv, type_id, i as int);
                }
                return Some(i);
            }
            proof {
                assert(kv[i as int] == kills@[i as int].deep_view());
            }
            i = i + 1;
        }
        proof {
            lemma_kill_idx_props(kv, type_id);
            if kill_idx_v(kv, type_id) is Some {
                let w = kill_idx_v(kv, type_id)->0;
                assert(kv[w].type_id != type_id);
            }
        }
        None
    }

    /// The first actor with the given type id, if any.
    pub fn find_actor(&self, type_id: u32) -> (r: Option<&crate::save_data::Actor>)
        ensures
            r matches Some(a) ==> find_actor_v(self.actors_view(), type_id) == Some(a.deep_view()),
            r is None <==> find_actor_v(self.actors_view(), type_id) is None,
    {
        match self.actor_index(type_id) {
            Some(i) => {
                proof {
                    lemma_actor_idx_props(self.actors_view(), type_id);
                    assert(self.actors_view()[i as int]
                        == self.save_data.data.vail_world_sim.actors@[i as int].deep_view());
                }
                Some(&self.save_data.data.vail_world_sim.actors[i])
            },
            None => None,
        }
    }

    /// The first kill statistic with the given type id, if any.
    pub fn find_kill_stat(&self, type_id: u32) -> (r: Option<&crate::save_data::KillStat>)
        ensures
            r matches Some(k) ==> find_kill_v(self.kills_view(), type_id) == Some(k.deep_view()),
            r is None <==> find_kill_v(self.kills_view(), type_id) is None,
    {
        match self.kill_index(type_id) {
            Some(i) => {
                proof {
                    lemma_kill_idx_props(self.kills_view(), type_id);
                    assert(self.kills_view()[i as int]
                        == self.save_data.data.vail_world_sim.kill_stats_list@[
                        i as int].deep_view());
                }
                Some(&self.save_data.data.vail_world_sim.kill_stats_list[i])
            },
            None => None,
        }
    }
}

/// The death flag on the game state that speaks for this type id.
pub open spec fn flag_dead_v(s: SaveV, id: u32) -> bool {
    if id == 9 {
        s.game_state.data.game_state.is_robby_dead
    } else if id == 10 {
        s.game_state.data.game_state.is_virginia_dead
    } else {
        false
    }
}

/// An actor that reads as dead: its state is 6, or it has statistics
/// whose health is the sentinel or at or below zero.
pub open spec fn actor_dead_v(a: crate::save_data::ActorV) -> bool {
    ||| a.state == 6
    ||| (a.stats matches Some(st) && crate::save_data::health_dead(st.health))
}

/// A character reads as dead when any of the three signals says so: the
/// game-state flag, the actor's state or health, or a nonzero
/// player-killed count.  A missing actor or kill-statistic row is a
/// not-dead signal, never an error.
pub open spec fn is_dead_v(s: SaveV, id: u32) -> bool {
    ||| flag_dead_v(s, id)
    ||| (match find_actor_v(s.save_data.data.vail_world_sim.actors, id) {
        Some(a) => actor_dead_v(a),
        None => false,
    })
    ||| (match find_kill_v(s.save_data.data.vail_world_sim.kill_stats_list, id) {
        Some(k) => k.player_killed != 0,
        None => false,
    })
}

impl Save {
    /// Whether the character with this type id reads as dead, by the OR of
    /// the three signals, checked in their fixed order.
    pub fn is_dead(&self, type_id: u32) -> (r: bool)
        ensures
            r == is_dead_v(self.deep_view(), type_id),
    {
        if type_id == 9 && self.game_state.data.game_state.is_robby_dead {
            return true;
        }
        if type_id == 10 && self.game_state.data.game_state.is_virginia_dead {
            return true;
        }
        match self.find_actor(type_id) {
            Some(a) => {
                if a.state == 6 {
                    return true;
                }
                match &a.stats {
                    Some(st) => {
                        if st.health.is_dead_value() {
                            return true;
                        }
                    },
                    None => {},
                }
            },
            None => {},
        }
        match self.find_kill_stat(type_id) {
            Some(k) => {
                if k.player_killed != 0 {
                    return true;
                }
            },
            None => {},
        }
        false
    }
}


/// Clearing the death flag that speaks for this type id.
pub open spec fn clear_flag_v(
    g: crate::game_state::GameStateInnerV,
    id: u32,
) -> crate::game_state::GameStateInnerV {
    if id == 9 {
        crate::game_state::GameStateInnerV { is_robby_dead: false, ..g }
    } else if id == 10 {
        crate::game_state::GameStateInnerV { is_virginia_dead: false, ..g }
    } else {
        g
    }
}

/// Reviving one actor: state 2, and, where statistics exist, the revival
/// health.
pub open spec fn revive_actor_v(
    a: crate::save_data::ActorV,
    h: crate::save_data::HealthV,
) -> crate::save_data::ActorV {
    crate::save_data::ActorV {
        state: 2,
        stats: match a.stats {
            Some(st) => Some(crate::save_data::ActorStatsV { health: h, ..st }),
            None => None,
        },
        ..a
    }
}

/// Reviving the first actor with this type id, if any.
pub open spec fn revive_actors_v(
    s: Seq<crate::save_data::ActorV>,
    id: u32,
    h: crate::save_data::HealthV,
) -> Seq<crate::save_data::ActorV> {
    match actor_idx_v(s, id) {
        Some(i) => s.update(i, revive_actor_v(s[i], h)),
        None => s,
    }
}

/// Clearing the player-killed count of the first matching kill statistic,
/// if any.
pub open spec fn clear_kills_v(s: Seq<crate::save_data::KillStatV>, id: u32) -> Seq<
    crate::save_data::KillStatV,
> {
    match kill_idx_v(s, id) {
        Some(i) => s.update(
            i,
            crate::save_data::KillStatV { player_killed: 0, ..s[i] },
        ),
        None => s,
    }
}

/// The whole effect of a resurrection: the flag cleared, the actor set
/// alive with the revival health, the kill count cleared.  Missing rows
/// are skipped, and nothing else changes.
pub open spec fn resurrect_v(s: SaveV, id: u32, h: crate::save_data::HealthV) -> SaveV {
    SaveV {
        game_state: GenericDataV {
            version: s.game_state.version,
            data: GameStateV {
                game_state: clear_flag_v(s.game_state.data.game_state, id),
                other: s.game_state.data.other,
            },
        },
        save_data: GenericDataV {
            version: s.save_data.version,
            data: SaveDataV {
                vail_world_sim: crate::save_data::VailWorldSimV {
                    actors: revive_actors_v(s.save_data.data.vail_world_sim.actors, id, h),
                    kill_stats_list: clear_kills_v(
                        s.save_data.data.vail_world_sim.kill_stats_list,
                        id,
                    ),
                    player_stats: s.save_data.data.vail_world_sim.player_stats,
                    other: s.save_data.data.vail_world_sim.other,
                },
                other: s.save_data.data.other,
            },
        },
    }
}

impl Save {
    /// Resurrects the character with this type id, unconditionally: the
    /// death flag is cleared, an existing actor row is set to state 2 with
    /// the revival health where statistics exist, and an existing
    /// kill-statistic row is zeroed.  Missing rows are skipped, never an
    /// error.  A well-formed save stays well-formed.
    pub fn resurrect(&mut self, type_id: u32, revival_health: crate::save_data::Health)
        requires
            crate::save_data::health_wf(revival_health.deep_view()),
        ensures
            final(self).deep_view() == resurrect_v(
                old(self).deep_view(),
                type_id,
                revival_health.deep_view(),
            ),
            save_wf(old(self).deep_view()) ==> save_wf(final(self).deep_view()),
    {
        let ghost oldv = self.deep_view();
        let ghost h = revival_health.deep_view();
        if type_id == 9 {
            self.game_state.data.game_state.is_robby_dead = false;
        } else if type_id == 10 {
            self.game_state.data.game_state.is_virginia_dead = false;
        }
        proof {
            assert(self.game_state.data.game_state.deep_view() == clear_flag_v(
                oldv.game_state.data.game_state,
                type_id,
            ));
        }
        let ghost actors_old = self.actors_view();
        let idx = self.actor_index(type_id);
        match idx {
            Some(i) => {
                proof {
                    lemma_actor_idx_props(actors_old, type_id);
                }
                let actors = &mut self.save_data.data.vail_world_sim.actors;
                let ghost pre = actors@;
                let a = actors.remove(i);
                let crate::save_data::Actor { type_id: tid0, state: _, stats: st0, other: oth0 }
                    = a;
                let new_stats = match st0 {
                    Some(mut st) => {
                        st.health = revival_health;
                        Some(st)
                    },
                    None => None,
                };
                let a2 = crate::save_data::Actor {
                    type_id: tid0,
                    state: 2,
                    stats: new_stats,
                    other: oth0,
                };
                proof {
                    assert(a2.deep_view() == revive_actor_v(
                        pre[i as int].deep_view(),
                        h,
                    ));
                }
                let actors = &mut self.save_data.data.vail_world_sim.actors;
                actors.insert(i, a2);
                proof {
                    assert(actors@ =~= pre.update(i as int, a2));
                    assert(crate::save_data::actors_v(actors@) =~= revive_actors_v(
                        actors_old,
                        type_id,
                        h,
                    ));
                }
            },
            None => {
                proof {
                    assert(crate::save_data::actors_v(
                        self.save_data.data.vail_world_sim.actors@,
                    ) =~= revive_actors_v(actors_old, type_id, h));
                }
            },
        }
        let ghost kills_old = self.kills_view();
        proof {
            assert(kills_old == oldv.save_data.data.vail_world_sim.kill_stats_list);
        }
        let kidx = self.kill_index(type_id);
        match kidx {
            Some(i) => {
                proof {
                    lemma_kill_idx_props(kills_old, type_id);
                }
                let kills = &mut self.save_data.data.vail_world_sim.kill_stats_list;
                let ghost pre = kills@;
                let mut k = kills.remove(i);
                k.player_killed = 0;
                kills.insert(i, k);
                proof {
                    assert(kills@ =~= pre.update(i as int, k));
                    assert(crate::save_data::kills_v(kills@) =~= clear_kills_v(
                        kills_old,
                        type_id,
                    ));
                }
            },
            None => {
                proof {
                    assert(crate::save_data::kills_v(
                        self.save_data.data.vail_world_sim.kill_stats_list@,
                    ) =~= clear_kills_v(kills_old, type_id));
                }
            },
        }
        proof {
            let newv = self.deep_view();
            let expect = resurrect_v(oldv, type_id, h);
            assert(newv.game_state == expect.game_state);
            assert(newv.save_data.data.vail_world_sim == expect.save_data.data.vail_world_sim);
            assert(newv.save_data == expect.save_data);
            assert(newv == expect);
            if save_wf(oldv) {
                lemma_resurrect_wf(oldv, type_id, h);
            }
        }
    }
}

/// A resurrection keeps a well-formed save well-formed: every record it
/// touches keeps its residual, and the revival health is a well-formed
/// token.
pub proof fn lemma_resurrect_wf(s: SaveV, id: u32, h: crate::save_data::HealthV)
    requires
        save_wf(s),
        crate::save_data::health_wf(h),
    ensures
        save_wf(resurrect_v(s, id, h)),
{
    let r = resurrect_v(s, id, h);
    let actors0 = s.save_data.data.vail_world_sim.actors;
    let actors1 = r.save_data.data.vail_world_sim.actors;
    assert forall|t: int| 0 <= t < actors1.len() implies crate::save_data::actor_wf(
        #[trigger] actors1[t],
        depth_budget() - 2,
    ) by {
        lemma_actor_idx_props(actors0, id);
        assert(crate::save_data::actor_wf(actors0[t], depth_budget() - 2));
    }
    let kills0 = s.save_data.data.vail_world_sim.kill_stats_list;
    let kills1 = r.save_data.data.vail_world_sim.kill_stats_list;
    assert forall|t: int| 0 <= t < kills1.len() implies crate::save_data::kill_wf(
        #[trigger] kills1[t],
        depth_budget() - 2,
    ) by {
        lemma_kill_idx_props(kills0, id);
        assert(crate::save_data::kill_wf(kills0[t], depth_budget() - 2));
    }
}


/// Round trip for an encoded game-state file.  The premise is the text
/// layer's guarantee about the nested text it emits.
pub proof fn lemma_gs_file_round_trip(e: GenericDataV<GameStateV>)
    requires
        env_gs_wf(e, depth_budget()),
        json_parse(json_text_of(encode_inner_v(e.data.game_state))) == Some(
            encode_inner_v(e.data.game_state),
        ),
    ensures
        decode_gs_file_v(encode_gs_file_v(e)) == Some(e),
{
    env_names_distinct();
    let gk = encode_gs_file_v(e)->Obj_0;
    lemma_get_at(gk, 0);
    lemma_get_at(gk, 1);
    crate::game_state::lemma_game_state_round_trip(e.data);
}

/// Round trip for an encoded world-simulation file.  The premise is the
/// text layer's guarantee about the nested text it emits.
pub proof fn lemma_sd_file_round_trip(e: GenericDataV<SaveDataV>)
    requires
        env_sd_wf(e, depth_budget()),
        json_parse(json_text_of(encode_vail_v(e.data.vail_world_sim))) == Some(
            encode_vail_v(e.data.vail_world_sim),
        ),
    ensures
        decode_sd_file_v(encode_sd_file_v(e)) == Some(e),
{
    env_names_distinct();
    let sk = encode_sd_file_v(e)->Obj_0;
    lemma_get_at(sk, 0);
    lemma_get_at(sk, 1);
    let w = e.data.vail_world_sim;
    assert forall|t: int| 0 <= t < w.actors.len() implies (forall|i: int|
        0 <= i < (#[trigger] w.actors[t]).other.len() ==> !crate::save_data::actor_known()
            .contains((#[trigger] w.actors[t].other[i]).0)) by {
        assert(crate::save_data::actor_wf(w.actors[t], depth_budget() - 2));
    }
    assert forall|t: int| 0 <= t < w.actors.len() implies ((
    #[trigger] w.actors[t]).stats matches Some(st) ==> forall|i: int|
        0 <= i < st.other.len() ==> !crate::save_data::stats_known().contains(
            (#[trigger] st.other[i]).0,
        )) by {
        assert(crate::save_data::actor_wf(w.actors[t], depth_budget() - 2));
    }
    assert forall|t: int| 0 <= t < w.kill_stats_list.len() implies (forall|i: int|
        0 <= i < (#[trigger] w.kill_stats_list[t]).other.len()
            ==> !crate::save_data::kill_known().contains(
            (#[trigger] w.kill_stats_list[t].other[i]).0,
        )) by {
        assert(crate::save_data::kill_wf(w.kill_stats_list[t], depth_budget() - 2));
    }
    crate::save_data::lemma_save_data_round_trip(e.data);
}

/// Round trip, document by document: decoding what a well-formed save
/// encodes to yields the same save.  The two premises are the text
/// layer's own guarantee about the nested texts it emits; `to_texts`
/// hands exactly these facts to its callers.
pub proof fn lemma_save_round_trip(s: SaveV)
    requires
        save_wf(s),
        json_parse(json_text_of(encode_inner_v(s.game_state.data.game_state))) == Some(
            encode_inner_v(s.game_state.data.game_state),
        ),
        json_parse(json_text_of(encode_vail_v(s.save_data.data.vail_world_sim))) == Some(
            encode_vail_v(s.save_data.data.vail_world_sim),
        ),
    ensures
        decode_gs_file_v(encode_gs_file_v(s.game_state)) == Some(s.game_state),
        decode_sd_file_v(encode_sd_file_v(s.save_data)) == Some(s.save_data),
{
    lemma_gs_file_round_trip(s.game_state);
    lemma_sd_file_round_trip(s.save_data);
}

/// Round trip for whole file texts: a save read from two texts, written
/// back, and read again is the same save.  The premises about `json_parse`
/// are exactly what `to_texts` guarantees of the four texts involved, so
/// every write this library performs satisfies them.
pub proof fn lemma_read_write_read(gs_text: Seq<char>, sd_text: Seq<char>, s: SaveV)
    requires
        save_from_texts_v(gs_text, sd_text) == Some(s),
        save_wf(s),
        json_parse(json_text_of(encode_inner_v(s.game_state.data.game_state))) == Some(
            encode_inner_v(s.game_state.data.game_state),
        ),
        json_parse(json_text_of(encode_vail_v(s.save_data.data.vail_world_sim))) == Some(
            encode_vail_v(s.save_data.data.vail_world_sim),
        ),
        json_parse(json_text_of(encode_gs_file_v(s.game_state))) == Some(
            encode_gs_file_v(s.game_state),
        ),
        json_parse(json_text_of(encode_sd_file_v(s.save_data))) == Some(
            encode_sd_file_v(s.save_data),
        ),
    ensures
        save_from_texts_v(
            json_text_of(encode_gs_file_v(s.game_state)),
            json_text_of(encode_sd_file_v(s.save_data)),
        ) == Some(s),
{
    lemma_save_round_trip(s);
}

/// Resurrection is idempotent: doing it twice leaves exactly the state of
/// doing it once.
pub proof fn lemma_resurrect_idempotent(s: SaveV, id: u32, h: crate::save_data::HealthV)
    ensures
        resurrect_v(resurrect_v(s, id, h), id, h) == resurrect_v(s, id, h),
{
    let r1 = resurrect_v(s, id, h);
    let a0 = s.save_data.data.vail_world_sim.actors;
    let a1 = r1.save_data.data.vail_world_sim.actors;
    lemma_actor_idx_props(a0, id);
    match actor_idx_v(a0, id) {
        Some(i) => {
            assert forall|t: int| 0 <= t < i implies (#[trigger] a1[t]).type_id != id by {
                assert(a1[t] == a0[t]);
            }
            assert(a1[i].type_id == id);
            lemma_actor_idx_at(a1, id, i);
            assert(revive_actor_v(a1[i], h) == a1[i]);
            assert(revive_actors_v(a1, id, h) =~= a1);
        },
        None => {
            assert(a1 == a0);
        },
    }
    let k0 = s.save_data.data.vail_world_sim.kill_stats_list;
    let k1 = r1.save_data.data.vail_world_sim.kill_stats_list;
    lemma_kill_idx_props(k0, id);
    match kill_idx_v(k0, id) {
        Some(i) => {
            assert forall|t: int| 0 <= t < i implies (#[trigger] k1[t]).type_id != id by {
                assert(k1[t] == k0[t]);
            }
            assert(k1[i].type_id == id);
            lemma_kill_idx_at(k1, id, i);
            assert(clear_kills_v(k1, id) =~= k1);
        },
        None => {
            assert(k1 == k0);
        },
    }
    let r2 = resurrect_v(r1, id, h);
    assert(r2.game_state == r1.game_state);
    assert(r2.save_data.data.vail_world_sim == r1.save_data.data.vail_world_sim);
    assert(r2.save_data == r1.save_data);
    assert(r2 == r1);
}

/// After a resurrection with a live health value, the character reads as
/// alive.  A health of `NaN` or at most zero would itself read as dead,
/// so it is excluded here.
pub proof fn lemma_resurrect_alive(s: SaveV, id: u32, h: crate::save_data::HealthV)
    requires
        !crate::save_data::health_dead(h),
    ensures
        !is_dead_v(resurrect_v(s, id, h), id),
{
    let r = resurrect_v(s, id, h);
    let a0 = s.save_data.data.vail_world_sim.actors;
    let a1 = r.save_data.data.vail_world_sim.actors;
    lemma_actor_idx_props(a0, id);
    match actor_idx_v(a0, id) {
        Some(i) => {
            assert forall|t: int| 0 <= t < i implies (#[trigger] a1[t]).type_id != id by {
                assert(a1[t] == a0[t]);
            }
            assert(a1[i].type_id == id);
            lemma_actor_idx_at(a1, id, i);
            assert(!actor_dead_v(a1[i]));
        },
        None => {
            assert(a1 == a0);
        },
    }
    let k0 = s.save_data.data.vail_world_sim.kill_stats_list;
    let k1 = r.save_data.data.vail_world_sim.kill_stats_list;
    lemma_kill_idx_props(k0, id);
    match kill_idx_v(k0, id) {
        Some(i) => {
            assert forall|t: int| 0 <= t < i implies (#[trigger] k1[t]).type_id != id by {
                assert(k1[t] == k0[t]);
            }
            assert(k1[i].type_id == id);
            lemma_kill_idx_at(k1, id, i);
            assert(k1[i].player_killed == 0);
        },
        None => {
            assert(k1 == k0);
        },
    }
}

/// Missing-row tolerance: with no actor row and no kill-statistic row for
/// this type id, the flag alone decides deadness, and a resurrection
/// touches nothing but the flag.
pub proof fn lemma_missing_rows(s: SaveV, id: u32, h: crate::save_data::HealthV)
    requires
        find_actor_v(s.save_data.data.vail_world_sim.actors, id) is None,
        find_kill_v(s.save_data.data.vail_world_sim.kill_stats_list, id) is None,
    ensures
        is_dead_v(s, id) == flag_dead_v(s, id),
        resurrect_v(s, id, h).save_data == s.save_data,
{
    let r = resurrect_v(s, id, h);
    assert(r.save_data.data.vail_world_sim == s.save_data.data.vail_world_sim);
    assert(r.save_data.data == s.save_data.data);
}


/// Which kind of save directory a save lives in.
#[derive(Debug, Clone, Copy, Hash, PartialEq, Eq, Structural)]
pub enum SaveType {
    Singleplayer,
    Multiplayer,
}

impl SaveType {
    /// The directory name this save type uses on disk.
    pub open spec fn file_label(self) -> Seq<char> {
        match self {
            SaveType::Singleplayer => "SinglePlayer"@,
            SaveType::Multiplayer => "Multiplayer"@,
        }
    }

    /// The display name of this save type.
    pub open spec fn display_label(self) -> Seq<char> {
        match self {
            SaveType::Singleplayer => "Singleplayer"@,
            SaveType::Multiplayer => "Multiplayer"@,
        }
    }

    /// The directory name this save type uses on disk.
    pub fn as_file(&self) -> (r: &'static str)
        ensures
            r@ == self.file_label(),
    {
        match self {
            SaveType::Singleplayer => "SinglePlayer",
            SaveType::Multiplayer => "Multiplayer",
        }
    }

    /// The human-readable name of this save type.
    pub fn label(&self) -> (r: &'static str)
        ensures
            r@ == self.display_label(),
    {
        match self {
            SaveType::Singleplayer => "Singleplayer",
            SaveType::Multiplayer => "Multiplayer",
        }
    }
}

/// A selected save: its owner id, its save type, and its directory name.
pub type SelectedSave = (String, SaveType, String);

/// A loaded save with where it came from and the tools operating on it.
#[derive(Debug, PartialEq)]
pub struct SaveInstance {
    pub path: SelectedSave,
    pub save: Save,
    pub tools: crate::tools::SaveTools,
}

impl SaveInstance {
    /// Wraps a freshly loaded save with its tools.
    pub fn new(path: SelectedSave, save: Save) -> (r: Self)
        ensures
            r.save == save,
            r.tools.kelvin.is_dead == is_dead_v(save.deep_view(), crate::tools::kelvin_id()),
            r.tools.virginia.is_dead == is_dead_v(save.deep_view(), crate::tools::virginia_id()),
    {
        let tools = crate::tools::SaveTools::new(&save);
        SaveInstance { path, save, tools }
    }
}

} // verus!
