//! The inventory document: item blocks nested as a JSON string under the
//! parent's `PlayerInventory` field, and the static item-id-to-name table.
//! An unknown item id renders as a placeholder name, never as an error.

use vstd::prelude::*;

use crate::error::{schema_error, SaveError};
use crate::fields::{
    field_i32_req, field_u16_req, lemma_get_at, lemma_get_concat, lemma_residual_all_known,
    lemma_residual_from, lemma_residual_none_known, lemma_wfb_entries_all,
    lemma_wfb_entries_index, lemma_wfb_seq_all, lemma_wfb_seq_index, names_v, spec_field_i32_req,
    spec_field_u16_req, split_fields, take_slot,
};
use crate::json::{
    arr_v, depth_budget, distinct_keys, entries_clone, entries_v, obj_get, obj_residual, wfb,
    wfb_entries, Json, JsonV,
};
use crate::numtext::{
    i32_to_dec, int_text, lemma_i32_text_round, lemma_int_text_token, lemma_nat_text_token,
    lemma_unsigned_text_round, nat_text, u64_to_dec,
};
use crate::save::{GenericData, GenericDataV};
use crate::save_data::lemma_get_index;
use crate::text::{json_parse, json_text_of, json_to_text, parse_json};

verus! {

broadcast use vstd::std_specs::vec::group_vec_axioms, vstd::seq_lib::group_seq_lib_default, vstd::string::group_string_axioms;

/// A numeric item id.  The name table is a fixed mapping; ids outside it
/// still render, as a placeholder.
#[derive(Debug, Clone, Copy, PartialEq, Eq, Structural)]
pub struct ItemId(pub u16);

impl DeepView for ItemId {
    type V = u16;

    open spec fn deep_view(&self) -> u16 {
        self.0
    }
}

fn unknown_item_label(id: u16) -> (r: String)
    ensures
        r@ == "Unknown Item (ID "@ + nat_text(id as nat) + ")"@,
{
    let mut s = "Unknown Item (ID ".to_owned();
    s.append(u64_to_dec(id as u64).as_str());
    s.append(")");
    s
}

impl ItemId {
    /// The human-readable name this id maps to; ids outside the table get
    /// a placeholder naming the id itself.
    pub open spec fn name_v(self) -> Seq<char> {
        if self.0 == 414 {
            "Alcohol"@
        } else if self.0 == 451 {
            "Aloe Vera"@
        } else if self.0 == 469 {
            "Air Canister"@
        } else if self.0 == 402 {
            "Backpack"@
        } else if self.0 == 527 {
            "Battery"@
        } else if self.0 == 552 {
            "Blueprint Book"@
        } else if self.0 == 494 {
            "Bone Armor"@
        } else if self.0 == 364 {
            "Buckshot (Shotgun Ammo)"@
        } else if self.0 == 434 {
            "Canned Food"@
        } else if self.0 == 496 {
            "Cash"@
        } else if self.0 == 394 {
            "Chainsaw"@
        } else if self.0 == 415 {
            "Cloth"@
        } else if self.0 == 517 {
            "Cooking Pot"@
        } else if self.0 == 474 {
            "Crafted Spear"@
        } else if self.0 == 593 {
            "Creepy Armor"@
        } else if self.0 == 468 {
            "Cross"@
        } else if self.0 == 365 {
            "Crossbow"@
        } else if self.0 == 368 {
            "Crossbow Bolt"@
        } else if self.0 == 419 {
            "Duct Tape"@
        } else if self.0 == 483 {
            "Emergency Pack"@
        } else if self.0 == 439 {
            "Energy Drink"@
        } else if self.0 == 441 {
            "Energy Bar"@
        } else if self.0 == 461 {
            "Energy Mix"@
        } else if self.0 == 462 {
            "Energy Mix +"@
        } else if self.0 == 479 {
            "Feather"@
        } else if self.0 == 436 {
            "Fish"@
        } else if self.0 == 440 {
            "Flare"@
        } else if self.0 == 471 {
            "Flashlight"@
        } else if self.0 == 426 {
            "Flask"@
        } else if self.0 == 512 {
            "Food Tray"@
        } else if self.0 == 381 {
            "Frag Grenade"@
        } else if self.0 == 572 {
            "Golden Armor"@
        } else if self.0 == 529 {
            "GPS Locator"@
        } else if self.0 == 412 {
            "GPS Tracker"@
        } else if self.0 == 351 {
            "Grab Bag"@
        } else if self.0 == 560 {
            "Grappling Hook"@
        } else if self.0 == 526 {
            "Guest Keycard"@
        } else if self.0 == 589 {
            "Guide Book"@
        } else if self.0 == 455 {
            "Health Mix"@
        } else if self.0 == 456 {
            "Health Mix +"@
        } else if self.0 == 519 {
            "Hide Armor"@
        } else if self.0 == 380 {
            "Knife"@
        } else if self.0 == 484 {
            "Leaf"@
        } else if self.0 == 473 {
            "Leaf Armor"@
        } else if self.0 == 78 {
            "Log"@
        } else if self.0 == 373 {
            "Modern Arrow"@
        } else if self.0 == 388 {
            "Molotovs"@
        } else if self.0 == 438 {
            "MRE"@
        } else if self.0 == 421 {
            "Noodles"@
        } else if self.0 == 355 {
            "Pistol"@
        } else if self.0 == 362 {
            "Pistol Ammo"@
        } else if self.0 == 374 {
            "Pistol Silencer"@
        } else if self.0 == 413 {
            "Plasma Lighter"@
        } else if self.0 == 618 {
            "Printer Arrow"@
        } else if self.0 == 390 {
            "Printer Resin"@
        } else if self.0 == 590 {
            "Radio"@
        } else if self.0 == 433 {
            "Raw Meat"@
        } else if self.0 == 444 {
            "Rebreather"@
        } else if self.0 == 386 {
            "Revolver"@
        } else if self.0 == 393 {
            "Rock"@
        } else if self.0 == 403 {
            "Rope"@
        } else if self.0 == 522 {
            "Rope Gun"@
        } else if self.0 == 480 {
            "Severed Arm"@
        } else if self.0 == 481 {
            "Severed Leg"@
        } else if self.0 == 358 {
            "Shotgun"@
        } else if self.0 == 508 {
            "Skin Pouch"@
        } else if self.0 == 430 {
            "Skull"@
        } else if self.0 == 428 {
            "Sled"@
        } else if self.0 == 363 {
            "Slug (Shotgun Ammo)"@
        } else if self.0 == 476 {
            "Small Rock"@
        } else if self.0 == 392 {
            "Stick"@
        } else if self.0 == 507 {
            "Stone Arrow"@
        } else if self.0 == 353 {
            "Stun Gun"@
        } else if self.0 == 369 {
            "Stun Gun Ammo"@
        } else if self.0 == 619 {
            "Swimsuit"@
        } else if self.0 == 379 {
            "Tactical Axe"@
        } else if self.0 == 504 {
            "Tarp"@
        } else if self.0 == 554 {
            "Tech Armor"@
        } else if self.0 == 553 {
            "Tech Mesh"@
        } else if self.0 == 503 {
            "Torch"@
        } else if self.0 == 506 {
            "Turtle Shell"@
        } else if self.0 == 486 {
            "Walkie Talkie"@
        } else if self.0 == 410 {
            "Wristwatch"@
        } else if self.0 == 523 {
            "Zipline Rope"@
        } else {
            "Unknown Item (ID "@ + nat_text(self.0 as nat) + ")"@
        }
    }

    /// The human-readable name this id maps to.
    pub fn name(&self) -> (r: String)
        ensures
            r@ == self.name_v(),
    {
        if self.0 == 414 {
            "Alcohol".to_owned()
        } else if self.0 == 451 {
            "Aloe Vera".to_owned()
        } else if self.0 == 469 {
            "Air Canister".to_owned()
        } else if self.0 == 402 {
            "Backpack".to_owned()
        } else if self.0 == 527 {
            "Battery".to_owned()
        } else if self.0 == 552 {
            "Blueprint Book".to_owned()
        } else if self.0 == 494 {
            "Bone Armor".to_owned()
        } else if self.0 == 364 {
            "Buckshot (Shotgun Ammo)".to_owned()
        } else if self.0 == 434 {
            "Canned Food".to_owned()
        } else if self.0 == 496 {
            "Cash".to_owned()
        } else if self.0 == 394 {
            "Chainsaw".to_owned()
        } else if self.0 == 415 {
            "Cloth".to_owned()
        } else if self.0 == 517 {
            "Cooking Pot".to_owned()
        } else if self.0 == 474 {
            "Crafted Spear".to_owned()
        } else if self.0 == 593 {
            "Creepy Armor".to_owned()
        } else if self.0 == 468 {
            "Cross".to_owned()
        } else if self.0 == 365 {
            "Crossbow".to_owned()
        } else if self.0 == 368 {
            "Crossbow Bolt".to_owned()
        } else if self.0 == 419 {
            "Duct Tape".to_owned()
        } else if self.0 == 483 {
            "Emergency Pack".to_owned()
        } else if self.0 == 439 {
            "Energy Drink".to_owned()
        } else if self.0 == 441 {
            "Energy Bar".to_owned()
        } else if self.0 == 461 {
            "Energy Mix".to_owned()
        } else if self.0 == 462 {
            "Energy Mix +".to_owned()
        } else if self.0 == 479 {
            "Feather".to_owned()
        } else if self.0 == 436 {
            "Fish".to_owned()
        } else if self.0 == 440 {
            "Flare".to_owned()
        } else if self.0 == 471 {
            "Flashlight".to_owned()
        } else if self.0 == 426 {
            "Flask".to_owned()
        } else if self.0 == 512 {
            "Food Tray".to_owned()
        } else if self.0 == 381 {
            "Frag Grenade".to_owned()
        } else if self.0 == 572 {
            "Golden Armor".to_owned()
        } else if self.0 == 529 {
            "GPS Locator".to_owned()
        } else if self.0 == 412 {
            "GPS Tracker".to_owned()
        } else if self.0 == 351 {
            "Grab Bag".to_owned()
        } else if self.0 == 560 {
            "Grappling Hook".to_owned()
        } else if self.0 == 526 {
            "Guest Keycard".to_owned()
        } else if self.0 == 589 {
            "Guide Book".to_owned()
        } else if self.0 == 455 {
            "Health Mix".to_owned()
        } else if self.0 == 456 {
            "Health Mix +".to_owned()
        } else if self.0 == 519 {
            "Hide Armor".to_owned()
        } else if self.0 == 380 {
            "Knife".to_owned()
        } else if self.0 == 484 {
            "Leaf".to_owned()
        } else if self.0 == 473 {
            "Leaf Armor".to_owned()
        } else if self.0 == 78 {
            "Log".to_owned()
        } else if self.0 == 373 {
            "Modern Arrow".to_owned()
        } else if self.0 == 388 {
            "Molotovs".to_owned()
        } else if self.0 == 438 {
            "MRE".to_owned()
        } else if self.0 == 421 {
            "Noodles".to_owned()
        } else if self.0 == 355 {
            "Pistol".to_owned()
        } else if self.0 == 362 {
            "Pistol Ammo".to_owned()
        } else if self.0 == 374 {
            "Pistol Silencer".to_owned()
        } else if self.0 == 413 {
            "Plasma Lighter".to_owned()
        } else if self.0 == 618 {
            "Printer Arrow".to_owned()
        } else if self.0 == 390 {
            "Printer Resin".to_owned()
        } else if self.0 == 590 {
            "Radio".to_owned()
        } else if self.0 == 433 {
            "Raw Meat".to_owned()
        } else if self.0 == 444 {
            "Rebreather".to_owned()
        } else if self.0 == 386 {
            "Revolver".to_owned()
        } else if self.0 == 393 {
            "Rock".to_owned()
        } else if self.0 == 403 {
            "Rope".to_owned()
        } else if self.0 == 522 {
            "Rope Gun".to_owned()
        } else if self.0 == 480 {
            "Severed Arm".to_owned()
        } else if self.0 == 481 {
            "Severed Leg".to_owned()
        } else if self.0 == 358 {
            "Shotgun".to_owned()
        } else if self.0 == 508 {
            "Skin Pouch".to_owned()
        } else if self.0 == 430 {
            "Skull".to_owned()
        } else if self.0 == 428 {
            "Sled".to_owned()
        } else if self.0 == 363 {
            "Slug (Shotgun Ammo)".to_owned()
        } else if self.0 == 476 {
            "Small Rock".to_owned()
        } else if self.0 == 392 {
            "Stick".to_owned()
        } else if self.0 == 507 {
            "Stone Arrow".to_owned()
        } else if self.0 == 353 {
            "Stun Gun".to_owned()
        } else if self.0 == 369 {
            "Stun Gun Ammo".to_owned()
        } else if self.0 == 619 {
            "Swimsuit".to_owned()
        } else if self.0 == 379 {
            "Tactical Axe".to_owned()
        } else if self.0 == 504 {
            "Tarp".to_owned()
        } else if self.0 == 554 {
            "Tech Armor".to_owned()
        } else if self.0 == 553 {
            "Tech Mesh".to_owned()
        } else if self.0 == 503 {
            "Torch".to_owned()
        } else if self.0 == 506 {
            "Turtle Shell".to_owned()
        } else if self.0 == 486 {
            "Walkie Talkie".to_owned()
        } else if self.0 == 410 {
            "Wristwatch".to_owned()
        } else if self.0 == 523 {
            "Zipline Rope".to_owned()
        } else {
            unknown_item_label(self.0)
        }
    }
}

/// One stack of items in the inventory.
#[derive(Debug, PartialEq)]
pub struct ItemBlock {
    pub item_id: ItemId,
    pub total_count: i32,
    /// Every field of the source document that is not known above, in
    /// document order.
    pub other: Vec<(String, Json)>,
}

/// Mathematical image of `ItemBlock`.
pub struct ItemBlockV {
    pub item_id: u16,
    pub total_count: i32,
    pub other: Seq<(Seq<char>, JsonV)>,
}

impl DeepView for ItemBlock {
    type V = ItemBlockV;

    open spec fn deep_view(&self) -> ItemBlockV {
        ItemBlockV {
            item_id: self.item_id.0,
            total_count: self.total_count,
            other: entries_v(self.other@),
        }
    }
}

/// The known field names of `ItemBlock`.
pub open spec fn block_known() -> Seq<Seq<char>> {
    seq!["ItemId"@, "TotalCount"@]
}

/// The known names of `ItemBlock` are pairwise distinct.
pub proof fn block_known_distinct()
    ensures
        forall|i: int, j: int|
            0 <= i < j < block_known().len() ==> block_known()[i] != block_known()[j],
{
    reveal_strlit("ItemId");
    reveal_strlit("TotalCount");
    assert("ItemId"@.len() == 6);
    assert("TotalCount"@.len() == 10);
    assert forall|i: int, j: int| 0 <= i < j < block_known().len() implies block_known()[i]
        != block_known()[j] by {
        assert(block_known().len() == 2);
    }
}

fn block_names() -> (r: Vec<String>)
    ensures
        names_v(r@) == block_known(),
        forall|i: int, j: int|
            0 <= i < j < r@.len() ==> (#[trigger] r@[i])@ != (#[trigger] r@[j])@,
{
    let mut v: Vec<String> = Vec::new();
    v.push("ItemId".to_owned());
    v.push("TotalCount".to_owned());
    proof {
        assert(names_v(v@) =~= block_known());
        block_known_distinct();
        assert forall|i: int, j: int| 0 <= i < j < v@.len() implies (#[trigger] v@[i])@ != (
        #[trigger] v@[j])@ by {
            assert(names_v(v@)[i] == v@[i]@);
            assert(names_v(v@)[j] == v@[j]@);
        }
    }
    v
}

/// Decoding a JSON value into an `ItemBlock`: it must be an object, and
/// both known fields must be present.
pub open spec fn decode_block_v(v: JsonV) -> Option<ItemBlockV> {
    match v {
        JsonV::Obj(o) => {
            let ii = spec_field_u16_req(obj_get(o, "ItemId"@));
            let tc = spec_field_i32_req(obj_get(o, "TotalCount"@));
            if ii is Some && tc is Some {
                Some(
                    ItemBlockV {
                        item_id: ii->0,
                        total_count: tc->0,
                        other: obj_residual(o, block_known()),
                    },
                )
            } else {
                None
            }
        },
        _ => None,
    }
}

/// The known fields an `ItemBlock` encodes to, in order.
pub open spec fn block_fields_v(b: ItemBlockV) -> Seq<(Seq<char>, JsonV)> {
    seq![
        ("ItemId"@, JsonV::Num(nat_text(b.item_id as nat))),
        ("TotalCount"@, JsonV::Num(int_text(b.total_count as int))),
    ]
}

/// Encoding an `ItemBlock`: the known fields first, then the residual.
pub open spec fn encode_block_v(b: ItemBlockV) -> JsonV {
    JsonV::Obj(block_fields_v(b) + b.other)
}

/// Well-formed within depth budget `d`.
pub open spec fn block_wf(b: ItemBlockV, d: int) -> bool {
    &&& d >= 1
    &&& wfb_entries(b.other, d - 1)
    &&& distinct_keys(b.other)
    &&& forall|i: int| 0 <= i < b.other.len() ==> !block_known().contains((#[trigger] b.other[i]).0)
}

/// Decodes an item block from a JSON value.
pub fn decode_item_block(j: Json) -> (r: Result<ItemBlock, SaveError>)
    ensures
        r is Ok <==> decode_block_v(j.deep_view()) is Some,
        r matches Ok(b) ==> decode_block_v(j.deep_view()) == Some(b.deep_view()),
{
    let o = match j {
        Json::Obj(o) => o,
        _ => {
            return Err(schema_error("item block: not an object"));
        },
    };
    let ghost ov = entries_v(o@);
    let names = block_names();
    let res = split_fields(o, &names);
    let mut slots = res.0;
    let rest = res.1;
    let ghost sl = slots@;
    proof {
        assert(names_v(names@).len() == names@.len());
        assert(block_known().len() == 2);
        assert(sl.len() == 2);
    }
    let s0 = take_slot(&mut slots);
    proof {
        assert(slots@ =~= sl.skip(1));
    }
    let s1 = take_slot(&mut slots);
    proof {
        assert(s1 == sl[1]);
        assert(names_v(names@)[0] == names@[0]@);
        assert(names_v(names@)[1] == names@[1]@);
    }
    let item_id = match field_u16_req(s0) {
        Some(v) => ItemId(v),
        None => {
            return Err(schema_error("ItemId: missing or not an item id"));
        },
    };
    let total_count = match field_i32_req(s1) {
        Some(v) => v,
        None => {
            return Err(schema_error("TotalCount: missing or not an integer"));
        },
    };
    Ok(ItemBlock { item_id, total_count, other: rest })
}

/// Encodes an item block as a JSON object.
pub fn encode_item_block(b: &ItemBlock) -> (r: Json)
    ensures
        r.deep_view() == encode_block_v(b.deep_view()),
{
    let mut out: Vec<(String, Json)> = Vec::new();
    out.push(("ItemId".to_owned(), Json::Num(u64_to_dec(b.item_id.0 as u64))));
    out.push(("TotalCount".to_owned(), Json::Num(i32_to_dec(b.total_count))));
    let mut rest = entries_clone(&b.other);
    out.append(&mut rest);
    proof {
        assert(entries_v(out@) =~= block_fields_v(b.deep_view()) + entries_v(b.other@));
    }
    Json::Obj(out)
}

/// A decoded record is well-formed at the budget its document satisfied.
pub proof fn lemma_decode_block_wf(v: JsonV, d: int)
    requires
        wfb(v, d),
        decode_block_v(v) is Some,
    ensures
        block_wf(decode_block_v(v)->0, d),
{
    let o = v->Obj_0;
    let b = decode_block_v(v)->0;
    lemma_residual_from(o, block_known());
    assert forall|i: int| 0 <= i < b.other.len() implies wfb((#[trigger] b.other[i]).1, d - 1) by {
        assert(o.contains(b.other[i]));
        let w = choose|w: int| 0 <= w < o.len() && o[w] == b.other[i];
        lemma_wfb_entries_index(o, d - 1, w);
    }
    lemma_wfb_entries_all(b.other, d - 1);
}

/// An encoded well-formed record is a well-formed object at the same budget.
pub proof fn lemma_encode_block_wf(b: ItemBlockV, d: int)
    requires
        block_wf(b, d),
    ensures
        wfb(encode_block_v(b), d),
{
    let known = block_fields_v(b);
    let o = known + b.other;
    block_known_distinct();
    assert forall|i: int, j: int| 0 <= i < j < o.len() implies o[i].0 != o[j].0 by {
        if j < known.len() {
            assert(o[i].0 == block_known()[i]);
            assert(o[j].0 == block_known()[j]);
        } else if i < known.len() {
            assert(o[i].0 == block_known()[i]);
            assert(block_known().contains(block_known()[i]));
            assert(o[j] == b.other[j - known.len()]);
        } else {
            assert(o[i] == b.other[i - known.len()]);
            assert(o[j] == b.other[j - known.len()]);
        }
    }
    assert forall|i: int| 0 <= i < o.len() implies wfb((#[trigger] o[i]).1, d - 1) by {
        if i < known.len() {
            lemma_nat_text_token(b.item_id as nat);
            lemma_int_text_token(b.total_count as int);
        } else {
            lemma_wfb_entries_index(b.other, d - 1, i - known.len());
        }
    }
    lemma_wfb_entries_all(o, d - 1);
}

/// Round trip: decoding an encoded record gives the record back.
pub proof fn lemma_block_round_trip(b: ItemBlockV)
    requires
        forall|i: int|
            0 <= i < b.other.len() ==> !block_known().contains((#[trigger] b.other[i]).0),
    ensures
        decode_block_v(encode_block_v(b)) == Some(b),
{
    let known = block_fields_v(b);
    let o = known + b.other;
    block_known_distinct();
    assert forall|t: int| 0 <= t < known.len() implies obj_get(o, block_known()[t]) == Some(
        known[t].1,
    ) by {
        assert(known[t].0 == block_known()[t]);
        lemma_get_at(known, t);
        lemma_get_concat(known, b.other, block_known()[t]);
    }
    lemma_unsigned_text_round(b.item_id as nat, u16::MAX as int);
    lemma_i32_text_round(b.total_count as int);
    assert forall|i: int| 0 <= i < known.len() implies block_known().contains(
        (#[trigger] known[i]).0,
    ) by {
        assert(known[i].0 == block_known()[i]);
    }
    lemma_residual_all_known(known, block_known());
    lemma_residual_none_known(b.other, block_known());
    assert(obj_residual(o, block_known()) =~= b.other);
}

/// The mathematical image of a list of item blocks.
pub open spec fn blocks_v(s: Seq<ItemBlock>) -> Seq<ItemBlockV> {
    Seq::new(s.len(), |i: int| s[i].deep_view())
}

/// Decoding a list of item blocks: every element must decode.
pub open spec fn decode_blocks_v(s: Seq<JsonV>) -> Option<Seq<ItemBlockV>> {
    if forall|i: int| 0 <= i < s.len() ==> decode_block_v(#[trigger] s[i]) is Some {
        Some(Seq::new(s.len(), |i: int| decode_block_v(s[i])->0))
    } else {
        None
    }
}

/// Encoding a list of item blocks, elementwise.
pub open spec fn blocks_enc_v(s: Seq<ItemBlockV>) -> Seq<JsonV> {
    Seq::new(s.len(), |i: int| encode_block_v(s[i]))
}

fn decode_block_list(v: Vec<Json>) -> (r: Result<Vec<ItemBlock>, SaveError>)
    ensures
        r is Ok <==> decode_blocks_v(arr_v(v@)) is Some,
        r matches Ok(out) ==> decode_blocks_v(arr_v(v@)) == Some(blocks_v(out@)),
{
    let ghost av = arr_v(v@);
    let mut out: Vec<ItemBlock> = Vec::new();
    let mut src = v;
    let ghost mut done: int = 0;
    proof {
        assert(arr_v(src@) =~= av.skip(0));
    }
    while src.len() > 0
        invariant
            av == arr_v(v@),
            0 <= done <= av.len(),
            arr_v(src@) =~= av.skip(done),
            out@.len() == done,
            forall|k: int|
                0 <= k < done ==> decode_block_v(#[trigger] av[k]) == Some(out@[k].deep_view()),
        decreases src@.len(),
    {
        proof {
            assert(arr_v(src@).len() == src@.len());
            assert(av.skip(done).len() == av.len() - done);
        }
        let ghost pre = src@;
        let j = src.remove(0);
        proof {
            assert(arr_v(pre)[0] == j.deep_view());
            assert(j.deep_view() == av[done]);
            assert forall|x: int| 0 <= x < src@.len() implies arr_v(src@)[x] == av.skip(
                done + 1,
            )[x] by {
                assert(pre.remove(0) =~= pre.drop_first());
                assert(src@[x] == pre[x + 1]);
                assert(arr_v(pre)[x + 1] == pre[x + 1].deep_view());
                assert(arr_v(pre)[x + 1] == av.skip(done)[x + 1]);
            }
            assert(arr_v(src@) =~= av.skip(done + 1));
        }
        match decode_item_block(j) {
            Ok(a) => {
                out.push(a);
            },
            Err(e) => {
                proof {
                    assert(decode_block_v(av[done]) is None);
                    assert(!(forall|i: int|
                        0 <= i < av.len() ==> decode_block_v(#[trigger] av[i]) is Some)) by {
                        if forall|i: int|
                            0 <= i < av.len() ==> decode_block_v(#[trigger] av[i]) is Some {
                            assert(decode_block_v(av[done]) is Some);
                        }
                    }
                }
                return Err(e);
            },
        }
        proof {
            done = done + 1;
        }
    }
    proof {
        assert(done == av.len());
        assert(decode_blocks_v(av) == Some(blocks_v(out@))) by {
            assert(Seq::new(av.len(), |i: int| decode_block_v(av[i])->0) =~= blocks_v(out@));
        }
    }
    Ok(out)
}

fn encode_block_list(v: &Vec<ItemBlock>) -> (r: Vec<Json>)
    ensures
        arr_v(r@) == blocks_enc_v(blocks_v(v@)),
{
    let mut out: Vec<Json> = Vec::new();
    let mut i: usize = 0;
    while i < v.len()
        invariant
            i <= v@.len(),
            out@.len() == i,
            forall|k: int|
                0 <= k < i ==> arr_v(out@)[k] == encode_block_v((#[trigger] v@[k]).deep_view()),
        decreases v@.len() - i,
    {
        out.push(encode_item_block(&v[i]));
        i = i + 1;
    }
    proof {
        assert(arr_v(out@) =~= blocks_enc_v(blocks_v(v@)));
    }
    out
}

/// The item-container record: the item blocks plus everything else.
#[derive(Debug, PartialEq)]
pub struct ItemInstanceManagerData {
    pub item_blocks: Vec<ItemBlock>,
    /// Every field of the source document that is not known above, in
    /// document order.
    pub other: Vec<(String, Json)>,
}

/// Mathematical image of `ItemInstanceManagerData`.
pub struct ItemInstanceManagerDataV {
    pub item_blocks: Seq<ItemBlockV>,
    pub other: Seq<(Seq<char>, JsonV)>,
}

impl DeepView for ItemInstanceManagerData {
    type V = ItemInstanceManagerDataV;

    open spec fn deep_view(&self) -> ItemInstanceManagerDataV {
        ItemInstanceManagerDataV {
            item_blocks: blocks_v(self.item_blocks@),
            other: entries_v(self.other@),
        }
    }
}

/// The known field names of `ItemInstanceManagerData`.
pub open spec fn iimd_known() -> Seq<Seq<char>> {
    seq!["ItemBlocks"@]
}

fn iimd_names() -> (r: Vec<String>)
    ensures
        names_v(r@) == iimd_known(),
        forall|i: int, j: int|
            0 <= i < j < r@.len() ==> (#[trigger] r@[i])@ != (#[trigger] r@[j])@,
{
    let mut v: Vec<String> = Vec::new();
    v.push("ItemBlocks".to_owned());
    proof {
        assert(names_v(v@) =~= iimd_known());
    }
    v
}

/// Decoding a JSON value into an `ItemInstanceManagerData`.
pub open spec fn decode_iimd_v(v: JsonV) -> Option<ItemInstanceManagerDataV> {
    match v {
        JsonV::Obj(o) => {
            let bl = match obj_get(o, "ItemBlocks"@) {
                None => Some(Seq::<ItemBlockV>::empty()),
                Some(JsonV::Arr(a)) => decode_blocks_v(a),
                Some(_) => None,
            };
            match bl {
                Some(blocks) => Some(
                    ItemInstanceManagerDataV {
                        item_blocks: blocks,
                        other: obj_residual(o, iimd_known()),
                    },
                ),
                None => None,
            }
        },
        _ => None,
    }
}

/// Encoding an `ItemInstanceManagerData`.
pub open spec fn encode_iimd_v(m: ItemInstanceManagerDataV) -> JsonV {
    JsonV::Obj(seq![("ItemBlocks"@, JsonV::Arr(blocks_enc_v(m.item_blocks)))] + m.other)
}

/// Well-formed within depth budget `d`.
pub open spec fn iimd_wf(m: ItemInstanceManagerDataV, d: int) -> bool {
    &&& d >= 2
    &&& forall|i: int| 0 <= i < m.item_blocks.len() ==> block_wf(#[trigger] m.item_blocks[i], d - 2)
    &&& wfb_entries(m.other, d - 1)
    &&& distinct_keys(m.other)
    &&& forall|i: int| 0 <= i < m.other.len() ==> !iimd_known().contains((#[trigger] m.other[i]).0)
}

/// The record a wholly absent field decodes to: no blocks, no residual.
pub open spec fn default_iimd_v() -> ItemInstanceManagerDataV {
    ItemInstanceManagerDataV { item_blocks: Seq::empty(), other: Seq::empty() }
}

impl Default for ItemInstanceManagerData {
    /// The zero record.
    fn default() -> (r: Self)
        ensures
            r.deep_view() == default_iimd_v(),
    {
        let r = ItemInstanceManagerData { item_blocks: Vec::new(), other: Vec::new() };
        proof {
            assert(blocks_v(r.item_blocks@) =~= Seq::<ItemBlockV>::empty());
            assert(entries_v(r.other@) =~= Seq::empty());
        }
        r
    }
}

/// Decodes an item-container record from a JSON value.
pub fn decode_iimd(j: Json) -> (r: Result<ItemInstanceManagerData, SaveError>)
    ensures
        r is Ok <==> decode_iimd_v(j.deep_view()) is Some,
        r matches Ok(m) ==> decode_iimd_v(j.deep_view()) == Some(m.deep_view()),
{
    let o = match j {
        Json::Obj(o) => o,
        _ => {
            return Err(schema_error("item manager: not an object"));
        },
    };
    let ghost ov = entries_v(o@);
    let names = iimd_names();
    let res = split_fields(o, &names);
    let mut slots = res.0;
    let rest = res.1;
    proof {
        assert(names_v(names@).len() == names@.len());
        assert(iimd_known().len() == 1);
    }
    let s0 = take_slot(&mut slots);
    proof {
        assert(names_v(names@)[0] == names@[0]@);
        assert(s0.deep_view() == obj_get(ov, "ItemBlocks"@));
    }
    let item_blocks = match s0 {
        None => Vec::new(),
        Some(Json::Arr(a)) => {
            match decode_block_list(a) {
                Ok(v) => v,
                Err(e) => {
                    return Err(e);
                },
            }
        },
        Some(_) => {
            return Err(schema_error("ItemBlocks: not an array"));
        },
    };
    proof {
        if s0 is None {
            assert(blocks_v(item_blocks@) =~= Seq::<ItemBlockV>::empty());
        }
    }
    Ok(ItemInstanceManagerData { item_blocks, other: rest })
}

/// Encodes an item-container record as a JSON object.
pub fn encode_iimd(m: &ItemInstanceManagerData) -> (r: Json)
    ensures
        r.deep_view() == encode_iimd_v(m.deep_view()),
{
    let mut out: Vec<(String, Json)> = Vec::new();
    out.push(("ItemBlocks".to_owned(), Json::Arr(encode_block_list(&m.item_blocks))));
    let mut rest = entries_clone(&m.other);
    out.append(&mut rest);
    proof {
        assert(entries_v(out@) =~= seq![
            ("ItemBlocks"@, JsonV::Arr(blocks_enc_v(m.deep_view().item_blocks))),
        ] + entries_v(m.other@));
    }
    Json::Obj(out)
}

/// A decoded record is well-formed at the budget its document satisfied.
pub proof fn lemma_decode_iimd_wf(v: JsonV, d: int)
    requires
        wfb(v, d),
        d >= 2,
        decode_iimd_v(v) is Some,
    ensures
        iimd_wf(decode_iimd_v(v)->0, d),
{
    let o = v->Obj_0;
    let m = decode_iimd_v(v)->0;
    lemma_residual_from(o, iimd_known());
    assert forall|i: int| 0 <= i < m.other.len() implies wfb((#[trigger] m.other[i]).1, d - 1) by {
        assert(o.contains(m.other[i]));
        let w = choose|w: int| 0 <= w < o.len() && o[w] == m.other[i];
        lemma_wfb_entries_index(o, d - 1, w);
    }
    lemma_wfb_entries_all(m.other, d - 1);
    let f = obj_get(o, "ItemBlocks"@);
    if f is Some {
        let t = lemma_get_index(o, "ItemBlocks"@);
        lemma_wfb_entries_index(o, d - 1, t);
        let a = f->0->Arr_0;
        assert forall|i: int| 0 <= i < m.item_blocks.len() implies block_wf(
            #[trigger] m.item_blocks[i],
            d - 2,
        ) by {
            lemma_wfb_seq_index(a, d - 2, i);
            lemma_decode_block_wf(a[i], d - 2);
        }
    }
}

/// An encoded well-formed record is a well-formed object at the same budget.
pub proof fn lemma_encode_iimd_wf(m: ItemInstanceManagerDataV, d: int)
    requires
        iimd_wf(m, d),
    ensures
        wfb(encode_iimd_v(m), d),
{
    let known = seq![("ItemBlocks"@, JsonV::Arr(blocks_enc_v(m.item_blocks)))];
    let o = known + m.other;
    assert forall|i: int, j: int| 0 <= i < j < o.len() implies o[i].0 != o[j].0 by {
        if i == 0 {
            assert(iimd_known().contains(iimd_known()[0]));
            assert(o[j] == m.other[j - 1]);
        } else {
            assert(o[i] == m.other[i - 1]);
            assert(o[j] == m.other[j - 1]);
        }
    }
    assert forall|i: int| 0 <= i < o.len() implies wfb((#[trigger] o[i]).1, d - 1) by {
        if i == 0 {
            assert forall|t: int| 0 <= t < blocks_enc_v(m.item_blocks).len() implies wfb(
                #[trigger] blocks_enc_v(m.item_blocks)[t],
                d - 2,
            ) by {
                lemma_encode_block_wf(m.item_blocks[t], d - 2);
            }
            lemma_wfb_seq_all(blocks_enc_v(m.item_blocks), d - 2);
        } else {
            lemma_wfb_entries_index(m.other, d - 1, i - 1);
        }
    }
    lemma_wfb_entries_all(o, d - 1);
}

/// Round trip: decoding an encoded record gives the record back.
pub proof fn lemma_iimd_round_trip(m: ItemInstanceManagerDataV)
    requires
        forall|i: int|
            0 <= i < m.other.len() ==> !iimd_known().contains((#[trigger] m.other[i]).0),
        forall|t: int|
            0 <= t < m.item_blocks.len() ==> (forall|i: int|
                0 <= i < (#[trigger] m.item_blocks[t]).other.len() ==> !block_known().contains(
                    (#[trigger] m.item_blocks[t].other[i]).0,
                )),
    ensures
        decode_iimd_v(encode_iimd_v(m)) == Some(m),
{
    let known = seq![("ItemBlocks"@, JsonV::Arr(blocks_enc_v(m.item_blocks)))];
    let o = known + m.other;
    lemma_get_at(known, 0);
    lemma_get_concat(known, m.other, "ItemBlocks"@);
    let enc = blocks_enc_v(m.item_blocks);
    assert forall|i: int| 0 <= i < enc.len() implies decode_block_v(#[trigger] enc[i]) == Some(
        m.item_blocks[i],
    ) by {
        lemma_block_round_trip(m.item_blocks[i]);
    }
    assert(Seq::new(enc.len(), |i: int| decode_block_v(enc[i])->0) =~= m.item_blocks);
    assert forall|i: int| 0 <= i < known.len() implies iimd_known().contains(
        (#[trigger] known[i]).0,
    ) by {
        assert(known[i].0 == iimd_known()[0]);
    }
    lemma_residual_all_known(known, iimd_known());
    lemma_residual_none_known(m.other, iimd_known());
    assert(obj_residual(o, iimd_known()) =~= m.other);
}


/// The inner inventory record: the item container plus everything else.
#[derive(Debug, PartialEq)]
pub struct PlayerInventoryInner {
    pub item_instance_manager_data: ItemInstanceManagerData,
    /// Every field of the source document that is not known above, in
    /// document order.
    pub other: Vec<(String, Json)>,
}

/// Mathematical image of `PlayerInventoryInner`.
pub struct PlayerInventoryInnerV {
    pub item_instance_manager_data: ItemInstanceManagerDataV,
    pub other: Seq<(Seq<char>, JsonV)>,
}

impl DeepView for PlayerInventoryInner {
    type V = PlayerInventoryInnerV;

    open spec fn deep_view(&self) -> PlayerInventoryInnerV {
        PlayerInventoryInnerV {
            item_instance_manager_data: self.item_instance_manager_data.deep_view(),
            other: entries_v(self.other@),
        }
    }
}

/// The known field names of `PlayerInventoryInner`.
pub open spec fn pii_known() -> Seq<Seq<char>> {
    seq!["ItemInstanceManagerData"@]
}

fn pii_names() -> (r: Vec<String>)
    ensures
        names_v(r@) == pii_known(),
        forall|i: int, j: int|
            0 <= i < j < r@.len() ==> (#[trigger] r@[i])@ != (#[trigger] r@[j])@,
{
    let mut v: Vec<String> = Vec::new();
    v.push("ItemInstanceManagerData".to_owned());
    proof {
        assert(names_v(v@) =~= pii_known());
    }
    v
}

/// Decoding a JSON value into a `PlayerInventoryInner`: the container,
/// when present, must be an object; when absent it defaults to empty.
pub open spec fn decode_pii_v(v: JsonV) -> Option<PlayerInventoryInnerV> {
    match v {
        JsonV::Obj(o) => {
            let md = match obj_get(o, "ItemInstanceManagerData"@) {
                None => Some(default_iimd_v()),
                Some(mv) => decode_iimd_v(mv),
            };
            match md {
                Some(m) => Some(
                    PlayerInventoryInnerV {
                        item_instance_manager_data: m,
                        other: obj_residual(o, pii_known()),
                    },
                ),
                None => None,
            }
        },
        _ => None,
    }
}

/// Encoding a `PlayerInventoryInner`.
pub open spec fn encode_pii_v(p: PlayerInventoryInnerV) -> JsonV {
    JsonV::Obj(
        seq![("ItemInstanceManagerData"@, encode_iimd_v(p.item_instance_manager_data))] + p.other,
    )
}

/// Well-formed within depth budget `d`.
pub open spec fn pii_wf(p: PlayerInventoryInnerV, d: int) -> bool {
    &&& d >= 1
    &&& iimd_wf(p.item_instance_manager_data, d - 1)
    &&& wfb_entries(p.other, d - 1)
    &&& distinct_keys(p.other)
    &&& forall|i: int| 0 <= i < p.other.len() ==> !pii_known().contains((#[trigger] p.other[i]).0)
}

/// The record a wholly absent nested document decodes to.
pub open spec fn default_pii_v() -> PlayerInventoryInnerV {
    PlayerInventoryInnerV { item_instance_manager_data: default_iimd_v(), other: Seq::empty() }
}

impl Default for PlayerInventoryInner {
    /// The zero record.
    fn default() -> (r: Self)
        ensures
            r.deep_view() == default_pii_v(),
    {
        let r = PlayerInventoryInner {
            item_instance_manager_data: ItemInstanceManagerData::default(),
            other: Vec::new(),
        };
        proof {
            assert(entries_v(r.other@) =~= Seq::empty());
        }
        r
    }
}

/// Decodes an inner inventory record from a JSON value.
pub fn decode_player_inventory_inner(j: Json) -> (r: Result<PlayerInventoryInner, SaveError>)
    ensures
        r is Ok <==> decode_pii_v(j.deep_view()) is Some,
        r matches Ok(p) ==> decode_pii_v(j.deep_view()) == Some(p.deep_view()),
{
    let o = match j {
        Json::Obj(o) => o,
        _ => {
            return Err(schema_error("player inventory: not an object"));
        },
    };
    let ghost ov = entries_v(o@);
    let names = pii_names();
    let res = split_fields(o, &names);
    let mut slots = res.0;
    let rest = res.1;
    proof {
        assert(names_v(names@).len() == names@.len());
        assert(pii_known().len() == 1);
    }
    let s0 = take_slot(&mut slots);
    proof {
        assert(names_v(names@)[0] == names@[0]@);
        assert(s0.deep_view() == obj_get(ov, "ItemInstanceManagerData"@));
    }
    let item_instance_manager_data = match s0 {
        None => ItemInstanceManagerData::default(),
        Some(mj) => {
            match decode_iimd(mj) {
                Ok(m) => m,
                Err(e) => {
                    return Err(e);
                },
            }
        },
    };
    Ok(PlayerInventoryInner { item_instance_manager_data, other: rest })
}

/// Encodes an inner inventory record as a JSON object.
pub fn encode_player_inventory_inner(p: &PlayerInventoryInner) -> (r: Json)
    ensures
        r.deep_view() == encode_pii_v(p.deep_view()),
{
    let mut out: Vec<(String, Json)> = Vec::new();
    out.push((
        "ItemInstanceManagerData".to_owned(),
        encode_iimd(&p.item_instance_manager_data),
    ));
    let mut rest = entries_clone(&p.other);
    out.append(&mut rest);
    proof {
        assert(entries_v(out@) =~= seq![
            (
                "ItemInstanceManagerData"@,
                encode_iimd_v(p.deep_view().item_instance_manager_data),
            ),
        ] + entries_v(p.other@));
    }
    Json::Obj(out)
}

/// A decoded record is well-formed at the budget its document satisfied.
pub proof fn lemma_decode_pii_wf(v: JsonV, d: int)
    requires
        wfb(v, d),
        d >= 3,
        decode_pii_v(v) is Some,
    ensures
        pii_wf(decode_pii_v(v)->0, d),
{
    let o = v->Obj_0;
    let p = decode_pii_v(v)->0;
    lemma_residual_from(o, pii_known());
    assert forall|i: int| 0 <= i < p.other.len() implies wfb((#[trigger] p.other[i]).1, d - 1) by {
        assert(o.contains(p.other[i]));
        let w = choose|w: int| 0 <= w < o.len() && o[w] == p.other[i];
        lemma_wfb_entries_index(o, d - 1, w);
    }
    lemma_wfb_entries_all(p.other, d - 1);
    let f = obj_get(o, "ItemInstanceManagerData"@);
    if f is Some {
        let t = lemma_get_index(o, "ItemInstanceManagerData"@);
        lemma_wfb_entries_index(o, d - 1, t);
        lemma_decode_iimd_wf(f->0, d - 1);
    }
}

/// An encoded well-formed record is a well-formed object at the same budget.
pub proof fn lemma_encode_pii_wf(p: PlayerInventoryInnerV, d: int)
    requires
        pii_wf(p, d),
    ensures
        wfb(encode_pii_v(p), d),
{
    let known = seq![("ItemInstanceManagerData"@, encode_iimd_v(p.item_instance_manager_data))];
    let o = known + p.other;
    assert forall|i: int, j: int| 0 <= i < j < o.len() implies o[i].0 != o[j].0 by {
        if i == 0 {
            assert(pii_known().contains(pii_known()[0]));
            assert(o[j] == p.other[j - 1]);
        } else {
            assert(o[i] == p.other[i - 1]);
            assert(o[j] == p.other[j - 1]);
        }
    }
    assert forall|i: int| 0 <= i < o.len() implies wfb((#[trigger] o[i]).1, d - 1) by {
        if i == 0 {
            lemma_encode_iimd_wf(p.item_instance_manager_data, d - 1);
        } else {
            lemma_wfb_entries_index(p.other, d - 1, i - 1);
        }
    }
    lemma_wfb_entries_all(o, d - 1);
}

/// Round trip: decoding an encoded record gives the record back.
pub proof fn lemma_pii_round_trip(p: PlayerInventoryInnerV)
    requires
        forall|i: int| 0 <= i < p.other.len() ==> !pii_known().contains((#[trigger] p.other[i]).0),
        forall|i: int|
            0 <= i < p.item_instance_manager_data.other.len() ==> !iimd_known().contains(
                (#[trigger] p.item_instance_manager_data.other[i]).0,
            ),
        forall|t: int|
            0 <= t < p.item_instance_manager_data.item_blocks.len() ==> (forall|i: int|
                0 <= i < (#[trigger] p.item_instance_manager_data.item_blocks[t]).other.len()
                    ==> !block_known().contains(
                    (#[trigger] p.item_instance_manager_data.item_blocks[t].other[i]).0,
                )),
    ensures
        decode_pii_v(encode_pii_v(p)) == Some(p),
{
    let known = seq![("ItemInstanceManagerData"@, encode_iimd_v(p.item_instance_manager_data))];
    let o = known + p.other;
    lemma_get_at(known, 0);
    lemma_get_concat(known, p.other, "ItemInstanceManagerData"@);
    lemma_iimd_round_trip(p.item_instance_manager_data);
    assert forall|i: int| 0 <= i < known.len() implies pii_known().contains(
        (#[trigger] known[i]).0,
    ) by {
        assert(known[i].0 == pii_known()[0]);
    }
    lemma_residual_all_known(known, pii_known());
    lemma_residual_none_known(p.other, pii_known());
    assert(obj_residual(o, pii_known()) =~= p.other);
}

/// The parent inventory document: the inner record is stored as a JSON
/// string under `PlayerInventory`; every other field rides along
/// unchanged.
#[derive(Debug, PartialEq)]
pub struct PlayerInventory {
    pub player_inventory: PlayerInventoryInner,
    /// Every field of the source document that is not known above, in
    /// document order.
    pub other: Vec<(String, Json)>,
}

/// Mathematical image of `PlayerInventory`.
pub struct PlayerInventoryV {
    pub player_inventory: PlayerInventoryInnerV,
    pub other: Seq<(Seq<char>, JsonV)>,
}

impl DeepView for PlayerInventory {
    type V = PlayerInventoryV;

    open spec fn deep_view(&self) -> PlayerInventoryV {
        PlayerInventoryV {
            player_inventory: self.player_inventory.deep_view(),
            other: entries_v(self.other@),
        }
    }
}

/// The known field names of `PlayerInventory`.
pub open spec fn pi_known() -> Seq<Seq<char>> {
    seq!["PlayerInventory"@]
}

fn pi_names() -> (r: Vec<String>)
    ensures
        names_v(r@) == pi_known(),
        forall|i: int, j: int|
            0 <= i < j < r@.len() ==> (#[trigger] r@[i])@ != (#[trigger] r@[j])@,
{
    let mut v: Vec<String> = Vec::new();
    v.push("PlayerInventory".to_owned());
    proof {
        assert(names_v(v@) =~= pi_known());
    }
    v
}

/// Decoding a JSON value into a `PlayerInventory`: the nested field, when
/// present, must be a string holding a parsable nested document.
pub open spec fn decode_pi_v(v: JsonV) -> Option<PlayerInventoryV> {
    match v {
        JsonV::Obj(o) => {
            let f = obj_get(o, "PlayerInventory"@);
            let inner = if f is None {
                Some(default_pii_v())
            } else if f->0 is Str {
                match json_parse(f->0->Str_0) {
                    Some(iv) => decode_pii_v(iv),
                    None => None,
                }
            } else {
                None
            };
            match inner {
                Some(p) => Some(
                    PlayerInventoryV { player_inventory: p, other: obj_residual(o, pi_known()) },
                ),
                None => None,
            }
        },
        _ => None,
    }
}

/// Encoding a `PlayerInventory`: the nested record is serialized to text
/// and stored as a string, then the residual follows.
pub open spec fn encode_pi_v(p: PlayerInventoryV) -> JsonV {
    JsonV::Obj(
        seq![("PlayerInventory"@, JsonV::Str(json_text_of(encode_pii_v(p.player_inventory))))]
            + p.other,
    )
}

/// The document-level part of well-formedness.
pub open spec fn pi_outer_wf(p: PlayerInventoryV, d: int) -> bool {
    &&& d >= 1
    &&& wfb_entries(p.other, d - 1)
    &&& distinct_keys(p.other)
    &&& forall|i: int| 0 <= i < p.other.len() ==> !pi_known().contains((#[trigger] p.other[i]).0)
}

/// Well-formed within depth budget `d`.
pub open spec fn pi_wf(p: PlayerInventoryV, d: int) -> bool {
    &&& pi_outer_wf(p, d)
    &&& pii_wf(p.player_inventory, depth_budget())
}

/// Decodes an inventory document from a JSON value.
pub fn decode_player_inventory(j: Json) -> (r: Result<PlayerInventory, SaveError>)
    ensures
        r is Ok <==> decode_pi_v(j.deep_view()) is Some,
        r matches Ok(p) ==> decode_pi_v(j.deep_view()) == Some(p.deep_view()),
        r matches Ok(p) ==> pii_wf(p.player_inventory.deep_view(), depth_budget()),
{
    let o = match j {
        Json::Obj(o) => o,
        _ => {
            return Err(schema_error("inventory document: not an object"));
        },
    };
    let ghost ov = entries_v(o@);
    let names = pi_names();
    let res = split_fields(o, &names);
    let mut slots = res.0;
    let rest = res.1;
    proof {
        assert(names_v(names@).len() == names@.len());
        assert(pi_known().len() == 1);
    }
    let s0 = take_slot(&mut slots);
    proof {
        assert(names_v(names@)[0] == names@[0]@);
        assert(s0.deep_view() == obj_get(ov, "PlayerInventory"@));
    }
    let inner = match s0 {
        None => PlayerInventoryInner::default(),
        Some(Json::Str(t)) => {
            match parse_json(t.as_str()) {
                Some(ij) => {
                    match decode_player_inventory_inner(ij) {
                        Ok(p) => {
                            proof {
                                lemma_decode_pii_wf(ij.deep_view(), depth_budget());
                            }
                            p
                        },
                        Err(e) => {
                            return Err(e);
                        },
                    }
                },
                None => {
                    return Err(schema_error("PlayerInventory: nested document does not parse"));
                },
            }
        },
        Some(_) => {
            return Err(schema_error("PlayerInventory: not a string"));
        },
    };
    Ok(PlayerInventory { player_inventory: inner, other: rest })
}

/// Encodes an inventory document as a JSON object.
pub fn encode_player_inventory(p: &PlayerInventory) -> (r: Json)
    requires
        pii_wf(p.player_inventory.deep_view(), depth_budget()),
    ensures
        r.deep_view() == encode_pi_v(p.deep_view()),
        json_parse(json_text_of(encode_pii_v(p.player_inventory.deep_view()))) == Some(
            encode_pii_v(p.player_inventory.deep_view()),
        ),
{
    let inner_json = encode_player_inventory_inner(&p.player_inventory);
    proof {
        lemma_encode_pii_wf(p.player_inventory.deep_view(), depth_budget());
    }
    let text = json_to_text(&inner_json);
    let mut out: Vec<(String, Json)> = Vec::new();
    out.push(("PlayerInventory".to_owned(), Json::Str(text)));
    let mut rest = entries_clone(&p.other);
    out.append(&mut rest);
    proof {
        assert(entries_v(out@) =~= seq![
            (
                "PlayerInventory"@,
                JsonV::Str(json_text_of(encode_pii_v(p.player_inventory.deep_view()))),
            ),
        ] + entries_v(p.other@));
    }
    Json::Obj(out)
}

/// Round trip: decoding an encoded document gives the record back.  The
/// `json_parse` premise is exactly what the serializer promises of the
/// nested text it emits.
pub proof fn lemma_pi_round_trip(p: PlayerInventoryV)
    requires
        forall|i: int| 0 <= i < p.other.len() ==> !pi_known().contains((#[trigger] p.other[i]).0),
        forall|i: int|
            0 <= i < p.player_inventory.other.len() ==> !pii_known().contains(
                (#[trigger] p.player_inventory.other[i]).0,
            ),
        forall|i: int|
            0 <= i < p.player_inventory.item_instance_manager_data.other.len()
                ==> !iimd_known().contains(
                (#[trigger] p.player_inventory.item_instance_manager_data.other[i]).0,
            ),
        forall|t: int|
            0 <= t < p.player_inventory.item_instance_manager_data.item_blocks.len() ==> (
            forall|i: int|
                0 <= i < (
                #[trigger] p.player_inventory.item_instance_manager_data.item_blocks[t]).other.len()
                    ==> !block_known().contains(
                    (#[trigger] p.player_inventory.item_instance_manager_data.item_blocks[t].other[i]).0,
                )),
        json_parse(json_text_of(encode_pii_v(p.player_inventory))) == Some(
            encode_pii_v(p.player_inventory),
        ),
    ensures
        decode_pi_v(encode_pi_v(p)) == Some(p),
{
    let known = seq![
        ("PlayerInventory"@, JsonV::Str(json_text_of(encode_pii_v(p.player_inventory)))),
    ];
    let o = known + p.other;
    lemma_get_at(known, 0);
    lemma_get_concat(known, p.other, "PlayerInventory"@);
    lemma_pii_round_trip(p.player_inventory);
    assert forall|i: int| 0 <= i < known.len() implies pi_known().contains(
        (#[trigger] known[i]).0,
    ) by {
        assert(known[i].0 == pi_known()[0]);
    }
    lemma_residual_all_known(known, pi_known());
    lemma_residual_none_known(p.other, pi_known());
    assert(obj_residual(o, pi_known()) =~= p.other);
}


/// Decoding an inventory file: a `Version` string and a `Data` document.
pub open spec fn decode_inv_file_v(v: JsonV) -> Option<GenericDataV<PlayerInventoryV>> {
    match v {
        JsonV::Obj(o) => {
            match (obj_get(o, "Version"@), obj_get(o, "Data"@)) {
                (Some(JsonV::Str(ver)), Some(dat)) => match decode_pi_v(dat) {
                    Some(p) => Some(GenericDataV { version: ver, data: p }),
                    None => None,
                },
                _ => None,
            }
        },
        _ => None,
    }
}

/// Encoding an inventory file.
pub open spec fn encode_inv_file_v(e: GenericDataV<PlayerInventoryV>) -> JsonV {
    JsonV::Obj(seq![("Version"@, JsonV::Str(e.version)), ("Data"@, encode_pi_v(e.data))])
}

/// What reading an inventory file text yields.
pub open spec fn read_inv_file_v(t: Seq<char>) -> Option<GenericDataV<PlayerInventoryV>> {
    match json_parse(t) {
        Some(v) => decode_inv_file_v(v),
        None => None,
    }
}

/// Well-formed inventory envelope within budget `d`.
pub open spec fn env_inv_wf(e: GenericDataV<PlayerInventoryV>, d: int) -> bool {
    &&& d >= 1
    &&& pi_wf(e.data, d - 1)
}

/// Builds an inventory document from its file text.
pub fn inventory_from_text(text: &str) -> (r: Result<GenericData<PlayerInventory>, SaveError>)
    ensures
        r is Ok <==> read_inv_file_v(text@) is Some,
        r matches Ok(e) ==> read_inv_file_v(text@) == Some(e.deep_view()),
        r matches Ok(e) ==> env_inv_wf(e.deep_view(), depth_budget()),
{
    let j = match parse_json(text) {
        Some(j) => j,
        None => {
            return Err(schema_error("inventory file: malformed JSON"));
        },
    };
    let o = match j {
        Json::Obj(o) => o,
        _ => {
            return Err(schema_error("inventory file: not an object"));
        },
    };
    let ghost ov = entries_v(o@);
    let version = match crate::save::obj_find(&o, &"Version".to_owned()) {
        Some(Json::Str(s)) => s.clone(),
        Some(_) => {
            return Err(schema_error("Version: not a string"));
        },
        None => {
            return Err(schema_error("Version: missing"));
        },
    };
    let dat = match crate::save::obj_find(&o, &"Data".to_owned()) {
        Some(d) => crate::json::json_clone(d),
        None => {
            return Err(schema_error("Data: missing"));
        },
    };
    let data = match decode_player_inventory(dat) {
        Ok(p) => p,
        Err(e) => {
            return Err(e);
        },
    };
    proof {
        let w = lemma_get_index(ov, "Data"@);
        lemma_wfb_entries_index(ov, depth_budget() - 1, w);
        let dv = obj_get(ov, "Data"@)->0;
        let p = decode_pi_v(dv)->0;
        lemma_residual_from(dv->Obj_0, pi_known());
        assert forall|i: int| 0 <= i < p.other.len() implies wfb(
            (#[trigger] p.other[i]).1,
            depth_budget() - 2,
        ) by {
            assert(dv->Obj_0.contains(p.other[i]));
            let t = choose|t: int| 0 <= t < dv->Obj_0.len() && dv->Obj_0[t] == p.other[i];
            lemma_wfb_entries_index(dv->Obj_0, depth_budget() - 2, t);
        }
        lemma_wfb_entries_all(p.other, depth_budget() - 2);
    }
    Ok(GenericData { version, data })
}

/// Serializes an inventory document back into its file text, with the
/// serializer's parse-back guarantee.
pub fn inventory_to_text(e: &GenericData<PlayerInventory>) -> (r: String)
    requires
        env_inv_wf(e.deep_view(), depth_budget()),
    ensures
        r@ == json_text_of(encode_inv_file_v(e.deep_view())),
        json_parse(r@) == Some(encode_inv_file_v(e.deep_view())),
        json_parse(json_text_of(encode_pii_v(e.data.player_inventory.deep_view()))) == Some(
            encode_pii_v(e.data.player_inventory.deep_view()),
        ),
{
    let doc = encode_player_inventory(&e.data);
    let mut out: Vec<(String, Json)> = Vec::new();
    out.push(("Version".to_owned(), Json::Str(e.version.clone())));
    out.push(("Data".to_owned(), doc));
    proof {
        assert(entries_v(out@) =~= encode_inv_file_v(e.deep_view())->Obj_0);
        reveal_strlit("Version");
        reveal_strlit("Data");
        assert("Version"@.len() == 7);
        assert("Data"@.len() == 4);
        let known = seq![("PlayerInventory"@, JsonV::Str(json_text_of(encode_pii_v(
            e.data.player_inventory.deep_view(),
        ))))];
        let o2 = known + e.deep_view().data.other;
        assert forall|i: int, j: int| 0 <= i < j < o2.len() implies o2[i].0 != o2[j].0 by {
            if i == 0 {
                assert(pi_known().contains(pi_known()[0]));
                assert(o2[j] == e.deep_view().data.other[j - 1]);
            } else {
                assert(o2[i] == e.deep_view().data.other[i - 1]);
                assert(o2[j] == e.deep_view().data.other[j - 1]);
            }
        }
        assert forall|i: int| 0 <= i < o2.len() implies wfb(
            (#[trigger] o2[i]).1,
            depth_budget() - 2,
        ) by {
            if i > 0 {
                lemma_wfb_entries_index(e.deep_view().data.other, depth_budget() - 2, i - 1);
            }
        }
        lemma_wfb_entries_all(o2, depth_budget() - 2);
        let fo = encode_inv_file_v(e.deep_view())->Obj_0;
        assert forall|i: int| 0 <= i < fo.len() implies wfb(
            (#[trigger] fo[i]).1,
            depth_budget() - 1,
        ) by {}
        lemma_wfb_entries_all(fo, depth_budget() - 1);
    }
    let file = Json::Obj(out);
    json_to_text(&file)
}

/// Round trip for an encoded inventory file.  The premise is the text
/// layer's guarantee about the nested text it emits.
pub proof fn lemma_inv_file_round_trip(e: GenericDataV<PlayerInventoryV>)
    requires
        env_inv_wf(e, depth_budget()),
        json_parse(json_text_of(encode_pii_v(e.data.player_inventory))) == Some(
            encode_pii_v(e.data.player_inventory),
        ),
    ensures
        decode_inv_file_v(encode_inv_file_v(e)) == Some(e),
{
    reveal_strlit("Version");
    reveal_strlit("Data");
    assert("Version"@.len() == 7);
    assert("Data"@.len() == 4);
    let fk = encode_inv_file_v(e)->Obj_0;
    lemma_get_at(fk, 0);
    lemma_get_at(fk, 1);
    let p = e.data;
    assert forall|t: int| 0 <= t < p.player_inventory.item_instance_manager_data.item_blocks.len()
        implies (forall|i: int|
        0 <= i < (
        #[trigger] p.player_inventory.item_instance_manager_data.item_blocks[t]).other.len()
            ==> !block_known().contains(
            (#[trigger] p.player_inventory.item_instance_manager_data.item_blocks[t].other[i]).0,
        )) by {
        assert(iimd_wf(p.player_inventory.item_instance_manager_data, depth_budget() - 1));
        assert(block_wf(
            p.player_inventory.item_instance_manager_data.item_blocks[t],
            depth_budget() - 3,
        ));
    }
    lemma_pi_round_trip(p);
}

} // verus!
