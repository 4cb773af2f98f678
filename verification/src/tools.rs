//! The mutation tools built on the save aggregate: one per revivable
//! companion, each caching the character's death status and offering the
//! resurrection, plus the inventory viewer's state.

use vstd::prelude::*;

use crate::json::{num_body, num_digits_then, num_frac, num_frac_digits, num_token};
use crate::save::{is_dead_v, resurrect_v, save_wf, Save};
use crate::save_data::{Health, HealthV};

verus! {

broadcast use vstd::string::group_string_axioms;

/// Kelvin's actor type id.
pub open spec fn kelvin_id() -> u32 {
    9
}

/// Virginia's actor type id.
pub open spec fn virginia_id() -> u32 {
    10
}

/// The health Kelvin is revived with.
pub open spec fn kelvin_revival_health() -> HealthV {
    HealthV::Num("100.0"@)
}

/// The health Virginia is revived with.
pub open spec fn virginia_revival_health() -> HealthV {
    HealthV::Num("120.0"@)
}

/// The revival health tokens are well-formed numbers above zero.
proof fn lemma_revival_tokens()
    ensures
        num_token("100.0"@),
        num_token("120.0"@),
        !crate::save_data::health_dead(kelvin_revival_health()),
        !crate::save_data::health_dead(virginia_revival_health()),
{
    reveal_strlit("100.0");
    reveal_strlit("120.0");
    let a = "100.0"@;
    assert(a.len() == 5);
    assert(a[0] == '1' && a[1] == '0' && a[2] == '0' && a[3] == '.' && a[4] == '0');
    assert(num_frac_digits(a, 5));
    assert(num_frac(a, 4));
    assert(num_digits_then(a, 3));
    assert(num_digits_then(a, 2));
    assert(num_digits_then(a, 1));
    assert(num_body(a, 0));
    let b = "120.0"@;
    assert(b.len() == 5);
    assert(b[0] == '1' && b[1] == '2' && b[2] == '0' && b[3] == '.' && b[4] == '0');
    assert(num_frac_digits(b, 5));
    assert(num_frac(b, 4));
    assert(num_digits_then(b, 3));
    assert(num_digits_then(b, 2));
    assert(num_digits_then(b, 1));
    assert(num_body(b, 0));
    assert(!crate::numtext::num_le_zero(a));
    assert(!crate::numtext::num_le_zero(b));
}

/// The tool that watches and revives Kelvin.
#[derive(Debug, PartialEq)]
pub struct ToolKelvin {
    pub is_dead: bool,
}

impl ToolKelvin {
    /// A fresh tool, already knowing whether Kelvin is dead.
    pub fn new(save: &Save) -> (r: Self)
        ensures
            r.is_dead == is_dead_v(save.deep_view(), kelvin_id()),
    {
        let mut tool = ToolKelvin { is_dead: false };
        tool.fetch_is_dead(save);
        tool
    }

    /// Re-reads the three death signals for Kelvin.
    pub fn fetch_is_dead(&mut self, save: &Save)
        ensures
            final(self).is_dead == is_dead_v(save.deep_view(), kelvin_id()),
    {
        self.is_dead = save.is_dead(9);
    }

    /// Revives Kelvin at 100 health, whatever his current state.
    pub fn resurrect(&mut self, save: &mut Save)
        ensures
            final(save).deep_view() == resurrect_v(
                old(save).deep_view(),
                kelvin_id(),
                kelvin_revival_health(),
            ),
            save_wf(old(save).deep_view()) ==> save_wf(final(save).deep_view()),
            final(self).is_dead == false,
    {
        proof {
            lemma_revival_tokens();
        }
        save.resurrect(9, Health::Num("100.0".to_owned()));
        self.is_dead = false;
    }
}

/// The tool that watches and revives Virginia.
#[derive(Debug, PartialEq)]
pub struct ToolVirginia {
    pub is_dead: bool,
}

impl ToolVirginia {
    /// A fresh tool, already knowing whether Virginia is dead.
    pub fn new(save: &Save) -> (r: Self)
        ensures
            r.is_dead == is_dead_v(save.deep_view(), virginia_id()),
    {
        let mut tool = ToolVirginia { is_dead: false };
        tool.fetch_is_dead(save);
        tool
    }

    /// Re-reads the three death signals for Virginia.
    pub fn fetch_is_dead(&mut self, save: &Save)
        ensures
            final(self).is_dead == is_dead_v(save.deep_view(), virginia_id()),
    {
        self.is_dead = save.is_dead(10);
    }

    /// Revives Virginia at 120 health, whatever her current state.
    pub fn resurrect(&mut self, save: &mut Save)
        ensures
            final(save).deep_view() == resurrect_v(
                old(save).deep_view(),
                virginia_id(),
                virginia_revival_health(),
            ),
            save_wf(old(save).deep_view()) ==> save_wf(final(save).deep_view()),
            final(self).is_dead == false,
    {
        proof {
            lemma_revival_tokens();
        }
        save.resurrect(10, Health::Num("120.0".to_owned()));
        self.is_dead = false;
    }
}

/// The inventory viewer's state; the viewer itself only reads the save.
#[derive(Debug, PartialEq)]
pub struct ToolInventory {}

impl ToolInventory {
    /// A fresh inventory viewer.
    pub fn new(save: &Save) -> (r: Self) {
        let _ = save;
        ToolInventory {  }
    }
}

/// One tool per companion, kept beside the save they operate on.
#[derive(Debug, PartialEq)]
pub struct SaveTools {
    pub kelvin: ToolKelvin,
    pub virginia: ToolVirginia,
}

impl SaveTools {
    /// Fresh tools for a newly loaded save.
    pub fn new(save: &Save) -> (r: Self)
        ensures
            r.kelvin.is_dead == is_dead_v(save.deep_view(), kelvin_id()),
            r.virginia.is_dead == is_dead_v(save.deep_view(), virginia_id()),
    {
        SaveTools { kelvin: ToolKelvin::new(save), virginia: ToolVirginia::new(save) }
    }
}

} // verus!
