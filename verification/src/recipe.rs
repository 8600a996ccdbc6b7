//! Recipes: how raw events are "cooked" into events with a logical
//! meaning, assigning them histogram coordinates and signal meanings.
//!
//! Each recipe has a `process` method taking and giving back a batch of
//! events in order, and `start_of_run` for recipes that keep run state.

pub mod canon;
pub mod histo;
pub mod jumiom;
pub mod kws;
pub mod mesy;
pub mod tof;

use vstd::prelude::*;
use crate::event::Event;
use crate::text::{chars_eq_str, push_str, str_to_chars};

verus! {

/// A null recipe: leaves events as they are.
#[derive(Debug, Clone, Copy, PartialEq, Eq, Structural)]
pub struct NoRecipe {}

impl NoRecipe {
    pub fn new() -> (r: NoRecipe) {
        NoRecipe {}
    }

    pub fn process(&mut self, events: Vec<Event>) -> (out: Vec<Event>)
        ensures
            out@ == events@,
    {
        events
    }
}

/// The kinds of recipe a configuration can name.
#[derive(Debug, Clone, Copy, PartialEq, Eq, Structural)]
pub enum RecipeKind {
    /// The null recipe.
    Null,
    HistoStd,
    HistoTof,
    MesyMpsd,
    MesyMdll,
    Canon,
    KwsGe,
    Jumiom,
    TofStd,
}

/// The type name under which a recipe kind is configured and reported.
pub open spec fn kind_type_name(k: RecipeKind) -> Seq<char> {
    match k {
        RecipeKind::Null => "none"@,
        RecipeKind::HistoStd => "histo_std"@,
        RecipeKind::HistoTof => "histo_tof"@,
        RecipeKind::MesyMpsd => "mesy_mpsd"@,
        RecipeKind::MesyMdll => "mesy_mdll"@,
        RecipeKind::Canon => "canon"@,
        RecipeKind::KwsGe => "kws_ge"@,
        RecipeKind::Jumiom => "jumiom"@,
        RecipeKind::TofStd => "tof_std"@,
    }
}

/// The kind a configured type name stands for: each kind's own name, and
/// `kws_gedet` for the KWS recipe as well.
pub open spec fn kind_of_type(t: Seq<char>) -> Option<RecipeKind> {
    if t == "kws_gedet"@ {
        Some(RecipeKind::KwsGe)
    } else if exists|k: RecipeKind| kind_type_name(k) == t {
        Some(choose|k: RecipeKind| kind_type_name(k) == t)
    } else {
        None
    }
}

impl RecipeKind {
    /// The type name of the kind.
    pub fn config_name(&self) -> (r: &'static str)
        ensures
            r@ == kind_type_name(*self),
    {
        match self {
            RecipeKind::Null => "none",
            RecipeKind::HistoStd => "histo_std",
            RecipeKind::HistoTof => "histo_tof",
            RecipeKind::MesyMpsd => "mesy_mpsd",
            RecipeKind::MesyMdll => "mesy_mdll",
            RecipeKind::Canon => "canon",
            RecipeKind::KwsGe => "kws_ge",
            RecipeKind::Jumiom => "jumiom",
            RecipeKind::TofStd => "tof_std",
        }
    }
}

proof fn lemma_type_names_distinct(a: RecipeKind, b: RecipeKind)
    requires
        kind_type_name(a) == kind_type_name(b),
    ensures
        a == b,
{
    reveal_strlit("none");
    reveal_strlit("histo_std");
    reveal_strlit("histo_tof");
    reveal_strlit("mesy_mpsd");
    reveal_strlit("mesy_mdll");
    reveal_strlit("canon");
    reveal_strlit("kws_ge");
    reveal_strlit("jumiom");
    reveal_strlit("tof_std");
    let ta = kind_type_name(a);
    let tb = kind_type_name(b);
    assert(ta.len() == tb.len() && ta[0] == tb[0] && ta[ta.len() - 1] == tb[tb.len() - 1]);
    if ta.len() == 9 {
        assert(ta[6] == tb[6]);
    }
}

/// Why a recipe could not be looked up.
#[derive(Debug, Clone, PartialEq, Eq)]
pub enum RecipeLookupError {
    /// No recipe has the name.
    NotFound(String),
    /// The recipe's type names no kind.
    UnknownType(String),
}

impl RecipeLookupError {
    /// The message the error is reported with.
    pub fn message(&self) -> (m: String)
        ensures
            m@ == match *self {
                RecipeLookupError::NotFound(n) => "Recipe "@ + n@ + " not found"@,
                RecipeLookupError::UnknownType(t) => "Unknown recipe type: "@ + t@,
            },
    {
        let mut m = String::new();
        match self {
            RecipeLookupError::NotFound(n) => {
                push_str(&mut m, "Recipe ");
                push_str(&mut m, n.as_str());
                push_str(&mut m, " not found");
            },
            RecipeLookupError::UnknownType(t) => {
                push_str(&mut m, "Unknown recipe type: ");
                push_str(&mut m, t.as_str());
            },
        }
        m
    }
}

/// The kind of recipe a configured type name stands for.
pub fn kind_for_type(t: &str) -> (r: Option<RecipeKind>)
    ensures
        r == kind_of_type(t@),
{
    let c = str_to_chars(t);
    let kinds = [
        RecipeKind::Null,
        RecipeKind::HistoStd,
        RecipeKind::HistoTof,
        RecipeKind::MesyMpsd,
        RecipeKind::MesyMdll,
        RecipeKind::Canon,
        RecipeKind::KwsGe,
        RecipeKind::Jumiom,
        RecipeKind::TofStd,
    ];
    if chars_eq_str(&c, "kws_gedet") {
        return Some(RecipeKind::KwsGe);
    }
    let mut i: usize = 0;
    while i < 9
        invariant
            i <= 9,
            c@ == t@,
            t@ != "kws_gedet"@,
            kinds@ == seq![
                RecipeKind::Null,
                RecipeKind::HistoStd,
                RecipeKind::HistoTof,
                RecipeKind::MesyMpsd,
                RecipeKind::MesyMdll,
                RecipeKind::Canon,
                RecipeKind::KwsGe,
                RecipeKind::Jumiom,
                RecipeKind::TofStd,
            ],
            forall|j: int| 0 <= j < i ==> kind_type_name(#[trigger] kinds@[j]) != t@,
        decreases 9 - i,
    {
        let k = kinds[i];
        if chars_eq_str(&c, k.config_name()) {
            proof {
                assert forall|k2: RecipeKind| kind_type_name(k2) == t@ implies k2 == k by {
                    lemma_type_names_distinct(k2, k);
                }
            }
            return Some(k);
        }
        i = i + 1;
    }
    proof {
        assert forall|k: RecipeKind| kind_type_name(k) != t@ by {
            match k {
                RecipeKind::Null => assert(kinds@[0] == k),
                RecipeKind::HistoStd => assert(kinds@[1] == k),
                RecipeKind::HistoTof => assert(kinds@[2] == k),
                RecipeKind::MesyMpsd => assert(kinds@[3] == k),
                RecipeKind::MesyMdll => assert(kinds@[4] == k),
                RecipeKind::Canon => assert(kinds@[5] == k),
                RecipeKind::KwsGe => assert(kinds@[6] == k),
                RecipeKind::Jumiom => assert(kinds@[7] == k),
                RecipeKind::TofStd => assert(kinds@[8] == k),
            }
        }
    }
    None
}

/// Looks up the recipe `name` among the configured `recipes`, given as
/// (name, type name) pairs, and tells what kind it is.
pub fn lookup_recipe(recipes: &Vec<(String, String)>, name: &str) -> (r: Result<RecipeKind, RecipeLookupError>)
    ensures
        match r {
            Ok(k) => exists|i: int| 0 <= i < recipes@.len() && recipes@[i].0@ == name@
                && kind_of_type(recipes@[i].1@) == Some(k)
                && forall|j: int| 0 <= j < i ==> recipes@[j].0@ != name@,
            Err(RecipeLookupError::NotFound(n)) => n@ == name@
                && forall|j: int| 0 <= j < recipes@.len() ==> recipes@[j].0@ != name@,
            Err(RecipeLookupError::UnknownType(t)) => exists|i: int| 0 <= i < recipes@.len() && recipes@[i].0@ == name@
                && recipes@[i].1@ == t@ && kind_of_type(t@) is None
                && forall|j: int| 0 <= j < i ==> recipes@[j].0@ != name@,
        },
{
    let mut i: usize = 0;
    while i < recipes.len()
        invariant
            i <= recipes@.len(),
            forall|j: int| 0 <= j < i ==> recipes@[j].0@ != name@,
        decreases recipes@.len() - i,
    {
        if chars_eq_str(&str_to_chars(recipes[i].0.as_str()), name) {
            return match kind_for_type(recipes[i].1.as_str()) {
                Some(k) => Ok(k),
                None => Err(RecipeLookupError::UnknownType(recipes[i].1.clone())),
            };
        }
        i = i + 1;
    }
    Err(RecipeLookupError::NotFound(name.to_string()))
}

} // verus!
