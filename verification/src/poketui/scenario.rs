//! Scenarios: the map, starters, wild pool, events, pickups and abilities
//! that a route is played with.
use vstd::prelude::*;
use crate::poketui::map::MapState;
use crate::poketui::state::ItemKind;

verus! {

#[derive(Clone, Debug)]
pub struct ScenarioRuntime {
    pub manifest: ScenarioManifest,
    pub map: MapState,
}

#[derive(Clone, Debug)]
pub struct ScenarioManifest {
    pub id: String,
    pub name: String,
    pub map_path: String,
    pub starters: Vec<String>,
    pub wild_pool: Vec<String>,
    pub events: Vec<ScenarioEvent>,
    pub random_pickups: RandomPickupSpec,
    pub abilities: Vec<AbilitySpec>,
    pub species_abilities: Vec<SpeciesAbility>,
}

/// A message shown when its trigger fires; a `once` event fires at most
/// once per game.
#[derive(Debug)]
pub struct ScenarioEvent {
    pub id: String,
    pub trigger: ScenarioTrigger,
    pub message: String,
    pub once: bool,
}

#[derive(Debug)]
pub enum ScenarioTrigger {
    /// Stepping onto the tile.
    OnEnterTile { x: u16, y: u16 },
    /// Having defeated `count` of a species.
    OnDefeat { species: String, count: u16 },
}

impl Clone for ScenarioTrigger {
    /// An equal copy.
    fn clone(&self) -> (c: Self)
        ensures
            c == *self,
    {
        match self {
            ScenarioTrigger::OnEnterTile { x, y } => ScenarioTrigger::OnEnterTile { x: *x, y: *y },
            ScenarioTrigger::OnDefeat { species, count } => ScenarioTrigger::OnDefeat { species: species.clone(), count: *count },
        }
    }
}

impl Clone for ScenarioEvent {
    /// An equal copy.
    fn clone(&self) -> (c: Self)
        ensures
            c == *self,
    {
        ScenarioEvent { id: self.id.clone(), trigger: self.trigger.clone(), message: self.message.clone(), once: self.once }
    }
}

/// How many pickups to scatter, and the weighted pool they are drawn from.
#[derive(Clone, Debug)]
pub struct RandomPickupSpec {
    pub count: u16,
    pub pool: Vec<ItemDrop>,
}

impl Default for RandomPickupSpec {
    /// No pickups.
    fn default() -> (r: Self)
        ensures
            r.count == 0,
            r.pool@.len() == 0,
    {
        RandomPickupSpec { count: 0, pool: Vec::new() }
    }
}

#[derive(Clone, Copy, Debug, PartialEq, Eq, Structural)]
pub struct ItemDrop {
    pub kind: ItemKind,
    pub weight: u16,
    pub qty: u16,
}

#[derive(Debug)]
pub struct AbilitySpec {
    pub id: String,
    pub name: String,
    pub cooldown: u8,
    pub effect: AbilityEffect,
}

impl Clone for AbilitySpec {
    /// An equal copy.
    fn clone(&self) -> (c: Self)
        ensures
            c == *self,
    {
        AbilitySpec { id: self.id.clone(), name: self.name.clone(), cooldown: self.cooldown, effect: self.effect }
    }
}

#[derive(Clone, Copy, Debug, PartialEq, Eq, Structural)]
pub enum AbilityEffect {
    Damage { power: u16 },
    Heal { amount: u16 },
    Guard { reduction_pct: u8, turns: u8 },
}

/// The ability a species starts with.
#[derive(Clone, Debug)]
pub struct SpeciesAbility {
    pub species: String,
    pub ability_id: String,
}

/// A scenario from its manifest and the text of its map, which is named
/// after the scenario.
pub fn scenario_from(manifest: ScenarioManifest, map_text: &str) -> (r: ScenarioRuntime)
    ensures
        r.manifest == manifest,
        r.map.parsed_from(manifest.name@, map_text@),
{
    let map = MapState::from_str(manifest.name.as_str(), map_text);
    ScenarioRuntime { manifest, map }
}

} // verus!
