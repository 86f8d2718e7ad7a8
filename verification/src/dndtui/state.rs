//! State of an adventure: the map and what stands on it, the player, the
//! dialogue and combat in progress, character creation and the log.
use vstd::prelude::*;
use crate::clock::{epoch_seconds, nanos_seed, since_epoch};
use crate::dndtui::llm::Provider;
use crate::dndtui::rules::{Ability, AbilityScores};
use crate::lightline::state::{cell_index, grid_index};
use crate::text::{owned, str_eq};

verus! {

#[derive(Clone, Copy, Debug, PartialEq, Eq, Structural)]
pub enum GameMode {
    MainMenu,
    CharacterCreation,
    Exploration,
    Dialogue,
    CustomAction,
    Inventory,
    Combat,
}

#[derive(Clone, Copy, Debug, PartialEq, Eq, Structural)]
pub enum Direction {
    Up,
    Down,
    Left,
    Right,
}

#[derive(Clone, Copy, Debug, PartialEq, Eq, Structural)]
pub enum Tile {
    Grass,
    Road,
    Floor,
    Wall,
    Water,
}

pub open spec fn walkable_tile(t: Tile) -> bool {
    t is Grass || t is Road || t is Floor
}

#[derive(Clone, Debug)]
pub struct MapState {
    pub name: String,
    pub width: u16,
    pub height: u16,
    pub tiles: Vec<Tile>,
}

impl MapState {
    /// The tile at `(x, y)`; off the map, or past the tile list, a wall.
    pub open spec fn tile_at(self, x: int, y: int) -> Tile {
        if x < 0 || y < 0 || x >= self.width || y >= self.height {
            Tile::Wall
        } else if cell_index(self.width as int, x, y) < self.tiles@.len() {
            self.tiles@[cell_index(self.width as int, x, y)]
        } else {
            Tile::Wall
        }
    }

    pub open spec fn walkable_at(self, x: int, y: int) -> bool {
        walkable_tile(self.tile_at(x, y))
    }

    pub fn tile(&self, x: u16, y: u16) -> (t: Tile)
        ensures
            t == self.tile_at(x as int, y as int),
    {
        if x >= self.width || y >= self.height {
            return Tile::Wall;
        }
        let idx = self.index(x, y);
        if idx < self.tiles.len() {
            self.tiles[idx]
        } else {
            Tile::Wall
        }
    }

    pub fn is_walkable(&self, x: u16, y: u16) -> (b: bool)
        ensures
            b == self.walkable_at(x as int, y as int),
    {
        match self.tile(x, y) {
            Tile::Grass | Tile::Road | Tile::Floor => true,
            _ => false,
        }
    }

    fn index(&self, x: u16, y: u16) -> (i: usize)
        requires
            x < self.width,
            y < self.height,
        ensures
            i == cell_index(self.width as int, x as int, y as int),
    {
        grid_index(self.width, self.height, x, y)
    }
}

#[derive(Clone, Debug)]
pub struct NpcState {
    pub id: String,
    pub name: String,
    pub x: u16,
    pub y: u16,
    pub persona: String,
    pub dialogue_prompt: String,
}

#[derive(Clone, Debug)]
pub struct ItemState {
    pub id: String,
    pub name: String,
    pub x: u16,
    pub y: u16,
    pub qty: u16,
}

#[derive(Clone, Debug)]
pub struct EncounterState {
    pub id: String,
    pub name: String,
    pub x: u16,
    pub y: u16,
    pub hp: i32,
    pub atk: i32,
    pub defeated: bool,
}

#[derive(Clone, Debug)]
pub enum Trigger {
    OnEnter { x: u16, y: u16, message: String },
    OnInteract { x: u16, y: u16, message: String },
}

#[derive(Clone, Debug)]
pub struct PlayerState {
    pub name: String,
    pub class_name: String,
    pub background: String,
    pub x: u16,
    pub y: u16,
    pub hp: i32,
    pub max_hp: i32,
    pub stats: AbilityScores,
    pub inventory: Vec<ItemStack>,
}

impl Default for PlayerState {
    /// A nameless player at the origin with 10 of 10 hit points.
    fn default() -> (p: Self)
        ensures
            p.name@.len() == 0 && p.class_name@.len() == 0 && p.background@.len() == 0,
            p.x == 0 && p.y == 0 && p.hp == 10 && p.max_hp == 10,
            p.stats == (AbilityScores {
                strength: 8,
                dexterity: 8,
                constitution: 8,
                intelligence: 8,
                wisdom: 8,
                charisma: 8,
            }),
            p.inventory@.len() == 0,
    {
        PlayerState {
            name: String::new(),
            class_name: String::new(),
            background: String::new(),
            x: 0,
            y: 0,
            hp: 10,
            max_hp: 10,
            stats: AbilityScores::default(),
            inventory: Vec::new(),
        }
    }
}

#[derive(Clone, Debug)]
pub struct ItemStack {
    pub id: String,
    pub name: String,
    pub qty: u16,
}

#[derive(Clone, Debug)]
pub struct DialogueState {
    pub active_npc: Option<String>,
    pub input: String,
    pub history: Vec<DialogueLine>,
}

#[derive(Clone, Debug)]
pub struct DialogueLine {
    pub speaker: String,
    pub text: String,
}

#[derive(Clone, Debug)]
pub struct CustomActionState {
    pub input: String,
}

#[derive(Clone, Debug)]
pub struct CombatState {
    pub enemy_id: String,
    pub player_turn: bool,
    pub movement_left: u8,
    pub round: u32,
}

#[derive(Clone, Debug)]
pub struct CharacterCreationState {
    pub step: CreationStep,
    pub name: String,
    pub class_index: usize,
    pub background_index: usize,
    pub stats: AbilityScores,
    pub selected_stat: usize,
    pub points_remaining: i32,
}

#[derive(Clone, Copy, Debug, PartialEq, Eq, Structural)]
pub enum CreationStep {
    Name,
    Class,
    Background,
    Stats,
    Confirm,
}

#[derive(Clone, Debug)]
pub struct LogEntry {
    pub speaker: LogSpeaker,
    pub text: String,
    pub timestamp: u64,
}

#[derive(Clone, Copy, Debug, PartialEq, Eq, Structural)]
pub enum LogSpeaker {
    System,
    Player,
    Npc,
    Combat,
}

#[derive(Clone, Debug)]
pub struct ScenarioManifestSummary {
    pub id: String,
    pub name: String,
    pub lore: Vec<String>,
}

#[derive(Clone, Debug)]
pub enum PendingLlm {
    Dialogue { npc_id: String },
    CustomAction,
}

#[derive(Clone, Copy, Debug, PartialEq, Eq, Structural)]
pub struct MenuState {
    pub selected: usize,
    pub has_save: bool,
}

#[derive(Clone, Copy, Debug, PartialEq, Eq, Structural)]
pub struct PauseMenuState {
    pub is_open: bool,
    pub selected: usize,
}

impl Default for PauseMenuState {
    fn default() -> (p: Self)
        ensures
            p == (PauseMenuState { is_open: false, selected: 0 }),
    {
        PauseMenuState { is_open: false, selected: 0 }
    }
}

#[derive(Debug)]
pub struct AppState {
    pub terminal_size: (u16, u16),
    pub mode: GameMode,
    pub map: MapState,
    pub player: PlayerState,
    pub npcs: Vec<NpcState>,
    pub items: Vec<ItemState>,
    pub encounters: Vec<EncounterState>,
    pub triggers: Vec<Trigger>,
    pub fired_triggers: Vec<String>,
    pub dialogue: DialogueState,
    pub custom_action: CustomActionState,
    pub combat: Option<CombatState>,
    pub creation: CharacterCreationState,
    pub log: Vec<LogEntry>,
    pub log_scroll: u16,
    pub scenario: Option<ScenarioManifestSummary>,
    pub pending_llm: Option<PendingLlm>,
    pub spinner_frame: u8,
    pub transcript_index: usize,
    pub pending_transcript_index: Option<usize>,
    pub rng_seed: u64,
    pub scenario_dir: String,
    pub save_path: String,
    pub provider: Provider,
    pub model: String,
    pub menu: Option<MenuState>,
    pub pause_menu: PauseMenuState,
    pub inventory_selected: usize,
}

impl Clone for AppState {
    /// A field-by-field copy.
    fn clone(&self) -> (c: Self)
        ensures
            c.terminal_size == self.terminal_size,
            c.mode == self.mode,
            c.log_scroll == self.log_scroll,
            c.transcript_index == self.transcript_index,
            c.pending_transcript_index == self.pending_transcript_index,
            c.rng_seed == self.rng_seed,
            c.inventory_selected == self.inventory_selected,
    {
        AppState {
            terminal_size: self.terminal_size,
            mode: self.mode,
            map: self.map.clone(),
            player: self.player.clone(),
            npcs: self.npcs.clone(),
            items: self.items.clone(),
            encounters: self.encounters.clone(),
            triggers: self.triggers.clone(),
            fired_triggers: self.fired_triggers.clone(),
            dialogue: self.dialogue.clone(),
            custom_action: self.custom_action.clone(),
            combat: self.combat.clone(),
            creation: self.creation.clone(),
            log: self.log.clone(),
            log_scroll: self.log_scroll,
            scenario: self.scenario.clone(),
            pending_llm: self.pending_llm.clone(),
            spinner_frame: self.spinner_frame,
            transcript_index: self.transcript_index,
            pending_transcript_index: self.pending_transcript_index,
            rng_seed: self.rng_seed,
            scenario_dir: self.scenario_dir.clone(),
            save_path: self.save_path.clone(),
            provider: self.provider,
            model: self.model.clone(),
            menu: self.menu,
            pause_menu: self.pause_menu,
            inventory_selected: self.inventory_selected,
        }
    }
}

/// Position of the first element whose id is `id`.
pub open spec fn npc_index(npcs: Seq<NpcState>, id: Seq<char>) -> Option<int>
    decreases npcs.len(),
{
    if npcs.len() == 0 {
        None
    } else if npcs.last().id@ == id && npc_index(npcs.drop_last(), id) is None {
        Some(npcs.len() - 1)
    } else {
        npc_index(npcs.drop_last(), id)
    }
}

/// Position of the first encounter whose id is `id`.
pub open spec fn encounter_index(es: Seq<EncounterState>, id: Seq<char>) -> Option<int>
    decreases es.len(),
{
    if es.len() == 0 {
        None
    } else if es.last().id@ == id && encounter_index(es.drop_last(), id) is None {
        Some(es.len() - 1)
    } else {
        encounter_index(es.drop_last(), id)
    }
}

proof fn lemma_npc_index_prefix(npcs: Seq<NpcState>, id: Seq<char>, i: int)
    requires
        0 <= i < npcs.len(),
        forall|j: int| 0 <= j < i ==> npcs[j].id@ != id,
    ensures
        npc_index(npcs.subrange(0, i + 1), id) == if npcs[i].id@ == id {
            Some(i)
        } else {
            None::<int>
        },
    decreases i,
{
    let s = npcs.subrange(0, i + 1);
    assert(s.drop_last() =~= npcs.subrange(0, i));
    if i > 0 {
        lemma_npc_index_prefix(npcs, id, i - 1);
        assert(npcs.subrange(0, i) =~= npcs.subrange(0, i - 1 + 1));
    } else {
        assert(npcs.subrange(0, 0).len() == 0);
    }
}

proof fn lemma_npc_index_extend(npcs: Seq<NpcState>, id: Seq<char>, i: int)
    requires
        0 <= i <= npcs.len(),
        npc_index(npcs.subrange(0, i), id) is Some,
    ensures
        npc_index(npcs, id) == npc_index(npcs.subrange(0, i), id),
    decreases npcs.len() - i,
{
    if i < npcs.len() {
        let t = npcs.subrange(0, i + 1);
        assert(t.drop_last() =~= npcs.subrange(0, i));
        lemma_npc_index_extend(npcs, id, i + 1);
    } else {
        assert(npcs.subrange(0, i) =~= npcs);
    }
}

proof fn lemma_npc_index_none(npcs: Seq<NpcState>, id: Seq<char>)
    requires
        forall|j: int| 0 <= j < npcs.len() ==> npcs[j].id@ != id,
    ensures
        npc_index(npcs, id) is None,
    decreases npcs.len(),
{
    if npcs.len() > 0 {
        lemma_npc_index_none(npcs.drop_last(), id);
    }
}

proof fn lemma_enc_index_prefix(es: Seq<EncounterState>, id: Seq<char>, i: int)
    requires
        0 <= i < es.len(),
        forall|j: int| 0 <= j < i ==> es[j].id@ != id,
    ensures
        encounter_index(es.subrange(0, i + 1), id) == if es[i].id@ == id {
            Some(i)
        } else {
            None::<int>
        },
    decreases i,
{
    let s = es.subrange(0, i + 1);
    assert(s.drop_last() =~= es.subrange(0, i));
    if i > 0 {
        lemma_enc_index_prefix(es, id, i - 1);
        assert(es.subrange(0, i) =~= es.subrange(0, i - 1 + 1));
    } else {
        assert(es.subrange(0, 0).len() == 0);
    }
}

proof fn lemma_enc_index_extend(es: Seq<EncounterState>, id: Seq<char>, i: int)
    requires
        0 <= i <= es.len(),
        encounter_index(es.subrange(0, i), id) is Some,
    ensures
        encounter_index(es, id) == encounter_index(es.subrange(0, i), id),
    decreases es.len() - i,
{
    if i < es.len() {
        let t = es.subrange(0, i + 1);
        assert(t.drop_last() =~= es.subrange(0, i));
        lemma_enc_index_extend(es, id, i + 1);
    } else {
        assert(es.subrange(0, i) =~= es);
    }
}

proof fn lemma_enc_index_none(es: Seq<EncounterState>, id: Seq<char>)
    requires
        forall|j: int| 0 <= j < es.len() ==> es[j].id@ != id,
    ensures
        encounter_index(es, id) is None,
    decreases es.len(),
{
    if es.len() > 0 {
        lemma_enc_index_none(es.drop_last(), id);
    }
}

/// Encounters whose ids agree one by one have their first match for an id
/// at the same place.
pub proof fn lemma_enc_index_same_ids(a: Seq<EncounterState>, b: Seq<EncounterState>, id: Seq<char>)
    requires
        a.len() == b.len(),
        forall|j: int| 0 <= j < a.len() ==> (#[trigger] a[j]).id@ == b[j].id@,
    ensures
        encounter_index(a, id) == encounter_index(b, id),
    decreases a.len(),
{
    if a.len() > 0 {
        lemma_enc_index_same_ids(a.drop_last(), b.drop_last(), id);
        assert(a.last().id@ == b.last().id@) by {
            assert(a[a.len() - 1].id@ == b[a.len() - 1].id@);
        }
    }
}

/// Index of the first NPC with the given id.
pub fn find_npc(npcs: &Vec<NpcState>, id: &str) -> (r: Option<usize>)
    ensures
        match npc_index(npcs@, id@) {
            Some(i) => r matches Some(k) && k as int == i,
            None => r is None,
        },
        r matches Some(i) ==> i < npcs@.len() && npcs@[i as int].id@ == id@,
{
    let mut i: usize = 0;
    while i < npcs.len()
        invariant
            i <= npcs@.len(),
            forall|j: int| 0 <= j < i ==> npcs@[j].id@ != id@,
        decreases npcs.len() - i,
    {
        if str_eq(npcs[i].id.as_str(), id) {
            proof {
                lemma_npc_index_prefix(npcs@, id@, i as int);
                lemma_npc_index_extend(npcs@, id@, i + 1);
            }
            return Some(i);
        }
        i = i + 1;
    }
    proof {
        lemma_npc_index_none(npcs@, id@);
    }
    None
}

/// Index of the first encounter with the given id.
pub fn find_encounter(es: &Vec<EncounterState>, id: &str) -> (r: Option<usize>)
    ensures
        match encounter_index(es@, id@) {
            Some(i) => r matches Some(k) && k as int == i,
            None => r is None,
        },
        r matches Some(i) ==> i < es@.len() && es@[i as int].id@ == id@,
{
    let mut i: usize = 0;
    while i < es.len()
        invariant
            i <= es@.len(),
            forall|j: int| 0 <= j < i ==> es@[j].id@ != id@,
        decreases es.len() - i,
    {
        if str_eq(es[i].id.as_str(), id) {
            proof {
                lemma_enc_index_prefix(es@, id@, i as int);
                lemma_enc_index_extend(es@, id@, i + 1);
            }
            return Some(i);
        }
        i = i + 1;
    }
    proof {
        lemma_enc_index_none(es@, id@);
    }
    None
}

/// What a fresh game looks like: a one-tile placeholder map, no
/// scenario, character creation with 27 point-buy points, and the given
/// paths, provider and model. The random seed is left open.
pub open spec fn is_fresh_state(s: AppState, scenario_dir: String, save_path: String, provider: Provider, model: String) -> bool {
    &&& s.terminal_size == (80u16, 24u16)
    &&& s.mode == GameMode::CharacterCreation
    &&& s.map.name@ == "Loading..."@ && s.map.width == 1 && s.map.height == 1
    &&& s.map.tiles@ == seq![Tile::Floor]
    &&& s.player.x == 0 && s.player.y == 0 && s.player.hp == 10 && s.player.max_hp == 10
    &&& s.player.inventory@.len() == 0
    &&& s.npcs@.len() == 0 && s.items@.len() == 0 && s.encounters@.len() == 0
    &&& s.triggers@.len() == 0 && s.fired_triggers@.len() == 0
    &&& s.dialogue.active_npc is None && s.dialogue.input@.len() == 0 && s.dialogue.history@.len() == 0
    &&& s.custom_action.input@.len() == 0
    &&& s.combat is None
    &&& s.creation.step == CreationStep::Name && s.creation.name@.len() == 0
    &&& s.creation.class_index == 0 && s.creation.background_index == 0
    &&& s.creation.stats == (AbilityScores {
        strength: 8,
        dexterity: 8,
        constitution: 8,
        intelligence: 8,
        wisdom: 8,
        charisma: 8,
    })
    &&& s.creation.selected_stat == 0 && s.creation.points_remaining == 27
    &&& s.log@.len() == 0 && s.log_scroll == 0
    &&& s.scenario is None && s.pending_llm is None
    &&& s.spinner_frame == 0 && s.transcript_index == 0 && s.pending_transcript_index is None
    &&& s.scenario_dir == scenario_dir && s.save_path == save_path
    &&& s.provider == provider && s.model == model
    &&& s.menu is None && s.pause_menu == (PauseMenuState { is_open: false, selected: 0 })
    &&& s.inventory_selected == 0
}

impl Default for AppState {
    /// A fresh game with the starter scenario, `save.json`, and OpenAI's
    /// `gpt-4o-mini`.
    fn default() -> (s: Self)
        ensures
            is_fresh_state(s, s.scenario_dir, s.save_path, Provider::Openai, s.model),
            s.scenario_dir@ == "assets/scenarios/starter"@,
            s.save_path@ == "save.json"@,
            s.model@ == "gpt-4o-mini"@,
    {
        AppState::new(owned("assets/scenarios/starter"), owned("save.json"), Provider::Openai, owned("gpt-4o-mini"))
    }
}

impl AppState {
    /// A fresh game at character creation: a one-tile placeholder map, no
    /// scenario, 27 point-buy points, a clock-seeded random generator.
    pub fn new(scenario_dir: String, save_path: String, provider: Provider, model: String) -> (s:
        AppState)
        ensures
            is_fresh_state(s, scenario_dir, save_path, provider, model),
    {
        let mut tiles: Vec<Tile> = Vec::new();
        tiles.push(Tile::Floor);
        AppState {
            terminal_size: (80, 24),
            mode: GameMode::CharacterCreation,
            map: MapState { name: owned("Loading..."), width: 1, height: 1, tiles },
            player: PlayerState::default(),
            npcs: Vec::new(),
            items: Vec::new(),
            encounters: Vec::new(),
            triggers: Vec::new(),
            fired_triggers: Vec::new(),
            dialogue: DialogueState { active_npc: None, input: String::new(), history: Vec::new() },
            custom_action: CustomActionState { input: String::new() },
            combat: None,
            creation: CharacterCreationState {
                step: CreationStep::Name,
                name: String::new(),
                class_index: 0,
                background_index: 0,
                stats: AbilityScores::default(),
                selected_stat: 0,
                points_remaining: 27,
            },
            log: Vec::new(),
            log_scroll: 0,
            scenario: None,
            pending_llm: None,
            spinner_frame: 0,
            transcript_index: 0,
            pending_transcript_index: None,
            rng_seed: nanos_seed(since_epoch()),
            scenario_dir,
            save_path,
            provider,
            model,
            menu: None,
            pause_menu: PauseMenuState::default(),
            inventory_selected: 0,
        }
    }

    /// Appends a log entry stamped with the current time.
    pub fn push_log(&mut self, speaker: LogSpeaker, text: String)
        ensures
            final(self).log@.len() == old(self).log@.len() + 1,
            final(self).log@.subrange(0, old(self).log@.len() as int) == old(self).log@,
            final(self).log@.last().speaker == speaker,
            final(self).log@.last().text == text,
            *final(self) == (AppState { log: final(self).log, ..*old(self) }),
    {
        let timestamp = epoch_seconds(since_epoch());
        self.log.push(LogEntry { speaker, text, timestamp });
        assert(self.log@.subrange(0, old(self).log@.len() as int) =~= old(self).log@);
    }

    /// The first NPC with the given id.
    pub fn npc_by_id(&self, id: &str) -> (r: Option<&NpcState>)
        ensures
            match npc_index(self.npcs@, id@) {
                Some(i) => r is Some && *r.unwrap() == self.npcs@[i],
                None => r is None,
            },
    {
        match find_npc(&self.npcs, id) {
            Some(i) => {
                let n = &self.npcs[i];
                assert(*n == self.npcs@[i as int]);
                Some(n)
            },
            None => None,
        }
    }

    /// The first NPC with the given id, for editing in place.
    pub fn npc_by_id_mut(&mut self, id: &str) -> (r: Option<&mut NpcState>)
        ensures
            match npc_index(old(self).npcs@, id@) {
                Some(i) => {
                    &&& r is Some
                    &&& *r.unwrap() == old(self).npcs@[i]
                    &&& final(self).npcs@ == old(self).npcs@.update(i, *final(r.unwrap()))
                    &&& *final(self) == (AppState { npcs: final(self).npcs, ..*old(self) })
                },
                None => r is None && *final(self) == *old(self),
            },
    {
        match find_npc(&self.npcs, id) {
            Some(i) => Some(&mut self.npcs[i]),
            None => None,
        }
    }

    /// The first encounter with the given id, for editing in place.
    pub fn encounter_by_id_mut(&mut self, id: &str) -> (r: Option<&mut EncounterState>)
        ensures
            match encounter_index(old(self).encounters@, id@) {
                Some(i) => {
                    &&& r is Some
                    &&& *r.unwrap() == old(self).encounters@[i]
                    &&& final(self).encounters@ == old(self).encounters@.update(i, *final(r.unwrap()))
                    &&& *final(self) == (AppState { encounters: final(self).encounters, ..*old(self) })
                },
                None => r is None && *final(self) == *old(self),
            },
    {
        match find_encounter(&self.encounters, id) {
            Some(i) => Some(&mut self.encounters[i]),
            None => None,
        }
    }

    pub fn player_pos(&self) -> (p: (u16, u16))
        ensures
            p == (self.player.x, self.player.y),
    {
        (self.player.x, self.player.y)
    }

    pub fn set_player_pos(&mut self, x: u16, y: u16)
        ensures
            *final(self) == (AppState {
                player: PlayerState { x, y, ..old(self).player },
                ..*old(self)
            }),
    {
        self.player.x = x;
        self.player.y = y;
    }

    pub fn ability_score(&self, ability: Ability) -> (v: i32)
        ensures
            v == self.player.stats.score(ability),
    {
        self.player.stats.get(ability)
    }
}

} // verus!
