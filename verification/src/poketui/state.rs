//! The state of a game: the map and the player on it, the party, the bag,
//! battles, menus, messages and the random seed.
use vstd::prelude::*;
use std::collections::VecDeque;
use crate::clock::since_epoch;
use crate::dndtui::sprite::SpriteData;
use crate::pokeapi::store::{Cache, NameSet};
use crate::poketui::map::MapState;
use crate::poketui::scenario::ScenarioRuntime;
use crate::text::owned;

verus! {

#[derive(Clone, Copy, Debug, PartialEq, Eq, Structural)]
pub enum Direction {
    Up,
    Down,
    Left,
    Right,
}

#[derive(Clone, Copy, Debug, PartialEq, Eq, Structural)]
pub enum SpriteTarget {
    Player,
    Enemy,
}

pub open spec fn sprite_target_label(t: SpriteTarget) -> Seq<char> {
    match t {
        SpriteTarget::Player => "player"@,
        SpriteTarget::Enemy => "enemy"@,
    }
}

impl SpriteTarget {
    pub fn label(self) -> (s: &'static str)
        ensures
            s@ == sprite_target_label(self),
    {
        match self {
            SpriteTarget::Player => "player",
            SpriteTarget::Enemy => "enemy",
        }
    }
}

/// A species and its base stats, with where its sprites are.
#[derive(Debug)]
pub struct PokemonInfo {
    pub name: String,
    pub base_experience: u16,
    pub hp: u16,
    pub attack: u16,
    pub defense: u16,
    pub sp_attack: u16,
    pub sp_defense: u16,
    pub speed: u16,
    pub sprite_front_default: Option<String>,
    pub sprite_back_default: Option<String>,
    pub sprite_front_animated: Option<String>,
    pub sprite_back_animated: Option<String>,
}

/// A creature of the party.
#[derive(Debug)]
pub struct PartyMember {
    pub info: PokemonInfo,
    pub level: u8,
    pub exp: u32,
    pub hp: u16,
    pub ability_id: Option<String>,
    pub ability_cd: u8,
}

/// An equal copy of an optional string.
pub fn copy_text(o: &Option<String>) -> (r: Option<String>)
    ensures
        r == *o,
{
    match o {
        Some(t) => Some(t.clone()),
        None => None,
    }
}

impl Clone for PokemonInfo {
    /// An equal copy.
    fn clone(&self) -> (c: Self)
        ensures
            c == *self,
    {
        PokemonInfo {
            name: self.name.clone(),
            base_experience: self.base_experience,
            hp: self.hp,
            attack: self.attack,
            defense: self.defense,
            sp_attack: self.sp_attack,
            sp_defense: self.sp_defense,
            speed: self.speed,
            sprite_front_default: copy_text(&self.sprite_front_default),
            sprite_back_default: copy_text(&self.sprite_back_default),
            sprite_front_animated: copy_text(&self.sprite_front_animated),
            sprite_back_animated: copy_text(&self.sprite_back_animated),
        }
    }
}

impl Clone for PartyMember {
    /// An equal copy.
    fn clone(&self) -> (c: Self)
        ensures
            c == *self,
    {
        PartyMember {
            info: self.info.clone(),
            level: self.level,
            exp: self.exp,
            hp: self.hp,
            ability_id: copy_text(&self.ability_id),
            ability_cd: self.ability_cd,
        }
    }
}

#[derive(Clone, Copy, Debug, PartialEq, Eq, Structural)]
pub enum ItemKind {
    Potion,
    SuperPotion,
    PokeBall,
}

pub open spec fn item_label(k: ItemKind) -> Seq<char> {
    match k {
        ItemKind::Potion => "Potion"@,
        ItemKind::SuperPotion => "Super Potion"@,
        ItemKind::PokeBall => "Poke Ball"@,
    }
}

pub open spec fn item_heal(k: ItemKind) -> u16 {
    match k {
        ItemKind::Potion => 20,
        ItemKind::SuperPotion => 50,
        ItemKind::PokeBall => 0,
    }
}

impl ItemKind {
    pub fn label(self) -> (s: &'static str)
        ensures
            s@ == item_label(self),
    {
        match self {
            ItemKind::Potion => "Potion",
            ItemKind::SuperPotion => "Super Potion",
            ItemKind::PokeBall => "Poke Ball",
        }
    }

    /// Hit points the item restores.
    pub fn heal_amount(self) -> (h: u16)
        ensures
            h == item_heal(self),
    {
        match self {
            ItemKind::Potion => 20,
            ItemKind::SuperPotion => 50,
            ItemKind::PokeBall => 0,
        }
    }
}

#[derive(Clone, Copy, Debug, PartialEq, Eq, Structural)]
pub struct ItemStack {
    pub kind: ItemKind,
    pub qty: u16,
}

/// A sprite being shown: the image, its mirror image, and the animation
/// position.
#[derive(Clone, Debug)]
pub struct SpriteState {
    pub sprite: Option<SpriteData>,
    pub sprite_flipped: Option<SpriteData>,
    pub frame_index: usize,
    pub frame_tick: u64,
    pub loading: bool,
}

impl SpriteState {
    pub open spec fn is_empty(self) -> bool {
        &&& self.sprite is None
        &&& self.sprite_flipped is None
        &&& self.frame_index == 0
        &&& self.frame_tick == 0
        &&& !self.loading
    }

    /// Drops the image and rewinds the animation.
    pub fn reset(&mut self)
        ensures
            final(self).is_empty(),
    {
        self.sprite = None;
        self.sprite_flipped = None;
        self.frame_index = 0;
        self.frame_tick = 0;
        self.loading = false;
    }
}

impl Default for SpriteState {
    /// No image, not loading.
    fn default() -> (s: Self)
        ensures
            s.is_empty(),
    {
        SpriteState { sprite: None, sprite_flipped: None, frame_index: 0, frame_tick: 0, loading: false }
    }
}

#[derive(Clone, Copy, Debug, PartialEq, Eq, Structural)]
pub struct PlayerState {
    pub x: u16,
    pub y: u16,
    pub steps: u64,
    pub facing: Direction,
}

impl PlayerState {
    /// A player at `(x, y)` facing down, with no steps taken.
    pub fn new(x: u16, y: u16) -> (p: Self)
        ensures
            p == (PlayerState { x, y, steps: 0, facing: Direction::Down }),
    {
        PlayerState { x, y, steps: 0, facing: Direction::Down }
    }
}

#[derive(Clone, Copy, Debug, PartialEq, Eq, Structural)]
pub enum GameMode {
    MainMenu,
    PokemonSelect,
    Overworld,
    Battle,
}

#[derive(Clone, Copy, Debug, PartialEq, Eq, Structural)]
pub struct MenuState {
    pub selected: usize,
    pub has_save: bool,
}

#[derive(Clone, Debug)]
pub struct PokemonSelectState {
    pub starters: Vec<String>,
    pub selected: usize,
    pub preview_info: Option<PokemonInfo>,
    pub preview_sprite: SpriteState,
}

#[derive(Clone, Copy, Debug, PartialEq, Eq, Structural)]
pub struct PauseMenuState {
    pub is_open: bool,
    pub selected: usize,
}

impl Default for PauseMenuState {
    /// Closed, on the first entry.
    fn default() -> (p: Self)
        ensures
            p == (PauseMenuState { is_open: false, selected: 0 }),
    {
        PauseMenuState { is_open: false, selected: 0 }
    }
}

#[derive(Clone, Copy, Debug, PartialEq, Eq, Structural)]
pub enum BattleStage {
    Intro,
    Menu,
    ItemMenu,
    PlayerCombo,
    EnemyTurn,
    Victory,
    Escape,
    Defeat,
}

#[derive(Clone, Copy, Debug, PartialEq, Eq, Structural)]
pub enum BattleKind {
    Wild,
    Boss,
}

#[derive(Clone, Debug)]
pub struct BattleState {
    pub stage: BattleStage,
    pub kind: BattleKind,
    pub enemy_name: String,
    pub enemy_level: u8,
    pub player_hp: u16,
    pub player_hp_max: u16,
    pub enemy_hp: u16,
    pub enemy_hp_max: u16,
    pub menu_index: usize,
    pub item_index: usize,
    pub combo_hits: Vec<ComboHit>,
    pub guard_pct: u8,
    pub guard_turns: u8,
    pub captured: bool,
    pub message: String,
    pub pending_enemy_damage: Option<u16>,
}

impl BattleState {
    /// A battle at its introduction: the player's hit points capped at
    /// their maximum, the enemy's at one until its stats are known.
    pub fn new(enemy_name: String, enemy_level: u8, player_hp_max: u16, player_hp: u16, kind: BattleKind) -> (b: Self)
        ensures
            b.stage == BattleStage::Intro,
            b.kind == kind,
            b.enemy_name == enemy_name,
            b.enemy_level == enemy_level,
            b.player_hp == (if player_hp < player_hp_max { player_hp } else { player_hp_max }),
            b.player_hp_max == player_hp_max,
            b.enemy_hp == 1 && b.enemy_hp_max == 1,
            b.menu_index == 0 && b.item_index == 0,
            b.combo_hits@.len() == 0,
            b.guard_pct == 0 && b.guard_turns == 0,
            !b.captured,
            b.message@ == "A wild Pokemon appeared!"@,
            b.pending_enemy_damage is None,
    {
        BattleState {
            stage: BattleStage::Intro,
            kind,
            enemy_name,
            enemy_level,
            player_hp: if player_hp < player_hp_max { player_hp } else { player_hp_max },
            player_hp_max,
            enemy_hp: 1,
            enemy_hp_max: 1,
            menu_index: 0,
            item_index: 0,
            combo_hits: Vec::new(),
            guard_pct: 0,
            guard_turns: 0,
            captured: false,
            message: owned("A wild Pokemon appeared!"),
            pending_enemy_damage: None,
        }
    }
}

#[derive(Clone, Copy, Debug, PartialEq, Eq, Structural)]
pub enum TurnActor {
    Player { member_index: usize },
    Enemy,
}

impl Default for TurnActor {
    /// The first party member.
    fn default() -> (a: Self)
        ensures
            a == (TurnActor::Player { member_index: 0 }),
    {
        TurnActor::Player { member_index: 0 }
    }
}

/// One hit of a combo: who strikes, under what name, for how much.
#[derive(Debug)]
pub struct ComboHit {
    pub actor: TurnActor,
    pub name: String,
    pub damage: u16,
    pub ability_name: Option<String>,
    pub ability_damage: bool,
}

impl Clone for ComboHit {
    /// An equal copy.
    fn clone(&self) -> (c: Self)
        ensures
            c == *self,
    {
        ComboHit {
            actor: self.actor,
            name: self.name.clone(),
            damage: self.damage,
            ability_name: copy_text(&self.ability_name),
            ability_damage: self.ability_damage,
        }
    }
}

/// An item lying on the map.
#[derive(Clone, Copy, Debug, PartialEq, Eq, Structural)]
pub struct Pickup {
    pub x: u16,
    pub y: u16,
    pub kind: ItemKind,
    pub qty: u16,
}

/// The whole game. The party is the source of truth for the player's
/// creature; `player_info`, `player_level`, `player_exp` and `player_hp`
/// mirror its active member and stand in when the party is empty.
#[derive(Debug)]
pub struct AppState {
    pub terminal_size: (u16, u16),
    pub mode: GameMode,
    pub map: MapState,
    pub player: PlayerState,
    pub scenario: Option<ScenarioRuntime>,
    pub scenario_dir: String,
    pub party: Vec<PartyMember>,
    pub party_sprites: Vec<SpriteState>,
    pub active_party_index: usize,
    pub player_info: Option<PokemonInfo>,
    pub player_level: u8,
    pub player_exp: u32,
    pub player_hp: u16,
    pub inventory: Vec<ItemStack>,
    pub message_queue: VecDeque<String>,
    pub message_timer: u16,
    pub wild_wins: u16,
    pub has_relic: bool,
    pub boss_defeated: bool,
    pub fired_event_ids: NameSet,
    pub defeat_counts: Cache<u16>,
    pub pickups: Vec<Pickup>,
    pub enemy_info: Option<PokemonInfo>,
    pub player_sprite: SpriteState,
    pub enemy_sprite: SpriteState,
    pub battle: Option<BattleState>,
    pub menu: Option<MenuState>,
    pub pokemon_select: Option<PokemonSelectState>,
    pub pause_menu: PauseMenuState,
    pub message: Option<String>,
    pub steps_since_encounter: u16,
    pub rng_seed: u64,
    pub tick: u64,
}

impl Clone for AppState {
    /// A field-by-field copy.
    fn clone(&self) -> (c: Self)
        ensures
            c.terminal_size == self.terminal_size,
            c.mode == self.mode,
            c.player == self.player,
            c.active_party_index == self.active_party_index,
            c.player_level == self.player_level,
            c.player_exp == self.player_exp,
            c.player_hp == self.player_hp,
            c.inventory@ == self.inventory@,
            c.message_timer == self.message_timer,
            c.wild_wins == self.wild_wins,
            c.has_relic == self.has_relic,
            c.boss_defeated == self.boss_defeated,
            c.pickups@ == self.pickups@,
            c.menu == self.menu,
            c.pause_menu == self.pause_menu,
            c.steps_since_encounter == self.steps_since_encounter,
            c.rng_seed == self.rng_seed,
            c.tick == self.tick,
    {
        AppState {
            terminal_size: self.terminal_size,
            mode: self.mode,
            map: self.map.clone(),
            player: self.player,
            scenario: self.scenario.clone(),
            scenario_dir: self.scenario_dir.clone(),
            party: self.party.clone(),
            party_sprites: self.party_sprites.clone(),
            active_party_index: self.active_party_index,
            player_info: self.player_info.clone(),
            player_level: self.player_level,
            player_exp: self.player_exp,
            player_hp: self.player_hp,
            inventory: self.inventory.clone(),
            message_queue: self.message_queue.clone(),
            message_timer: self.message_timer,
            wild_wins: self.wild_wins,
            has_relic: self.has_relic,
            boss_defeated: self.boss_defeated,
            fired_event_ids: self.fired_event_ids.clone(),
            defeat_counts: self.defeat_counts.clone(),
            pickups: self.pickups.clone(),
            enemy_info: self.enemy_info.clone(),
            player_sprite: self.player_sprite.clone(),
            enemy_sprite: self.enemy_sprite.clone(),
            battle: self.battle.clone(),
            menu: self.menu,
            pokemon_select: self.pokemon_select.clone(),
            pause_menu: self.pause_menu,
            message: self.message.clone(),
            steps_since_encounter: self.steps_since_encounter,
            rng_seed: self.rng_seed,
            tick: self.tick,
        }
    }
}

/// The highest level.
pub const MAX_LEVEL: u8 = 100;

/// The level a formula uses: at least 1.
pub open spec fn level_or_one(level: u8) -> int {
    if level == 0 {
        1
    } else {
        level as int
    }
}

/// Experience at which `level` is reached: the cube of the level.
pub open spec fn level_exp(level: u8) -> int {
    level_or_one(level) * level_or_one(level) * level_or_one(level)
}

/// Maximum hit points of a creature with base hit points `base`.
pub open spec fn hp_formula(base: u16, level: u8) -> int {
    ((2 * base + 31) * level_or_one(level)) / 100 + level_or_one(level) + 10
}

/// A stat of a creature with base stat `base`.
pub open spec fn stat_formula(base: u16, level: u8) -> int {
    ((2 * base + 31) * level_or_one(level)) / 100 + 5
}

/// Whether the stat formulas stay within 16 bits for `base` and `level`.
pub open spec fn stat_fits(base: u16, level: u8) -> bool {
    (2 * base + 31) * level_or_one(level) <= 65535
}

/// Whether the stat formulas stay within 16 bits for `base` and `level`.
pub fn stat_fits_now(base: u16, level: u8) -> (b: bool)
    ensures
        b == stat_fits(base, level),
{
    let l: u32 = if level == 0 { 1 } else { level as u32 };
    let k: u32 = 2 * base as u32 + 31;
    assert(k * l <= 131101 * 255) by (nonlinear_arith)
        requires
            k <= 131101,
            l <= 255,
    ;
    k * l <= 65535
}

pub fn exp_for_level(level: u8) -> (e: u32)
    ensures
        e == level_exp(level),
{
    let l: u32 = if level == 0 { 1 } else { level as u32 };
    assert(l * l <= 255 * 255 && l * l * l <= 255 * 255 * 255) by (nonlinear_arith)
        requires
            1 <= l <= 255,
    ;
    l * l * l
}

pub fn calc_hp(base: u16, level: u8) -> (h: u16)
    requires
        stat_fits(base, level),
    ensures
        h == hp_formula(base, level),
{
    let l: u16 = if level == 0 { 1 } else { level as u16 };
    assert(2 * base + 31 <= 65535) by (nonlinear_arith)
        requires
            (2 * base + 31) * l <= 65535,
            l >= 1,
    ;
    (((2 * base + 31) * l) / 100) + l + 10
}

pub fn calc_stat(base: u16, level: u8) -> (s: u16)
    requires
        stat_fits(base, level),
    ensures
        s == stat_formula(base, level),
{
    let l: u16 = if level == 0 { 1 } else { level as u16 };
    assert(2 * base + 31 <= 65535) by (nonlinear_arith)
        requires
            (2 * base + 31) * l <= 65535,
            l >= 1,
    ;
    (((2 * base + 31) * l) / 100) + 5
}

/// The seed of a fresh game from a clock reading: the seconds since the
/// epoch shifted into the high half, mixed with the nanoseconds; 0 for a
/// clock before the epoch.
pub fn clock_seed(t: Option<(u64, u32)>) -> (s: u64)
    ensures
        s == match t {
            Some(p) => (p.0 << 32u64) ^ (p.1 as u64),
            None => 0,
        },
{
    match t {
        Some((secs, nanos)) => (secs << 32u64) ^ (nanos as u64),
        None => 0,
    }
}

/// The bag a new game starts with: three potions, a super potion and five
/// balls.
pub open spec fn starting_items() -> Seq<ItemStack> {
    seq![
        ItemStack { kind: ItemKind::Potion, qty: 3 },
        ItemStack { kind: ItemKind::SuperPotion, qty: 1 },
        ItemStack { kind: ItemKind::PokeBall, qty: 5 },
    ]
}

pub fn default_inventory() -> (v: Vec<ItemStack>)
    ensures
        v@ == starting_items(),
{
    let v = vec![
        ItemStack { kind: ItemKind::Potion, qty: 3 },
        ItemStack { kind: ItemKind::SuperPotion, qty: 1 },
        ItemStack { kind: ItemKind::PokeBall, qty: 5 },
    ];
    assert(v@ =~= starting_items());
    v
}

/// Where scenarios are looked for unless a save says otherwise.
pub open spec fn default_scenario_dir() -> Seq<char> {
    "assets/scenarios/lakeside"@
}

impl AppState {
    /// The active member of the party, if the index points into it.
    pub open spec fn active_spec(self) -> Option<PartyMember> {
        if self.active_party_index < self.party@.len() {
            Some(self.party@[self.active_party_index as int])
        } else {
            None
        }
    }

    /// The level of the player's creature.
    pub open spec fn level_spec(self) -> u8 {
        match self.active_spec() {
            Some(m) => m.level,
            None => self.player_level,
        }
    }

    /// The experience of the player's creature.
    pub open spec fn exp_spec(self) -> u32 {
        match self.active_spec() {
            Some(m) => m.exp,
            None => self.player_exp,
        }
    }

    /// The name of the player's creature.
    pub open spec fn name_spec(self) -> Seq<char> {
        match self.active_spec() {
            Some(m) => m.info.name@,
            None => match self.player_info {
                Some(i) => i.name@,
                None => "partner"@,
            },
        }
    }

    /// Whether the maximum hit points of the player's creature can be
    /// computed in 16 bits.
    pub open spec fn max_hp_fits(self) -> bool {
        match self.active_spec() {
            Some(m) => stat_fits(m.info.hp, m.level),
            None => match self.player_info {
                Some(i) => stat_fits(i.hp, self.player_level),
                None => true,
            },
        }
    }

    /// The maximum hit points of the player's creature; 35 when there is
    /// none.
    pub open spec fn max_hp_spec(self) -> int {
        match self.active_spec() {
            Some(m) => hp_formula(m.info.hp, m.level),
            None => match self.player_info {
                Some(i) => hp_formula(i.hp, self.player_level),
                None => 35,
            },
        }
    }

    /// A fresh game at the main menu on the default route, the player on
    /// its start position, with the starting bag and a seed from the clock.
    pub fn new() -> (s: Self)
        ensures
            s.terminal_size == (80u16, 24u16),
            s.mode == GameMode::MainMenu,
            s.map.parsed_from("LAKESIDE ROUTE"@, crate::poketui::map::LAKESIDE_ROUTE@),
            s.player.steps == 0 && s.player.facing == Direction::Down,
            s.map.start_of((s.player.x, s.player.y)),
            s.scenario is None,
            s.scenario_dir@ == default_scenario_dir(),
            s.party@.len() == 0 && s.party_sprites@.len() == 0 && s.active_party_index == 0,
            s.player_info is None && s.player_level == 5 && s.player_exp == 125 && s.player_hp == 0,
            s.inventory@ == starting_items(),
            s.message_queue@.len() == 0 && s.message_timer == 0,
            s.wild_wins == 0 && !s.has_relic && !s.boss_defeated,
            forall|n: Seq<char>| !s.fired_event_ids.has(n),
            forall|n: Seq<char>| s.defeat_counts.get_spec(n) is None,
            s.pickups@.len() == 0,
            s.enemy_info is None,
            s.player_sprite.is_empty() && s.enemy_sprite.is_empty(),
            s.battle is None,
            s.menu == Some(MenuState { selected: 0, has_save: false }),
            s.pokemon_select is None,
            s.pause_menu == (PauseMenuState { is_open: false, selected: 0 }),
            s.message is None,
            s.steps_since_encounter == 0,
            s.tick == 0,
    {
        let map = MapState::new();
        let (start_x, start_y) = map.start_pos();
        AppState {
            terminal_size: (80, 24),
            mode: GameMode::MainMenu,
            map,
            player: PlayerState::new(start_x, start_y),
            scenario: None,
            scenario_dir: owned("assets/scenarios/lakeside"),
            party: Vec::new(),
            party_sprites: Vec::new(),
            active_party_index: 0,
            player_info: None,
            player_level: 5,
            player_exp: exp_for_level(5),
            player_hp: 0,
            inventory: default_inventory(),
            message_queue: VecDeque::new(),
            message_timer: 0,
            wild_wins: 0,
            has_relic: false,
            boss_defeated: false,
            fired_event_ids: NameSet::new(),
            defeat_counts: Cache::new(),
            pickups: Vec::new(),
            enemy_info: None,
            player_sprite: SpriteState::default(),
            enemy_sprite: SpriteState::default(),
            battle: None,
            menu: Some(MenuState { selected: 0, has_save: false }),
            pokemon_select: None,
            pause_menu: PauseMenuState::default(),
            message: None,
            steps_since_encounter: 0,
            rng_seed: clock_seed(since_epoch()),
            tick: 0,
        }
    }

    pub fn active_member(&self) -> (r: Option<&PartyMember>)
        ensures
            match self.active_spec() {
                Some(m) => r is Some && *r.unwrap() == m,
                None => r is None,
            },
    {
        if self.active_party_index < self.party.len() {
            Some(&self.party[self.active_party_index])
        } else {
            None
        }
    }

    /// The active member of the party, for editing in place.
    pub fn active_member_mut(&mut self) -> (r: Option<&mut PartyMember>)
        ensures
            old(self).active_party_index < old(self).party@.len() ==> r is Some && *r.unwrap() == old(self).party@[old(self).active_party_index as int],
            old(self).active_party_index >= old(self).party@.len() ==> r is None && *final(self) == *old(self),
            match r {
                Some(m) => final(self).party@ == old(self).party@.update(old(self).active_party_index as int, *final(m))
                    && *final(self) == (AppState { party: final(self).party, ..*old(self) }),
                None => true,
            },
    {
        if self.active_party_index < self.party.len() {
            let i = self.active_party_index;
            Some(&mut self.party[i])
        } else {
            None
        }
    }

    /// The name of the player's creature: the active member's, else the
    /// stored species', else "partner".
    pub fn player_name(&self) -> (n: String)
        ensures
            n@ == self.name_spec(),
    {
        match self.active_member() {
            Some(m) => m.info.name.clone(),
            None => match &self.player_info {
                Some(i) => i.name.clone(),
                None => owned("partner"),
            },
        }
    }

    pub fn player_max_hp(&self) -> (h: u16)
        requires
            self.max_hp_fits(),
        ensures
            h == self.max_hp_spec(),
    {
        match self.active_member() {
            Some(m) => calc_hp(m.info.hp, m.level),
            None => match &self.player_info {
                Some(i) => calc_hp(i.hp, self.player_level),
                None => 35,
            },
        }
    }

    pub fn active_level(&self) -> (l: u8)
        ensures
            l == self.level_spec(),
    {
        match self.active_member() {
            Some(m) => m.level,
            None => self.player_level,
        }
    }

    /// Experience between this level and the next; 0 at the highest level.
    pub fn exp_to_next_level(&self) -> (e: u32)
        ensures
            e == if self.level_spec() >= MAX_LEVEL {
                0
            } else {
                level_exp((self.level_spec() + 1) as u8) - level_exp(self.level_spec())
            },
    {
        let level = self.active_level();
        if level >= MAX_LEVEL {
            return 0;
        }
        let next = exp_for_level(level + 1);
        let current = exp_for_level(level);
        assert(level_exp(level) <= level_exp((level + 1) as u8)) by (nonlinear_arith)
            requires
                level_exp(level) == level_or_one(level) * level_or_one(level) * level_or_one(level),
                level_exp((level + 1) as u8) == level_or_one((level + 1) as u8) * level_or_one((level + 1) as u8) * level_or_one((level + 1) as u8),
                1 <= level_or_one(level) <= level_or_one((level + 1) as u8),
        ;
        next - current
    }

    /// Experience gained since this level was reached, or 0.
    pub fn exp_progress(&self) -> (e: u32)
        ensures
            e == if self.exp_spec() >= level_exp(self.level_spec()) {
                self.exp_spec() - level_exp(self.level_spec())
            } else {
                0
            },
    {
        let level = self.active_level();
        let exp = match self.active_member() {
            Some(m) => m.exp,
            None => self.player_exp,
        };
        let current = exp_for_level(level);
        exp.saturating_sub(current)
    }
}

impl Default for AppState {
    /// The same as `new`.
    fn default() -> (s: Self)
        ensures
            s.mode == GameMode::MainMenu,
            s.party@.len() == 0,
            s.battle is None,
            s.menu == Some(MenuState { selected: 0, has_save: false }),
            s.inventory@ == starting_items(),
    {
        Self::new()
    }
}

} // verus!
