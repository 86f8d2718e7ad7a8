//! State of the Pokedex browser: the dex list and its filters, the
//! selected entry, the caches of fetched data, and what is loading.
use vstd::prelude::*;
use crate::dndtui::sprite::SpriteData;
use crate::pokeapi::store::{Cache, NameSet};
use crate::text::{
    contains_seq, dec, dec_u64, owned, spec_to_lowercase, str_contains, str_to_lowercase,
    str_trim, trim,
};

verus! {

#[derive(Clone, Debug)]
pub struct SearchState {
    pub active: bool,
    pub query: String,
}

#[derive(Clone, Debug)]
pub struct PokedexEntry {
    pub entry_number: u16,
    pub name: String,
    pub url: String,
}

#[derive(Clone, Debug)]
pub struct PokemonDetail {
    pub id: u16,
    pub name: String,
    pub types: Vec<String>,
    pub stats: Vec<PokemonStat>,
    pub abilities: Vec<String>,
    pub moves: Vec<String>,
    pub height: u16,
    pub weight: u16,
    pub sprite_front_default: Option<String>,
    pub sprite_front_shiny: Option<String>,
    pub sprite_animated: Option<String>,
    pub cries_latest: Option<String>,
    pub cries_legacy: Option<String>,
}

#[derive(Clone, Debug)]
pub struct PokemonStat {
    pub name: String,
    pub value: u16,
}

#[derive(Clone, Debug)]
pub struct PokemonSpecies {
    pub name: String,
    pub flavor_text: Option<String>,
    pub genus: Option<String>,
    pub evolution_chain_url: Option<String>,
    pub evolves_from: Option<String>,
}

#[derive(Clone, Debug)]
pub struct EvolutionChain {
    pub id: String,
    pub stages: Vec<String>,
}

#[derive(Clone, Debug)]
pub struct MoveDetail {
    pub name: String,
    pub power: Option<u16>,
    pub accuracy: Option<u16>,
    pub pp: Option<u16>,
    pub effect: Option<String>,
}

#[derive(Clone, Debug)]
pub struct AbilityDetail {
    pub name: String,
    pub effect: Option<String>,
}

#[derive(Clone, Debug)]
pub struct EncounterLocation {
    pub location: String,
    pub version_details: Vec<EncounterVersion>,
}

#[derive(Clone, Debug)]
pub struct EncounterVersion {
    pub version: String,
    pub max_chance: u8,
    pub encounters: Vec<EncounterDetail>,
}

#[derive(Clone, Debug)]
pub struct EncounterDetail {
    pub min_level: u8,
    pub max_level: u8,
    pub method: String,
    pub chance: u8,
    pub conditions: Vec<String>,
}

#[derive(Clone, Debug)]
pub struct TypeMatchup {
    pub name: String,
    pub double_from: Vec<String>,
    pub half_from: Vec<String>,
    pub no_from: Vec<String>,
    pub double_to: Vec<String>,
    pub half_to: Vec<String>,
    pub no_to: Vec<String>,
}

#[derive(Clone, Copy, Debug, PartialEq, Eq, Structural)]
pub enum DetailMode {
    General,
    Move,
    Ability,
    Encounter,
    Matchup,
}

#[derive(Clone, Debug)]
pub struct RegionInfo {
    pub name: String,
    pub label: String,
}

#[derive(Clone, Copy, Debug, PartialEq, Eq, Structural)]
pub enum FocusArea {
    Header,
    DexList,
    DetailTabs,
    Evolution,
}

#[derive(Debug)]
pub struct AppState {
    pub terminal_size: (u16, u16),
    pub focus: FocusArea,
    pub pokedex: Vec<PokedexEntry>,
    pub pokedex_all: Vec<PokedexEntry>,
    pub filtered_indices: Vec<usize>,
    pub selected_index: usize,
    pub detail_name: Option<String>,
    pub details: Cache<PokemonDetail>,
    pub species: Cache<PokemonSpecies>,
    pub evolution: Cache<EvolutionChain>,
    pub sprite_cache: Cache<SpriteData>,
    pub sprite_frame_index: usize,
    pub sprite_frame_tick: u64,
    pub move_cache: Cache<MoveDetail>,
    pub ability_cache: Cache<AbilityDetail>,
    pub encounter_cache: Cache<Vec<EncounterLocation>>,
    pub type_matchup_cache: Cache<TypeMatchup>,
    pub detail_mode: DetailMode,
    pub selected_move_index: usize,
    pub selected_ability_index: usize,
    pub selected_encounter_index: usize,
    pub evolution_selected_index: usize,
    pub search: SearchState,
    pub type_list: Vec<String>,
    pub type_filter: Option<String>,
    pub type_members: NameSet,
    pub type_cache: Cache<NameSet>,
    pub regions: Vec<RegionInfo>,
    pub region_index: usize,
    pub seen: NameSet,
    pub favorites: NameSet,
    pub team: Vec<String>,
    pub list_loading: bool,
    pub detail_loading: bool,
    pub type_loading: bool,
    pub evolution_loading: bool,
    pub sprite_loading: bool,
    pub species_index_loading: bool,
    pub region_loading: bool,
    pub encounter_loading: bool,
    pub type_matchup_loading: bool,
    pub message: Option<String>,
    pub tick: u64,
    pub encounter_version_filter: Option<String>,
}

impl Default for AppState {
    /// An empty browser focused on the dex list, nothing loaded or loading.
    fn default() -> (s: Self)
        ensures
            s.terminal_size == (80u16, 24u16),
            s.focus == FocusArea::DexList,
            s.pokedex@.len() == 0 && s.pokedex_all@.len() == 0 && s.filtered_indices@.len() == 0,
            s.selected_index == 0 && s.detail_name is None,
            s.details.entries@.len() == 0 && s.species.entries@.len() == 0,
            s.evolution.entries@.len() == 0 && s.sprite_cache.entries@.len() == 0,
            s.move_cache.entries@.len() == 0 && s.ability_cache.entries@.len() == 0,
            s.encounter_cache.entries@.len() == 0 && s.type_matchup_cache.entries@.len() == 0,
            s.sprite_frame_index == 0 && s.sprite_frame_tick == 0,
            s.detail_mode == DetailMode::General,
            s.selected_move_index == 0 && s.selected_ability_index == 0,
            s.selected_encounter_index == 0 && s.evolution_selected_index == 0,
            !s.search.active && s.search.query@.len() == 0,
            s.type_list@.len() == 0 && s.type_filter is None,
            s.type_members.names@.len() == 0 && s.type_cache.entries@.len() == 0,
            s.regions@.len() == 0 && s.region_index == 0,
            s.seen.names@.len() == 0 && s.favorites.names@.len() == 0 && s.team@.len() == 0,
            !s.list_loading && !s.detail_loading && !s.type_loading && !s.evolution_loading,
            !s.sprite_loading && !s.species_index_loading && !s.region_loading,
            !s.encounter_loading && !s.type_matchup_loading,
            s.message is None && s.tick == 0 && s.encounter_version_filter is None,
    {
        AppState {
            terminal_size: (80, 24),
            focus: FocusArea::DexList,
            pokedex: Vec::new(),
            pokedex_all: Vec::new(),
            filtered_indices: Vec::new(),
            selected_index: 0,
            detail_name: None,
            details: Cache::new(),
            species: Cache::new(),
            evolution: Cache::new(),
            sprite_cache: Cache::new(),
            sprite_frame_index: 0,
            sprite_frame_tick: 0,
            move_cache: Cache::new(),
            ability_cache: Cache::new(),
            encounter_cache: Cache::new(),
            type_matchup_cache: Cache::new(),
            detail_mode: DetailMode::General,
            selected_move_index: 0,
            selected_ability_index: 0,
            selected_encounter_index: 0,
            evolution_selected_index: 0,
            search: SearchState { active: false, query: String::new() },
            type_list: Vec::new(),
            type_filter: None,
            type_members: NameSet::new(),
            type_cache: Cache::new(),
            regions: Vec::new(),
            region_index: 0,
            seen: NameSet::new(),
            favorites: NameSet::new(),
            team: Vec::new(),
            list_loading: false,
            detail_loading: false,
            type_loading: false,
            evolution_loading: false,
            sprite_loading: false,
            species_index_loading: false,
            region_loading: false,
            encounter_loading: false,
            type_matchup_loading: false,
            message: None,
            tick: 0,
            encounter_version_filter: None,
        }
    }
}

/// Whether a dex entry passes the search query (already trimmed and
/// lower-cased): an empty query passes everything, otherwise the entry's
/// lower-cased name or its number must contain it.
pub open spec fn matches_query(e: PokedexEntry, query: Seq<char>) -> bool {
    query.len() == 0 || contains_seq(spec_to_lowercase(e.name@), query) || contains_seq(
        dec(e.entry_number as nat),
        query,
    )
}

/// Whether a dex entry passes the type filter.
pub open spec fn matches_type(e: PokedexEntry, filter: Option<String>, members: NameSet) -> bool {
    filter is None || members.has(e.name@)
}

/// The positions of the entries that pass both filters, in dex order.
pub open spec fn filtered(
    dex: Seq<PokedexEntry>,
    query: Seq<char>,
    filter: Option<String>,
    members: NameSet,
) -> Seq<usize>
    decreases dex.len(),
{
    if dex.len() == 0 {
        seq![]
    } else {
        let rest = filtered(dex.drop_last(), query, filter, members);
        let e = dex.last();
        if matches_query(e, query) && matches_type(e, filter, members) {
            rest.push((dex.len() - 1) as usize)
        } else {
            rest
        }
    }
}

/// The trimmed, lower-cased search query.
pub open spec fn query_key(s: AppState) -> Seq<char> {
    spec_to_lowercase(trim(s.search.query@))
}

/// The entry under the cursor: the dex entry at the selected position of
/// the filtered list.
pub open spec fn selected_entry_spec(s: AppState) -> Option<PokedexEntry> {
    if s.selected_index < s.filtered_indices@.len() && s.filtered_indices@[s.selected_index as int]
        < s.pokedex@.len() {
        Some(s.pokedex@[s.filtered_indices@[s.selected_index as int] as int])
    } else {
        None
    }
}

/// The focus after moving forward through the panes.
pub open spec fn focus_after(f: FocusArea) -> FocusArea {
    match f {
        FocusArea::Header => FocusArea::DexList,
        FocusArea::DexList => FocusArea::DetailTabs,
        FocusArea::DetailTabs => FocusArea::Evolution,
        FocusArea::Evolution => FocusArea::DexList,
    }
}

/// The focus after moving backward through the panes.
pub open spec fn focus_before(f: FocusArea) -> FocusArea {
    match f {
        FocusArea::Header => FocusArea::Evolution,
        FocusArea::DexList => FocusArea::Evolution,
        FocusArea::DetailTabs => FocusArea::DexList,
        FocusArea::Evolution => FocusArea::DetailTabs,
    }
}

impl AppState {
    pub fn selected_entry(&self) -> (r: Option<&PokedexEntry>)
        ensures
            match selected_entry_spec(*self) {
                Some(e) => r matches Some(x) && *x == e,
                None => r is None,
            },
    {
        if self.selected_index < self.filtered_indices.len() {
            let idx = self.filtered_indices[self.selected_index];
            if idx < self.pokedex.len() {
                return Some(&self.pokedex[idx]);
            }
        }
        None
    }

    pub fn selected_name(&self) -> (r: Option<String>)
        ensures
            match selected_entry_spec(*self) {
                Some(e) => r matches Some(n) && n@ == e.name@,
                None => r is None,
            },
    {
        match self.selected_entry() {
            Some(e) => Some(e.name.clone()),
            None => None,
        }
    }

    /// Moves the cursor to `index`, kept within the filtered list; reports
    /// whether it moved. An empty list puts the cursor at 0.
    pub fn set_selected_index(&mut self, index: usize) -> (moved: bool)
        ensures
            old(self).filtered_indices@.len() == 0 ==> !moved && *final(self) == (AppState {
                selected_index: 0,
                ..*old(self)
            }),
            old(self).filtered_indices@.len() > 0 ==> {
                let last = old(self).filtered_indices@.len() - 1;
                let bounded = if index <= last { index as int } else { last };
                &&& moved == (bounded != old(self).selected_index)
                &&& *final(self) == (AppState { selected_index: bounded as usize, ..*old(self) })
            },
    {
        if self.filtered_indices.len() == 0 {
            self.selected_index = 0;
            return false;
        }
        let last = self.filtered_indices.len() - 1;
        let bounded = if index <= last { index } else { last };
        if bounded != self.selected_index {
            self.selected_index = bounded;
            return true;
        }
        false
    }

    /// Recomputes the filtered list from the search query and the type
    /// filter; a cursor past its end goes back to 0.
    pub fn rebuild_filtered(&mut self)
        ensures
            ({
                let f = filtered(old(self).pokedex@, query_key(*old(self)), old(self).type_filter, old(self).type_members);
                &&& final(self).filtered_indices@ == f
                &&& *final(self) == (AppState {
                    filtered_indices: final(self).filtered_indices,
                    selected_index: if old(self).selected_index >= f.len() {
                        0
                    } else {
                        old(self).selected_index
                    },
                    ..*old(self)
                })
            }),
    {
        let query = str_to_lowercase(str_trim(self.search.query.as_str()));
        let ghost q = query@;
        let mut out: Vec<usize> = Vec::new();
        let mut i: usize = 0;
        let filtering = self.type_filter.is_some();
        while i < self.pokedex.len()
            invariant
                i <= self.pokedex@.len(),
                q == query_key(*old(self)),
                query@ == q,
                *self == *old(self),
                filtering == old(self).type_filter is Some,
                out@ == filtered(self.pokedex@.subrange(0, i as int), q, self.type_filter, self.type_members),
            decreases self.pokedex.len() - i,
        {
            let ghost pre = self.pokedex@.subrange(0, i + 1);
            assert(pre.drop_last() =~= self.pokedex@.subrange(0, i as int));
            let e = &self.pokedex[i];
            let q_ok = if query.as_str().unicode_len() == 0 {
                true
            } else {
                let lower = str_to_lowercase(e.name.as_str());
                if str_contains(lower.as_str(), query.as_str()) {
                    true
                } else {
                    let num = dec_u64(e.entry_number as u64);
                    str_contains(num.as_str(), query.as_str())
                }
            };
            let t_ok = !filtering || self.type_members.contains(e.name.as_str());
            assert(q_ok == matches_query(self.pokedex@[i as int], q));
            assert(t_ok == matches_type(self.pokedex@[i as int], self.type_filter, self.type_members));
            assert(pre.last() == self.pokedex@[i as int]);
            if q_ok && t_ok {
                out.push(i);
            }
            i = i + 1;
        }
        assert(self.pokedex@.subrange(0, self.pokedex@.len() as int) =~= self.pokedex@);
        self.filtered_indices = out;
        if self.selected_index >= self.filtered_indices.len() {
            self.selected_index = 0;
        }
    }

    /// Caches the members of a type, and uses them as the filter's members
    /// when that type is the current filter.
    pub fn update_type_members(&mut self, ty_name: &str, pokemon: NameSet)
        ensures
            forall|k: Seq<char>| #[trigger] final(self).type_cache.get_spec(k) == if k == ty_name@ {
                Some(pokemon)
            } else {
                old(self).type_cache.get_spec(k)
            },
            *final(self) == (AppState {
                type_cache: final(self).type_cache,
                type_members: final(self).type_members,
                ..*old(self)
            }),
            if old(self).type_filter matches Some(f) && f@ == ty_name@ {
                forall|n: Seq<char>| #[trigger] final(self).type_members.has(n) == pokemon.has(n)
            } else {
                final(self).type_members == old(self).type_members
            },
    {
        let is_current = match &self.type_filter {
            Some(f) => crate::text::str_eq(f.as_str(), ty_name),
            None => false,
        };
        let copy = pokemon.clone_set();
        self.type_cache.insert(owned(ty_name), pokemon);
        if is_current {
            self.type_members = copy;
        }
    }

    /// The fetched detail of the entry shown.
    pub fn current_detail(&self) -> (r: Option<&PokemonDetail>)
        ensures
            match self.detail_name {
                Some(n) => match self.details.get_spec(n@) {
                    Some(d) => r matches Some(x) && *x == d,
                    None => r is None,
                },
                None => r is None,
            },
    {
        match &self.detail_name {
            Some(n) => self.details.get(n.as_str()),
            None => None,
        }
    }

    /// The fetched species of the entry shown.
    pub fn current_species(&self) -> (r: Option<&PokemonSpecies>)
        ensures
            match self.detail_name {
                Some(n) => match self.species.get_spec(n@) {
                    Some(d) => r matches Some(x) && *x == d,
                    None => r is None,
                },
                None => r is None,
            },
    {
        match &self.detail_name {
            Some(n) => self.species.get(n.as_str()),
            None => None,
        }
    }

    pub fn current_region(&self) -> (r: Option<&RegionInfo>)
        ensures
            self.region_index < self.regions@.len() ==> (r matches Some(x) && *x
                == self.regions@[self.region_index as int]),
            self.region_index >= self.regions@.len() ==> r is None,
    {
        if self.region_index < self.regions.len() {
            Some(&self.regions[self.region_index])
        } else {
            None
        }
    }

    /// The move under the move cursor of the detail shown.
    pub fn current_move_name(&self) -> (r: Option<String>)
        ensures
            match self.detail_name {
                Some(n) => match self.details.get_spec(n@) {
                    Some(d) => if self.selected_move_index < d.moves@.len() {
                        r matches Some(m) && m@ == d.moves@[self.selected_move_index as int]@
                    } else {
                        r is None
                    },
                    None => r is None,
                },
                None => r is None,
            },
    {
        match self.current_detail() {
            Some(d) => {
                if self.selected_move_index < d.moves.len() {
                    Some(d.moves[self.selected_move_index].clone())
                } else {
                    None
                }
            },
            None => None,
        }
    }

    /// The ability under the ability cursor of the detail shown.
    pub fn current_ability_name(&self) -> (r: Option<String>)
        ensures
            match self.detail_name {
                Some(n) => match self.details.get_spec(n@) {
                    Some(d) => if self.selected_ability_index < d.abilities@.len() {
                        r matches Some(m) && m@ == d.abilities@[self.selected_ability_index as int]@
                    } else {
                        r is None
                    },
                    None => r is None,
                },
                None => r is None,
            },
    {
        match self.current_detail() {
            Some(d) => {
                if self.selected_ability_index < d.abilities.len() {
                    Some(d.abilities[self.selected_ability_index].clone())
                } else {
                    None
                }
            },
            None => None,
        }
    }

    pub fn reset_sprite_animation(&mut self)
        ensures
            *final(self) == (AppState { sprite_frame_index: 0, sprite_frame_tick: 0, ..*old(self) }),
    {
        self.sprite_frame_index = 0;
        self.sprite_frame_tick = 0;
    }

    pub fn reset_detail_selection(&mut self)
        ensures
            *final(self) == (AppState {
                detail_mode: DetailMode::General,
                selected_move_index: 0,
                selected_ability_index: 0,
                selected_encounter_index: 0,
                ..*old(self)
            }),
    {
        self.detail_mode = DetailMode::General;
        self.selected_move_index = 0;
        self.selected_ability_index = 0;
        self.selected_encounter_index = 0;
    }

    pub fn focus_next(&mut self)
        ensures
            *final(self) == (AppState { focus: focus_after(old(self).focus), ..*old(self) }),
    {
        self.focus = match self.focus {
            FocusArea::Header => FocusArea::DexList,
            FocusArea::DexList => FocusArea::DetailTabs,
            FocusArea::DetailTabs => FocusArea::Evolution,
            FocusArea::Evolution => FocusArea::DexList,
        };
    }

    pub fn focus_prev(&mut self)
        ensures
            *final(self) == (AppState { focus: focus_before(old(self).focus), ..*old(self) }),
    {
        self.focus = match self.focus {
            FocusArea::Header => FocusArea::Evolution,
            FocusArea::DexList => FocusArea::Evolution,
            FocusArea::DetailTabs => FocusArea::DexList,
            FocusArea::Evolution => FocusArea::DetailTabs,
        };
    }
}

/// Moving through the panes forward and then back, or back and then
/// forward, returns to the pane one started from, from any pane but the
/// header.
pub proof fn law_focus_round_trip(f: FocusArea)
    requires
        f != FocusArea::Header,
    ensures
        focus_before(focus_after(f)) == f,
        focus_after(focus_before(f)) == f,
{
}

/// The filtered list holds exactly the positions of the entries that pass
/// both filters, each once, in dex order (of a dex whose positions fit in
/// a `usize`, as those of a `Vec` do).
pub proof fn law_filtered_exact(dex: Seq<PokedexEntry>, query: Seq<char>, filter: Option<String>, members: NameSet)
    requires
        dex.len() <= usize::MAX,
    ensures
        forall|k: int| 0 <= k < filtered(dex, query, filter, members).len() ==> {
            let i = #[trigger] filtered(dex, query, filter, members)[k] as int;
            &&& 0 <= i < dex.len()
            &&& matches_query(dex[i], query)
            &&& matches_type(dex[i], filter, members)
        },
        forall|k1: int, k2: int| 0 <= k1 < k2 < filtered(dex, query, filter, members).len()
            ==> filtered(dex, query, filter, members)[k1] < filtered(dex, query, filter, members)[k2],
        forall|i: int| 0 <= i < dex.len() && matches_query(#[trigger] dex[i], query) && matches_type(dex[i], filter, members)
            ==> exists|k: int| 0 <= k < filtered(dex, query, filter, members).len() && filtered(dex, query, filter, members)[k] == i,
    decreases dex.len(),
{
    if dex.len() > 0 {
        let rest_dex = dex.drop_last();
        let rest = filtered(rest_dex, query, filter, members);
        let f = filtered(dex, query, filter, members);
        law_filtered_exact(rest_dex, query, filter, members);
        let e = dex.last();
        assert(e == dex[dex.len() - 1]);
        let kept = matches_query(e, query) && matches_type(e, filter, members);
        assert(f == if kept { rest.push((dex.len() - 1) as usize) } else { rest });
        assert forall|k: int| 0 <= k < rest.len() implies #[trigger] rest[k] < dex.len() - 1 && f[k] == rest[k] by {}
        assert forall|i: int| 0 <= i < rest_dex.len() implies rest_dex[i] == #[trigger] dex[i] by {}
        assert forall|i: int| 0 <= i < dex.len() && matches_query(#[trigger] dex[i], query) && matches_type(dex[i], filter, members)
            implies exists|k: int| 0 <= k < f.len() && f[k] == i by {
            if i < dex.len() - 1 {
                assert(matches_query(rest_dex[i], query));
                let k = choose|k: int| 0 <= k < rest.len() && rest[k] == i;
                assert(f[k] == rest[k]);
            } else {
                assert(f[rest.len() as int] == i);
            }
        }
    }
}

/// The type filter keeps exactly the type's members: with a type chosen,
/// an entry's position is in the filtered list exactly when the entry
/// passes the search and its name is among that type's members; with none
/// chosen, exactly when it passes the search.
pub proof fn law_type_filter_keeps_members(dex: Seq<PokedexEntry>, query: Seq<char>, filter: Option<String>, members: NameSet)
    requires
        dex.len() <= usize::MAX,
    ensures
        forall|i: int| 0 <= i < dex.len() ==> (filtered(dex, query, filter, members).contains(i as usize) <==> (
            matches_query(#[trigger] dex[i], query) && (filter is Some ==> members.has(dex[i].name@)))),
{
    law_filtered_exact(dex, query, filter, members);
    let f = filtered(dex, query, filter, members);
    assert forall|i: int| 0 <= i < dex.len() implies (f.contains(i as usize) <==> (
        matches_query(#[trigger] dex[i], query) && (filter is Some ==> members.has(dex[i].name@)))) by {
        if f.contains(i as usize) {
            let k = choose|k: int| 0 <= k < f.len() && f[k] == i as usize;
            assert(f[k] as int == i);
        }
        if matches_query(dex[i], query) && matches_type(dex[i], filter, members) {
            let k = choose|k: int| 0 <= k < f.len() && f[k] == i;
            assert(f[k] == i as usize);
        }
    }
}

} // verus!
