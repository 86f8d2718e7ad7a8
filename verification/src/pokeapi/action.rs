//! What can happen in the Pokedex browser, and what the reducer asks the
//! runtime to fetch or play.
use vstd::prelude::*;
use crate::dndtui::sprite::SpriteData;
use crate::pokeapi::state::{
    AbilityDetail, EncounterLocation, EvolutionChain, FocusArea, MoveDetail, PokedexEntry,
    PokemonDetail, PokemonSpecies, RegionInfo, TypeMatchup,
};

verus! {

#[derive(Clone, Debug)]
pub enum Action {
    Init,
    PokedexDidLoad(Vec<PokedexEntry>),
    PokedexDidError(String),
    SpeciesIndexDidLoad(Vec<PokemonSpecies>),
    SpeciesIndexDidError(String),
    RegionsDidLoad(Vec<RegionInfo>),
    RegionsDidError(String),
    RegionNext,
    RegionPrev,
    FocusNext,
    FocusPrev,
    FocusSet(FocusArea),
    TypesDidLoad(Vec<String>),
    TypesDidError(String),
    TypeFilterNext,
    TypeFilterPrev,
    TypeFilterClear,
    TypeFilterDidLoad { name: String, pokemon: Vec<String> },
    TypeFilterDidError { name: String, error: String },
    SelectionMove(i16),
    SelectionPage(i16),
    SelectionJumpTop,
    SelectionJumpBottom,
    DexSelect(usize),
    SearchStart,
    SearchCancel,
    SearchSubmit,
    SearchInput(char),
    SearchBackspace,
    PokemonDidLoad(PokemonDetail),
    PokemonDidError { name: String, error: String },
    PokemonSpeciesDidLoad(PokemonSpecies),
    PokemonSpeciesDidError { name: String, error: String },
    EvolutionDidLoad { id: String, chain: EvolutionChain },
    EvolutionDidError { id: String, error: String },
    EvolutionSelect(usize),
    SpriteDidLoad { name: String, sprite: SpriteData },
    SpriteDidError { name: String, error: String },
    MoveDetailDidLoad(MoveDetail),
    MoveDetailDidError { name: String, error: String },
    AbilityDetailDidLoad(AbilityDetail),
    AbilityDetailDidError { name: String, error: String },
    EncounterDidLoad { name: String, encounters: Vec<EncounterLocation> },
    EncounterDidError { name: String, error: String },
    TypeMatchupDidLoad { name: String, matchup: TypeMatchup },
    TypeMatchupDidError { name: String, error: String },
    DetailModeToggle,
    DetailTabNext,
    DetailTabPrev,
    DetailNext,
    DetailPrev,
    MoveSelect(usize),
    AbilitySelect(usize),
    EncounterSelect(usize),
    EncounterFilterNext,
    EncounterFilterPrev,
    ToggleFavorite,
    ToggleTeam,
    PlayCry,
    CryDidError(String),
    UiTerminalResize(u16, u16),
    Tick,
    Quit,
}

#[derive(Clone, Debug)]
pub enum Effect {
    LoadPokedex { name: String },
    LoadRegions,
    LoadSpeciesIndex { names: Vec<String> },
    LoadTypes,
    LoadTypeDetail { name: String },
    LoadPokemonDetail { name: String },
    LoadPokemonSpecies { name: String },
    LoadEncounters { name: String },
    LoadTypeMatchup { name: String },
    LoadEvolutionChain { id: String, url: String },
    LoadSprite { name: String, url: String },
    PlayCry { name: String, url: String },
    LoadMoveDetail { name: String },
    LoadAbilityDetail { name: String },
}

/// An effect as plain character sequences, for stating which effects the
/// reducer asks for.
pub enum EffectView {
    LoadPokedex(Seq<char>),
    LoadRegions,
    LoadSpeciesIndex(Seq<Seq<char>>),
    LoadTypes,
    LoadTypeDetail(Seq<char>),
    LoadPokemonDetail(Seq<char>),
    LoadPokemonSpecies(Seq<char>),
    LoadEncounters(Seq<char>),
    LoadTypeMatchup(Seq<char>),
    LoadEvolutionChain(Seq<char>, Seq<char>),
    LoadSprite(Seq<char>, Seq<char>),
    PlayCry(Seq<char>, Seq<char>),
    LoadMoveDetail(Seq<char>),
    LoadAbilityDetail(Seq<char>),
}

pub open spec fn effect_view(e: Effect) -> EffectView {
    match e {
        Effect::LoadPokedex { name } => EffectView::LoadPokedex(name@),
        Effect::LoadRegions => EffectView::LoadRegions,
        Effect::LoadSpeciesIndex { names } => EffectView::LoadSpeciesIndex(names@.map_values(|n: String| n@)),
        Effect::LoadTypes => EffectView::LoadTypes,
        Effect::LoadTypeDetail { name } => EffectView::LoadTypeDetail(name@),
        Effect::LoadPokemonDetail { name } => EffectView::LoadPokemonDetail(name@),
        Effect::LoadPokemonSpecies { name } => EffectView::LoadPokemonSpecies(name@),
        Effect::LoadEncounters { name } => EffectView::LoadEncounters(name@),
        Effect::LoadTypeMatchup { name } => EffectView::LoadTypeMatchup(name@),
        Effect::LoadEvolutionChain { id, url } => EffectView::LoadEvolutionChain(id@, url@),
        Effect::LoadSprite { name, url } => EffectView::LoadSprite(name@, url@),
        Effect::PlayCry { name, url } => EffectView::PlayCry(name@, url@),
        Effect::LoadMoveDetail { name } => EffectView::LoadMoveDetail(name@),
        Effect::LoadAbilityDetail { name } => EffectView::LoadAbilityDetail(name@),
    }
}

/// The views of a list of effects.
pub open spec fn effects_view(es: Seq<Effect>) -> Seq<EffectView> {
    es.map_values(|e: Effect| effect_view(e))
}

} // verus!
