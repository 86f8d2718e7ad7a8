use tui_games::pokeapi::action::{Action, Effect};
use tui_games::pokeapi::api::{
    api_url, cache_file_name, effect_text, evolution_chain, first_english, flavor_text, format_region_label,
    pokedex_in_order, region_sort_key, regions_from, resource_url, sanitize_text, type_names, ChainLink,
    EffectEntry, LocalizedText, NamedResource,
};
use tui_games::pokeapi::reducer::{clamp_index, evolution_id_from_url, reducer};
use tui_games::pokeapi::state::{AppState, FocusArea, PokedexEntry};
use tui_games::pokeapi::store::{Cache, NameSet};

fn entry(n: u16, name: &str) -> PokedexEntry {
    PokedexEntry { entry_number: n, name: name.to_string(), url: format!("https://pokeapi.co/api/v2/pokemon-species/{n}/") }
}

#[test]
fn urls_are_built_under_the_api_root() {
    assert_eq!(api_url("/pokedex/kanto"), "https://pokeapi.co/api/v2/pokedex/kanto");
    assert_eq!(resource_url("pokemon", "pikachu"), "https://pokeapi.co/api/v2/pokemon/pikachu");
}

#[test]
fn cache_file_name_is_sha256_hex_of_url() {
    assert_eq!(
        cache_file_name("https://pokeapi.co/api/v2/pokemon/pikachu"),
        "af8a5854907283ad12bb4b37949b48d73711217c9b0932d5fc4155745ea21315"
    );
}

#[test]
fn sanitize_replaces_line_breaks() {
    assert_eq!(sanitize_text("a\nb\u{000C}c"), "a b c");
    assert_eq!(sanitize_text("plain"), "plain");
}

#[test]
fn effect_text_prefers_short_english() {
    let entries = vec![
        EffectEntry { effect: "Long de".to_string(), short_effect: "Kurz".to_string(), language: "de".to_string() },
        EffectEntry { effect: "Long\nen".to_string(), short_effect: "".to_string(), language: "en".to_string() },
        EffectEntry { effect: "Other".to_string(), short_effect: "Short".to_string(), language: "en".to_string() },
    ];
    assert_eq!(effect_text(&entries), Some("Long en".to_string()));
    let none = vec![EffectEntry { effect: "x".to_string(), short_effect: "y".to_string(), language: "fr".to_string() }];
    assert_eq!(effect_text(&none), None);
}

#[test]
fn english_texts_are_found() {
    let texts = vec![
        LocalizedText { text: "Bonjour".to_string(), language: "fr".to_string() },
        LocalizedText { text: "Mouse\nPokemon".to_string(), language: "en".to_string() },
    ];
    assert_eq!(first_english(&texts), Some("Mouse\nPokemon".to_string()));
    assert_eq!(flavor_text(&texts), Some("Mouse Pokemon".to_string()));
}

#[test]
fn region_labels() {
    assert_eq!(format_region_label("original-johto"), Some("ORIGINAL JOHTO".to_string()));
    assert_eq!(format_region_label("national"), None);
    assert_eq!(format_region_label("conquest-gallery"), None);
}

#[test]
fn region_keys_follow_listing_order() {
    assert_eq!(region_sort_key("kanto").0, 0);
    assert_eq!(region_sort_key("paldea").0, 17);
    assert_eq!(region_sort_key("kitakami").0, 18);
}

#[test]
fn regions_are_listed_in_order() {
    let names = ["paldea", "national", "kanto", "zzz", "hoenn", "aaa"];
    let entries: Vec<NamedResource> = names
        .iter()
        .map(|n| NamedResource { name: n.to_string(), url: String::new() })
        .collect();
    let regions = regions_from(&entries);
    let got: Vec<&str> = regions.iter().map(|r| r.name.as_str()).collect();
    assert_eq!(got, vec!["kanto", "hoenn", "paldea", "aaa", "zzz"]);
    assert_eq!(regions[0].label, "KANTO");
}

#[test]
fn types_drop_unknown_and_shadow_and_sort() {
    let names = vec!["water".to_string(), "unknown".to_string(), "fire".to_string(), "shadow".to_string(), "bug".to_string()];
    assert_eq!(type_names(names), vec!["bug".to_string(), "fire".to_string(), "water".to_string()]);
}

#[test]
fn pokedex_is_ordered_by_number() {
    let sorted = pokedex_in_order(vec![entry(3, "venusaur"), entry(1, "bulbasaur"), entry(2, "ivysaur")]);
    let got: Vec<u16> = sorted.iter().map(|e| e.entry_number).collect();
    assert_eq!(got, vec![1, 2, 3]);
}

#[test]
fn evolution_stages_are_collected_once_in_order() {
    let chain = ChainLink {
        species: "eevee".to_string(),
        evolves_to: vec![
            ChainLink { species: "vaporeon".to_string(), evolves_to: vec![] },
            ChainLink { species: "jolteon".to_string(), evolves_to: vec![ChainLink { species: "eevee".to_string(), evolves_to: vec![] }] },
        ],
    };
    let evo = evolution_chain("67", &chain);
    assert_eq!(evo.id, "67");
    assert_eq!(evo.stages, vec!["eevee".to_string(), "vaporeon".to_string(), "jolteon".to_string()]);
}

#[test]
fn evolution_ids_come_from_urls() {
    assert_eq!(evolution_id_from_url("https://pokeapi.co/api/v2/evolution-chain/10/"), "10");
    assert_eq!(evolution_id_from_url("https://pokeapi.co/api/v2/evolution-chain/11"), "11");
}

#[test]
fn clamp_index_stays_in_range() {
    assert_eq!(clamp_index(0, 0, 5), 0);
    assert_eq!(clamp_index(2, 5, -3), 0);
    assert_eq!(clamp_index(2, 5, 10), 4);
    assert_eq!(clamp_index(2, 5, 1), 3);
}

#[test]
fn cache_keeps_last_value_per_key() {
    let mut c: Cache<u32> = Cache::new();
    assert!(!c.contains_key("a"));
    c.insert("a".to_string(), 1);
    c.insert("b".to_string(), 2);
    c.insert("a".to_string(), 3);
    assert_eq!(c.get("a"), Some(&3));
    assert_eq!(c.get("b"), Some(&2));
    assert_eq!(c.get("c"), None);
}

#[test]
fn name_set_insert_and_remove() {
    let mut s = NameSet::new();
    s.insert("pikachu".to_string());
    s.insert("pikachu".to_string());
    s.insert("eevee".to_string());
    assert_eq!(s.len(), 2);
    assert!(s.contains("eevee"));
    s.remove("pikachu");
    assert!(!s.contains("pikachu"));
    s.clear();
    assert_eq!(s.len(), 0);
}

#[test]
fn init_asks_for_regions_kanto_and_types() {
    let mut state = AppState::default();
    let r = reducer(&mut state, Action::Init);
    assert!(r.changed);
    assert_eq!(r.effects.len(), 3);
    assert!(matches!(r.effects[0], Effect::LoadRegions));
    assert!(matches!(&r.effects[1], Effect::LoadPokedex { name } if name == "kanto"));
    assert!(matches!(r.effects[2], Effect::LoadTypes));
    assert!(state.list_loading && state.type_loading && state.region_loading);
}

#[test]
fn pokedex_load_asks_for_species_index() {
    let mut state = AppState::default();
    let r = reducer(&mut state, Action::PokedexDidLoad(vec![entry(1, "bulbasaur"), entry(2, "ivysaur")]));
    assert!(r.changed);
    assert_eq!(state.pokedex_all.len(), 2);
    assert!(!state.list_loading);
    assert!(matches!(&r.effects[0], Effect::LoadSpeciesIndex { names } if names.len() == 2 && names[0] == "bulbasaur"));
}

#[test]
fn pokedex_error_is_reported() {
    let mut state = AppState::default();
    reducer(&mut state, Action::PokedexDidError("offline".to_string()));
    assert_eq!(state.message, Some("Pokedex error: offline".to_string()));
}

#[test]
fn favorites_toggle_on_and_off() {
    let mut state = AppState::default();
    reducer(&mut state, Action::PokedexDidLoad(vec![entry(25, "pikachu")]));
    reducer(&mut state, Action::SpeciesIndexDidLoad(vec![]));
    reducer(&mut state, Action::ToggleFavorite);
    assert!(state.favorites.contains("pikachu"));
    reducer(&mut state, Action::ToggleFavorite);
    assert!(!state.favorites.contains("pikachu"));
}

#[test]
fn focus_moves_round_and_back() {
    let mut state = AppState::default();
    for start in [FocusArea::DexList, FocusArea::DetailTabs, FocusArea::Evolution] {
        state.focus = start;
        state.focus_next();
        assert_ne!(state.focus, start);
        state.focus_prev();
        assert_eq!(state.focus, start);
        state.focus_prev();
        state.focus_next();
        assert_eq!(state.focus, start);
    }
    state.focus = FocusArea::Header;
    state.focus_next();
    assert_eq!(state.focus, FocusArea::DexList);
}

#[test]
fn search_keeps_exactly_the_matching_entries() {
    let mut state = AppState::default();
    state.pokedex = vec![entry(1, "bulbasaur"), entry(4, "charmander"), entry(7, "squirtle"), entry(25, "pikachu")];
    state.search.query = "  AR ".to_string();
    state.rebuild_filtered();
    assert_eq!(state.filtered_indices, vec![1]);
    state.search.query = "2".to_string();
    state.rebuild_filtered();
    assert_eq!(state.filtered_indices, vec![3]);
    state.search.query = String::new();
    state.rebuild_filtered();
    assert_eq!(state.filtered_indices, vec![0, 1, 2, 3]);
}

#[test]
fn a_name_set_holds_each_name_once() {
    let set = NameSet::from_names(vec!["a".to_string(), "b".to_string(), "a".to_string()]);
    assert_eq!(set.len(), 2);
    assert!(set.contains("a") && set.contains("b"));
    let mut cache: Cache<u16> = Cache::new();
    cache.insert("x".to_string(), 1);
    cache.insert("x".to_string(), 2);
    assert_eq!(cache.entries.len(), 1);
    assert_eq!(cache.get("x"), Some(&2));
}
