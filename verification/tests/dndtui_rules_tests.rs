use tui_games::dndtui::scenario::{build_legend, map_from_text, LegendEntry};
use tui_games::dndtui::state::Tile;
use tui_games::dndtui::llm::{client_for, ClientConfig, LlmError, Provider};
use tui_games::dndtui::rules::{
    ability_modifier, clamp_score, difficulty_dc, parse_difficulty, parse_skill_or_ability,
    point_cost, points_remaining, AbilityScores, CheckKind, Difficulty, Skill, Ability,
};
use tui_games::dndtui::schema::{parse_action_interpretation, parse_dialogue_response, extract_field, DialogueResponse};

#[test]
fn point_buy_math() {
    let mut scores = AbilityScores::default();
    scores.strength = 15;
    scores.dexterity = 14;
    let remaining = points_remaining(&scores, 27);
    assert!(remaining < 27);
}

#[test]
fn modifiers() {
    assert_eq!(ability_modifier(10), 0);
    assert_eq!(ability_modifier(12), 1);
    assert_eq!(ability_modifier(8), -1);
}

#[test]
fn dc_map() {
    assert_eq!(difficulty_dc(Difficulty::Easy), 10);
    assert_eq!(difficulty_dc(Difficulty::Medium), 15);
    assert_eq!(difficulty_dc(Difficulty::Hard), 20);
}

#[test]
fn parse_dialogue_fallback() {
    let input = "npc_line: 'Hey there'";
    let response = parse_dialogue_response(input, read_dialogue_json(input)).unwrap();
    assert_eq!(response.npc_line, "Hey there");
}

/// The JSON reading of a dialogue reply, as the game makes it before the
/// field lookup.
fn read_dialogue_json(raw: &str) -> Option<DialogueResponse> {
    let value: serde_json::Value = serde_json::from_str(raw).ok()?;
    let line = value.get("npc_line")?.as_str()?;
    Some(DialogueResponse { npc_line: line.to_string() })
}

#[test]
fn a_json_dialogue_reply_is_read_as_json() {
    let input = r#"{"npc_line": "Well met, npc_line: 'not this'"}"#;
    let parsed = read_dialogue_json(input);
    assert!(parsed.is_some());
    let response = parse_dialogue_response(input, parsed).unwrap();
    assert_eq!(response.npc_line, "Well met, npc_line: 'not this'");
    assert!(parse_dialogue_response("no line here", read_dialogue_json("no line here")).is_err());
}

#[test]
fn point_costs_follow_the_table() {
    assert_eq!(point_cost(8), 0);
    assert_eq!(point_cost(13), 5);
    assert_eq!(point_cost(14), 7);
    assert_eq!(point_cost(15), 9);
    let scores = AbilityScores::default();
    assert_eq!(points_remaining(&scores, 27), 27);
}

#[test]
fn clamp_score_keeps_point_buy_range() {
    assert_eq!(clamp_score(3), 8);
    assert_eq!(clamp_score(12), 12);
    assert_eq!(clamp_score(20), 15);
    assert_eq!(clamp_score(clamp_score(20)), clamp_score(20));
}

#[test]
fn odd_scores_round_modifier_down() {
    assert_eq!(ability_modifier(7), -2);
    assert_eq!(ability_modifier(1), -5);
    assert_eq!(ability_modifier(11), 0);
}

#[test]
fn parses_skills_abilities_and_difficulty() {
    assert_eq!(parse_skill_or_ability(" Athletics "), CheckKind::Skill(Skill::Athletics));
    assert_eq!(parse_skill_or_ability("CHARISMA"), CheckKind::Ability(Ability::Charisma));
    assert_eq!(parse_skill_or_ability("nonsense"), CheckKind::Ability(Ability::Wisdom));
    assert_eq!(parse_difficulty("HARD"), Difficulty::Hard);
    assert_eq!(parse_difficulty(" easy"), Difficulty::Easy);
    assert_eq!(parse_difficulty("whatever"), Difficulty::Medium);
}

#[test]
fn dialogue_fallback_errors_without_field() {
    let r = parse_dialogue_response("nothing useful here", None);
    assert_eq!(r.unwrap_err(), "invalid dialogue response");
}

#[test]
fn field_extraction_reads_quoted_and_bare_values() {
    assert_eq!(extract_field(r#"{"a": "x\"y", "b": 3}"#, "a").as_deref(), Some("x\"y"));
    assert_eq!(extract_field(r#"{"a": "x", "b": 3 }"#, "b").as_deref(), Some("3"));
    assert_eq!(extract_field("b = 3", "b"), None);
}

#[test]
fn action_fallback_fills_defaults() {
    let a = parse_action_interpretation("skill: stealth\nreason: sneak", None).unwrap();
    assert_eq!(a.kind, "skill_check");
    assert_eq!(a.skill, "stealth");
    assert_eq!(a.difficulty, "medium");
    assert_eq!(a.reason, "sneak");
    assert_eq!(a.on_success, "You succeed.");
    assert_eq!(a.on_failure, "You fail.");
    let e = parse_action_interpretation("hello", None).unwrap_err();
    assert_eq!(e, "invalid action response");
}

#[test]
fn the_client_follows_the_provider() {
    match client_for(Provider::Openai, "gpt".to_string(), Some("k".to_string()), None) {
        Ok(ClientConfig::OpenAi { api_key, model }) => {
            assert_eq!(api_key, "k");
            assert_eq!(model, "gpt");
        }
        _ => panic!("expected an OpenAI client"),
    }
    match client_for(Provider::Openai, "gpt".to_string(), None, None) {
        Err(e) => assert_eq!(e.message(), "missing OpenAI API key"),
        _ => panic!("expected a missing key"),
    }
    match client_for(Provider::Ollama, "llama".to_string(), None, None) {
        Ok(ClientConfig::Ollama { base_url, model }) => {
            assert_eq!(base_url, "http://localhost:11434");
            assert_eq!(model, "llama");
        }
        _ => panic!("expected an Ollama client"),
    }
    assert_eq!(LlmError::Request("x".to_string()).message(), "request failed: x");
}

#[test]
fn a_map_is_read_line_by_line_through_its_legend() {
    let legend = build_legend(&vec![
        LegendEntry { ch: "#".to_string(), tile: "wall".to_string() },
        LegendEntry { ch: "~".to_string(), tile: "water".to_string() },
    ])
    .unwrap();
    let map = map_from_text("m", "#~\r\n#\n", &legend).unwrap();
    assert_eq!((map.width, map.height), (2, 2));
    assert_eq!(map.tiles, vec![Tile::Wall, Tile::Water, Tile::Wall, Tile::Floor]);
    let empty = map_from_text("e", "", &legend).unwrap();
    assert_eq!((empty.width, empty.height), (0, 0));
}
