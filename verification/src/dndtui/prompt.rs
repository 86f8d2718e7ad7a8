//! Requests to the language model: the NPC side of a dialogue turn and the
//! interpretation of a free-form action into one rules check.
use vstd::prelude::*;
use crate::dndtui::llm::{ChatMessage, LlmRequest};
use crate::dndtui::state::{AppState, DialogueLine, NpcState};
use crate::text::{owned, push_str};

verus! {

/// The JSON schemas the model's replies must follow: one for an NPC's
/// dialogue line, one for an action interpretation.
#[derive(Clone, Debug)]
pub struct PromptSchemas {
    pub dialogue: String,
    pub action: String,
}

/// How many earlier dialogue lines go with a request.
pub const HISTORY_LIMIT: usize = 6;

/// `parts` joined with `sep` between consecutive parts.
pub open spec fn join(parts: Seq<Seq<char>>, sep: Seq<char>) -> Seq<char>
    decreases parts.len(),
{
    if parts.len() == 0 {
        seq![]
    } else if parts.len() == 1 {
        parts[0]
    } else {
        join(parts.drop_last(), sep) + sep + parts.last()
    }
}

/// The setting lore of the loaded scenario, its lines joined by ` | `, or
/// `(none)` without a scenario.
pub open spec fn lore_text(state: AppState) -> Seq<char> {
    match state.scenario {
        Some(s) => join(s.lore@.map_values(|l: String| l@), " | "@),
        None => "(none)"@,
    }
}

/// The system prompt that casts the model as `npc`.
pub open spec fn dialogue_system_prompt(schema: Seq<char>, npc: NpcState, lore: Seq<char>) -> Seq<char> {
    "You are an NPC in a rules-driven fantasy game.\nRespond ONLY with a single JSON object matching this schema:\n"@
        + schema
        + "\n\nReturn strict JSON: use double quotes, no trailing commas, no markdown, no backticks, no extra text.\n\nNPC name: "@
        + npc.name@ + "\nPersona: "@ + npc.persona@ + "\nDialogue notes: "@ + npc.dialogue_prompt@
        + "\n\nSetting lore: "@ + lore + "\n"@
}

/// The system prompt that asks the model for one rules check.
pub open spec fn action_system_prompt(schema: Seq<char>, lore: Seq<char>, location: Seq<char>) -> Seq<char> {
    "You interpret player actions into a single rules check.\nReturn ONLY a single JSON object matching this schema:\n"@
        + schema
        + "\n\nReturn strict JSON: use double quotes, no trailing commas, no markdown, no backticks, no extra text.\n\nAlways set \"kind\" to \"skill_check\".\nAllowed skills: athletics, acrobatics, stealth, perception, persuasion, arcana.\nAllowed abilities: strength, dexterity, constitution, intelligence, wisdom, charisma.\nDifficulties: easy, medium, hard.\n\nSetting lore: "@
        + lore + "\nPlayer location: "@ + location + "\n"@
}

/// The index of the first of the last `HISTORY_LIMIT` lines.
pub open spec fn history_start(n: int) -> int {
    if n <= HISTORY_LIMIT {
        0
    } else {
        n - HISTORY_LIMIT
    }
}

/// Copies of the last `HISTORY_LIMIT` dialogue lines, oldest first.
pub fn recent_dialogue(lines: &Vec<DialogueLine>) -> (r: Vec<DialogueLine>)
    ensures
        r@.len() == lines@.len() - history_start(lines@.len() as int),
        forall|k: int| 0 <= k < r@.len() ==> {
            let l = lines@[history_start(lines@.len() as int) + k];
            &&& (#[trigger] r@[k]).speaker@ == l.speaker@
            &&& r@[k].text@ == l.text@
        },
{
    let n = lines.len();
    let start = if n <= HISTORY_LIMIT {
        0
    } else {
        n - HISTORY_LIMIT
    };
    let mut out: Vec<DialogueLine> = Vec::new();
    let mut i = start;
    while i < n
        invariant
            start == history_start(n as int),
            n == lines@.len(),
            start <= i <= n,
            out@.len() == i - start,
            forall|k: int| 0 <= k < out@.len() ==> {
                let l = lines@[start + k];
                &&& (#[trigger] out@[k]).speaker@ == l.speaker@
                &&& out@[k].text@ == l.text@
            },
        decreases n - i,
    {
        out.push(
            DialogueLine {
                speaker: owned(lines[i].speaker.as_str()),
                text: owned(lines[i].text.as_str()),
            },
        );
        i = i + 1;
    }
    out
}

/// The lore line of the loaded scenario (see `lore_text`).
pub fn format_lore(state: &AppState) -> (s: String)
    ensures
        s@ == lore_text(*state),
{
    match &state.scenario {
        None => owned("(none)"),
        Some(sc) => {
            let ghost parts = sc.lore@.map_values(|l: String| l@);
            let mut out = String::new();
            let mut i: usize = 0;
            while i < sc.lore.len()
                invariant
                    i <= sc.lore@.len(),
                    parts == sc.lore@.map_values(|l: String| l@),
                    out@ == join(parts.subrange(0, i as int), " | "@),
                decreases sc.lore.len() - i,
            {
                let ghost prev = parts.subrange(0, i as int);
                assert(parts.subrange(0, i + 1).drop_last() =~= prev);
                if i > 0 {
                    push_str(&mut out, " | ");
                } else {
                    assert(prev.len() == 0);
                }
                push_str(&mut out, sc.lore[i].as_str());
                i = i + 1;
            }
            assert(parts.subrange(0, sc.lore@.len() as int) =~= parts);
            out
        },
    }
}

fn message(role: &str, content: String) -> (m: ChatMessage)
    ensures
        m.role@ == role@,
        m.content@ == content@,
{
    ChatMessage { role: owned(role), content }
}

/// The request for the NPC's next line: the system prompt built from
/// `schema` (the JSON schema of the reply), the NPC and the lore, then the
/// last dialogue lines, then the player's words; its id is the game's
/// random seed and it is not streamed.
pub fn build_dialogue_request(state: &AppState, npc: &NpcState, player_text: &str, schema: &str) -> (r:
    LlmRequest)
    ensures
        r.id == state.rng_seed,
        !r.stream,
        ({
            let h = state.dialogue.history@;
            let start = history_start(h.len() as int);
            let n = h.len() - start;
            &&& r.messages@.len() == n + 2
            &&& r.messages@[0].role@ == "system"@
            &&& r.messages@[0].content@ == dialogue_system_prompt(schema@, *npc, lore_text(*state))
            &&& forall|k: int| 0 <= k < n ==> {
                &&& (#[trigger] r.messages@[k + 1]).role@ == h[start + k].speaker@
                &&& r.messages@[k + 1].content@ == h[start + k].text@
            }
            &&& r.messages@[n + 1].role@ == "user"@
            &&& r.messages@[n + 1].content@ == player_text@
        }),
{
    let mut system = owned(
        "You are an NPC in a rules-driven fantasy game.\nRespond ONLY with a single JSON object matching this schema:\n",
    );
    push_str(&mut system, schema);
    push_str(
        &mut system,
        "\n\nReturn strict JSON: use double quotes, no trailing commas, no markdown, no backticks, no extra text.\n\nNPC name: ",
    );
    push_str(&mut system, npc.name.as_str());
    push_str(&mut system, "\nPersona: ");
    push_str(&mut system, npc.persona.as_str());
    push_str(&mut system, "\nDialogue notes: ");
    push_str(&mut system, npc.dialogue_prompt.as_str());
    push_str(&mut system, "\n\nSetting lore: ");
    let lore = format_lore(state);
    push_str(&mut system, lore.as_str());
    push_str(&mut system, "\n");
    let mut messages: Vec<ChatMessage> = Vec::new();
    messages.push(message("system", system));
    let recent = recent_dialogue(&state.dialogue.history);
    let mut i: usize = 0;
    while i < recent.len()
        invariant
            i <= recent@.len(),
            messages@.len() == i + 1,
            messages@[0].role@ == "system"@,
            messages@[0].content@ == dialogue_system_prompt(schema@, *npc, lore_text(*state)),
            forall|k: int| 0 <= k < i ==> {
                &&& (#[trigger] messages@[k + 1]).role@ == recent@[k].speaker@
                &&& messages@[k + 1].content@ == recent@[k].text@
            },
        decreases recent.len() - i,
    {
        messages.push(message(recent[i].speaker.as_str(), owned(recent[i].text.as_str())));
        i = i + 1;
    }
    messages.push(message("user", owned(player_text)));
    LlmRequest { id: state.rng_seed, messages, stream: false }
}

/// The request to interpret the player's free-form action: the system
/// prompt built from `schema`, the lore and the map's name, then the
/// player's words; its id is the game's random seed and it is not streamed.
pub fn build_action_request(state: &AppState, player_text: &str, schema: &str) -> (r: LlmRequest)
    ensures
        r.id == state.rng_seed,
        !r.stream,
        r.messages@.len() == 2,
        r.messages@[0].role@ == "system"@,
        r.messages@[0].content@ == action_system_prompt(schema@, lore_text(*state), state.map.name@),
        r.messages@[1].role@ == "user"@,
        r.messages@[1].content@ == player_text@,
{
    let mut system = owned(
        "You interpret player actions into a single rules check.\nReturn ONLY a single JSON object matching this schema:\n",
    );
    push_str(&mut system, schema);
    push_str(
        &mut system,
        "\n\nReturn strict JSON: use double quotes, no trailing commas, no markdown, no backticks, no extra text.\n\nAlways set \"kind\" to \"skill_check\".\nAllowed skills: athletics, acrobatics, stealth, perception, persuasion, arcana.\nAllowed abilities: strength, dexterity, constitution, intelligence, wisdom, charisma.\nDifficulties: easy, medium, hard.\n\nSetting lore: ",
    );
    let lore = format_lore(state);
    push_str(&mut system, lore.as_str());
    push_str(&mut system, "\nPlayer location: ");
    push_str(&mut system, state.map.name.as_str());
    push_str(&mut system, "\n");
    let mut messages: Vec<ChatMessage> = Vec::new();
    messages.push(message("system", system));
    messages.push(message("user", owned(player_text)));
    LlmRequest { id: state.rng_seed, messages, stream: false }
}

} // verus!
