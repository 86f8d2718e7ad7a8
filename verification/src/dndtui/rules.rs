//! Tabletop rules: ability scores and modifiers, skills, difficulty
//! classes, point buy, class hit points and the seeded dice.
use vstd::prelude::*;
use crate::text::{spec_to_lowercase, str_eq, str_to_lowercase, str_trim, trim};

verus! {

#[derive(Clone, Copy, Debug, PartialEq, Eq, Structural)]
pub enum Ability {
    Strength,
    Dexterity,
    Constitution,
    Intelligence,
    Wisdom,
    Charisma,
}

#[derive(Clone, Copy, Debug, PartialEq, Eq, Structural)]
pub enum Skill {
    Athletics,
    Acrobatics,
    Stealth,
    Perception,
    Persuasion,
    Arcana,
}

#[derive(Clone, Copy, Debug, PartialEq, Eq, Structural)]
pub enum Difficulty {
    Easy,
    Medium,
    Hard,
}

#[derive(Clone, Copy, Debug, PartialEq, Eq, Structural)]
pub enum CheckKind {
    Skill(Skill),
    Ability(Ability),
}

#[derive(Clone, Copy, Debug, PartialEq, Eq, Structural)]
pub struct AbilityScores {
    pub strength: i32,
    pub dexterity: i32,
    pub constitution: i32,
    pub intelligence: i32,
    pub wisdom: i32,
    pub charisma: i32,
}

impl Default for AbilityScores {
    /// Every score starts at 8, the floor of the point buy.
    fn default() -> (s: Self)
        ensures
            s == (AbilityScores {
                strength: 8,
                dexterity: 8,
                constitution: 8,
                intelligence: 8,
                wisdom: 8,
                charisma: 8,
            }),
    {
        AbilityScores {
            strength: 8,
            dexterity: 8,
            constitution: 8,
            intelligence: 8,
            wisdom: 8,
            charisma: 8,
        }
    }
}

impl AbilityScores {
    /// The score of one ability.
    pub open spec fn score(self, ability: Ability) -> i32 {
        match ability {
            Ability::Strength => self.strength,
            Ability::Dexterity => self.dexterity,
            Ability::Constitution => self.constitution,
            Ability::Intelligence => self.intelligence,
            Ability::Wisdom => self.wisdom,
            Ability::Charisma => self.charisma,
        }
    }

    /// The scores with one ability replaced.
    pub open spec fn with_score(self, ability: Ability, value: i32) -> AbilityScores {
        match ability {
            Ability::Strength => AbilityScores { strength: value, ..self },
            Ability::Dexterity => AbilityScores { dexterity: value, ..self },
            Ability::Constitution => AbilityScores { constitution: value, ..self },
            Ability::Intelligence => AbilityScores { intelligence: value, ..self },
            Ability::Wisdom => AbilityScores { wisdom: value, ..self },
            Ability::Charisma => AbilityScores { charisma: value, ..self },
        }
    }

    pub fn get(&self, ability: Ability) -> (v: i32)
        ensures
            v == self.score(ability),
    {
        match ability {
            Ability::Strength => self.strength,
            Ability::Dexterity => self.dexterity,
            Ability::Constitution => self.constitution,
            Ability::Intelligence => self.intelligence,
            Ability::Wisdom => self.wisdom,
            Ability::Charisma => self.charisma,
        }
    }

    pub fn set(&mut self, ability: Ability, value: i32)
        ensures
            *final(self) == old(self).with_score(ability, value),
    {
        match ability {
            Ability::Strength => self.strength = value,
            Ability::Dexterity => self.dexterity = value,
            Ability::Constitution => self.constitution = value,
            Ability::Intelligence => self.intelligence = value,
            Ability::Wisdom => self.wisdom = value,
            Ability::Charisma => self.charisma = value,
        }
    }

    pub fn modifier(&self, ability: Ability) -> (m: i32)
        ensures
            m == modifier_spec(self.score(ability) as int),
    {
        ability_modifier(self.get(ability))
    }
}

/// Ability modifier: half the distance from 10, rounded down.
pub open spec fn modifier_spec(score: int) -> int {
    (score - 10) / 2
}

pub fn ability_modifier(score: i32) -> (m: i32)
    ensures
        m == modifier_spec(score as int),
{
    let d = score as i64 - 10;
    // Euclidean division by a positive divisor rounds toward negative infinity.
    let q = if d >= 0 {
        d / 2
    } else {
        -((-d + 1) / 2)
    };
    proof {
        if d < 0 {
            assert(-((-d + 1) / 2) == d / 2) by (nonlinear_arith)
                requires
                    d < 0,
            ;
        }
    }
    q as i32
}

pub open spec fn skill_ability(skill: Skill) -> Ability {
    match skill {
        Skill::Athletics => Ability::Strength,
        Skill::Acrobatics => Ability::Dexterity,
        Skill::Stealth => Ability::Dexterity,
        Skill::Perception => Ability::Wisdom,
        Skill::Persuasion => Ability::Charisma,
        Skill::Arcana => Ability::Intelligence,
    }
}

pub fn skill_to_ability(skill: Skill) -> (a: Ability)
    ensures
        a == skill_ability(skill),
{
    match skill {
        Skill::Athletics => Ability::Strength,
        Skill::Acrobatics => Ability::Dexterity,
        Skill::Stealth => Ability::Dexterity,
        Skill::Perception => Ability::Wisdom,
        Skill::Persuasion => Ability::Charisma,
        Skill::Arcana => Ability::Intelligence,
    }
}

pub open spec fn dc_spec(difficulty: Difficulty) -> i32 {
    match difficulty {
        Difficulty::Easy => 10,
        Difficulty::Medium => 15,
        Difficulty::Hard => 20,
    }
}

pub fn difficulty_dc(difficulty: Difficulty) -> (dc: i32)
    ensures
        dc == dc_spec(difficulty),
{
    match difficulty {
        Difficulty::Easy => 10,
        Difficulty::Medium => 15,
        Difficulty::Hard => 20,
    }
}

/// The check a lowercased, trimmed key names; unknown keys fall back to
/// a Wisdom check.
pub open spec fn check_for_key(key: Seq<char>) -> CheckKind {
    if key == "athletics"@ {
        CheckKind::Skill(Skill::Athletics)
    } else if key == "acrobatics"@ {
        CheckKind::Skill(Skill::Acrobatics)
    } else if key == "stealth"@ {
        CheckKind::Skill(Skill::Stealth)
    } else if key == "perception"@ {
        CheckKind::Skill(Skill::Perception)
    } else if key == "persuasion"@ {
        CheckKind::Skill(Skill::Persuasion)
    } else if key == "arcana"@ {
        CheckKind::Skill(Skill::Arcana)
    } else if key == "strength"@ {
        CheckKind::Ability(Ability::Strength)
    } else if key == "dexterity"@ {
        CheckKind::Ability(Ability::Dexterity)
    } else if key == "constitution"@ {
        CheckKind::Ability(Ability::Constitution)
    } else if key == "intelligence"@ {
        CheckKind::Ability(Ability::Intelligence)
    } else if key == "wisdom"@ {
        CheckKind::Ability(Ability::Wisdom)
    } else if key == "charisma"@ {
        CheckKind::Ability(Ability::Charisma)
    } else {
        CheckKind::Ability(Ability::Wisdom)
    }
}

/// The check named by `input`, read case-insensitively and without
/// surrounding whitespace.
pub fn parse_skill_or_ability(input: &str) -> (c: CheckKind)
    ensures
        c == check_for_key(spec_to_lowercase(trim(input@))),
{
    let key = str_to_lowercase(str_trim(input));
    let k = key.as_str();
    if str_eq(k, "athletics") {
        CheckKind::Skill(Skill::Athletics)
    } else if str_eq(k, "acrobatics") {
        CheckKind::Skill(Skill::Acrobatics)
    } else if str_eq(k, "stealth") {
        CheckKind::Skill(Skill::Stealth)
    } else if str_eq(k, "perception") {
        CheckKind::Skill(Skill::Perception)
    } else if str_eq(k, "persuasion") {
        CheckKind::Skill(Skill::Persuasion)
    } else if str_eq(k, "arcana") {
        CheckKind::Skill(Skill::Arcana)
    } else if str_eq(k, "strength") {
        CheckKind::Ability(Ability::Strength)
    } else if str_eq(k, "dexterity") {
        CheckKind::Ability(Ability::Dexterity)
    } else if str_eq(k, "constitution") {
        CheckKind::Ability(Ability::Constitution)
    } else if str_eq(k, "intelligence") {
        CheckKind::Ability(Ability::Intelligence)
    } else if str_eq(k, "wisdom") {
        CheckKind::Ability(Ability::Wisdom)
    } else if str_eq(k, "charisma") {
        CheckKind::Ability(Ability::Charisma)
    } else {
        CheckKind::Ability(Ability::Wisdom)
    }
}

/// The difficulty a lowercased, trimmed key names; anything else is medium.
pub open spec fn difficulty_for_key(key: Seq<char>) -> Difficulty {
    if key == "easy"@ {
        Difficulty::Easy
    } else if key == "hard"@ {
        Difficulty::Hard
    } else {
        Difficulty::Medium
    }
}

pub fn parse_difficulty(input: &str) -> (d: Difficulty)
    ensures
        d == difficulty_for_key(spec_to_lowercase(trim(input@))),
{
    let key = str_to_lowercase(str_trim(input));
    if str_eq(key.as_str(), "easy") {
        Difficulty::Easy
    } else if str_eq(key.as_str(), "hard") {
        Difficulty::Hard
    } else {
        Difficulty::Medium
    }
}

/// Point-buy price of a score; scores outside 8..=15 cost 99.
pub open spec fn point_cost_spec(score: i32) -> i32 {
    if score == 8 {
        0
    } else if score == 9 {
        1
    } else if score == 10 {
        2
    } else if score == 11 {
        3
    } else if score == 12 {
        4
    } else if score == 13 {
        5
    } else if score == 14 {
        7
    } else if score == 15 {
        9
    } else {
        99
    }
}

pub fn point_cost(score: i32) -> (c: i32)
    ensures
        c == point_cost_spec(score),
        0 <= c <= 99,
{
    match score {
        8 => 0,
        9 => 1,
        10 => 2,
        11 => 3,
        12 => 4,
        13 => 5,
        14 => 7,
        15 => 9,
        _ => 99,
    }
}

/// Points left of a point-buy budget after paying for all six scores.
pub open spec fn points_remaining_spec(scores: AbilityScores, total: int) -> int {
    total - point_cost_spec(scores.strength) - point_cost_spec(scores.dexterity) - point_cost_spec(
        scores.constitution,
    ) - point_cost_spec(scores.intelligence) - point_cost_spec(scores.wisdom) - point_cost_spec(
        scores.charisma,
    )
}

pub fn points_remaining(scores: &AbilityScores, total: i32) -> (r: i32)
    requires
        total >= i32::MIN + 594,
    ensures
        r == points_remaining_spec(*scores, total as int),
{
    total - point_cost(scores.strength) - point_cost(scores.dexterity) - point_cost(
        scores.constitution,
    ) - point_cost(scores.intelligence) - point_cost(scores.wisdom) - point_cost(scores.charisma)
}

pub open spec fn clamp_score_spec(value: i32) -> i32 {
    if value < 8 {
        8
    } else if value > 15 {
        15
    } else {
        value
    }
}

pub fn clamp_score(value: i32) -> (c: i32)
    ensures
        c == clamp_score_spec(value),
        8 <= c <= 15,
{
    if value < 8 {
        8
    } else if value > 15 {
        15
    } else {
        value
    }
}

/// One step of the 64-bit linear congruential generator behind the dice.
pub open spec fn lcg_step(seed: u64) -> u64 {
    seed.wrapping_mul(6364136223846793005).wrapping_add(1442695040888963407)
}

/// The 32 high bits of a generator state.
pub open spec fn high_bits(seed: u64) -> u32 {
    (seed >> 32u64) as u32
}

pub fn next_u32(seed: &mut u64) -> (r: u32)
    ensures
        *final(seed) == lcg_step(*old(seed)),
        r == high_bits(*final(seed)),
{
    *seed = seed.wrapping_mul(6364136223846793005).wrapping_add(1442695040888963407);
    (*seed >> 32u64) as u32
}

/// Value of a die with `sides` faces rolled from the generator state after
/// stepping `seed`.
pub open spec fn die_value(seed: u64, sides: u32) -> int {
    (high_bits(lcg_step(seed)) % sides) as int + 1
}

pub fn roll_d20(seed: &mut u64) -> (r: i32)
    ensures
        *final(seed) == lcg_step(*old(seed)),
        r == die_value(*old(seed), 20),
        1 <= r <= 20,
{
    (next_u32(seed) % 20) as i32 + 1
}

pub fn roll_damage(seed: &mut u64, sides: i32) -> (r: i32)
    requires
        sides > 0,
    ensures
        *final(seed) == lcg_step(*old(seed)),
        r == die_value(*old(seed), sides as u32),
        1 <= r <= sides,
{
    (next_u32(seed) % (sides as u32)) as i32 + 1
}

/// Names of the classes a character can take, in menu order.
pub open spec fn class_options() -> Seq<Seq<char>> {
    seq!["Fighter"@, "Rogue"@, "Wizard"@, "Ranger"@, "Cleric"@]
}

/// Names of the backgrounds a character can take, in menu order.
pub open spec fn background_options() -> Seq<Seq<char>> {
    seq!["Soldier"@, "Outlander"@, "Scholar"@, "Merchant"@, "Acolyte"@]
}

pub const CLASS_COUNT: usize = 5;

pub const BACKGROUND_COUNT: usize = 5;

/// The class at a menu position.
pub fn class_option(index: usize) -> (r: Option<&'static str>)
    ensures
        index < 5 ==> (r matches Some(s) && s@ == class_options()[index as int]),
        index >= 5 ==> r is None,
{
    match index {
        0 => Some("Fighter"),
        1 => Some("Rogue"),
        2 => Some("Wizard"),
        3 => Some("Ranger"),
        4 => Some("Cleric"),
        _ => None,
    }
}

/// The background at a menu position.
pub fn background_option(index: usize) -> (r: Option<&'static str>)
    ensures
        index < 5 ==> (r matches Some(s) && s@ == background_options()[index as int]),
        index >= 5 ==> r is None,
{
    match index {
        0 => Some("Soldier"),
        1 => Some("Outlander"),
        2 => Some("Scholar"),
        3 => Some("Merchant"),
        4 => Some("Acolyte"),
        _ => None,
    }
}

/// Base hit points of a class named case-insensitively: fighters 12,
/// wizards 8, everyone else 10.
pub open spec fn class_hp_for_key(key: Seq<char>) -> i32 {
    if key == "fighter"@ {
        12
    } else if key == "wizard"@ {
        8
    } else {
        10
    }
}

pub fn class_base_hp(class_name: &str) -> (hp: i32)
    ensures
        hp == class_hp_for_key(spec_to_lowercase(class_name@)),
{
    let key = str_to_lowercase(class_name);
    if str_eq(key.as_str(), "fighter") {
        12
    } else if str_eq(key.as_str(), "wizard") {
        8
    } else {
        // Rogues, rangers, clerics and unknown classes alike.
        10
    }
}

/// Raising any score above 8 within the point buy leaves fewer points:
/// spending is monotone in every score.
pub proof fn law_point_cost_monotone(a: i32, b: i32)
    requires
        8 <= a <= b <= 15,
    ensures
        point_cost_spec(a) <= point_cost_spec(b),
        a < b ==> point_cost_spec(a) < point_cost_spec(b),
{
}

/// Every score of a legal point buy (8..=15) costs at most nine points, and
/// six scores of 8 cost nothing.
pub proof fn law_point_buy_bounds(s: AbilityScores, total: int)
    ensures
        s == (AbilityScores {
            strength: 8,
            dexterity: 8,
            constitution: 8,
            intelligence: 8,
            wisdom: 8,
            charisma: 8,
        }) ==> points_remaining_spec(s, total) == total,
        (8 <= s.strength <= 15 && 8 <= s.dexterity <= 15 && 8 <= s.constitution <= 15 && 8
            <= s.intelligence <= 15 && 8 <= s.wisdom <= 15 && 8 <= s.charisma <= 15)
            ==> points_remaining_spec(s, total) >= total - 54,
{
}

/// Clamping always yields a legal point-buy score and keeps legal ones.
pub proof fn law_clamp_score_idempotent(v: i32)
    ensures
        8 <= clamp_score_spec(v) <= 15,
        clamp_score_spec(clamp_score_spec(v)) == clamp_score_spec(v),
        8 <= v <= 15 ==> clamp_score_spec(v) == v,
{
}

/// Each two points of score add one to the modifier.
pub proof fn law_modifier_step(score: int)
    ensures
        modifier_spec(score + 2) == modifier_spec(score) + 1,
{
}

/// A class's base hit points depend on its name in lower case alone:
/// fighters 12, wizards 8, every other class 10.
pub proof fn law_class_base_hp(name: Seq<char>, hp: i32)
    requires
        hp == class_hp_for_key(spec_to_lowercase(name)),
    ensures
        spec_to_lowercase(name) == "fighter"@ ==> hp == 12,
        spec_to_lowercase(name) == "wizard"@ ==> hp == 8,
        spec_to_lowercase(name) != "fighter"@ && spec_to_lowercase(name) != "wizard"@ ==> hp == 10,
{
    reveal_strlit("fighter");
    reveal_strlit("wizard");
    assert("fighter"@[0] != "wizard"@[0]);
}

} // verus!
