//! Scenarios: the manifest that describes a starter adventure, its map
//! legend, and the runtime state built from the manifest and the map text.
use vstd::prelude::*;
use crate::dndtui::state::{EncounterState, ItemState, MapState, NpcState, Tile, Trigger};
use crate::text::{chars_of, owned, pieces, push_str, spec_to_lowercase, str_eq, str_to_lowercase};

verus! {

#[derive(Clone, Debug)]
pub struct ScenarioRuntime {
    pub manifest: ScenarioManifest,
    pub map: MapState,
    pub npcs: Vec<NpcState>,
    pub items: Vec<ItemState>,
    pub encounters: Vec<EncounterState>,
    pub triggers: Vec<Trigger>,
}

#[derive(Clone, Debug)]
pub struct ScenarioManifest {
    pub id: String,
    pub name: String,
    pub map_path: String,
    pub legend: Vec<LegendEntry>,
    pub player_start: Point,
    pub npcs: Vec<NpcSpec>,
    pub items: Vec<ItemSpec>,
    pub encounters: Vec<EncounterSpec>,
    pub triggers: Vec<TriggerSpec>,
    pub lore: Vec<String>,
}

#[derive(Clone, Debug)]
pub struct LegendEntry {
    pub ch: String,
    pub tile: String,
}

#[derive(Clone, Copy, Debug, PartialEq, Eq, Structural)]
pub struct Point {
    pub x: u16,
    pub y: u16,
}

#[derive(Clone, Debug)]
pub struct NpcSpec {
    pub id: String,
    pub name: String,
    pub x: u16,
    pub y: u16,
    pub persona: String,
    pub dialogue_prompt: String,
}

#[derive(Clone, Debug)]
pub struct ItemSpec {
    pub id: String,
    pub name: String,
    pub x: u16,
    pub y: u16,
    pub qty: u16,
}

#[derive(Clone, Debug)]
pub struct EncounterSpec {
    pub id: String,
    pub name: String,
    pub x: u16,
    pub y: u16,
    pub hp: i32,
    pub atk: i32,
}

#[derive(Clone, Debug)]
pub enum TriggerSpec {
    OnEnter { x: u16, y: u16, message: String },
    OnInteract { x: u16, y: u16, message: String },
}

/// The tile named by an already lower-cased legend name.
pub open spec fn tile_for_key(key: Seq<char>) -> Option<Tile> {
    if key == "grass"@ {
        Some(Tile::Grass)
    } else if key == "road"@ {
        Some(Tile::Road)
    } else if key == "floor"@ {
        Some(Tile::Floor)
    } else if key == "wall"@ {
        Some(Tile::Wall)
    } else if key == "water"@ {
        Some(Tile::Water)
    } else {
        None
    }
}

/// The tile a legend names, case-insensitively; `None` for an unknown name.
pub fn tile_from_name(name: &str) -> (t: Option<Tile>)
    ensures
        t == tile_for_key(spec_to_lowercase(name@)),
{
    let key = str_to_lowercase(name);
    let k = key.as_str();
    if str_eq(k, "grass") {
        Some(Tile::Grass)
    } else if str_eq(k, "road") {
        Some(Tile::Road)
    } else if str_eq(k, "floor") {
        Some(Tile::Floor)
    } else if str_eq(k, "wall") {
        Some(Tile::Wall)
    } else if str_eq(k, "water") {
        Some(Tile::Water)
    } else {
        None
    }
}

/// Characters of the map text and the tiles they stand for.
#[derive(Clone, Debug)]
pub struct Legend {
    pub entries: Vec<(char, Tile)>,
}

/// The tile of the first pair for `c` in `entries`.
pub open spec fn legend_lookup(entries: Seq<(char, Tile)>, c: char) -> Option<Tile>
    decreases entries.len(),
{
    if entries.len() == 0 {
        None
    } else if entries[0].0 == c {
        Some(entries[0].1)
    } else {
        legend_lookup(entries.drop_first(), c)
    }
}

impl Legend {
    /// The tile the legend gives character `c`.
    pub fn tile_for(&self, c: char) -> (t: Option<Tile>)
        ensures
            t == legend_lookup(self.entries@, c),
    {
        let mut i: usize = 0;
        assert(self.entries@.skip(0) =~= self.entries@);
        while i < self.entries.len()
            invariant
                i <= self.entries@.len(),
                legend_lookup(self.entries@, c) == legend_lookup(self.entries@.skip(i as int), c),
            decreases self.entries.len() - i,
        {
            assert(self.entries@.skip(i as int).drop_first() =~= self.entries@.skip(i + 1));
            if self.entries[i].0 == c {
                return Some(self.entries[i].1);
            }
            i = i + 1;
        }
        None
    }
}

/// The legend built from manifest entries, in order: each entry's first
/// character and the tile its name gives. An entry without a character, or
/// one naming an unknown tile, stops the build with an error.
pub open spec fn legend_result(entries: Seq<LegendEntry>) -> Result<Seq<(char, Tile)>, Seq<char>>
    decreases entries.len(),
{
    if entries.len() == 0 {
        Ok(seq![])
    } else {
        let e = entries.last();
        match legend_result(entries.drop_last()) {
            Err(msg) => Err(msg),
            Ok(prev) => if e.ch@.len() == 0 {
                Err("Legend entry missing character"@)
            } else {
                match tile_for_key(spec_to_lowercase(e.tile@)) {
                    None => Err("Unknown tile: "@ + e.tile@),
                    Some(t) => Ok(prev.push((e.ch@[0], t))),
                }
            },
        }
    }
}

pub fn build_legend(entries: &Vec<LegendEntry>) -> (r: Result<Legend, String>)
    ensures
        match legend_result(entries@) {
            Ok(pairs) => r matches Ok(l) && l.entries@ == pairs,
            Err(msg) => r matches Err(e) && e@ == msg,
        },
{
    let mut pairs: Vec<(char, Tile)> = Vec::new();
    let mut i: usize = 0;
    while i < entries.len()
        invariant
            i <= entries@.len(),
            legend_result(entries@.subrange(0, i as int)) == Ok::<Seq<(char, Tile)>, Seq<char>>(pairs@),
        decreases entries.len() - i,
    {
        let ghost prefix = entries@.subrange(0, i + 1);
        assert(prefix.drop_last() =~= entries@.subrange(0, i as int));
        let e = &entries[i];
        let chars = chars_of(e.ch.as_str());
        if chars.len() == 0 {
            proof {
                lemma_legend_err_extends(entries@, i + 1);
            }
            return Err(owned("Legend entry missing character"));
        }
        match tile_from_name(e.tile.as_str()) {
            None => {
                let mut msg = owned("Unknown tile: ");
                push_str(&mut msg, e.tile.as_str());
                proof {
                    lemma_legend_err_extends(entries@, i + 1);
                }
                return Err(msg);
            },
            Some(t) => {
                pairs.push((chars[0], t));
            },
        }
        i = i + 1;
    }
    assert(entries@.subrange(0, entries@.len() as int) =~= entries@);
    Ok(Legend { entries: pairs })
}

/// Once a prefix of the entries fails to build, every longer prefix fails
/// with the same message.
proof fn lemma_legend_err_extends(entries: Seq<LegendEntry>, i: int)
    requires
        0 <= i <= entries.len(),
        legend_result(entries.subrange(0, i)) is Err,
    ensures
        legend_result(entries) == legend_result(entries.subrange(0, i)),
    decreases entries.len() - i,
{
    if i < entries.len() {
        let next = entries.subrange(0, i + 1);
        assert(next.drop_last() =~= entries.subrange(0, i));
        lemma_legend_err_extends(entries, i + 1);
    } else {
        assert(entries.subrange(0, i) =~= entries);
    }
}

/// The runtime NPC a manifest entry describes.
pub open spec fn npc_from_spec(s: NpcSpec) -> NpcState {
    NpcState {
        id: s.id,
        name: s.name,
        x: s.x,
        y: s.y,
        persona: s.persona,
        dialogue_prompt: s.dialogue_prompt,
    }
}

/// The runtime item a manifest entry describes.
pub open spec fn item_from_spec(s: ItemSpec) -> ItemState {
    ItemState { id: s.id, name: s.name, x: s.x, y: s.y, qty: s.qty }
}

/// The runtime encounter a manifest entry describes; it starts undefeated.
pub open spec fn encounter_from_spec(s: EncounterSpec) -> EncounterState {
    EncounterState { id: s.id, name: s.name, x: s.x, y: s.y, hp: s.hp, atk: s.atk, defeated: false }
}

/// The runtime trigger a manifest entry describes.
pub open spec fn trigger_from_spec(s: TriggerSpec) -> Trigger {
    match s {
        TriggerSpec::OnEnter { x, y, message } => Trigger::OnEnter { x, y, message },
        TriggerSpec::OnInteract { x, y, message } => Trigger::OnInteract { x, y, message },
    }
}

fn copy_string(s: &String) -> (r: String)
    ensures
        r@ == s@,
{
    owned(s.as_str())
}

fn npcs_from_specs(specs: &Vec<NpcSpec>) -> (r: Vec<NpcState>)
    ensures
        r@.len() == specs@.len(),
        forall|i: int| 0 <= i < specs@.len() ==> {
            let n = #[trigger] r@[i];
            let s = npc_from_spec(specs@[i]);
            &&& n.id@ == s.id@ && n.name@ == s.name@ && n.x == s.x && n.y == s.y
            &&& n.persona@ == s.persona@ && n.dialogue_prompt@ == s.dialogue_prompt@
        },
{
    let mut out: Vec<NpcState> = Vec::new();
    let mut i: usize = 0;
    while i < specs.len()
        invariant
            i <= specs@.len(),
            out@.len() == i,
            forall|k: int| 0 <= k < i ==> {
                let n = #[trigger] out@[k];
                let s = npc_from_spec(specs@[k]);
                &&& n.id@ == s.id@ && n.name@ == s.name@ && n.x == s.x && n.y == s.y
                &&& n.persona@ == s.persona@ && n.dialogue_prompt@ == s.dialogue_prompt@
            },
        decreases specs.len() - i,
    {
        let s = &specs[i];
        out.push(NpcState {
            id: copy_string(&s.id),
            name: copy_string(&s.name),
            x: s.x,
            y: s.y,
            persona: copy_string(&s.persona),
            dialogue_prompt: copy_string(&s.dialogue_prompt),
        });
        i = i + 1;
    }
    out
}

fn items_from_specs(specs: &Vec<ItemSpec>) -> (r: Vec<ItemState>)
    ensures
        r@.len() == specs@.len(),
        forall|i: int| 0 <= i < specs@.len() ==> {
            let n = #[trigger] r@[i];
            let s = item_from_spec(specs@[i]);
            n.id@ == s.id@ && n.name@ == s.name@ && n.x == s.x && n.y == s.y && n.qty == s.qty
        },
{
    let mut out: Vec<ItemState> = Vec::new();
    let mut i: usize = 0;
    while i < specs.len()
        invariant
            i <= specs@.len(),
            out@.len() == i,
            forall|k: int| 0 <= k < i ==> {
                let n = #[trigger] out@[k];
                let s = item_from_spec(specs@[k]);
                n.id@ == s.id@ && n.name@ == s.name@ && n.x == s.x && n.y == s.y && n.qty == s.qty
            },
        decreases specs.len() - i,
    {
        let s = &specs[i];
        out.push(
            ItemState { id: copy_string(&s.id), name: copy_string(&s.name), x: s.x, y: s.y, qty: s.qty },
        );
        i = i + 1;
    }
    out
}

fn encounters_from_specs(specs: &Vec<EncounterSpec>) -> (r: Vec<EncounterState>)
    ensures
        r@.len() == specs@.len(),
        forall|i: int| 0 <= i < specs@.len() ==> {
            let n = #[trigger] r@[i];
            let s = encounter_from_spec(specs@[i]);
            &&& n.id@ == s.id@ && n.name@ == s.name@ && n.x == s.x && n.y == s.y
            &&& n.hp == s.hp && n.atk == s.atk && !n.defeated
        },
{
    let mut out: Vec<EncounterState> = Vec::new();
    let mut i: usize = 0;
    while i < specs.len()
        invariant
            i <= specs@.len(),
            out@.len() == i,
            forall|k: int| 0 <= k < i ==> {
                let n = #[trigger] out@[k];
                let s = encounter_from_spec(specs@[k]);
                &&& n.id@ == s.id@ && n.name@ == s.name@ && n.x == s.x && n.y == s.y
                &&& n.hp == s.hp && n.atk == s.atk && !n.defeated
            },
        decreases specs.len() - i,
    {
        let s = &specs[i];
        out.push(
            EncounterState {
                id: copy_string(&s.id),
                name: copy_string(&s.name),
                x: s.x,
                y: s.y,
                hp: s.hp,
                atk: s.atk,
                defeated: false,
            },
        );
        i = i + 1;
    }
    out
}

/// Whether two triggers are of the same kind, at the same place, with the
/// same message text.
pub open spec fn same_trigger(a: Trigger, b: Trigger) -> bool {
    match (a, b) {
        (
            Trigger::OnEnter { x: ax, y: ay, message: am },
            Trigger::OnEnter { x: bx, y: by, message: bm },
        ) => ax == bx && ay == by && am@ == bm@,
        (
            Trigger::OnInteract { x: ax, y: ay, message: am },
            Trigger::OnInteract { x: bx, y: by, message: bm },
        ) => ax == bx && ay == by && am@ == bm@,
        _ => false,
    }
}

fn triggers_from_specs(specs: &Vec<TriggerSpec>) -> (r: Vec<Trigger>)
    ensures
        r@.len() == specs@.len(),
        forall|i: int| 0 <= i < specs@.len() ==> same_trigger(#[trigger] r@[i], trigger_from_spec(specs@[i])),
{
    let mut out: Vec<Trigger> = Vec::new();
    let mut i: usize = 0;
    while i < specs.len()
        invariant
            i <= specs@.len(),
            out@.len() == i,
            forall|k: int| 0 <= k < i ==> same_trigger(#[trigger] out@[k], trigger_from_spec(specs@[k])),
        decreases specs.len() - i,
    {
        let t = match &specs[i] {
            TriggerSpec::OnEnter { x, y, message } => Trigger::OnEnter {
                x: *x,
                y: *y,
                message: copy_string(message),
            },
            TriggerSpec::OnInteract { x, y, message } => Trigger::OnInteract {
                x: *x,
                y: *y,
                message: copy_string(message),
            },
        };
        out.push(t);
        i = i + 1;
    }
    out
}

/// The runtime scenario: the parsed map and one runtime record for each
/// NPC, item, encounter and trigger of the manifest, in manifest order.
pub fn scenario_from_manifest(manifest: ScenarioManifest, map: MapState) -> (s: ScenarioRuntime)
    ensures
        s.map == map,
        s.manifest == manifest,
        s.npcs@.len() == manifest.npcs@.len(),
        forall|i: int| 0 <= i < manifest.npcs@.len() ==> {
            let n = #[trigger] s.npcs@[i];
            let sp = manifest.npcs@[i];
            &&& n.id@ == sp.id@ && n.name@ == sp.name@ && n.x == sp.x && n.y == sp.y
            &&& n.persona@ == sp.persona@ && n.dialogue_prompt@ == sp.dialogue_prompt@
        },
        s.items@.len() == manifest.items@.len(),
        forall|i: int| 0 <= i < manifest.items@.len() ==> {
            let n = #[trigger] s.items@[i];
            let sp = manifest.items@[i];
            n.id@ == sp.id@ && n.name@ == sp.name@ && n.x == sp.x && n.y == sp.y && n.qty == sp.qty
        },
        s.encounters@.len() == manifest.encounters@.len(),
        forall|i: int| 0 <= i < manifest.encounters@.len() ==> {
            let n = #[trigger] s.encounters@[i];
            let sp = manifest.encounters@[i];
            &&& n.id@ == sp.id@ && n.name@ == sp.name@ && n.x == sp.x && n.y == sp.y
            &&& n.hp == sp.hp && n.atk == sp.atk && !n.defeated
        },
        s.triggers@.len() == manifest.triggers@.len(),
        forall|i: int| 0 <= i < manifest.triggers@.len() ==> same_trigger(
            #[trigger] s.triggers@[i],
            trigger_from_spec(manifest.triggers@[i]),
        ),
{
    let npcs = npcs_from_specs(&manifest.npcs);
    let items = items_from_specs(&manifest.items);
    let encounters = encounters_from_specs(&manifest.encounters);
    let triggers = triggers_from_specs(&manifest.triggers);
    ScenarioRuntime { manifest, map, npcs, items, encounters, triggers }
}

/// A line without the carriage return that ended it, if any.
pub open spec fn strip_cr(l: Seq<char>) -> Seq<char> {
    if l.len() > 0 && l.last() == '\r' {
        l.drop_last()
    } else {
        l
    }
}

/// The lines of a text: the pieces between line feeds, each ended line
/// without a closing carriage return, and no empty piece after a final
/// line feed.
pub open spec fn text_lines(text: Seq<char>) -> Seq<Seq<char>> {
    let p = pieces(text, '\n');
    let kept = if p.last().len() == 0 { p.drop_last() } else { p };
    Seq::new(kept.len(), |i: int| if i < p.len() - 1 { strip_cr(p[i]) } else { p[i] })
}

/// The length of the longest line.
pub open spec fn widest(rows: Seq<Seq<char>>) -> nat
    decreases rows.len(),
{
    if rows.len() == 0 {
        0
    } else if widest(rows.drop_last()) >= rows.last().len() {
        widest(rows.drop_last())
    } else {
        rows.last().len()
    }
}

/// The tile a map character stands for: its legend entry, else floor.
pub open spec fn legend_tile(entries: Seq<(char, Tile)>, c: char) -> Tile {
    match legend_lookup(entries, c) {
        Some(t) => t,
        None => Tile::Floor,
    }
}

/// The tiles of a row `width` wide, padded with spaces.
pub open spec fn row_tiles(row: Seq<char>, width: int, entries: Seq<(char, Tile)>) -> Seq<Tile> {
    Seq::new(width as nat, |x: int| legend_tile(entries, if x < row.len() { row[x] } else { ' ' }))
}

/// The tiles of rows `width` wide, row after row.
pub open spec fn rows_tiles(rows: Seq<Seq<char>>, width: int, entries: Seq<(char, Tile)>) -> Seq<Tile>
    decreases rows.len(),
{
    if rows.len() == 0 {
        seq![]
    } else {
        rows_tiles(rows.drop_last(), width, entries) + row_tiles(rows.last(), width, entries)
    }
}

pub open spec fn line_views(v: Seq<Vec<char>>) -> Seq<Seq<char>> {
    v.map_values(|l: Vec<char>| l@)
}

fn split_lines(s: &Vec<char>) -> (r: Vec<Vec<char>>)
    ensures
        line_views(r@) == text_lines(s@),
{
    let mut done: Vec<Vec<char>> = Vec::new();
    let mut cur: Vec<char> = Vec::new();
    let mut i: usize = 0;
    assert(s@.take(0) =~= Seq::<char>::empty());
    assert(line_views(done@).push(cur@) =~= seq![Seq::<char>::empty()]);
    while i < s.len()
        invariant
            i <= s@.len(),
            line_views(done@).push(cur@) == pieces(s@.take(i as int), '\n'),
        decreases s.len() - i,
    {
        assert(s@.take(i + 1).drop_last() =~= s@.take(i as int));
        assert(s@.take(i + 1).last() == s@[i as int]);
        let ghost before = line_views(done@).push(cur@);
        if s[i] == '\n' {
            done.push(cur);
            cur = Vec::new();
            assert(line_views(done@).push(cur@) =~= before.push(seq![]));
        } else {
            cur.push(s[i]);
            assert(line_views(done@).push(cur@) =~= before.update(before.len() - 1, before.last().push(s@[i as int])));
        }
        i = i + 1;
    }
    assert(s@.take(s@.len() as int) =~= s@);
    let ghost p = pieces(s@, '\n');
    let mut out: Vec<Vec<char>> = Vec::new();
    let mut k: usize = 0;
    while k < done.len()
        invariant
            k <= done@.len(),
            line_views(done@).push(cur@) == p,
            line_views(out@) == Seq::new(k as nat, |j: int| strip_cr(p[j])),
        decreases done.len() - k,
    {
        let mut line = done[k].clone();
        assert(line@ == line_views(done@)[k as int]);
        assert(line@ == p[k as int]);
        let ghost orig = line@;
        let n = line.len();
        if n > 0 && line[n - 1] == '\r' {
            line.pop();
            assert(line@ =~= orig.drop_last());
        }
        assert(line@ == strip_cr(orig));
        let ghost prev = line_views(out@);
        out.push(line);
        assert(line_views(out@) =~= prev.push(strip_cr(orig)));
        assert(line_views(out@) =~= Seq::new((k + 1) as nat, |j: int| strip_cr(p[j])));
        k = k + 1;
    }
    assert(p.len() == done@.len() + 1);
    assert(p.last() == cur@);
    if cur.len() > 0 {
        let ghost prev = line_views(out@);
        out.push(cur);
        assert(line_views(out@) =~= prev.push(p.last()));
    }
    assert(line_views(out@) =~= text_lines(s@));
    out
}

/// A map read from its text: one row per line, as wide as the widest line,
/// shorter lines padded with spaces, each character read through the
/// legend (floor where it has none). A map wider or taller than 65535 is
/// refused.
pub fn map_from_text(name: &str, text: &str, legend: &Legend) -> (r: Result<MapState, String>)
    ensures
        ({
            let rows = text_lines(text@);
            let w = widest(rows);
            if w > u16::MAX || rows.len() > u16::MAX {
                r matches Err(e) && e@ == "Failed to parse map: map too large"@
            } else {
                r matches Ok(m) && m.name@ == name@ && m.width == w && m.height == rows.len()
                    && m.tiles@ == rows_tiles(rows, w as int, legend.entries@)
            }
        }),
{
    let chars = chars_of(text);
    let rows = split_lines(&chars);
    let ghost rv = line_views(rows@);
    let mut w: usize = 0;
    let mut k: usize = 0;
    assert(rv.take(0) =~= Seq::<Seq<char>>::empty());
    while k < rows.len()
        invariant
            rv == line_views(rows@),
            k <= rows@.len(),
            w == widest(rv.take(k as int)),
        decreases rows.len() - k,
    {
        assert(rv.take(k + 1).drop_last() =~= rv.take(k as int));
        assert(rv.take(k + 1).last() == rows@[k as int]@);
        if rows[k].len() > w {
            w = rows[k].len();
        }
        k = k + 1;
    }
    assert(rv.take(rows@.len() as int) =~= rv);
    if w > 65535 || rows.len() > 65535 {
        return Err(owned("Failed to parse map: map too large"));
    }
    let mut tiles: Vec<Tile> = Vec::new();
    let mut y: usize = 0;
    assert(tiles@ =~= rows_tiles(rv.take(0), w as int, legend.entries@));
    while y < rows.len()
        invariant
            rv == line_views(rows@),
            y <= rows@.len(),
            w <= 65535,
            tiles@ == rows_tiles(rv.take(y as int), w as int, legend.entries@),
        decreases rows.len() - y,
    {
        let ghost row = rv[y as int];
        let ghost base = tiles@;
        let mut x: usize = 0;
        while x < w
            invariant
                rv == line_views(rows@),
                y < rows@.len(),
                row == rows@[y as int]@,
                x <= w,
                tiles@ == base + row_tiles(row, w as int, legend.entries@).take(x as int),
            decreases w - x,
        {
            let c = if x < rows[y].len() { rows[y][x] } else { ' ' };
            let t = match legend.tile_for(c) {
                Some(t) => t,
                None => Tile::Floor,
            };
            tiles.push(t);
            assert(base + row_tiles(row, w as int, legend.entries@).take(x + 1) =~= (base + row_tiles(row, w as int, legend.entries@).take(x as int)).push(t));
            x = x + 1;
        }
        assert(row_tiles(row, w as int, legend.entries@).take(w as int) =~= row_tiles(row, w as int, legend.entries@));
        assert(rv.take(y + 1).drop_last() =~= rv.take(y as int));
        y = y + 1;
    }
    assert(rv.take(rows@.len() as int) =~= rv);
    Ok(MapState { name: owned(name), width: w as u16, height: rows.len() as u16, tiles })
}

} // verus!
