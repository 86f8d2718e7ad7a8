//! Replies of the language model: the NPC line of a dialogue turn and the
//! interpretation of a free-form action, read leniently from raw text.
use vstd::prelude::*;
use vstd::string::StringSliceAdditionalSpecFns;
use crate::text::{
    chars_of, find_chars, find_first, is_whitespace_char, owned, push_str, rfind_char,
    rfind_char_exec, skip_whitespace, string_of, string_push, trim, trim_end, trim_end_index,
    trim_start,
};

verus! {

#[derive(Clone, Debug)]
pub struct DialogueResponse {
    pub npc_line: String,
}

#[derive(Clone, Debug)]
pub struct ActionInterpretation {
    pub kind: String,
    pub skill: String,
    pub difficulty: String,
    pub reason: String,
    pub on_success: String,
    pub on_failure: String,
}

/// Characters of a quoted value up to the closing quote `q`; a backslash
/// takes the next character literally. `None` when the quote never closes.
pub open spec fn quoted_value(s: Seq<char>, q: char, escaped: bool, acc: Seq<char>) -> Option<Seq<char>>
    decreases s.len(),
{
    if s.len() == 0 {
        None
    } else if escaped {
        quoted_value(s.drop_first(), q, false, acc.push(s[0]))
    } else if s[0] == '\\' {
        quoted_value(s.drop_first(), q, true, acc)
    } else if s[0] == q {
        Some(acc)
    } else {
        quoted_value(s.drop_first(), q, false, acc.push(s[0]))
    }
}

/// Characters that end an unquoted value.
pub open spec fn is_value_end(c: char) -> bool {
    c == ',' || c == '}' || c == '\n' || c == '\r'
}

/// Position of the first value-ending character at or after `i`, or the length.
pub open spec fn value_end_from(s: Seq<char>, i: int) -> int
    decreases s.len() - i,
{
    if i >= s.len() {
        s.len() as int
    } else if is_value_end(s[i]) {
        i
    } else {
        value_end_from(s, i + 1)
    }
}

/// Outcome of looking for a field through one spelling of its key:
/// `None` to try the next spelling, `Some(None)` to give up, `Some(Some(v))`
/// for the value found.
pub open spec fn field_scan(raw: Seq<char>, pat: Seq<char>) -> Option<Option<Seq<char>>> {
    match find_first(raw, pat) {
        None => None,
        Some(pos) => {
            let after = raw.subrange(pos + pat.len(), raw.len() as int);
            match find_first(after, seq![':']) {
                None => Some(None),
                Some(c) => {
                    let rest = trim_start(after.subrange(c + 1, after.len() as int));
                    if rest.len() == 0 {
                        None
                    } else if rest[0] == '"' || rest[0] == '\'' {
                        match quoted_value(rest.drop_first(), rest[0], false, seq![]) {
                            Some(v) => Some(Some(v)),
                            None => None,
                        }
                    } else {
                        let v = trim(rest.subrange(0, value_end_from(rest, 0)));
                        if v.len() > 0 {
                            Some(Some(v))
                        } else {
                            None
                        }
                    }
                },
            }
        },
    }
}

/// The value of field `key` in loosely formatted text: the key is looked up
/// as `"key"`, then `'key'`, then bare; the value after the following colon
/// is a quoted string or runs up to a comma, brace or line end.
pub open spec fn field_value(raw: Seq<char>, key: Seq<char>) -> Option<Seq<char>> {
    let p1 = seq!['"'] + key + seq!['"'];
    let p2 = seq!['\''] + key + seq!['\''];
    match field_scan(raw, p1) {
        Some(r) => r,
        None => match field_scan(raw, p2) {
            Some(r) => r,
            None => match field_scan(raw, key) {
                Some(r) => r,
                None => None,
            },
        },
    }
}

/// A copy of `v[lo..hi]`.
fn slice_chars(v: &Vec<char>, lo: usize, hi: usize) -> (r: Vec<char>)
    requires
        lo <= hi <= v@.len(),
    ensures
        r@ == v@.subrange(lo as int, hi as int),
{
    let mut r: Vec<char> = Vec::new();
    let mut i = lo;
    while i < hi
        invariant
            lo <= i <= hi <= v@.len(),
            r@ == v@.subrange(lo as int, i as int),
        decreases hi - i,
    {
        r.push(v[i]);
        assert(v@.subrange(lo as int, i + 1) =~= v@.subrange(lo as int, i as int).push(v@[i as int]));
        i = i + 1;
    }
    r
}

fn quoted_value_exec(s: &Vec<char>, lo: usize, q: char) -> (r: Option<String>)
    requires
        lo <= s@.len(),
    ensures
        match quoted_value(s@.subrange(lo as int, s@.len() as int), q, false, seq![]) {
            Some(v) => r matches Some(t) && t@ == v,
            None => r is None,
        },
{
    let ghost whole = s@.subrange(lo as int, s@.len() as int);
    let mut out = String::new();
    let mut escaped = false;
    let mut i = lo;
    while i < s.len()
        invariant
            lo <= i <= s@.len(),
            whole == s@.subrange(lo as int, s@.len() as int),
            quoted_value(whole, q, false, seq![]) == quoted_value(
                s@.subrange(i as int, s@.len() as int),
                q,
                escaped,
                out@,
            ),
        decreases s.len() - i,
    {
        let ch = s[i];
        let ghost rest = s@.subrange(i as int, s@.len() as int);
        assert(rest.drop_first() =~= s@.subrange(i + 1, s@.len() as int));
        assert(rest[0] == ch);
        if escaped {
            string_push(&mut out, ch);
            escaped = false;
        } else if ch == '\\' {
            escaped = true;
        } else if ch == q {
            return Some(out);
        } else {
            string_push(&mut out, ch);
        }
        i = i + 1;
    }
    None
}

fn value_end_exec(s: &Vec<char>, lo: usize) -> (r: usize)
    requires
        lo <= s@.len(),
    ensures
        r as int == lo + value_end_from(s@.subrange(lo as int, s@.len() as int), 0),
        lo <= r <= s@.len(),
{
    let ghost rest = s@.subrange(lo as int, s@.len() as int);
    let mut i = lo;
    while i < s.len() && !(s[i] == ',' || s[i] == '}' || s[i] == '\n' || s[i] == '\r')
        invariant
            lo <= i <= s@.len(),
            rest == s@.subrange(lo as int, s@.len() as int),
            value_end_from(rest, 0) == value_end_from(rest, i - lo),
        decreases s.len() - i,
    {
        i = i + 1;
    }
    i
}

proof fn lemma_value_end_bounds(s: Seq<char>, i: int)
    requires
        0 <= i <= s.len(),
    ensures
        i <= value_end_from(s, i) <= s.len(),
    decreases s.len() - i,
{
    if i < s.len() && !is_value_end(s[i]) {
        lemma_value_end_bounds(s, i + 1);
    }
}

fn field_scan_exec(raw: &Vec<char>, pat: &Vec<char>) -> (r: Option<Option<String>>)
    ensures
        match field_scan(raw@, pat@) {
            None => r is None,
            Some(None) => r matches Some(None),
            Some(Some(v)) => r matches Some(Some(t)) && t@ == v,
        },
{
    let pos = match find_chars(raw, pat) {
        None => return None,
        Some(p) => p,
    };
    let n = raw.len();
    let after = slice_chars(raw, pos + pat.len(), n);
    let colon_pat: Vec<char> = vec![':'];
    assert(colon_pat@ =~= seq![':']);
    let c = match find_chars(&after, &colon_pat) {
        None => return Some(None),
        Some(c) => c,
    };
    let start = skip_whitespace(&after, c + 1);
    proof {
        assert(after@.subrange(c + 1, after@.len() as int).len() >= 0);
    }
    let ghost rest = trim_start(after@.subrange(c + 1, after@.len() as int));
    assert(rest == after@.subrange(start as int, after@.len() as int));
    if start == after.len() {
        return None;
    }
    let first = after[start];
    if first == '"' || first == '\'' {
        assert(rest.drop_first() =~= after@.subrange(start + 1, after@.len() as int));
        match quoted_value_exec(&after, start + 1, first) {
            Some(v) => Some(Some(v)),
            None => None,
        }
    } else {
        let end = value_end_exec(&after, start);
        proof {
            lemma_value_end_bounds(rest, 0);
        }
        let vstart = skip_whitespace_to(&after, start, end);
        let vend = trim_end_index(&after, vstart, end);
        proof {
            assert(rest.subrange(0, value_end_from(rest, 0)) =~= after@.subrange(start as int, end as int));
        }
        if vend > vstart {
            Some(Some(string_of(&after, vstart, vend)))
        } else {
            None
        }
    }
}

/// Start of `s[lo..hi]` once leading whitespace is dropped, with the trimmed
/// range equal to `trim` of the whole range.
fn skip_whitespace_to(s: &Vec<char>, lo: usize, hi: usize) -> (r: usize)
    requires
        lo <= hi <= s@.len(),
    ensures
        lo <= r <= hi,
        trim_start(s@.subrange(lo as int, hi as int)) == s@.subrange(r as int, hi as int),
{
    let mut i = lo;
    while i < hi && is_whitespace_char(s[i])
        invariant
            lo <= i <= hi <= s@.len(),
            trim_start(s@.subrange(lo as int, hi as int)) == trim_start(s@.subrange(i as int, hi as int)),
        decreases hi - i,
    {
        assert(s@.subrange(i as int, hi as int).drop_first() =~= s@.subrange(i + 1, hi as int));
        i = i + 1;
    }
    i
}

/// The value of field `key` in loosely formatted text (see `field_value`).
pub fn extract_field(raw: &str, key: &str) -> (r: Option<String>)
    ensures
        match field_value(raw@, key@) {
            Some(v) => r matches Some(t) && t@ == v,
            None => r is None,
        },
{
    let rv = chars_of(raw);
    let kv = chars_of(key);
    let mut p1: Vec<char> = Vec::new();
    p1.push('"');
    let mut j: usize = 0;
    while j < kv.len()
        invariant
            j <= kv@.len(),
            p1@ == seq!['"'] + kv@.subrange(0, j as int),
        decreases kv.len() - j,
    {
        p1.push(kv[j]);
        assert(kv@.subrange(0, j + 1) =~= kv@.subrange(0, j as int).push(kv@[j as int]));
        j = j + 1;
    }
    p1.push('"');
    let mut p2: Vec<char> = Vec::new();
    p2.push('\'');
    let mut j: usize = 0;
    while j < kv.len()
        invariant
            j <= kv@.len(),
            p2@ == seq!['\''] + kv@.subrange(0, j as int),
        decreases kv.len() - j,
    {
        p2.push(kv[j]);
        assert(kv@.subrange(0, j + 1) =~= kv@.subrange(0, j as int).push(kv@[j as int]));
        j = j + 1;
    }
    p2.push('\'');
    proof {
        assert(kv@.subrange(0, kv@.len() as int) =~= kv@);
        assert(p1@ =~= seq!['"'] + key@ + seq!['"']);
        assert(p2@ =~= seq!['\''] + key@ + seq!['\'']);
    }
    match field_scan_exec(&rv, &p1) {
        Some(r) => return r,
        None => {},
    }
    match field_scan_exec(&rv, &p2) {
        Some(r) => return r,
        None => {},
    }
    match field_scan_exec(&rv, &kv) {
        Some(r) => r,
        None => None,
    }
}

/// The value of the first of `keys` that `raw` holds a field for.
pub open spec fn field_value_any(raw: Seq<char>, keys: Seq<Seq<char>>) -> Option<Seq<char>>
    decreases keys.len(),
{
    if keys.len() == 0 {
        None
    } else {
        match field_value(raw, keys[0]) {
            Some(v) => Some(v),
            None => field_value_any(raw, keys.drop_first()),
        }
    }
}

pub fn extract_field_any(raw: &str, keys: &[&str]) -> (r: Option<String>)
    ensures
        match field_value_any(raw@, keys@.map_values(|k: &str| k@)) {
            Some(v) => r matches Some(t) && t@ == v,
            None => r is None,
        },
{
    let ghost ks = keys@.map_values(|k: &str| k@);
    assert(ks.skip(0) =~= ks);
    let mut i: usize = 0;
    while i < keys.len()
        invariant
            i <= keys@.len(),
            ks == keys@.map_values(|k: &str| k@),
            field_value_any(raw@, ks) == field_value_any(raw@, ks.skip(i as int)),
        decreases keys.len() - i,
    {
        assert(ks.skip(i as int).drop_first() =~= ks.skip(i + 1));
        assert(ks.skip(i as int)[0] == keys@[i as int]@);
        if let Some(v) = extract_field(raw, keys[i]) {
            return Some(v);
        }
        i = i + 1;
    }
    None
}

/// The fenced block between the first two triple backticks, trimmed and
/// without a leading `json` tag; `None` when missing or empty.
pub open spec fn fenced_json(raw: Seq<char>) -> Option<Seq<char>> {
    let fence = seq!['`', '`', '`'];
    match find_first(raw, fence) {
        None => None,
        Some(start) => {
            let rest = raw.subrange(start + 3, raw.len() as int);
            match find_first(rest, fence) {
                None => None,
                Some(end) => {
                    let inside = trim(rest.subrange(0, end));
                    let inner = if inside.len() >= 4 && inside.subrange(0, 4) == seq!['j', 's', 'o', 'n'] {
                        trim_start(inside.subrange(4, inside.len() as int))
                    } else {
                        inside
                    };
                    if inner.len() == 0 {
                        None
                    } else {
                        Some(inner)
                    }
                },
            }
        },
    }
}

pub fn extract_fenced_json(raw: &str) -> (r: Option<String>)
    ensures
        match fenced_json(raw@) {
            Some(v) => r matches Some(t) && t@ == v,
            None => r is None,
        },
{
    let rv = chars_of(raw);
    let fence: Vec<char> = vec!['`', '`', '`'];
    assert(fence@ =~= seq!['`', '`', '`']);
    let start = match find_chars(&rv, &fence) {
        None => return None,
        Some(s) => s,
    };
    let n = rv.len();
    let rest = slice_chars(&rv, start + 3, n);
    let end = match find_chars(&rest, &fence) {
        None => return None,
        Some(e) => e,
    };
    let a = skip_whitespace_to(&rest, 0, end);
    let b = trim_end_index(&rest, a, end);
    let ghost inside = trim(rest@.subrange(0, end as int));
    assert(inside == rest@.subrange(a as int, b as int));
    let mut lo = a;
    if b - a >= 4 && rest[a] == 'j' && rest[a + 1] == 's' && rest[a + 2] == 'o' && rest[a + 3] == 'n' {
        assert(inside.subrange(0, 4) =~= seq!['j', 's', 'o', 'n']);
        lo = skip_whitespace_to(&rest, a + 4, b);
        assert(inside.subrange(4, inside.len() as int) =~= rest@.subrange(a + 4, b as int));
    } else {
        assert(!(inside.len() >= 4 && inside.subrange(0, 4) == seq!['j', 's', 'o', 'n'])) by {
            if inside.len() >= 4 && inside.subrange(0, 4) == seq!['j', 's', 'o', 'n'] {
                assert(inside.subrange(0, 4)[0] == rest@[a as int]);
                assert(inside.subrange(0, 4)[1] == rest@[a + 1]);
                assert(inside.subrange(0, 4)[2] == rest@[a + 2]);
                assert(inside.subrange(0, 4)[3] == rest@[a + 3]);
            }
        }
    }
    if lo == b {
        None
    } else {
        Some(string_of(&rest, lo, b))
    }
}

/// JSON to try when the whole reply is not JSON: a fenced block, else the
/// text from the first `{` to the last `}`.
pub open spec fn json_candidate(raw: Seq<char>) -> Option<Seq<char>> {
    match fenced_json(raw) {
        Some(f) => Some(f),
        None => match (find_first(raw, seq!['{']), rfind_char(raw, '}')) {
            (Some(s), Some(e)) => if e <= s {
                None
            } else {
                Some(raw.subrange(s, e + 1))
            },
            _ => None,
        },
    }
}

pub fn extract_json_candidate(raw: &str) -> (r: Option<String>)
    ensures
        match json_candidate(raw@) {
            Some(v) => r matches Some(t) && t@ == v,
            None => r is None,
        },
{
    if let Some(f) = extract_fenced_json(raw) {
        return Some(f);
    }
    let rv = chars_of(raw);
    let brace: Vec<char> = vec!['{'];
    assert(brace@ =~= seq!['{']);
    let start = match find_chars(&rv, &brace) {
        None => return None,
        Some(s) => s,
    };
    let end = match rfind_char_exec(&rv, '}') {
        None => return None,
        Some(e) => e,
    };
    if end <= start {
        return None;
    }
    proof {
        lemma_rfind_bound(rv@, '}');
    }
    let n = rv.len();
    assert(end < n);
    Some(string_of(&rv, start, end + 1))
}

proof fn lemma_rfind_bound(s: Seq<char>, c: char)
    ensures
        rfind_char(s, c) matches Some(i) ==> 0 <= i < s.len(),
    decreases s.len(),
{
    if s.len() > 0 {
        lemma_rfind_bound(s.drop_last(), c);
    }
}

/// `text` when its UTF-8 encoding is at most `max` bytes, else its first
/// `max` characters followed by `...`.
pub open spec fn shorten_spec(text: &str, max: usize) -> Seq<char> {
    if text.len() <= max {
        text@
    } else {
        text@.take(if max < text@.len() { max as int } else { text@.len() as int }) + "..."@
    }
}

pub fn shorten(text: &str, max: usize) -> (s: String)
    ensures
        s@ == shorten_spec(text, max),
{
    if text.len() <= max {
        return owned(text);
    }
    let v = chars_of(text);
    let n = if max < v.len() {
        max
    } else {
        v.len()
    };
    let mut out = string_of(&v, 0, n);
    push_str(&mut out, "...");
    out
}

/// The reply read as dialogue: the JSON reading when there is one, else the
/// `npc_line` field found in the text, else an error.
pub open spec fn dialogue_result(raw: Seq<char>, parsed: Option<Seq<char>>) -> Result<Seq<char>, Seq<char>> {
    match parsed {
        Some(line) => Ok(line),
        None => match field_value(raw, "npc_line"@) {
            Some(line) => Ok(line),
            None => Err("invalid dialogue response"@),
        },
    }
}

/// Reads a dialogue reply. `parsed` is the reply read as JSON, when the
/// lenient JSON reading succeeded; otherwise the `npc_line` field is looked
/// up in the raw text.
pub fn parse_dialogue_response(raw: &str, parsed: Option<DialogueResponse>) -> (r: Result<
    DialogueResponse,
    String,
>)
    ensures
        match dialogue_result(
            raw@,
            match parsed {
                Some(p) => Some(p.npc_line@),
                None => None,
            },
        ) {
            Ok(line) => r matches Ok(d) && d.npc_line@ == line,
            Err(e) => r matches Err(t) && t@ == e,
        },
{
    if let Some(p) = parsed {
        return Ok(p);
    }
    if let Some(line) = extract_field(raw, "npc_line") {
        return Ok(DialogueResponse { npc_line: line });
    }
    Err(owned("invalid dialogue response"))
}

/// The fields of an action reply found in raw text, with the defaults used
/// for the missing ones; an error when none of skill, difficulty, reason,
/// success and failure text is there.
pub open spec fn action_fields(raw: Seq<char>) -> Option<Seq<Seq<char>>> {
    let skill = field_value_any(raw, seq!["skill"@, "ability"@]);
    let difficulty = field_value(raw, "difficulty"@);
    let reason = field_value(raw, "reason"@);
    let on_success = field_value_any(raw, seq!["on_success"@, "success"@]);
    let on_failure = field_value_any(raw, seq!["on_failure"@, "failure"@]);
    if skill is None && difficulty is None && reason is None && on_success is None
        && on_failure is None {
        None
    } else {
        Some(
            seq![
                match field_value(raw, "kind"@) { Some(v) => v, None => "skill_check"@ },
                match skill { Some(v) => v, None => "strength"@ },
                match difficulty { Some(v) => v, None => "medium"@ },
                match reason { Some(v) => v, None => "Action"@ },
                match on_success { Some(v) => v, None => "You succeed."@ },
                match on_failure { Some(v) => v, None => "You fail."@ },
            ],
        )
    }
}

/// The six text fields of an interpretation, in declaration order.
pub open spec fn action_view(a: ActionInterpretation) -> Seq<Seq<char>> {
    seq![a.kind@, a.skill@, a.difficulty@, a.reason@, a.on_success@, a.on_failure@]
}

fn or_default(v: Option<String>, d: &str) -> (s: String)
    ensures
        match v {
            Some(t) => s@ == t@,
            None => s@ == d@,
        },
{
    match v {
        Some(t) => t,
        None => owned(d),
    }
}

/// Reads an action reply. `parsed` is the reply read as JSON, when the
/// lenient JSON reading succeeded; otherwise the fields are looked up one by
/// one in the raw text, missing ones taking defaults.
pub fn parse_action_interpretation(raw: &str, parsed: Option<ActionInterpretation>) -> (r: Result<
    ActionInterpretation,
    String,
>)
    ensures
        parsed matches Some(p) ==> r matches Ok(a) && action_view(a) == action_view(p),
        parsed is None ==> match action_fields(raw@) {
            Some(f) => r matches Ok(a) && action_view(a) == f,
            None => r matches Err(e) && e@ == "invalid action response"@,
        },
{
    if let Some(p) = parsed {
        return Ok(p);
    }
    let skill = extract_field_any(raw, &["skill", "ability"]);
    let difficulty = extract_field(raw, "difficulty");
    let reason = extract_field(raw, "reason");
    let on_success = extract_field_any(raw, &["on_success", "success"]);
    let on_failure = extract_field_any(raw, &["on_failure", "failure"]);
    proof {
        assert(seq!["skill", "ability"].map_values(|k: &str| k@) =~= seq!["skill"@, "ability"@]);
        assert(seq!["on_success", "success"].map_values(|k: &str| k@) =~= seq!["on_success"@, "success"@]);
        assert(seq!["on_failure", "failure"].map_values(|k: &str| k@) =~= seq!["on_failure"@, "failure"@]);
    }
    if skill.is_none() && difficulty.is_none() && reason.is_none() && on_success.is_none()
        && on_failure.is_none() {
        return Err(owned("invalid action response"));
    }
    let a = ActionInterpretation {
        kind: or_default(extract_field(raw, "kind"), "skill_check"),
        skill: or_default(skill, "strength"),
        difficulty: or_default(difficulty, "medium"),
        reason: or_default(reason, "Action"),
        on_success: or_default(on_success, "You succeed."),
        on_failure: or_default(on_failure, "You fail."),
    };
    Ok(a)
}

} // verus!
