//! Natural-language commands: intent recognition, entity extraction and
//! the reading of durations.

pub mod intent;
pub mod entities;
pub mod laws;

use vstd::prelude::*;
use crate::json::{
    empty_json_object, json_as_array, json_as_i64, json_as_text, json_int, json_items, json_member, json_member_or_null,
    json_object_members, json_text,
};

verus! {

/// NLP configuration.
#[derive(Debug, Clone)]
pub struct NLPConfig {
    /// Where the models are.
    pub model_path: String,
    /// Size of an embedding vector.
    pub embedding_dimension: usize,
    /// Maximum number of tokens of an input.
    pub max_tokens: usize,
    /// Language code.
    pub language: String,
}

impl Default for NLPConfig {
    fn default() -> (r: Self)
        ensures
            r.model_path@ == "./models/nlp"@,
            r.embedding_dimension == 768,
            r.max_tokens == 512,
            r.language@ == "en"@,
    {
        NLPConfig {
            model_path: String::from_str("./models/nlp"),
            embedding_dimension: 768,
            max_tokens: 512,
            language: String::from_str("en"),
        }
    }
}

/// A task described in natural language.
#[derive(Debug, Clone)]
pub struct TaskDefinition {
    /// Task id.
    pub id: String,
    /// What the task is.
    pub description: String,
    /// Kind of task.
    pub task_type: String,
    /// Priority; larger is more urgent.
    pub priority: i32,
    /// Capabilities an agent needs for the task.
    pub required_capabilities: Vec<String>,
    /// Expected duration in seconds, if known.
    pub expected_duration_secs: Option<u64>,
    /// Free-form metadata.
    pub metadata: serde_json::Value,
}

impl TaskDefinition {
    /// A task with an id and nothing else: no description or type,
    /// priority 100, no capabilities, no expected duration.
    pub fn new(id: &str) -> (r: Self)
        ensures
            r.id@ == id@,
            r.description@.len() == 0,
            r.task_type@.len() == 0,
            r.priority == 100,
            r.required_capabilities@.len() == 0,
            r.expected_duration_secs is None,
            json_object_members(r.metadata).len() == 0,
            json_text(r.metadata) is None,
    {
        TaskDefinition {
            id: String::from_str(id),
            description: String::new(),
            task_type: String::new(),
            priority: 100,
            required_capabilities: Vec::new(),
            expected_duration_secs: None,
            metadata: empty_json_object(),
        }
    }
}

/// An `i64` cut to 32 bits as `as i32` does it: the two's-complement
/// value of its low 32 bits.
pub open spec fn wrap_i32(p: int) -> int {
    let m = ((p % 0x1_0000_0000) + 0x1_0000_0000) % 0x1_0000_0000;
    if m >= 0x8000_0000 { m - 0x1_0000_0000 } else { m }
}

/// The texts of the JSON strings among `items`, in order.
pub open spec fn string_items(items: Seq<serde_json::Value>) -> Seq<Seq<char>>
    decreases items.len(),
{
    if items.len() == 0 {
        Seq::empty()
    } else {
        let rest = string_items(items.drop_last());
        match json_text(items.last()) {
            Some(t) => rest.push(t),
            None => rest,
        }
    }
}

/// The task that an indexed document describes: its id, its content as
/// description, and from its metadata the task type ("unknown" when
/// missing), the priority (100 when missing) and the capabilities (the
/// strings of the array, none when missing).
pub open spec fn task_of_document(
    t: TaskDefinition,
    id: Seq<char>,
    content: Seq<char>,
    metadata: serde_json::Value,
) -> bool {
    &&& t.id@ == id
    &&& t.description@ == content
    &&& t.task_type@ == match json_text(json_member_or_null(metadata, "task_type"@)) {
        Some(s) => s,
        None => "unknown"@,
    }
    &&& t.priority as int == match json_int(json_member_or_null(metadata, "priority"@)) {
        Some(p) => wrap_i32(p as int),
        None => 100,
    }
    &&& t.required_capabilities@.map_values(|c: String| c@) == match json_items(
        json_member_or_null(metadata, "capabilities"@),
    ) {
        Some(items) => string_items(items),
        None => Seq::empty(),
    }
    &&& t.expected_duration_secs is None
    &&& t.metadata == metadata
}

fn to_i32(p: i64) -> (r: i32)
    ensures
        r as int == wrap_i32(p as int),
{
    let m: i128 = ((p as i128) % 0x1_0000_0000 + 0x1_0000_0000) % 0x1_0000_0000;
    if m >= 0x8000_0000 {
        (m - 0x1_0000_0000) as i32
    } else {
        m as i32
    }
}

/// The task that an indexed document describes.
pub fn task_from_document(id: &str, content: &str, metadata: &serde_json::Value) -> (r: TaskDefinition)
    ensures
        task_of_document(r, id@, content@, *metadata),
{
    proof {
        reveal_strlit("task_type");
        reveal_strlit("priority");
        reveal_strlit("capabilities");
        reveal_strlit("unknown");
    }
    let task_type = match json_as_text(&json_member(metadata, "task_type")) {
        Some(t) => t,
        None => String::from_str("unknown"),
    };
    let priority = match json_as_i64(&json_member(metadata, "priority")) {
        Some(p) => to_i32(p),
        None => 100,
    };
    let mut caps: Vec<String> = Vec::new();
    match json_as_array(&json_member(metadata, "capabilities")) {
        Some(items) => {
            let n = items.len();
            let mut i: usize = 0;
            assert(caps@.map_values(|c: String| c@) =~= string_items(items@.subrange(0, 0)));
            while i < n
                invariant
                    n == items@.len(),
                    i <= n,
                    caps@.map_values(|c: String| c@) == string_items(items@.subrange(0, i as int)),
                decreases n - i,
            {
                let ghost before = caps@;
                let ghost sub = items@.subrange(0, i + 1);
                assert(sub.drop_last() =~= items@.subrange(0, i as int));
                assert(sub.last() == items@[i as int]);
                if let Some(t) = json_as_text(&items[i]) {
                    caps.push(t);
                    assert(caps@.map_values(|c: String| c@) =~= before.map_values(|c: String| c@).push(t@));
                }
                i = i + 1;
            }
            assert(items@.subrange(0, n as int) =~= items@);
        },
        None => {
            assert(caps@.map_values(|c: String| c@) =~= Seq::<Seq<char>>::empty());
        },
    }
    TaskDefinition {
        id: String::from_str(id),
        description: String::from_str(content),
        task_type,
        priority,
        required_capabilities: caps,
        expected_duration_secs: None,
        metadata: metadata.clone(),
    }
}

/// Search statistics.
#[derive(Debug, Clone, Copy, PartialEq, Eq, Structural)]
pub struct SearchStats {
    /// Number of indexed documents.
    pub total_documents: i64,
    /// Size of an embedding vector.
    pub embedding_dimension: i32,
}

/// Whether `c` is an ASCII decimal digit.
pub open spec fn is_ascii_digit(c: char) -> bool {
    '0' <= c <= '9'
}

/// The number written by a string of ASCII decimal digits.
pub open spec fn digits_value(s: Seq<char>) -> nat
    decreases s.len(),
{
    if s.len() == 0 {
        0
    } else {
        digits_value(s.drop_last()) * 10 + ((s.last() as nat) - ('0' as nat)) as nat
    }
}

/// What `str::parse::<u64>` gives: an optional `+` followed by at least one
/// ASCII digit, the value fitting in 64 bits; `None` otherwise.
pub open spec fn parsed_u64(s: Seq<char>) -> Option<u64> {
    let d = unsigned_part(s);
    if d.len() > 0 && all_digits(d) && digits_value(d) <= u64::MAX {
        Some(digits_value(d) as u64)
    } else {
        None
    }
}

/// `s` without a leading `+`.
pub open spec fn unsigned_part(s: Seq<char>) -> Seq<char> {
    if s.len() > 0 && s[0] == '+' {
        s.drop_first()
    } else {
        s
    }
}

/// Whether every character of `s` is an ASCII digit.
pub open spec fn all_digits(s: Seq<char>) -> bool {
    forall|i: int| 0 <= i < s.len() ==> is_ascii_digit(#[trigger] s[i])
}

/// Parses a decimal `u64` as `str::parse` does.
pub fn parse_u64(s: &str) -> (r: Option<u64>)
    ensures
        r == parsed_u64(s@),
{
    let n = s.unicode_len();
    let start: usize = if n > 0 && s.get_char(0) == '+' { 1 } else { 0 };
    let ghost d = unsigned_part(s@);
    assert(d =~= s@.subrange(start as int, n as int));
    if start >= n {
        return None;
    }
    let mut value: u64 = 0;
    let mut i: usize = start;
    while i < n
        invariant
            n == s@.len(),
            start <= i <= n,
            d == s@.subrange(start as int, n as int),
            d == unsigned_part(s@),
            forall|k: int| start <= k < i ==> is_ascii_digit(#[trigger] s@[k]),
            value == digits_value(s@.subrange(start as int, i as int)),
        decreases n - i,
    {
        let c = s.get_char(i);
        proof {
            assert(s@.subrange(start as int, i + 1).drop_last() =~= s@.subrange(start as int, i as int));
        }
        if !('0' <= c && c <= '9') {
            proof {
                assert(d[i - start] == s@[i as int]);
                assert(!is_ascii_digit(d[i - start]));
                assert(!all_digits(d));
            }
            return None;
        }
        let digit = (c as u32 - '0' as u32) as u64;
        if value > (u64::MAX - digit) / 10 {
            proof {
                lemma_digits_value_grows(s@.subrange(start as int, n as int), (i + 1 - start) as int);
                assert(s@.subrange(start as int, n as int).subrange(0, (i + 1 - start) as int)
                    =~= s@.subrange(start as int, i + 1));
                assert(value * 10 + digit > u64::MAX) by (nonlinear_arith)
                    requires value > (u64::MAX - digit) / 10, digit <= 9;
                assert(digits_value(s@.subrange(start as int, i + 1)) == value * 10 + digit);
            }
            return None;
        }
        value = value * 10 + digit;
        i = i + 1;
    }
    proof {
        assert forall|k: int| 0 <= k < d.len() implies is_ascii_digit(#[trigger] d[k]) by {
            assert(d[k] == s@[start + k]);
        }
    }
    Some(value)
}

proof fn lemma_digits_value_grows(s: Seq<char>, k: int)
    requires
        0 <= k <= s.len(),
    ensures
        digits_value(s) >= digits_value(s.subrange(0, k)),
    decreases s.len() - k,
{
    if k < s.len() {
        lemma_digits_value_grows(s, k + 1);
        assert(s.subrange(0, k + 1).drop_last() =~= s.subrange(0, k));
    } else {
        assert(s.subrange(0, k) =~= s);
    }
}

/// Groups 1 and 2 of the first match of the regular expression `pattern`
/// (syntax of the `regex` crate) in `text`, each when it took part in the
/// match; none when nothing matches or the pattern does not compile.
pub uninterp spec fn regex_first_groups(pattern: Seq<char>, text: Seq<char>) -> Option<
    (Option<Seq<char>>, Option<Seq<char>>),
>;

/// Trusted: `regex::Regex::new(pattern)`, then `captures(text)`, groups 1
/// and 2 of the first match taken with `Captures::get`; a pattern that
/// does not compile matches nothing. The result depends on pattern and
/// text alone; the contract names it.
#[verifier::external_body]
fn first_groups(pattern: &str, text: &str) -> (r: Option<(Option<String>, Option<String>)>)
    ensures
        match r {
            Some((g1, g2)) => regex_first_groups(pattern@, text@) == Some((opt_chars(g1), opt_chars(g2))),
            None => regex_first_groups(pattern@, text@) is None,
        },
{
    let re = match regex::Regex::new(pattern) {
        Ok(re) => re,
        Err(_) => return None,
    };
    match re.captures(text) {
        Some(caps) => Some((caps.get(1).map(|m| m.as_str().to_string()), caps.get(2).map(|m| m.as_str().to_string()))),
        None => None,
    }
}

/// The duration grammar: a number, optional whitespace, and an optional
/// unit letter.
pub open spec fn duration_pattern() -> Seq<char> {
    "(\\d+)\\s*(s|m|h|d)?"@
}

/// The digits and the optional unit letter of the first duration in
/// `text`.
pub open spec fn duration_groups(text: Seq<char>) -> Option<(Seq<char>, Option<Seq<char>>)> {
    match regex_first_groups(duration_pattern(), text) {
        Some((Some(digits), unit)) => Some((digits, unit)),
        _ => None,
    }
}

fn duration_captures(text: &str) -> (r: Option<(String, Option<String>)>)
    ensures
        match r {
            Some((digits, unit)) => duration_groups(text@) == Some((digits@, opt_chars(unit))),
            None => duration_groups(text@) is None,
        },
{
    let pattern = "(\\d+)\\s*(s|m|h|d)?";
    proof { reveal_strlit("(\\d+)\\s*(s|m|h|d)?"); }
    match first_groups(pattern, text) {
        Some((Some(digits), unit)) => Some((digits, unit)),
        _ => None,
    }
}

/// The characters of an optional string.
pub open spec fn opt_chars(o: Option<String>) -> Option<Seq<char>> {
    match o {
        Some(u) => Some(u@),
        None => None,
    }
}

/// Seconds per unit letter; a missing or unknown unit counts seconds.
pub open spec fn unit_seconds(unit: Option<Seq<char>>) -> nat {
    match unit {
        Some(u) => if u == "m"@ {
            60
        } else if u == "h"@ {
            3600
        } else if u == "d"@ {
            86400
        } else {
            1
        },
        None => 1,
    }
}

/// The number of seconds a duration text such as `5m`, `1h` or `30s`
/// denotes: the first number, times the seconds of the unit that follows
/// it; 0 when there is no number or it does not fit in 64 bits.
pub open spec fn duration_seconds(text: Seq<char>) -> nat {
    match duration_groups(text) {
        Some((digits, unit)) => match parsed_u64(digits) {
            Some(v) => (v as nat) * unit_seconds(unit),
            None => 0,
        },
        None => 0,
    }
}

fn unit_factor(unit: &Option<String>) -> (r: u64)
    ensures
        r == unit_seconds(opt_chars(*unit)),
        r > 0,
{
    match unit {
        None => 1,
        Some(u) => {
            proof {
                reveal_strlit("m");
                reveal_strlit("h");
                reveal_strlit("d");
            }
            if crate::text::str_eq(u.as_str(), "m") {
                60
            } else if crate::text::str_eq(u.as_str(), "h") {
                3600
            } else if crate::text::str_eq(u.as_str(), "d") {
                86400
            } else {
                1
            }
        },
    }
}

/// Parses a duration text such as `5m`, `1h` or `30s` into seconds.
pub fn parse_duration(s: &str) -> (r: u64)
    requires
        duration_seconds(s@) <= u64::MAX,
    ensures
        r == duration_seconds(s@),
{
    match duration_captures(s) {
        None => 0,
        Some((digits, unit)) => {
            let value = match parse_u64(digits.as_str()) {
                Some(v) => v,
                None => 0,
            };
            let factor = unit_factor(&unit);
            assert(duration_seconds(s@) == value * factor);
            value * factor
        },
    }
}

/// Parses a duration text into seconds; `None` when the number of seconds
/// does not fit in 64 bits.
pub fn checked_parse_duration(s: &str) -> (r: Option<u64>)
    ensures
        duration_seconds(s@) <= u64::MAX ==> r == Some(duration_seconds(s@) as u64),
        duration_seconds(s@) > u64::MAX ==> r is None,
{
    match duration_captures(s) {
        None => Some(parse_duration(s)),
        Some((digits, unit)) => {
            let value = match parse_u64(digits.as_str()) {
                Some(v) => v,
                None => 0,
            };
            let factor = unit_factor(&unit);
            assert(duration_seconds(s@) == value * factor);
            if value > u64::MAX / factor {
                proof {
                    assert(value * factor > u64::MAX) by (nonlinear_arith)
                        requires value > u64::MAX / factor, factor > 0;
                }
                None
            } else {
                proof {
                    assert(value * factor <= u64::MAX) by (nonlinear_arith)
                        requires value <= u64::MAX / factor, factor > 0;
                }
                Some(parse_duration(s))
            }
        },
    }
}

} // verus!
