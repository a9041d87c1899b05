//! The settings store: a JSON object of named values, how the text of the
//! settings file becomes one, and the preference lookups made on it. Reading
//! and writing the settings file is the caller's.

use std::collections::HashMap;

use serde_json::Value;
use vstd::prelude::*;
use vstd::string::*;

use crate::text::contains_chars;

verus! {

#[verifier::external_type_specification]
#[verifier::external_body]
pub struct ExJsonNumber(serde_json::Number);

#[verifier::external_type_specification]
#[verifier::external_body]
pub struct ExJsonValue(serde_json::Value);

/// A JSON value. A number is carried as serde_json keeps it.
#[derive(Debug, PartialEq)]
pub enum JsonValue {
    Null,
    Bool(bool),
    Number(serde_json::Number),
    Str(String),
    Array(Vec<JsonValue>),
    Object(Vec<(String, JsonValue)>),
}

/// Entry `i` of `s` holds key `k`.
pub open spec fn key_at(s: Seq<(String, JsonValue)>, i: int, k: Seq<char>) -> bool {
    0 <= i < s.len() && s[i].0@ == k
}

/// No key occurs twice in `s`.
pub open spec fn keys_unique(s: Seq<(String, JsonValue)>) -> bool {
    forall|i: int, j: int| 0 <= i < s.len() && 0 <= j < s.len() && i != j ==> s[i].0@ != s[j].0@
}

/// The map that the entries `s` describe.
pub open spec fn entries_map(s: Seq<(String, JsonValue)>) -> Map<Seq<char>, JsonValue> {
    Map::new(
        |k: Seq<char>| exists|i: int| #[trigger] key_at(s, i, k),
        |k: Seq<char>| s[choose|i: int| #[trigger] key_at(s, i, k)].1,
    )
}

/// With unique keys, the map gives each key the value of its entry.
pub proof fn lemma_entries_map_at(s: Seq<(String, JsonValue)>, i: int)
    requires
        keys_unique(s),
        0 <= i < s.len(),
    ensures
        entries_map(s).contains_key(s[i].0@),
        entries_map(s)[s[i].0@] == s[i].1,
{
    let k = s[i].0@;
    assert(key_at(s, i, k));
    let c = choose|c: int| #[trigger] key_at(s, c, k);
    assert(key_at(s, c, k));
    assert(c == i);
}

/// The settings: named JSON values, each name once.
pub struct ConfigMap {
    entries: Vec<(String, JsonValue)>,
}

impl View for ConfigMap {
    type V = Map<Seq<char>, JsonValue>;

    closed spec fn view(&self) -> Map<Seq<char>, JsonValue> {
        entries_map(self.entries@)
    }
}

impl ConfigMap {
    #[verifier::type_invariant]
    closed spec fn inv(self) -> bool {
        keys_unique(self.entries@)
    }

    /// The entries, each name once, in the order they are kept.
    pub fn entries(&self) -> (r: &Vec<(String, JsonValue)>)
        ensures
            keys_unique(r@),
            entries_map(r@) == self@,
    {
        proof {
            use_type_invariant(self);
        }
        &self.entries
    }

    /// The settings that `entries` name, each name once.
    pub fn from_entries(entries: Vec<(String, JsonValue)>) -> (m: Self)
        requires
            keys_unique(entries@),
        ensures
            m@ == entries_map(entries@),
    {
        ConfigMap { entries }
    }

    /// No settings.
    pub fn new() -> (m: Self)
        ensures
            m@ == Map::<Seq<char>, JsonValue>::empty(),
    {
        let m = ConfigMap { entries: Vec::new() };
        assert(m@ =~= Map::<Seq<char>, JsonValue>::empty());
        m
    }

    fn find(&self, key: &String) -> (r: Option<usize>)
        ensures
            match r {
                Some(i) => i < self.entries@.len() && self.entries@[i as int].0@ == key@,
                None => !self@.contains_key(key@),
            },
    {
        let mut i: usize = 0;
        while i < self.entries.len()
            invariant
                0 <= i <= self.entries@.len(),
                forall|j: int| 0 <= j < i ==> self.entries@[j].0@ != key@,
            decreases self.entries@.len() - i,
        {
            if self.entries[i].0 == *key {
                return Some(i);
            }
            i = i + 1;
        }
        assert forall|j: int| !key_at(self.entries@, j, key@) by {}
        None
    }

    /// The value named `key`, if any.
    pub fn get(&self, key: &str) -> (r: Option<&JsonValue>)
        ensures
            match self@.get(key@) {
                Some(v) => r matches Some(x) && *x == v,
                None => r is None,
            },
    {
        proof {
            use_type_invariant(self);
        }
        let k = String::from_str(key);
        match self.find(&k) {
            Some(i) => {
                proof {
                    lemma_entries_map_at(self.entries@, i as int);
                }
                Some(&self.entries[i].1)
            },
            None => None,
        }
    }

    /// Names `value` by `key`, in place of any value the key had.
    pub fn insert(&mut self, key: String, value: JsonValue)
        ensures
            final(self)@ == old(self)@.insert(key@, value),
    {
        proof {
            use_type_invariant(&*self);
        }
        let ghost old_entries = self.entries@;
        let found = self.find(&key);
        let mut entries: Vec<(String, JsonValue)> = Vec::new();
        std::mem::swap(&mut entries, &mut self.entries);
        let ghost k = key@;
        match found {
            Some(i) => {
                entries.set(i, (key, value));
                proof {
                    let s = entries@;
                    assert(keys_unique(s)) by {
                        assert forall|a: int, b: int|
                            0 <= a < s.len() && 0 <= b < s.len() && a != b implies s[a].0@
                            != s[b].0@ by {
                            if a != i && b != i {
                                assert(old_entries[a].0@ != old_entries[b].0@);
                            } else if a == i {
                                assert(old_entries[i as int].0@ != old_entries[b].0@);
                            } else {
                                assert(old_entries[i as int].0@ != old_entries[a].0@);
                            }
                        }
                    }
                    assert forall|k2: Seq<char>|
                        entries_map(s).contains_key(k2) == entries_map(
                            old_entries,
                        ).insert(k, value).contains_key(k2) by {
                        if exists|j: int| key_at(s, j, k2) {
                            let j = choose|j: int| key_at(s, j, k2);
                            if j != i {
                                assert(key_at(old_entries, j, k2));
                            }
                        }
                        if exists|j: int| key_at(old_entries, j, k2) {
                            let j = choose|j: int| key_at(old_entries, j, k2);
                            if j != i {
                                assert(key_at(s, j, k2));
                            } else {
                                assert(key_at(s, i as int, k2));
                            }
                        }
                        if k2 == k {
                            assert(key_at(s, i as int, k2));
                        }
                    }
                    assert forall|k2: Seq<char>| #[trigger]
                        entries_map(s).contains_key(k2) implies entries_map(s)[k2]
                        == entries_map(old_entries).insert(k, value)[k2] by {
                        let j = choose|j: int| key_at(s, j, k2);
                        assert(key_at(s, j, k2));
                        lemma_entries_map_at(s, j);
                        if j != i {
                            assert(s[j] == old_entries[j]);
                            lemma_entries_map_at(old_entries, j);
                        }
                    }
                    assert(entries_map(s) =~= entries_map(old_entries).insert(k, value));
                }
            },
            None => {
                entries.push((key, value));
                proof {
                    let s = entries@;
                    let n = old_entries.len() as int;
                    assert(keys_unique(s)) by {
                        assert forall|a: int, b: int|
                            0 <= a < s.len() && 0 <= b < s.len() && a != b implies s[a].0@
                            != s[b].0@ by {
                            if a != n && b != n {
                                assert(s[a] == old_entries[a]);
                                assert(s[b] == old_entries[b]);
                            } else if a == n {
                                assert(s[b] == old_entries[b]);
                                assert(key_at(old_entries, b, old_entries[b].0@));
                            } else {
                                assert(s[a] == old_entries[a]);
                                assert(key_at(old_entries, a, old_entries[a].0@));
                            }
                        }
                    }
                    assert forall|k2: Seq<char>|
                        entries_map(s).contains_key(k2) == entries_map(
                            old_entries,
                        ).insert(k, value).contains_key(k2) by {
                        if exists|j: int| key_at(s, j, k2) {
                            let j = choose|j: int| key_at(s, j, k2);
                            if j != n {
                                assert(key_at(old_entries, j, k2));
                            }
                        }
                        if exists|j: int| key_at(old_entries, j, k2) {
                            let j = choose|j: int| key_at(old_entries, j, k2);
                            assert(key_at(s, j, k2));
                        }
                        if k2 == k {
                            assert(key_at(s, n, k2));
                        }
                    }
                    assert forall|k2: Seq<char>| #[trigger]
                        entries_map(s).contains_key(k2) implies entries_map(s)[k2]
                        == entries_map(old_entries).insert(k, value)[k2] by {
                        let j = choose|j: int| key_at(s, j, k2);
                        assert(key_at(s, j, k2));
                        lemma_entries_map_at(s, j);
                        if j != n {
                            assert(s[j] == old_entries[j]);
                            lemma_entries_map_at(old_entries, j);
                        }
                    }
                    assert(entries_map(s) =~= entries_map(old_entries).insert(k, value));
                }
            },
        }
        self.entries = entries;
    }
}

/// The settings that serde_json's `from_str` reads from `text` as a
/// `HashMap<String, serde_json::Value>`, each value taken as a `JsonValue`;
/// nothing when `text` is not a JSON object.
pub uninterp spec fn json_object_settings(text: Seq<char>) -> Option<Map<Seq<char>, JsonValue>>;

/// Takes a `serde_json::Value` as a `JsonValue`, variant for variant.
/// Nothing is claimed of the result.
#[verifier::external_body]
fn json_value_of(v: Value) -> JsonValue {
    match v {
        Value::Null => JsonValue::Null,
        Value::Bool(b) => JsonValue::Bool(b),
        Value::Number(n) => JsonValue::Number(n),
        Value::String(t) => JsonValue::Str(t),
        Value::Array(a) => JsonValue::Array(a.into_iter().map(json_value_of).collect()),
        Value::Object(o) => JsonValue::Object(o.into_iter().map(|(k, x)| (k, json_value_of(x))).collect()),
    }
}

/// Calls serde_json's `from_str` to read `text` as a
/// `HashMap<String, serde_json::Value>` and lists its entries. Claimed: when
/// `json_object_settings(text)` is a map, the entries name each key once and
/// describe that map; otherwise the parse failed and there is nothing. The
/// order of the entries, which is the `HashMap`'s, is left unsaid.
#[verifier::external_body]
fn parse_settings_json(text: &str) -> (r: Option<Vec<(String, JsonValue)>>)
    ensures
        match json_object_settings(text@) {
            Some(m) => r matches Some(v) && keys_unique(v@) && entries_map(v@) == m,
            None => r is None,
        },
{
    match serde_json::from_str::<HashMap<String, Value>>(text) {
        Ok(m) => Some(m.into_iter().map(|(k, v)| (k, json_value_of(v))).collect()),
        Err(_) => None,
    }
}

/// Takes a `JsonValue` as a `serde_json::Value`, variant for variant.
/// Nothing is claimed of the result.
#[verifier::external_body]
fn value_of_json(v: &JsonValue) -> Value {
    match v {
        JsonValue::Null => Value::Null,
        JsonValue::Bool(b) => Value::Bool(*b),
        JsonValue::Number(n) => Value::Number(n.clone()),
        JsonValue::Str(t) => Value::String(t.clone()),
        JsonValue::Array(a) => Value::Array(a.iter().map(value_of_json).collect()),
        JsonValue::Object(o) => Value::Object(o.iter().map(|(k, x)| (k.clone(), value_of_json(x))).collect()),
    }
}

/// A hexadecimal digit, lower case, for `0 <= n < 16`.
pub open spec fn hex_digit(n: int) -> char {
    if n < 10 {
        (('0' as int) + n) as char
    } else {
        (('a' as int) + n - 10) as char
    }
}

/// How JSON text writes `c` inside a string, as serde_json does: a double
/// quote and a backslash after a backslash, the five control characters that
/// have one as `\b`, `\t`, `\n`, `\f`, `\r`, the other characters below
/// U+0020 as `\u00` and two lower-case hex digits, every other character as
/// it is.
pub open spec fn json_escape_char(c: char) -> Seq<char> {
    let u = c as int;
    if c == '"' {
        seq!['\\', '"']
    } else if c == '\\' {
        seq!['\\', '\\']
    } else if u == 0x08 {
        seq!['\\', 'b']
    } else if u == 0x09 {
        seq!['\\', 't']
    } else if u == 0x0A {
        seq!['\\', 'n']
    } else if u == 0x0C {
        seq!['\\', 'f']
    } else if u == 0x0D {
        seq!['\\', 'r']
    } else if u < 0x20 {
        seq!['\\', 'u', '0', '0', hex_digit(u / 16), hex_digit(u % 16)]
    } else {
        seq![c]
    }
}

/// The characters of `s` as JSON text writes them inside a string.
pub open spec fn json_escape(s: Seq<char>) -> Seq<char>
    decreases s.len(),
{
    if s.len() == 0 {
        seq![]
    } else {
        json_escape_char(s[0]) + json_escape(s.drop_first())
    }
}

/// The JSON text of a null, a boolean or a string; nothing for other values.
pub open spec fn json_scalar_text(v: JsonValue) -> Option<Seq<char>> {
    match v {
        JsonValue::Null => Some("null"@),
        JsonValue::Bool(b) => Some(
            if b {
                "true"@
            } else {
                "false"@
            },
        ),
        JsonValue::Str(t) => Some("\""@ + json_escape(t@) + "\""@),
        _ => None,
    }
}

/// A member of a JSON object as pretty JSON writes it: the key as a JSON
/// string, a colon and a space, then the value's text.
pub open spec fn json_member_text(key: Seq<char>, value_text: Seq<char>) -> Seq<char> {
    "\""@ + json_escape(key) + "\": "@ + value_text
}

/// `t` holds the member named `key`, followed by the text of `value` when
/// that is a null, a boolean or a string.
pub open spec fn member_written(t: Seq<char>, key: Seq<char>, value: JsonValue) -> bool {
    &&& contains_chars(t, json_member_text(key, seq![]))
    &&& json_scalar_text(value) is Some ==> contains_chars(
        t,
        json_member_text(key, json_scalar_text(value).unwrap()),
    )
}

/// Each entry of `entries` is written in `t`.
pub open spec fn members_written(entries: Seq<(String, JsonValue)>, t: Seq<char>) -> bool {
    forall|i: int| 0 <= i < entries.len() ==> member_written(t, #[trigger] entries[i].0@, entries[i].1)
}

/// Calls serde_json's `to_string_pretty` on the
/// `HashMap<String, serde_json::Value>` that `entries` name, and hands back
/// the text, or the text of the error. Claimed: the call succeeds (serde_json
/// documents failure only for a `Serialize` impl that fails or a map with
/// keys that are not strings, and `Value`'s impl never fails); and, when the
/// keys are distinct, for each entry the text holds the member `"key": ` and,
/// for a null, a boolean or a string, `"key": ` followed by the value's text
/// (serde_json writes a key and a string escaped as `json_escape` says, and
/// a key and its value separated by `": "`). The order of the members, which
/// is the `HashMap`'s, and the text of numbers, arrays and objects are left
/// unsaid.
#[verifier::external_body]
fn pretty_settings_json(entries: &[(String, JsonValue)]) -> (r: Result<String, String>)
    ensures
        r is Ok,
        keys_unique(entries@) ==> (r matches Ok(t) ==> members_written(entries@, t@)),
{
    let m: HashMap<String, Value> = entries.iter().map(|(k, v)| (k.clone(), value_of_json(v))).collect();
    serde_json::to_string_pretty(&m).map_err(|e| e.to_string())
}

/// The text of the settings file for `config`: serde_json's pretty JSON of
/// the settings as a `HashMap`. Every setting is written: each key appears
/// as `"key": `, followed by the value when it is a null, a boolean or a
/// string.
pub fn settings_json_text(config: &ConfigMap) -> (r: Result<String, String>)
    ensures
        r matches Ok(t) && forall|k: Seq<char>| #[trigger] config@.contains_key(k) ==> member_written(t@, k, config@[k]),
{
    let entries = config.entries();
    let r = pretty_settings_json(entries.as_slice());
    proof {
        let s = entries@;
        assert forall|k: Seq<char>| #[trigger] config@.contains_key(k) implies exists|i: int|
            0 <= i < s.len() && s[i].0@ == k && s[i].1 == config@[k] by {
            let i = choose|i: int| #[trigger] key_at(s, i, k);
            lemma_entries_map_at(s, i);
        }
    }
    r
}

/// The settings held by the text of a settings file: those of the JSON
/// object it holds, or none when there is no text or it is not a JSON object.
pub fn settings_from_text(text: Option<&str>) -> (m: ConfigMap)
    ensures
        text is None ==> m@ == Map::<Seq<char>, JsonValue>::empty(),
        text matches Some(t) ==> m@ == match json_object_settings(t@) {
            Some(s) => s,
            None => Map::<Seq<char>, JsonValue>::empty(),
        },
{
    match text {
        Some(t) => match parse_settings_json(t) {
            Some(entries) => ConfigMap::from_entries(entries),
            None => ConfigMap::new(),
        },
        None => ConfigMap::new(),
    }
}

/// The text of the setting `key`, when it is a string.
pub open spec fn spec_preference_string(m: Map<Seq<char>, JsonValue>, key: Seq<char>) -> Option<
    Seq<char>,
> {
    match m.get(key) {
        Some(JsonValue::Str(s)) => Some(s@),
        _ => None,
    }
}

/// The setting `key` when it is a boolean, else `default_value`.
pub open spec fn spec_preference_boolean(
    m: Map<Seq<char>, JsonValue>,
    key: Seq<char>,
    default_value: bool,
) -> bool {
    match m.get(key) {
        Some(JsonValue::Bool(b)) => b,
        _ => default_value,
    }
}

/// Where the settings are kept, and the preference lookups on them. The
/// caller reads the file's text (see `settings_from_text`) and writes back
/// the text of the settings (see `settings_json_text`).
pub struct ConfigManager {
    file_path: String,
}

impl ConfigManager {
    /// The path of the settings file.
    pub closed spec fn path(self) -> Seq<char> {
        self.file_path@
    }

    /// A manager for the settings file at `file_path`.
    pub fn new(file_path: String) -> (m: Self)
        ensures
            m.path() == file_path@,
    {
        ConfigManager { file_path }
    }

    /// The path of the settings file.
    pub fn file_path(&self) -> (p: &str)
        ensures
            p@ == self.path(),
    {
        self.file_path.as_str()
    }

    /// The setting `key` of `config`, when it is a string.
    pub fn get_preference_string(config: &ConfigMap, key: &str) -> (r: Option<String>)
        ensures
            match spec_preference_string(config@, key@) {
                Some(s) => r matches Some(x) && x@ == s,
                None => r is None,
            },
    {
        match config.get(key) {
            Some(JsonValue::Str(s)) => Some(s.clone()),
            _ => None,
        }
    }

    /// The setting `key` of `config` when it is a boolean, else
    /// `default_value`.
    pub fn get_preference_boolean(config: &ConfigMap, key: &str, default_value: bool) -> (r: bool)
        ensures
            r == spec_preference_boolean(config@, key@, default_value),
    {
        match config.get(key) {
            Some(JsonValue::Bool(b)) => *b,
            _ => default_value,
        }
    }

    /// Names `value` by `key` in `config`, replacing what the key held.
    pub fn set_preference(config: &mut ConfigMap, key: String, value: JsonValue)
        ensures
            final(config)@ == old(config)@.insert(key@, value),
    {
        config.insert(key, value);
    }
}

/// After a setting is written, reading it back as a string gives the string
/// written (nothing when a non-string was written), and every other setting
/// reads as before.
pub proof fn lemma_preference_string_after_set(
    m: Map<Seq<char>, JsonValue>,
    key: Seq<char>,
    value: JsonValue,
    other: Seq<char>,
)
    ensures
        spec_preference_string(m.insert(key, value), key) == match value {
            JsonValue::Str(s) => Some(s@),
            _ => None::<Seq<char>>,
        },
        other != key ==> spec_preference_string(m.insert(key, value), other)
            == spec_preference_string(m, other),
{
}

/// After a setting is written, reading it back as a boolean gives the boolean
/// written (the default when a non-boolean was written), and every other
/// setting reads as before.
pub proof fn lemma_preference_boolean_after_set(
    m: Map<Seq<char>, JsonValue>,
    key: Seq<char>,
    value: JsonValue,
    other: Seq<char>,
    default_value: bool,
)
    ensures
        spec_preference_boolean(m.insert(key, value), key, default_value) == match value {
            JsonValue::Bool(b) => b,
            _ => default_value,
        },
        other != key ==> spec_preference_boolean(m.insert(key, value), other, default_value)
            == spec_preference_boolean(m, other, default_value),
{
}

} // verus!
