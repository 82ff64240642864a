//! Translation tables: flat mappings from a key to the text that stands for
//! it in one language, and how a table is read from JSON.

use std::collections::HashMap;
use vstd::hash_map::StringHashMap;
use vstd::prelude::*;

verus! {

/// One language's table. Its view is the mapping from key to text.
pub struct Translations {
    entries: StringHashMap<String>,
}

impl View for Translations {
    type V = Map<Seq<char>, Seq<char>>;

    closed spec fn view(&self) -> Map<Seq<char>, Seq<char>> {
        text_values(self.entries@)
    }
}

/// A table of strings seen as a table of their characters.
pub open spec fn text_values(entries: Map<Seq<char>, String>) -> Map<Seq<char>, Seq<char>> {
    entries.map_values(|text: String| text@)
}

/// What a table gives for a key: the text stored under it, and the key itself
/// where the table has none.
pub open spec fn resolve(table: Map<Seq<char>, Seq<char>>, key: Seq<char>) -> Seq<char> {
    if table.contains_key(key) {
        table[key]
    } else {
        key
    }
}

impl Translations {
    /// An empty table.
    pub fn new() -> (table: Translations)
        ensures
            table@ == Map::<Seq<char>, Seq<char>>::empty(),
    {
        let table = Translations { entries: StringHashMap::new() };
        assert(table@ =~= Map::<Seq<char>, Seq<char>>::empty());
        table
    }

    /// Stores `text` under `key`, in place of what was there.
    pub fn insert(&mut self, key: String, text: String)
        ensures
            final(self)@ == old(self)@.insert(key@, text@),
    {
        self.entries.insert(key, text);
        assert(self@ =~= old(self)@.insert(key@, text@));
    }

    /// The text stored under `key`, if there is one.
    pub fn get(&self, key: &str) -> (found: Option<&String>)
        ensures
            match found {
                Some(text) => self@.contains_key(key@) && text@ == self@[key@],
                None => !self@.contains_key(key@),
            },
    {
        self.entries.get(key)
    }

    /// The number of entries.
    pub fn len(&self) -> (count: usize)
        ensures
            count == self@.len(),
    {
        assert(self@.dom() =~= self.entries@.dom());
        self.entries.len()
    }

    /// Removes every entry.
    pub fn clear(&mut self)
        ensures
            final(self)@ == Map::<Seq<char>, Seq<char>>::empty(),
    {
        self.entries.clear();
        assert(self@ =~= Map::<Seq<char>, Seq<char>>::empty());
    }

    /// The text for `key`: what the table stores under it, or the key itself.
    pub fn lookup(&self, key: &str) -> (text: String)
        ensures
            text@ == resolve(self@, key@),
    {
        match self.get(key) {
            Some(text) => text.clone(),
            None => String::from_str(key),
        }
    }
}

/// What `serde_json` reads from a text when it is asked for a map from
/// strings to strings: the members, or `None` where it reports an error. A
/// text has one reading; what the reading is, is left to the parser.
pub uninterp spec fn json_string_map(text: Seq<char>) -> Option<Map<Seq<char>, Seq<char>>>;

/// Calls `serde_json::from_str` for a `HashMap<String, String>`. Believed of
/// it, not proved: the outcome depends on the text alone, so it is the one
/// reading that `json_string_map` names; `None` stands for the parser's error,
/// and a table holds exactly the members that the parser produced.
#[verifier::external_body]
fn parse_json_object(json: &str) -> (parsed: Option<StringHashMap<String>>)
    ensures
        json_string_map(json@) == match parsed {
            Some(entries) => Some(text_values(entries@)),
            None => None,
        },
{
    let parsed: Result<HashMap<String, String>, serde_json::Error> = serde_json::from_str(json);
    match parsed {
        Ok(members) => {
            let mut entries = StringHashMap::new();
            for (key, text) in members {
                entries.insert(key, text);
            }
            Some(entries)
        },
        Err(_) => None,
    }
}

/// The table that a JSON text is loaded as: the members read from it, or
/// nothing at all where it cannot be read.
pub open spec fn loaded_table(json: Seq<char>) -> Map<Seq<char>, Seq<char>> {
    match json_string_map(json) {
        Some(members) => members,
        None => Map::empty(),
    }
}

/// Reads the members of a JSON text, if the text can be read as a flat
/// object of strings.
pub fn parse_table(json: &str) -> (parsed: Option<Translations>)
    ensures
        json_string_map(json@) == match parsed {
            Some(table) => Some(table@),
            None => None,
        },
{
    match parse_json_object(json) {
        Some(entries) => Some(Translations { entries }),
        None => None,
    }
}

/// The table to use for what was read: the table itself, or an empty one
/// where nothing could be read.
pub fn table_or_empty(parsed: Option<Translations>) -> (table: Translations)
    ensures
        table@ == match parsed {
            Some(read) => read@,
            None => Map::empty(),
        },
{
    match parsed {
        Some(read) => read,
        None => Translations::new(),
    }
}

} // verus!
