//! Tables that map an identifier of the source tracker to one of the target:
//! user names to user ids, platform names to project ids.

use crate::json::{json_items, read_text, text_member};
use crate::strings::{or_empty, text_or_empty};
use serde_json::Value;
use vstd::hash_map::StringHashMap;
use vstd::prelude::*;

verus! {

/// A table from source identifiers to target identifiers. Each key stands in
/// it once. It is filled from configuration before the transformation runs,
/// which only reads it.
pub struct LookupMap {
    entries: StringHashMap<String>,
}

/// What `table` gives for `key`: the identifier stored under it, and the
/// empty text where the table has no such key.
pub open spec fn resolved(table: Map<Seq<char>, Seq<char>>, key: Seq<char>) -> Seq<char> {
    if table.contains_key(key) {
        table[key]
    } else {
        Seq::empty()
    }
}

impl View for LookupMap {
    type V = Map<Seq<char>, Seq<char>>;

    closed spec fn view(&self) -> Map<Seq<char>, Seq<char>> {
        self.entries@.map_values(|v: String| v@)
    }
}

impl LookupMap {
    /// A table without entries.
    pub fn new() -> (r: LookupMap)
        ensures
            r@ == Map::<Seq<char>, Seq<char>>::empty(),
    {
        let r = LookupMap { entries: StringHashMap::new() };
        proof {
            assert(r@ =~= Map::<Seq<char>, Seq<char>>::empty());
        }
        r
    }

    /// Stores `value` under `key`, in place of what stood there.
    pub fn insert(&mut self, key: String, value: String)
        ensures
            final(self)@ == old(self)@.insert(key@, value@),
    {
        self.entries.insert(key, value);
        proof {
            assert(self@ =~= old(self)@.insert(key@, value@));
        }
    }

    /// The identifier stored under `key`, if there is one.
    pub fn get(&self, key: &str) -> (r: Option<&String>)
        ensures
            match r {
                Some(v) => self@.contains_key(key@) && self@[key@] == v@,
                None => !self@.contains_key(key@),
            },
    {
        self.entries.get(key)
    }

    /// The identifier stored under `key`; the empty string where none is: a
    /// miss is no error, it leaves the field of the target issue unset.
    pub fn resolve(&self, key: &str) -> (r: String)
        ensures
            r@ == resolved(self@, key@),
    {
        match self.entries.get(key) {
            Some(v) => v.clone(),
            None => String::new(),
        }
    }
}

/// The table that a sequence of JSON entries spells out: each entry stores
/// the text it holds under `value` under the text it holds under `key`, a
/// later entry in place of an earlier one with the same key. A text that an
/// entry lacks is empty.
pub open spec fn table_of(items: Seq<Value>, key: Seq<char>, value: Seq<char>) -> Map<
    Seq<char>,
    Seq<char>,
>
    decreases items.len(),
{
    if items.len() == 0 {
        Map::empty()
    } else {
        table_of(items.drop_last(), key, value).insert(
            or_empty(text_member(items.last(), key)),
            or_empty(text_member(items.last(), value)),
        )
    }
}

/// Builds a table from the entries of a JSON array of the configuration;
/// from anything but an array, a table without entries.
pub fn decode_table(entries: &Value, key: &str, value: &str) -> (r: LookupMap)
    ensures
        r@ == match json_items(*entries) {
            Some(items) => table_of(items, key@, value@),
            None => Map::empty(),
        },
{
    let mut table = LookupMap::new();
    match entries.as_array() {
        Some(items) => {
            let mut i: usize = 0;
            while i < items.len()
                invariant
                    i <= items.len(),
                    table@ == table_of(items@.take(i as int), key@, value@),
                decreases items.len() - i,
            {
                proof {
                    assert(items@.take(i + 1).drop_last() =~= items@.take(i as int));
                }
                let k = text_or_empty(read_text(&items[i], key));
                let v = text_or_empty(read_text(&items[i], value));
                table.insert(k, v);
                i += 1;
            }
            proof {
                assert(items@.take(items.len() as int) =~= items@);
            }
        },
        None => {},
    }
    table
}

} // verus!
