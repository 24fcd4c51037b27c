//! The dictionary of values that placeholders are resolved against.

use crate::text::{Text, TextView};
use vstd::hash_map::StringHashMap;
use vstd::prelude::*;

verus! {

/// Maps field names to their values. Every name is bound at most once; binding a name
/// again replaces its value.
pub struct ValueDictionary {
    entries: StringHashMap<Text>,
}

impl View for ValueDictionary {
    type V = Map<Seq<char>, TextView>;

    closed spec fn view(&self) -> Map<Seq<char>, TextView> {
        self.entries@.map_values(|value: Text| value@)
    }
}

/// The value that `key` resolves to: its entry, or the empty string where it has none.
pub open spec fn resolved(dict: Map<Seq<char>, TextView>, key: Seq<char>) -> TextView {
    if dict.contains_key(key) {
        dict[key]
    } else {
        TextView::Single(Seq::empty())
    }
}

impl ValueDictionary {
    /// A dictionary without entries.
    pub fn new() -> (dict: ValueDictionary)
        ensures
            dict@ == Map::<Seq<char>, TextView>::empty(),
    {
        let dict = ValueDictionary { entries: StringHashMap::new() };
        assert(dict@ =~= Map::<Seq<char>, TextView>::empty());
        dict
    }

    /// Binds `key` to `value`.
    pub fn insert(&mut self, key: String, value: Text)
        ensures
            final(self)@ == old(self)@.insert(key@, value@),
    {
        self.entries.insert(key, value);
        assert(self@ =~= old(self)@.insert(key@, value@));
    }

    /// The entry of `key`, if it has one.
    pub fn get(&self, key: &str) -> (found: Option<&Text>)
        ensures
            match found {
                Some(value) => self@.contains_key(key@) && self@[key@] == value@,
                None => !self@.contains_key(key@),
            },
    {
        self.entries.get(key)
    }
}

} // verus!
