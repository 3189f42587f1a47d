//! The table from encoded enum values to enum names that a variable carries.
use vstd::prelude::*;
use vstd::utf8::*;

use crate::text::str_eq;

verus! {

/// The map that a list of (key, name) entries describes: a later entry for a
/// key replaces the earlier ones.
pub open spec fn map_of_entries(s: Seq<(Seq<char>, Seq<char>)>) -> Map<Seq<char>, Seq<char>>
    decreases s.len(),
{
    if s.len() == 0 {
        Map::empty()
    } else {
        map_of_entries(s.drop_last()).insert(s.last().0, s.last().1)
    }
}

/// Entries after position `i` that do not mention `k` leave what `k` maps to unchanged.
proof fn lemma_map_of_entries_tail(s: Seq<(Seq<char>, Seq<char>)>, i: int, k: Seq<char>)
    requires
        0 <= i <= s.len(),
        forall|j: int| i <= j < s.len() ==> (#[trigger] s[j]).0 != k,
    ensures
        map_of_entries(s).contains_key(k) == map_of_entries(s.take(i)).contains_key(k),
        map_of_entries(s).contains_key(k) ==> map_of_entries(s)[k] == map_of_entries(
            s.take(i),
        )[k],
    decreases s.len(),
{
    if i == s.len() {
        assert(s.take(i) =~= s);
    } else {
        let d = s.drop_last();
        assert(s[s.len() - 1].0 != k);
        assert forall|j: int| i <= j < d.len() implies (#[trigger] d[j]).0 != k by {
            assert(d[j] == s[j]);
        }
        lemma_map_of_entries_tail(d, i, k);
        assert(d.take(i) =~= s.take(i));
    }
}

/// Every key that occurs in the entries is in the map.
proof fn lemma_map_of_entries_has_keys(s: Seq<(Seq<char>, Seq<char>)>, j: int)
    requires
        0 <= j < s.len(),
    ensures
        map_of_entries(s).contains_key(s[j].0),
    decreases s.len(),
{
    if j < s.len() - 1 {
        lemma_map_of_entries_has_keys(s.drop_last(), j);
        assert(s.drop_last()[j] == s[j]);
    }
}

/// A table from encoded values to names, such as the literals of a VHDL
/// enumeration. It is used as a map from key text to name text.
#[derive(Clone, Debug)]
pub struct EnumMap {
    entries: Vec<(String, String)>,
}

impl View for EnumMap {
    type V = Map<Seq<char>, Seq<char>>;

    closed spec fn view(&self) -> Map<Seq<char>, Seq<char>> {
        map_of_entries(self.entry_texts())
    }
}

impl EnumMap {
    closed spec fn entry_texts(&self) -> Seq<(Seq<char>, Seq<char>)> {
        self.entries@.map_values(|e: (String, String)| (e.0@, e.1@))
    }

    /// The key that a walk over the table meets first, if the table has any.
    pub closed spec fn first_key(&self) -> Option<Seq<char>> {
        if self.entries@.len() == 0 {
            None
        } else {
            Some(self.entries@[0].0@)
        }
    }

    /// The first key of a walk over the table is one of its keys, and there
    /// is one exactly when the table is not empty.
    pub proof fn lemma_first_key(&self)
        ensures
            self.first_key() is None <==> self@.dom() =~= Set::empty(),
            self.first_key() matches Some(k) ==> self@.contains_key(k),
    {
        if self.entries@.len() > 0 {
            lemma_map_of_entries_has_keys(self.entry_texts(), 0);
        }
    }

    /// An empty table.
    pub fn new() -> (m: EnumMap)
        ensures
            m@ =~= Map::<Seq<char>, Seq<char>>::empty(),
            m.first_key() is None,
    {
        EnumMap { entries: Vec::new() }
    }

    /// Maps `key` to `name`, replacing what `key` mapped to before.
    pub fn insert(&mut self, key: String, name: String)
        ensures
            final(self)@ == old(self)@.insert(key@, name@),
            final(self).first_key() == (if old(self).first_key() is None {
                Some(key@)
            } else {
                old(self).first_key()
            }),
    {
        let ghost before = self.entry_texts();
        let ghost k = key@;
        let ghost n = name@;
        self.entries.push((key, name));
        proof {
            assert(self.entry_texts().drop_last() =~= before);
            assert(self.entry_texts().last() == (k, n));
        }
    }

    /// Whether the table has no entry.
    pub fn is_empty(&self) -> (r: bool)
        ensures
            r == (self@.dom() =~= Set::empty()),
            r == self.first_key() is None,
    {
        proof {
            self.lemma_first_key();
        }
        self.entries.len() == 0
    }

    /// The name that `key` maps to, if any.
    pub fn get(&self, key: &str) -> (r: Option<&String>)
        ensures
            r is Some == self@.contains_key(key@),
            r matches Some(name) ==> name@ == self@[key@],
    {
        let ghost s = self.entry_texts();
        let mut j: usize = self.entries.len();
        while j > 0
            invariant
                j <= self.entries@.len(),
                s == self.entry_texts(),
                forall|m: int| j <= m < s.len() ==> (#[trigger] s[m]).0 != key@,
            decreases j,
        {
            let e = &self.entries[j - 1];
            if str_eq(e.0.as_str(), key) {
                proof {
                    lemma_map_of_entries_tail(s, j as int, key@);
                    assert(s.take(j as int).drop_last() =~= s.take(j - 1));
                    assert(s.take(j as int).last() == s[j - 1]);
                }
                return Some(&e.1);
            }
            j = j - 1;
        }
        proof {
            lemma_map_of_entries_tail(s, 0, key@);
        }
        None
    }

    /// The length in UTF-8 bytes of the first key of a walk over the table, if any.
    pub fn first_key_byte_len(&self) -> (r: Option<usize>)
        ensures
            r matches Some(l) ==> self.first_key() matches Some(k) && l == encode_utf8(k).len(),
            r is None ==> self.first_key() is None,
    {
        if self.entries.len() == 0 {
            None
        } else {
            Some(self.entries[0].0.as_str().as_bytes().len())
        }
    }
}

} // verus!
