//! A small map from text to text that keeps the first value written for a
//! key. It holds the settings that a server announces.

use crate::text::same_bytes;
use vstd::prelude::*;
use vstd::string::*;
use vstd::utf8::*;

verus! {

/// Whether some entry of `entries` has the key `key`.
pub open spec fn has_key(entries: Seq<(String, String)>, key: Seq<char>) -> bool {
    exists|i: int| 0 <= i < entries.len() && (#[trigger] entries[i]).0@ == key
}

/// The place of an entry with the key `key`.
pub open spec fn place_of(entries: Seq<(String, String)>, key: Seq<char>) -> int {
    choose|i: int| 0 <= i < entries.len() && (#[trigger] entries[i]).0@ == key
}

/// Whether no key occurs twice in `entries`.
pub open spec fn keys_distinct(entries: Seq<(String, String)>) -> bool {
    forall|i: int, j: int|
        0 <= i < j < entries.len() ==> (#[trigger] entries[i]).0@ != (#[trigger] entries[j]).0@
}

/// The map that a list of entries with distinct keys stands for.
pub open spec fn entries_map(entries: Seq<(String, String)>) -> Map<Seq<char>, Seq<char>> {
    Map::new(
        |key: Seq<char>| has_key(entries, key),
        |key: Seq<char>| entries[place_of(entries, key)].1@,
    )
}

/// With distinct keys, an entry is the one that its key is looked up to.
pub proof fn lemma_place_of(entries: Seq<(String, String)>, i: int)
    requires
        keys_distinct(entries),
        0 <= i < entries.len(),
    ensures
        has_key(entries, entries[i].0@),
        place_of(entries, entries[i].0@) == i,
        entries_map(entries)[entries[i].0@] == entries[i].1@,
{
    let key = entries[i].0@;
    assert(has_key(entries, key));
    let j = place_of(entries, key);
    assert(0 <= j < entries.len() && entries[j].0@ == key);
    if j < i {
        assert(entries[j].0@ != entries[i].0@);
    } else if i < j {
        assert(entries[i].0@ != entries[j].0@);
    }
}

/// Appending an entry with a new key adds that key to the map and leaves the
/// others as they were.
pub proof fn lemma_push_new_key(entries: Seq<(String, String)>, entry: (String, String))
    requires
        keys_distinct(entries),
        !has_key(entries, entry.0@),
    ensures
        keys_distinct(entries.push(entry)),
        entries_map(entries.push(entry)) == entries_map(entries).insert(entry.0@, entry.1@),
{
    let longer = entries.push(entry);
    assert forall|i: int, j: int| 0 <= i < j < longer.len() implies (#[trigger] longer[i]).0@ != (
    #[trigger] longer[j]).0@ by {
        if j == entries.len() {
            assert(longer[i] == entries[i]);
            if longer[i].0@ == longer[j].0@ {
                assert(has_key(entries, entry.0@));
            }
        } else {
            assert(longer[i] == entries[i]);
            assert(longer[j] == entries[j]);
        }
    }
    let left = entries_map(longer);
    let right = entries_map(entries).insert(entry.0@, entry.1@);
    assert forall|key: Seq<char>| left.dom().contains(key) <==> right.dom().contains(key) by {
        if has_key(longer, key) {
            let i = place_of(longer, key);
            if i < entries.len() {
                assert(longer[i] == entries[i]);
                assert(has_key(entries, key));
            }
        }
        if has_key(entries, key) {
            let i = place_of(entries, key);
            assert(longer[i] == entries[i]);
            assert(has_key(longer, key));
        }
        if key == entry.0@ {
            assert(longer[entries.len() as int] == entry);
            assert(has_key(longer, key));
        }
    }
    assert forall|key: Seq<char>| left.dom().contains(key) implies left[key] == right[key] by {
        let i = place_of(longer, key);
        lemma_place_of(longer, i);
        if i < entries.len() {
            assert(longer[i] == entries[i]);
            lemma_place_of(entries, i);
        } else {
            assert(longer[i] == entry);
        }
    }
    assert(left =~= right);
}

/// A map from text to text in which the first value written for a key stays.
#[derive(Debug)]
pub struct InfoMap {
    entries: Vec<(String, String)>,
}

impl View for InfoMap {
    type V = Map<Seq<char>, Seq<char>>;

    closed spec fn view(&self) -> Map<Seq<char>, Seq<char>> {
        entries_map(self.entries@)
    }
}

impl Clone for InfoMap {
    fn clone(&self) -> (copy: Self)
        ensures
            copy@ == self@,
            copy.entries() == self.entries(),
    {
        self.duplicate()
    }
}

impl InfoMap {
    #[verifier::type_invariant]
    spec fn inv(&self) -> bool {
        keys_distinct(self.entries@)
    }

    /// The entries in the order in which their keys were first written.
    pub closed spec fn entries(&self) -> Seq<(String, String)> {
        self.entries@
    }

    /// The map without entries.
    pub fn new() -> (m: InfoMap)
        ensures
            m@ == Map::<Seq<char>, Seq<char>>::empty(),
            m.entries().len() == 0,
    {
        let m = InfoMap { entries: Vec::new() };
        assert(m@ =~= Map::<Seq<char>, Seq<char>>::empty());
        m
    }

    /// The number of keys.
    pub fn len(&self) -> (n: usize)
        ensures
            n == self.entries().len(),
    {
        self.entries.len()
    }

    /// The entry at place `i`, key first.
    pub fn entry(&self, i: usize) -> (e: (&String, &String))
        requires
            i < self.entries().len(),
        ensures
            *e.0 == self.entries()[i as int].0,
            *e.1 == self.entries()[i as int].1,
            self@.dom().contains(e.0@),
            self@[e.0@] == e.1@,
    {
        proof {
            use_type_invariant(self);
            lemma_place_of(self.entries@, i as int);
        }
        (&self.entries[i].0, &self.entries[i].1)
    }

    /// A copy of the map.
    pub fn duplicate(&self) -> (copy: InfoMap)
        ensures
            copy@ == self@,
            copy.entries() == self.entries(),
    {
        proof {
            use_type_invariant(self);
        }
        let mut entries: Vec<(String, String)> = Vec::new();
        let mut i: usize = 0;
        while i < self.entries.len()
            invariant
                i <= self.entries.len(),
                entries@ == self.entries@.subrange(0, i as int),
            decreases self.entries.len() - i,
        {
            let key = self.entries[i].0.clone();
            let value = self.entries[i].1.clone();
            entries.push((key, value));
            assert(entries@ =~= self.entries@.subrange(0, i + 1));
            i += 1;
        }
        assert(entries@ =~= self.entries@);
        InfoMap { entries }
    }

    /// The value written for `key`, if there is one.
    pub fn get(&self, key: &str) -> (v: Option<&String>)
        ensures
            v is Some <==> self@.dom().contains(key@),
            v matches Some(s) ==> s@ == self@[key@],
    {
        let mut i: usize = 0;
        while i < self.entries.len()
            invariant
                i <= self.entries.len(),
                forall|j: int| 0 <= j < i ==> (#[trigger] self.entries@[j]).0@ != key@,
            decreases self.entries.len() - i,
        {
            if str_eq(self.entries[i].0.as_str(), key) {
                proof {
                    use_type_invariant(self);
                    lemma_place_of(self.entries@, i as int);
                }
                return Some(&self.entries[i].1);
            }
            i += 1;
        }
        None
    }

    /// Whether a value was written for `key`.
    pub fn contains_key(&self, key: &str) -> (b: bool)
        ensures
            b == self@.dom().contains(key@),
    {
        self.get(key).is_some()
    }

    /// Writes `value` for `key` unless the key has a value already.
    pub fn insert_if_absent(&mut self, key: String, value: String)
        ensures
            final(self)@ == if old(self)@.dom().contains(key@) {
                old(self)@
            } else {
                old(self)@.insert(key@, value@)
            },
    {
        if !self.contains_key(key.as_str()) {
            proof {
                use_type_invariant(&*self);
                lemma_push_new_key(self.entries@, (key, value));
            }
            let mut taken = InfoMap { entries: Vec::new() };
            core::mem::swap(self, &mut taken);
            let mut entries = taken.entries;
            entries.push((key, value));
            *self = InfoMap { entries };
        }
    }
}

/// Whether two texts hold the same characters.
pub fn str_eq(a: &str, b: &str) -> (r: bool)
    ensures
        r == (a@ == b@),
{
    proof {
        encode_utf8_decode_utf8(a@);
        encode_utf8_decode_utf8(b@);
    }
    same_bytes(a.as_bytes(), b.as_bytes())
}

} // verus!
