//! A small set of texts, kept in the order in which they came.

use crate::info_map::str_eq;
use vstd::prelude::*;

verus! {

/// The texts that a list holds.
pub open spec fn texts_of(items: Seq<String>) -> Set<Seq<char>> {
    Set::new(|text: Seq<char>| exists|i: int| 0 <= i < items.len() && (#[trigger] items[i])@ == text)
}

/// Whether no text occurs twice in `items`.
pub open spec fn texts_distinct(items: Seq<String>) -> bool {
    forall|i: int, j: int| 0 <= i < j < items.len() ==> (#[trigger] items[i])@ != (#[trigger] items[j])@
}

/// A set of texts.
#[derive(Debug)]
pub struct TextSet {
    items: Vec<String>,
}

impl View for TextSet {
    type V = Set<Seq<char>>;

    closed spec fn view(&self) -> Set<Seq<char>> {
        texts_of(self.items@)
    }
}

impl Clone for TextSet {
    fn clone(&self) -> (copy: Self)
        ensures
            copy@ == self@,
            copy.items() == self.items(),
    {
        proof {
            use_type_invariant(self);
        }
        let mut items: Vec<String> = Vec::new();
        let mut i: usize = 0;
        while i < self.items.len()
            invariant
                i <= self.items.len(),
                items@ == self.items@.subrange(0, i as int),
            decreases self.items.len() - i,
        {
            let text = self.items[i].clone();
            items.push(text);
            assert(items@ =~= self.items@.subrange(0, i + 1));
            i += 1;
        }
        assert(items@ =~= self.items@);
        TextSet { items }
    }
}

impl TextSet {
    #[verifier::type_invariant]
    spec fn inv(&self) -> bool {
        texts_distinct(self.items@)
    }

    /// The texts in the order in which they came.
    pub closed spec fn items(&self) -> Seq<String> {
        self.items@
    }

    /// The empty set.
    pub fn new() -> (set: TextSet)
        ensures
            set@ == Set::<Seq<char>>::empty(),
            set.items().len() == 0,
    {
        let set = TextSet { items: Vec::new() };
        assert(set@ =~= Set::<Seq<char>>::empty());
        set
    }

    /// The number of texts.
    pub fn len(&self) -> (n: usize)
        ensures
            n == self.items().len(),
    {
        self.items.len()
    }

    /// The text at place `i`.
    pub fn item(&self, i: usize) -> (text: &String)
        requires
            i < self.items().len(),
        ensures
            *text == self.items()[i as int],
            self@.contains(text@),
    {
        &self.items[i]
    }

    /// Whether the set holds `text`.
    pub fn contains(&self, text: &str) -> (b: bool)
        ensures
            b == self@.contains(text@),
    {
        let mut i: usize = 0;
        while i < self.items.len()
            invariant
                i <= self.items.len(),
                forall|j: int| 0 <= j < i ==> (#[trigger] self.items@[j])@ != text@,
            decreases self.items.len() - i,
        {
            if str_eq(self.items[i].as_str(), text) {
                return true;
            }
            i += 1;
        }
        false
    }

    /// Puts `text` into the set, and says whether it was new.
    pub fn insert(&mut self, text: String) -> (added: bool)
        ensures
            final(self)@ == old(self)@.insert(text@),
            added == !old(self)@.contains(text@),
    {
        if self.contains(text.as_str()) {
            assert(self@.insert(text@) =~= self@);
            return false;
        }
        proof {
            use_type_invariant(&*self);
        }
        let ghost before = self.items@;
        let mut taken = TextSet { items: Vec::new() };
        core::mem::swap(self, &mut taken);
        let mut items = taken.items;
        items.push(text);
        assert forall|i: int, j: int| 0 <= i < j < items@.len() implies (#[trigger] items@[i])@ != (
        #[trigger] items@[j])@ by {
            if j < before.len() {
                assert(items@[i] == before[i] && items@[j] == before[j]);
            } else {
                assert(items@[i] == before[i]);
            }
        }
        assert(texts_of(items@) =~= texts_of(before).insert(text@)) by {
            assert forall|t: Seq<char>| texts_of(items@).contains(t) <==> texts_of(before).insert(
                text@,
            ).contains(t) by {
                if texts_of(items@).contains(t) {
                    let i = choose|i: int| 0 <= i < items@.len() && (#[trigger] items@[i])@ == t;
                    if i < before.len() {
                        assert(before[i] == items@[i]);
                    }
                }
                if texts_of(before).contains(t) {
                    let i = choose|i: int| 0 <= i < before.len() && (#[trigger] before[i])@ == t;
                    assert(items@[i] == before[i]);
                }
                if t == text@ {
                    assert(items@[before.len() as int]@ == t);
                }
            }
        }
        *self = TextSet { items };
        true
    }
}

} // verus!
