//! The tags of an entity: a finite map from tag names to tag values.

use vstd::prelude::*;

verus! {

/// One tag of an entity.
#[derive(Clone, Debug)]
pub struct Tag {
    pub key: String,
    pub value: String,
}

/// The tags of one entity, seen as a map from names to values.
///
/// Where a name were held twice, the earliest entry would count; `insert`
/// never adds a second one.
#[derive(Clone, Debug)]
pub struct Tags {
    entries: Vec<Tag>,
}

impl View for Tags {
    type V = Map<Seq<char>, Seq<char>>;

    closed spec fn view(&self) -> Map<Seq<char>, Seq<char>> {
        Map::new(
            |key: Seq<char>| exists|i: int| self.holds_at(key, i),
            |key: Seq<char>| self.entries@[choose|i: int| self.first_at(key, i)].value@,
        )
    }
}

impl Tags {
    /// The entry at index `i` has the name `key`.
    pub closed spec fn holds_at(&self, key: Seq<char>, i: int) -> bool {
        0 <= i < self.entries@.len() && self.entries@[i].key@ == key
    }

    /// The entry at index `i` is the earliest with the name `key`.
    pub closed spec fn first_at(&self, key: Seq<char>, i: int) -> bool {
        self.holds_at(key, i) && forall|j: int| 0 <= j < i ==> !self.holds_at(key, j)
    }

    /// Among the entries named `key` there is an earliest.
    proof fn lemma_earliest(&self, key: Seq<char>, i: int)
        requires
            self.holds_at(key, i),
        ensures
            exists|f: int| self.first_at(key, f),
        decreases i,
    {
        if exists|j: int| 0 <= j < i && self.holds_at(key, j) {
            let j = choose|j: int| 0 <= j < i && self.holds_at(key, j);
            self.lemma_earliest(key, j);
        } else {
            assert(self.first_at(key, i));
        }
    }

    /// The earliest entry named `key` gives the value of `key`.
    proof fn lemma_value(&self, key: Seq<char>, i: int)
        requires
            self.first_at(key, i),
        ensures
            self@.contains_key(key),
            self@[key] == self.entries@[i].value@,
    {
        let f = choose|f: int| self.first_at(key, f);
        assert(self.holds_at(key, i));
        if f < i {
            assert(!self.holds_at(key, f));
        } else if i < f {
            assert(!self.holds_at(key, i));
        }
    }

    /// No tags.
    pub fn new() -> (tags: Tags)
        ensures
            tags@ == Map::<Seq<char>, Seq<char>>::empty(),
    {
        let tags = Tags { entries: Vec::new() };
        assert(tags@ =~= Map::<Seq<char>, Seq<char>>::empty());
        tags
    }

    /// The index of the earliest entry named `key`, if there is one.
    fn position(&self, key: &String) -> (found: Option<usize>)
        ensures
            match found {
                Some(i) => self.first_at(key@, i as int),
                None => forall|i: int| !self.holds_at(key@, i),
            },
    {
        let mut i: usize = 0;
        while i < self.entries.len()
            invariant
                i <= self.entries@.len(),
                forall|j: int| 0 <= j < i ==> !self.holds_at(key@, j),
            decreases self.entries@.len() - i,
        {
            if self.entries[i].key == *key {
                return Some(i);
            }
            i += 1;
        }
        None
    }

    /// The value of the tag named `key`.
    pub fn get(&self, key: &str) -> (value: Option<&String>)
        ensures
            match value {
                Some(v) => self@.contains_key(key@) && v@ == self@[key@],
                None => !self@.contains_key(key@),
            },
    {
        let owned = String::from_str(key);
        match self.position(&owned) {
            Some(i) => {
                proof {
                    self.lemma_value(key@, i as int);
                }
                Some(&self.entries[i].value)
            },
            None => None,
        }
    }

    /// Whether the tag named `key` is there with exactly the value `value`.
    pub fn contains(&self, key: &str, value: &str) -> (found: bool)
        ensures
            found == (self@.contains_key(key@) && self@[key@] == value@),
    {
        match self.get(key) {
            Some(v) => {
                let wanted = String::from_str(value);
                *v == wanted
            },
            None => false,
        }
    }

    /// Sets the tag named `key` to `value`, whether or not it was there.
    pub fn insert(&mut self, key: String, value: String)
        ensures
            final(self)@ == old(self)@.insert(key@, value@),
    {
        let ghost before = *self;
        let ghost name = key@;
        let ghost text = value@;
        let found = self.position(&key);
        match found {
            Some(i) => {
                self.entries.set(i, Tag { key, value });
            },
            None => {
                self.entries.push(Tag { key, value });
            },
        }
        proof {
            let at: int = match found {
                Some(i) => i as int,
                None => before.entries@.len() as int,
            };
            assert(self.holds_at(name, at));
            assert forall|j: int| 0 <= j < at implies !self.holds_at(name, j) by {
                assert(!before.holds_at(name, j));
                assert(self.entries@[j] == before.entries@[j]);
            }
            assert(self.first_at(name, at));
            self.lemma_value(name, at);
            assert forall|k: Seq<char>, j: int| k != name implies (#[trigger] self.holds_at(k, j)
                <==> before.holds_at(k, j)) by {}
            assert forall|k: Seq<char>| k != name && #[trigger] before@.contains_key(k) implies (
            self@.contains_key(k) && self@[k] == before@[k]) by {
                let j = choose|j: int| before.holds_at(k, j);
                before.lemma_earliest(k, j);
                let f = choose|f: int| before.first_at(k, f);
                before.lemma_value(k, f);
                assert(self.holds_at(k, f));
                assert(self.first_at(k, f));
                self.lemma_value(k, f);
            }
            assert forall|k: Seq<char>| k != name && #[trigger] self@.contains_key(k) implies (
            before@.contains_key(k)) by {
                let j = choose|j: int| self.holds_at(k, j);
                assert(before.holds_at(k, j));
            }
            assert(self@ =~= before@.insert(name, text));
        }
    }
}

} // verus!
