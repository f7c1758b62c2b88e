//! The persisted store document.
//!
//! The store is a single document of named values; the settings object is
//! persisted as one value in it, under the key `"settings"`. Setting a key
//! replaces its first occurrence in place, or appends the pair when the
//! key is absent. Writing the document to durable storage is the host's
//! business; the store itself only holds the document.

use vstd::prelude::*;
use vstd::string::*;

use crate::json::{fields_model, lemma_fields_model, Json, JsonValue};

verus! {

/// A document of named values, as the settings store persists it.
pub struct SettingsStore {
    entries: Vec<(String, JsonValue)>,
}

impl View for SettingsStore {
    type V = Seq<(Seq<char>, Json)>;

    closed spec fn view(&self) -> Seq<(Seq<char>, Json)> {
        fields_model(self.entries@)
    }
}

/// The value under `key`: the first pair that carries it, if any.
pub open spec fn store_get(doc: Seq<(Seq<char>, Json)>, key: Seq<char>) -> Option<Json>
    decreases doc,
{
    if doc.len() == 0 {
        None
    } else if doc[0].0 == key {
        Some(doc[0].1)
    } else {
        store_get(doc.drop_first(), key)
    }
}

/// The document with `key` bound to `val`: the first pair carrying `key`
/// replaced in place, or the new pair appended when the key is absent.
pub open spec fn store_set(doc: Seq<(Seq<char>, Json)>, key: Seq<char>, val: Json) -> Seq<
    (Seq<char>, Json),
>
    decreases doc,
{
    if doc.len() == 0 {
        seq![(key, val)]
    } else if doc[0].0 == key {
        seq![(key, val)] + doc.drop_first()
    } else {
        seq![doc[0]] + store_set(doc.drop_first(), key, val)
    }
}

/// Reading a key back directly after setting it yields the value that was
/// set, whatever the document held before.
pub proof fn lemma_store_set_get(doc: Seq<(Seq<char>, Json)>, key: Seq<char>, val: Json)
    ensures
        store_get(store_set(doc, key, val), key) == Some(val),
    decreases doc,
{
    if doc.len() == 0 {
        let d = store_set(doc, key, val);
        assert(d[0] == (key, val));
    } else if doc[0].0 == key {
        let d = store_set(doc, key, val);
        assert(d[0] == (key, val));
    } else {
        lemma_store_set_get(doc.drop_first(), key, val);
        let d = store_set(doc, key, val);
        assert(d[0] == doc[0]);
        assert(d.drop_first() =~= store_set(doc.drop_first(), key, val));
    }
}

/// Setting one key leaves every other key unchanged.
pub proof fn lemma_store_set_other(
    doc: Seq<(Seq<char>, Json)>,
    key: Seq<char>,
    val: Json,
    other: Seq<char>,
)
    requires
        other != key,
    ensures
        store_get(store_set(doc, key, val), other) == store_get(doc, other),
    decreases doc,
{
    if doc.len() == 0 {
        let d = store_set(doc, key, val);
        assert(d[0] == (key, val));
        assert(d.drop_first() =~= Seq::<(Seq<char>, Json)>::empty());
        assert(store_get(Seq::<(Seq<char>, Json)>::empty(), other) is None);
        assert(store_get(d, other) == store_get(d.drop_first(), other));
    } else if doc[0].0 == key {
        let d = store_set(doc, key, val);
        assert(d[0] == (key, val));
        assert(d.drop_first() =~= doc.drop_first());
        assert(store_get(d, other) == store_get(doc.drop_first(), other));
        assert(store_get(doc, other) == store_get(doc.drop_first(), other));
    } else {
        lemma_store_set_other(doc.drop_first(), key, val, other);
        let d = store_set(doc, key, val);
        assert(d.len() > 0);
        assert(d[0] == doc[0]);
        assert(d.drop_first() =~= store_set(doc.drop_first(), key, val));
        if doc[0].0 == other {
            assert(store_get(d, other) == Some(d[0].1));
            assert(store_get(doc, other) == Some(doc[0].1));
        } else {
            assert(store_get(d, other) == store_get(d.drop_first(), other));
            assert(store_get(doc, other) == store_get(doc.drop_first(), other));
        }
    }
}

proof fn lemma_store_get_at(doc: Seq<(Seq<char>, Json)>, key: Seq<char>, i: int)
    requires
        0 <= i <= doc.len(),
        forall|j: int| 0 <= j < i ==> doc[j].0 != key,
        i < doc.len() ==> doc[i].0 == key,
    ensures
        store_get(doc, key) == if i < doc.len() {
            Some(doc[i].1)
        } else {
            None::<Json>
        },
    decreases i,
{
    if i > 0 {
        let d1 = doc.drop_first();
        assert(forall|j: int| 0 <= j < i - 1 ==> d1[j].0 != key);
        lemma_store_get_at(d1, key, i - 1);
    }
}

proof fn lemma_store_set_at(doc: Seq<(Seq<char>, Json)>, key: Seq<char>, val: Json, i: int)
    requires
        0 <= i <= doc.len(),
        forall|j: int| 0 <= j < i ==> doc[j].0 != key,
        i < doc.len() ==> doc[i].0 == key,
    ensures
        store_set(doc, key, val) =~= if i < doc.len() {
            doc.update(i, (key, val))
        } else {
            doc.push((key, val))
        },
    decreases i,
{
    if i == 0 {
        if doc.len() == 0 {
            assert(store_set(doc, key, val) =~= doc.push((key, val)));
        } else {
            assert(store_set(doc, key, val) =~= doc.update(0, (key, val)));
        }
    } else {
        let d1 = doc.drop_first();
        assert(forall|j: int| 0 <= j < i - 1 ==> d1[j].0 != key);
        lemma_store_set_at(d1, key, val, i - 1);
        if i < doc.len() {
            assert(seq![doc[0]] + d1.update(i - 1, (key, val)) =~= doc.update(i, (key, val)));
        } else {
            assert(seq![doc[0]] + d1.push((key, val)) =~= doc.push((key, val)));
        }
    }
}

impl SettingsStore {
    /// An empty store document.
    pub fn new() -> (s: SettingsStore)
        ensures
            s@ == Seq::<(Seq<char>, Json)>::empty(),
    {
        let s = SettingsStore { entries: Vec::new() };
        proof {
            assert(s@ =~= Seq::<(Seq<char>, Json)>::empty());
        }
        s
    }

    /// The value under `key`, if the document holds one.
    pub fn get(&self, key: &str) -> (r: Option<&JsonValue>)
        ensures
            match r {
                Some(v) => store_get(self@, key@) == Some(v@),
                None => store_get(self@, key@) is None,
            },
    {
        proof {
            lemma_fields_model(self.entries@);
        }
        let pattern = String::from_str(key);
        let mut i: usize = 0;
        while i < self.entries.len()
            invariant
                0 <= i <= self.entries@.len(),
                self@.len() == self.entries@.len(),
                forall|j: int|
                    0 <= j < self@.len() ==> self@[j] == (
                    self.entries@[j].0@,
                    crate::json::json_model(self.entries@[j].1),
                    ),
                pattern@ == key@,
                forall|j: int| 0 <= j < i ==> self@[j].0 != key@,
            decreases self.entries@.len() - i,
        {
            if self.entries[i].0 == pattern {
                proof {
                    lemma_store_get_at(self@, key@, i as int);
                }
                return Some(&self.entries[i].1);
            }
            i = i + 1;
        }
        proof {
            lemma_store_get_at(self@, key@, self@.len() as int);
        }
        None
    }

    /// Binds `key` to `value`, replacing the first pair that carries the
    /// key, or appending the pair when the key is absent.
    pub fn set(&mut self, key: &str, value: JsonValue)
        ensures
            final(self)@ == store_set(old(self)@, key@, value@),
    {
        proof {
            lemma_fields_model(self.entries@);
        }
        let ghost doc = self@;
        let pattern = String::from_str(key);
        let mut i: usize = 0;
        while i < self.entries.len()
            invariant
                0 <= i <= self.entries@.len(),
                doc == self@,
                doc == old(self)@,
                self == old(self),
                doc.len() == self.entries@.len(),
                forall|j: int|
                    0 <= j < doc.len() ==> doc[j] == (
                    self.entries@[j].0@,
                    crate::json::json_model(self.entries@[j].1),
                    ),
                pattern@ == key@,
                forall|j: int| 0 <= j < i ==> doc[j].0 != key@,
            decreases self.entries@.len() - i,
        {
            if self.entries[i].0 == pattern {
                proof {
                    lemma_store_set_at(doc, key@, value@, i as int);
                }
                let ghost prev = self.entries@;
                self.entries.remove(i);
                self.entries.insert(i, (pattern, value));
                proof {
                    assert(self.entries@ =~= prev.update(i as int, (pattern, value)));
                    lemma_fields_model(self.entries@);
                    assert(fields_model(self.entries@) =~= doc.update(i as int, (key@, value@)));
                }
                return ;
            }
            i = i + 1;
        }
        proof {
            lemma_store_set_at(doc, key@, value@, doc.len() as int);
        }
        let ghost prev = self.entries@;
        self.entries.push((pattern, value));
        proof {
            assert(self.entries@ =~= prev.push((pattern, value)));
            lemma_fields_model(self.entries@);
            assert(fields_model(self.entries@) =~= doc.push((key@, value@)));
        }
    }

    /// The pairs of the document, in order, for the host to persist.
    pub fn entries(&self) -> (r: &Vec<(String, JsonValue)>)
        ensures
            fields_model(r@) == self@,
    {
        &self.entries
    }
}

} // verus!
