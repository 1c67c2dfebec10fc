//! Field lists per event type: what a channel asks for, and what it is served.

use crate::text;
use crate::text::{copy_texts, same_text};
use vstd::prelude::*;

verus! {

/// The names of the columns of each event type. No type is listed twice.
#[derive(Debug)]
pub struct FieldLists {
    entries: Vec<(String, Vec<String>)>,
}

spec fn has_distinct_names(entries: Seq<(String, Vec<String>)>) -> bool {
    forall|i: int, j: int|
        0 <= i < j < entries.len() ==> (#[trigger] entries[i]).0@ != (#[trigger] entries[j]).0@
}

spec fn names_type(entries: Seq<(String, Vec<String>)>, name: Seq<char>, i: int) -> bool {
    0 <= i < entries.len() && entries[i].0@ == name
}

spec fn position(entries: Seq<(String, Vec<String>)>, name: Seq<char>) -> int {
    choose|i: int| names_type(entries, name, i)
}

spec fn lists(entries: Seq<(String, Vec<String>)>) -> Map<Seq<char>, Seq<Seq<char>>> {
    Map::new(
        |name: Seq<char>| exists|i: int| names_type(entries, name, i),
        |name: Seq<char>| text::texts(entries[position(entries, name)].1@),
    )
}

impl View for FieldLists {
    type V = Map<Seq<char>, Seq<Seq<char>>>;

    closed spec fn view(&self) -> Map<Seq<char>, Seq<Seq<char>>> {
        lists(self.entries@)
    }
}

impl FieldLists {
    #[verifier::type_invariant]
    spec fn is_well_formed(self) -> bool {
        has_distinct_names(self.entries@)
    }

    /// No types at all.
    pub fn new() -> (r: Self)
        ensures
            r@ == Map::<Seq<char>, Seq<Seq<char>>>::empty(),
    {
        let r = FieldLists { entries: Vec::new() };
        assert(r@ =~= Map::<Seq<char>, Seq<Seq<char>>>::empty());
        r
    }

    fn find(&self, name: &str) -> (r: Option<usize>)
        ensures
            match r {
                Some(i) => names_type(self.entries@, name@, i as int),
                None => forall|i: int| !names_type(self.entries@, name@, i),
            },
    {
        let mut i: usize = 0;
        while i < self.entries.len()
            invariant
                i <= self.entries.len(),
                forall|j: int| 0 <= j < i ==> !names_type(self.entries@, name@, j),
            decreases self.entries.len() - i,
        {
            if same_text(self.entries[i].0.as_str(), name) {
                return Some(i);
            }
            i += 1;
        }
        None
    }

    /// The columns of a type, if it is listed.
    pub fn get(&self, name: &str) -> (r: Option<&Vec<String>>)
        ensures
            match r {
                Some(fields) => self@.contains_key(name@) && self@[name@] == text::texts(fields@),
                None => !self@.contains_key(name@),
            },
    {
        proof {
            use_type_invariant(self);
        }
        match self.find(name) {
            Some(i) => {
                assert(names_type(self.entries@, name@, i as int));
                assert(position(self.entries@, name@) == i);
                Some(&self.entries[i].1)
            },
            None => None,
        }
    }

    /// Whether a type is listed.
    pub fn contains(&self, name: &str) -> (r: bool)
        ensures
            r == self@.contains_key(name@),
    {
        self.get(name).is_some()
    }

    /// Lists the columns of a type, in place of what was listed for it.
    pub fn insert(&mut self, name: &str, fields: Vec<String>)
        ensures
            final(self)@ == old(self)@.insert(name@, text::texts(fields@)),
    {
        proof {
            use_type_invariant(&*self);
        }
        let found = self.find(name);
        let ghost before = self.entries@;
        let ghost listed = text::texts(fields@);
        let mut entries: Vec<(String, Vec<String>)> = Vec::new();
        std::mem::swap(&mut self.entries, &mut entries);
        match found {
            Some(i) => {
                entries[i].1 = fields;
                proof {
                    let after = entries@;
                    assert(after.len() == before.len());
                    assert forall|j: int| 0 <= j < after.len() implies (#[trigger] after[j]).0
                        == before[j].0 by {}
                    assert(has_distinct_names(after)) by {
                        assert forall|a: int, b: int| 0 <= a < b < after.len() implies (
                        #[trigger] after[a]).0@ != (#[trigger] after[b]).0@ by {
                            assert(before[a].0@ != before[b].0@);
                        }
                    }
                    insert_is_insert(before, after, name@, listed, i as int);
                }
            },
            None => {
                entries.push((name.to_owned(), fields));
                proof {
                    let after = entries@;
                    assert(has_distinct_names(after)) by {
                        assert forall|a: int, b: int| 0 <= a < b < after.len() implies (
                        #[trigger] after[a]).0@ != (#[trigger] after[b]).0@ by {
                            if b < before.len() {
                                assert(before[a].0@ != before[b].0@);
                            } else {
                                assert(!names_type(before, name@, a));
                            }
                        }
                    }
                    assert forall|j: int| 0 <= j < before.len() implies (#[trigger] before[j]).0@
                        != name@ by {
                        assert(!names_type(before, name@, j));
                    }
                    insert_is_insert(before, after, name@, listed, before.len() as int);
                }
            },
        }
        self.entries = entries;
    }

    /// How many types are listed.
    pub fn len(&self) -> (r: usize)
        ensures
            r == self@.dom().len(),
            self@.dom().finite(),
    {
        let names = self.names();
        proof {
            let listed = text::texts(names@);
            listed.unique_seq_to_set();
            assert(listed.to_set() =~= self@.dom());
        }
        names.len()
    }

    /// The listed types, each of them once.
    pub fn names(&self) -> (r: Vec<String>)
        ensures
            text::texts(r@).no_duplicates(),
            forall|name: Seq<char>| text::texts(r@).contains(name) <==> self@.contains_key(name),
    {
        proof {
            use_type_invariant(self);
        }
        let mut out: Vec<String> = Vec::new();
        let mut i: usize = 0;
        while i < self.entries.len()
            invariant
                i <= self.entries.len(),
                out@.len() == i,
                forall|j: int| 0 <= j < i ==> (#[trigger] out@[j])@ == self.entries@[j].0@,
            decreases self.entries.len() - i,
        {
            out.push(self.entries[i].0.as_str().to_owned());
            i += 1;
        }
        proof {
            let names = text::texts(out@);
            let entries = self.entries@;
            assert forall|j: int| 0 <= j < names.len() implies #[trigger] names[j] == entries[j].0@ by {
                assert(names[j] == out@[j]@);
            }
            assert forall|name: Seq<char>| names.contains(name) <==> self@.contains_key(name) by {
                if names.contains(name) {
                    let j = choose|j: int| 0 <= j < names.len() && names[j] == name;
                    assert(names_type(entries, name, j));
                }
                if self@.contains_key(name) {
                    let j = position(entries, name);
                    assert(names_type(entries, name, j));
                    assert(names[j] == name);
                }
            }
        }
        out
    }

    /// An exact copy.
    pub fn copied(&self) -> (r: Self)
        ensures
            r@ == self@,
    {
        let names = self.names();
        let mut out = FieldLists::new();
        let mut i: usize = 0;
        let ghost listed = text::texts(names@);
        while i < names.len()
            invariant
                i <= names.len(),
                listed == text::texts(names@),
                forall|name: Seq<char>| listed.contains(name) <==> self@.contains_key(name),
                forall|name: Seq<char>|
                    #![trigger out@.contains_key(name)]
                    out@.contains_key(name) <==> listed.take(i as int).contains(name),
                forall|name: Seq<char>| #[trigger]
                    out@.contains_key(name) ==> self@.contains_key(name) && out@[name]
                        == self@[name],
            decreases names.len() - i,
        {
            let ghost before = out@;
            let ghost name = names@[i as int]@;
            assert(listed[i as int] == name);
            assert(listed.contains(name));
            match self.get(names[i].as_str()) {
                Some(fields) => {
                    out.insert(names[i].as_str(), copy_texts(fields));
                },
                None => {},
            }
            proof {
                let taken = listed.take(i as int);
                let more = listed.take(i + 1);
                assert(more =~= taken.push(name));
                assert forall|other: Seq<char>|
                    #![trigger out@.contains_key(other)]
                    out@.contains_key(other) <==> more.contains(other) by {
                    if more.contains(other) {
                        let j = choose|j: int| 0 <= j < more.len() && more[j] == other;
                        if j < i {
                            assert(taken[j] == other);
                            assert(taken.contains(other));
                            assert(before.contains_key(other));
                        }
                    }
                    if out@.contains_key(other) && other != name {
                        assert(before.contains_key(other));
                        let j = choose|j: int| 0 <= j < taken.len() && taken[j] == other;
                        assert(more[j] == other);
                    }
                    assert(more[i as int] == name);
                }
            }
            i += 1;
        }
        proof {
            assert(listed.take(names@.len() as int) =~= listed);
            assert forall|name: Seq<char>| out@.contains_key(name) <==> self@.contains_key(name) by {
                assert(listed.contains(name) <==> self@.contains_key(name));
            }
            assert(out@ =~= self@);
        }
        out
    }
}

impl Clone for FieldLists {
    fn clone(&self) -> (r: Self)
        ensures
            r@ == self@,
    {
        self.copied()
    }
}

proof fn insert_is_insert(
    before: Seq<(String, Vec<String>)>,
    after: Seq<(String, Vec<String>)>,
    name: Seq<char>,
    listed: Seq<Seq<char>>,
    at: int,
)
    requires
        has_distinct_names(before),
        has_distinct_names(after),
        0 <= at < after.len(),
        after[at].0@ == name,
        text::texts(after[at].1@) == listed,
        before.len() <= after.len(),
        forall|j: int| 0 <= j < after.len() && j != at ==> j < before.len() && #[trigger] after[j] == before[j],
        at < before.len() ==> before[at].0@ == name,
        at >= before.len() ==> at == before.len(),
        forall|j: int| 0 <= j < before.len() && j != at ==> (#[trigger] before[j]).0@ != name,
    ensures
        lists(after) == lists(before).insert(name, listed),
{
    let old_map = lists(before);
    let new_map = lists(after);
    assert forall|other: Seq<char>| new_map.contains_key(other) <==> old_map.insert(
        name,
        listed,
    ).contains_key(other) by {
        if new_map.contains_key(other) && other != name {
            let j = position(after, other);
            assert(names_type(after, other, j));
            assert(names_type(before, other, j));
        }
        if old_map.contains_key(other) && other != name {
            let j = position(before, other);
            assert(names_type(before, other, j));
            assert(after[j] == before[j]);
            assert(names_type(after, other, j));
        }
        assert(names_type(after, name, at));
    }
    assert forall|other: Seq<char>| new_map.contains_key(other) implies new_map[other]
        == old_map.insert(name, listed)[other] by {
        let j = position(after, other);
        assert(names_type(after, other, j));
        assert(names_type(after, name, at));
        if other == name {
            assert(j == at);
        } else {
            assert(after[j] == before[j]);
            assert(names_type(before, other, j));
            let k = position(before, other);
            assert(names_type(before, other, k));
            assert(k == j);
        }
    }
    assert(new_map =~= old_map.insert(name, listed));
}

} // verus!
