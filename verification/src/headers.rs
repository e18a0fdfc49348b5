//! A header block: field names with their values, each name at most once.
//! Names are compared letter for letter, and a name that is set again keeps
//! its place and takes the new value.
//!
//! The block is a list in the order in which the names were first set, so
//! the order of the lines on the wire is fixed and the contracts can speak
//! of it. As a mapping it is what a hash map from names to values would
//! hold.

use crate::text::str_eq;
use vstd::prelude::*;

verus! {

/// A field name with its value, as characters.
pub type Field = (Seq<char>, Seq<char>);

/// The mapping that a sequence of fields stands for. A later field wins over
/// an earlier one of the same name.
pub open spec fn fields_map(fields: Seq<Field>) -> Map<Seq<char>, Seq<char>>
    decreases fields.len(),
{
    if fields.len() == 0 {
        Map::empty()
    } else {
        fields_map(fields.drop_last()).insert(fields.last().0, fields.last().1)
    }
}

/// Whether no name occurs twice among the fields.
pub open spec fn names_distinct(fields: Seq<Field>) -> bool {
    forall|i: int, j: int| 0 <= i < j < fields.len() ==> fields[i].0 != fields[j].0
}

/// Whether `name` occurs among the fields.
pub open spec fn has_name(fields: Seq<Field>, name: Seq<char>) -> bool {
    exists|i: int| 0 <= i < fields.len() && fields[i].0 == name
}

/// The fields after `name` is set to `value`: in place where the name was
/// there, at the end where it was not.
pub open spec fn fields_set(fields: Seq<Field>, name: Seq<char>, value: Seq<char>) -> Seq<Field> {
    if has_name(fields, name) {
        let i = choose|i: int| 0 <= i < fields.len() && fields[i].0 == name;
        fields.update(i, (name, value))
    } else {
        fields.push((name, value))
    }
}

/// The keys of the mapping are the names among the fields.
pub proof fn lemma_fields_map_dom(fields: Seq<Field>, name: Seq<char>)
    ensures
        fields_map(fields).contains_key(name) <==> has_name(fields, name),
    decreases fields.len(),
{
    if fields.len() > 0 {
        let front = fields.drop_last();
        lemma_fields_map_dom(front, name);
        if has_name(front, name) {
            let i = choose|i: int| 0 <= i < front.len() && front[i].0 == name;
            assert(fields[i].0 == name);
        }
        if has_name(fields, name) && fields.last().0 != name {
            let i = choose|i: int| 0 <= i < fields.len() && fields[i].0 == name;
            assert(front[i].0 == name);
        }
        if fields.last().0 == name {
            assert(fields[fields.len() - 1].0 == name);
        }
    }
}

/// Where no name occurs twice, the mapping gives each name the value that
/// stands beside it.
pub proof fn lemma_fields_map_value(fields: Seq<Field>, i: int)
    requires
        names_distinct(fields),
        0 <= i < fields.len(),
    ensures
        fields_map(fields).contains_key(fields[i].0),
        fields_map(fields)[fields[i].0] == fields[i].1,
    decreases fields.len(),
{
    let front = fields.drop_last();
    if i < fields.len() - 1 {
        assert(names_distinct(front));
        lemma_fields_map_value(front, i);
        assert(front[i] == fields[i]);
    }
}

/// Where no name occurs twice, the mapping has as many entries as there are
/// fields.
pub proof fn lemma_fields_map_len(fields: Seq<Field>)
    requires
        names_distinct(fields),
    ensures
        fields_map(fields).dom().finite(),
        fields_map(fields).len() == fields.len(),
    decreases fields.len(),
{
    if fields.len() > 0 {
        let front = fields.drop_last();
        assert(names_distinct(front));
        lemma_fields_map_len(front);
        lemma_fields_map_dom(front, fields.last().0);
        if has_name(front, fields.last().0) {
            let i = choose|i: int| 0 <= i < front.len() && front[i].0 == fields.last().0;
            assert(fields[i].0 == fields[fields.len() - 1].0);
        }
    }
}

/// Setting a name changes the mapping by exactly that entry, and keeps the
/// names distinct.
pub proof fn lemma_fields_set(fields: Seq<Field>, name: Seq<char>, value: Seq<char>)
    requires
        names_distinct(fields),
    ensures
        names_distinct(fields_set(fields, name, value)),
        fields_map(fields_set(fields, name, value)) == fields_map(fields).insert(name, value),
{
    let after = fields_set(fields, name, value);
    if has_name(fields, name) {
        let i = choose|i: int| 0 <= i < fields.len() && fields[i].0 == name;
        lemma_fields_update(fields, i, value);
    } else {
        assert(after.drop_last() =~= fields);
        assert forall|a: int, b: int| 0 <= a < b < after.len() implies after[a].0 != after[b].0 by {
            if b == fields.len() {
                assert(fields[a].0 != name);
            }
        }
    }
}

/// A new value in place changes the mapping by exactly that entry.
proof fn lemma_fields_update(fields: Seq<Field>, i: int, value: Seq<char>)
    requires
        names_distinct(fields),
        0 <= i < fields.len(),
    ensures
        names_distinct(fields.update(i, (fields[i].0, value))),
        fields_map(fields.update(i, (fields[i].0, value))) == fields_map(fields).insert(
            fields[i].0,
            value,
        ),
    decreases fields.len(),
{
    let name = fields[i].0;
    let after = fields.update(i, (name, value));
    let front = fields.drop_last();
    assert(names_distinct(after));
    if i == fields.len() - 1 {
        assert(after.drop_last() =~= front);
        assert(fields_map(after) =~= fields_map(fields).insert(name, value));
    } else {
        assert(names_distinct(front));
        lemma_fields_update(front, i, value);
        assert(after.drop_last() =~= front.update(i, (name, value)));
        assert(fields.last().0 != name);
        assert(fields_map(after) =~= fields_map(fields).insert(name, value));
    }
}

/// The characters of each field of a list of owned fields.
pub open spec fn fields_of(entries: Seq<(String, String)>) -> Seq<Field> {
    entries.map_values(|entry: (String, String)| (entry.0@, entry.1@))
}

/// A header block.
#[derive(Debug)]
pub struct Headers {
    entries: Vec<(String, String)>,
}

impl View for Headers {
    type V = Map<Seq<char>, Seq<char>>;

    /// The mapping from each name to its value.
    open spec fn view(&self) -> Map<Seq<char>, Seq<char>> {
        fields_map(self.fields())
    }
}

impl Headers {
    #[verifier::type_invariant]
    spec fn names_are_distinct(self) -> bool {
        names_distinct(fields_of(self.entries@))
    }

    /// The fields in the order in which their names were first set.
    pub closed spec fn fields(&self) -> Seq<Field> {
        fields_of(self.entries@)
    }

    /// An empty header block.
    pub fn new() -> (headers: Headers)
        ensures
            headers.fields() == Seq::<Field>::empty(),
            headers@ == Map::<Seq<char>, Seq<char>>::empty(),
    {
        let headers = Headers { entries: Vec::new() };
        assert(headers.fields() =~= Seq::<Field>::empty());
        headers
    }

    /// The number of fields. No name occurs twice among them, so this is
    /// also the number of entries of the mapping.
    pub fn len(&self) -> (count: usize)
        ensures
            count == self.fields().len(),
            count == self@.len(),
            names_distinct(self.fields()),
    {
        proof {
            use_type_invariant(self);
            lemma_fields_map_len(self.fields());
        }
        self.entries.len()
    }

    /// The place of `name` among the fields, if it is there.
    fn position(&self, name: &str) -> (place: Option<usize>)
        ensures
            match place {
                Some(i) => i < self.fields().len() && self.fields()[i as int].0 == name@,
                None => !has_name(self.fields(), name@),
            },
    {
        let mut i: usize = 0;
        while i < self.entries.len()
            invariant
                i <= self.entries.len(),
                forall|k: int| 0 <= k < i ==> self.fields()[k].0 != name@,
            decreases self.entries.len() - i,
        {
            if str_eq(self.entries[i].0.as_str(), name) {
                return Some(i);
            }
            i += 1;
        }
        None
    }

    /// Whether a field of this name is there.
    pub fn contains_key(&self, name: &str) -> (found: bool)
        ensures
            found == self@.contains_key(name@),
    {
        proof {
            lemma_fields_map_dom(self.fields(), name@);
        }
        self.position(name).is_some()
    }

    /// The value of the field of this name, if it is there.
    pub fn get(&self, name: &str) -> (value: Option<&String>)
        ensures
            match value {
                Some(text) => self@.contains_key(name@) && text@ == self@[name@],
                None => !self@.contains_key(name@),
            },
    {
        proof {
            use_type_invariant(self);
            lemma_fields_map_dom(self.fields(), name@);
        }
        match self.position(name) {
            Some(i) => {
                proof {
                    lemma_fields_map_value(self.fields(), i as int);
                }
                Some(&self.entries[i].1)
            },
            None => None,
        }
    }

    /// The name and the value of the field at place `i`.
    pub fn field(&self, i: usize) -> (pair: (&str, &str))
        requires
            i < self.fields().len(),
        ensures
            (pair.0@, pair.1@) == self.fields()[i as int],
    {
        (self.entries[i].0.as_str(), self.entries[i].1.as_str())
    }

    /// Sets the field `name` to `value`. A name that was there keeps its
    /// place and takes the new value; a new name goes to the end.
    pub fn insert(&mut self, name: String, value: String)
        ensures
            final(self).fields() == fields_set(old(self).fields(), name@, value@),
            final(self)@ == old(self)@.insert(name@, value@),
            names_distinct(final(self).fields()),
    {
        proof {
            use_type_invariant(&*self);
            lemma_fields_set(self.fields(), name@, value@);
        }
        let place = self.position(name.as_str());
        let ghost before = self.fields();
        let mut entries: Vec<(String, String)> = Vec::new();
        std::mem::swap(&mut entries, &mut self.entries);
        match place {
            Some(i) => {
                proof {
                    let c = choose|c: int| 0 <= c < before.len() && before[c].0 == name@;
                    assert(c == i);
                }
                entries.set(i, (name, value));
                assert(fields_of(entries@) =~= before.update(i as int, (name@, value@)));
            },
            None => {
                entries.push((name, value));
                assert(fields_of(entries@) =~= before.push((name@, value@)));
            },
        }
        self.entries = entries;
    }
}

} // verus!
