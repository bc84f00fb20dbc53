//! Fields, schemas and the schema builder.

use vstd::prelude::*;
use vstd::string::*;
use crate::kind::{kind_of_token, StorageKind};

verus! {

/// One named, typed column of a schema.
#[derive(Debug, PartialEq, Eq)]
pub struct Field {
    pub name: String,
    pub storage_type: StorageKind,
    pub nullable: bool,
}

/// Mathematical model of a [`Field`].
pub struct FieldModel {
    pub name: Seq<char>,
    pub storage_type: StorageKind,
    pub nullable: bool,
}

impl View for Field {
    type V = FieldModel;

    open spec fn view(&self) -> FieldModel {
        FieldModel { name: self.name@, storage_type: self.storage_type, nullable: self.nullable }
    }
}

/// The field that one entry of a schema mapping describes: named by the
/// key, of the kind that the type token selects, never nullable.
pub open spec fn field_of_entry(name: Seq<char>, token: Seq<char>) -> FieldModel {
    FieldModel { name, storage_type: kind_of_token(token), nullable: false }
}

/// Whether some field of `fields` has the given name.
pub open spec fn has_field(fields: Seq<FieldModel>, name: Seq<char>) -> bool {
    exists|i: int| 0 <= i < fields.len() && (#[trigger] fields[i]).name == name
}

/// Whether `i` is the position of the first field with the given name.
pub open spec fn is_field_index(fields: Seq<FieldModel>, name: Seq<char>, i: int) -> bool {
    &&& 0 <= i < fields.len()
    &&& fields[i].name == name
    &&& forall|j: int| 0 <= j < i ==> (#[trigger] fields[j]).name != name
}

/// Position of the first field with the given name, if there is one.
pub open spec fn field_index(fields: Seq<FieldModel>, name: Seq<char>) -> Option<int> {
    if has_field(fields, name) {
        Some(choose|i: int| is_field_index(fields, name, i))
    } else {
        None
    }
}

/// Whether no two fields share a name.
pub open spec fn unique_names(fields: Seq<FieldModel>) -> bool {
    forall|i: int, j: int|
        0 <= i < j < fields.len() ==> (#[trigger] fields[i]).name != (#[trigger] fields[j]).name
}

/// Whether no two entries of a mapping share a key.
pub open spec fn unique_keys<V>(mapping: Seq<(String, V)>) -> bool {
    forall|i: int, j: int|
        0 <= i < j < mapping.len() ==> (#[trigger] mapping[i]).0@ != (#[trigger] mapping[j]).0@
}

/// The names of the fields, in order.
pub open spec fn names_of(fields: Seq<FieldModel>) -> Seq<Seq<char>> {
    Seq::new(fields.len(), |i: int| fields[i].name)
}

/// The keys of a mapping, in order.
pub open spec fn keys_of<V>(mapping: Seq<(String, V)>) -> Seq<Seq<char>> {
    Seq::new(mapping.len(), |i: int| mapping[i].0@)
}

/// The fields that a schema mapping describes, entry by entry.
pub open spec fn fields_of_mapping(mapping: Seq<(String, String)>) -> Seq<FieldModel> {
    Seq::new(mapping.len(), |i: int| field_of_entry(mapping[i].0@, mapping[i].1@))
}

/// The names of a schema are the keys of the mapping that it was built
/// from, in the mapping's order.
pub proof fn lemma_names_follow_mapping(mapping: Seq<(String, String)>)
    ensures
        names_of(fields_of_mapping(mapping)) == keys_of(mapping),
{
    assert(names_of(fields_of_mapping(mapping)) =~= keys_of(mapping));
}

/// Where the keys of a mapping are distinct, each key is found in the
/// schema at the position that it has in the mapping.
pub proof fn lemma_key_keeps_its_position(mapping: Seq<(String, String)>, k: int)
    requires
        unique_keys(mapping),
        0 <= k < mapping.len(),
    ensures
        field_index(fields_of_mapping(mapping), mapping[k].0@) == Some(k),
{
    let fields = fields_of_mapping(mapping);
    assert forall|j: int| 0 <= j < k implies (#[trigger] fields[j]).name != mapping[k].0@ by {
        assert(mapping[j].0@ != mapping[k].0@);
    }
    lemma_field_index(fields, mapping[k].0@, k);
}

/// A field with the given name has exactly one first position.
pub proof fn lemma_field_index(fields: Seq<FieldModel>, name: Seq<char>, i: int)
    requires
        is_field_index(fields, name, i),
    ensures
        field_index(fields, name) == Some(i),
{
    let k = choose|k: int| is_field_index(fields, name, k);
    assert(is_field_index(fields, name, k));
    if k < i {
        assert(fields[k].name != name);
    } else if i < k {
        assert(fields[i].name != name);
    }
}

/// An ordered list of fields, fixed when it is built. No field of a schema
/// is nullable.
#[derive(Debug, PartialEq, Eq)]
pub struct Schema {
    fields: Vec<Field>,
}

impl View for Schema {
    type V = Seq<FieldModel>;

    closed spec fn view(&self) -> Seq<FieldModel> {
        Seq::new(self.fields@.len(), |i: int| self.fields@[i]@)
    }
}

impl Schema {
    #[verifier::type_invariant]
    spec fn never_nullable(self) -> bool {
        forall|i: int| 0 <= i < self.fields@.len() ==> !(#[trigger] self.fields@[i]).nullable
    }

    /// Derives the schema from an ordered mapping of field name to host type
    /// token: one field per entry, in the mapping's order, of the kind that
    /// the token selects, not nullable. A token outside the table gives a
    /// `Null` field. Distinct keys give distinct field names.
    pub fn from_mapping(mapping: &Vec<(String, String)>) -> (schema: Schema)
        ensures
            schema@ == fields_of_mapping(mapping@),
            unique_keys(mapping@) ==> unique_names(schema@),
    {
        let mut fields: Vec<Field> = Vec::new();
        let mut i: usize = 0;
        while i < mapping.len()
            invariant
                i <= mapping.len(),
                fields@.len() == i,
                forall|k: int|
                    0 <= k < i ==> (#[trigger] fields@[k])@ == field_of_entry(
                        mapping@[k].0@,
                        mapping@[k].1@,
                    ),
            decreases mapping.len() - i,
        {
            let entry = &mapping[i];
            let storage_type = StorageKind::from_token(entry.1.as_str());
            fields.push(Field { name: entry.0.clone(), storage_type, nullable: false });
            i += 1;
        }
        let schema = Schema { fields };
        assert(schema@ =~= fields_of_mapping(mapping@));
        schema
    }

    /// Number of fields.
    pub fn len(&self) -> (n: usize)
        ensures
            n == self@.len(),
    {
        self.fields.len()
    }

    /// The field at position `index`.
    pub fn field(&self, index: usize) -> (field: &Field)
        requires
            index < self@.len(),
        ensures
            field@ == self@[index as int],
            !field.nullable,
    {
        proof {
            use_type_invariant(self);
        }
        &self.fields[index]
    }

    /// Position of the first field with the given name; `None` if no field
    /// has it.
    pub fn find(&self, name: &String) -> (index: Option<usize>)
        ensures
            index == match field_index(self@, name@) {
                Some(i) => Some(i as usize),
                None => None,
            },
            index matches Some(i) ==> is_field_index(self@, name@, i as int),
    {
        let mut i: usize = 0;
        while i < self.fields.len()
            invariant
                i <= self.fields@.len(),
                forall|j: int| 0 <= j < i ==> (#[trigger] self@[j]).name != name@,
            decreases self.fields.len() - i,
        {
            assert(self@[i as int] == self.fields@[i as int]@);
            if self.fields[i].name == *name {
                proof {
                    lemma_field_index(self@, name@, i as int);
                }
                return Some(i);
            }
            i += 1;
        }
        None
    }

    /// The field names, in schema order.
    pub fn names(&self) -> (names: Vec<String>)
        ensures
            names@.len() == self@.len(),
            forall|i: int| 0 <= i < self@.len() ==> (#[trigger] names@[i])@ == names_of(self@)[i],
    {
        let mut names: Vec<String> = Vec::new();
        let mut i: usize = 0;
        while i < self.fields.len()
            invariant
                i <= self.fields@.len(),
                names@.len() == i,
                forall|j: int| 0 <= j < i ==> (#[trigger] names@[j])@ == self@[j].name,
            decreases self.fields.len() - i,
        {
            assert(self@[i as int] == self.fields@[i as int]@);
            names.push(self.fields[i].name.clone());
            i += 1;
        }
        names
    }

    /// Whether every field can hold typed data. A schema with a `Null`
    /// field is degraded: no row with a value for that field can be written.
    pub fn is_fully_typed(&self) -> (typed: bool)
        ensures
            typed == forall|i: int|
                0 <= i < self@.len() ==> (#[trigger] self@[i]).storage_type.is_typed(),
    {
        let mut i: usize = 0;
        while i < self.fields.len()
            invariant
                i <= self.fields@.len(),
                forall|j: int| 0 <= j < i ==> (#[trigger] self@[j]).storage_type.is_typed(),
            decreases self.fields.len() - i,
        {
            assert(self@[i as int] == self.fields@[i as int]@);
            if self.fields[i].storage_type == StorageKind::Null {
                return false;
            }
            i += 1;
        }
        true
    }
}

} // verus!
