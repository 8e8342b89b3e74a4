//! The column schema: an ordered sequence of named, typed, nullable fields.
//!
//! Field order defines column position in every batch; names are unique;
//! once resolved a schema is immutable for the duration of a run.

use vstd::prelude::*;

use crate::SchemaError;

verus! {

/// The logical data types a column can carry.
#[derive(Clone, Copy, PartialEq, Eq, Structural, Debug)]
pub enum DataType {
    Boolean,
    Int32,
    Int64,
    Float64,
    Utf8,
}

/// A named, typed, nullable column definition.
#[derive(Debug)]
pub struct Field {
    pub name: String,
    pub data_type: DataType,
    pub nullable: bool,
}

/// The mathematical value of a [`Field`].
pub ghost struct FieldV {
    pub name: Seq<char>,
    pub data_type: DataType,
    pub nullable: bool,
}

impl View for Field {
    type V = FieldV;

    open spec fn view(&self) -> FieldV {
        FieldV { name: self.name@, data_type: self.data_type, nullable: self.nullable }
    }
}

impl Clone for Field {
    fn clone(&self) -> (r: Self)
        ensures
            r@ == self@,
    {
        Field { name: self.name.clone(), data_type: self.data_type, nullable: self.nullable }
    }
}

impl Field {
    pub fn new(name: String, data_type: DataType, nullable: bool) -> (f: Field)
        ensures
            f@ == (FieldV { name: name@, data_type, nullable }),
    {
        Field { name, data_type, nullable }
    }
}

/// Field names are pairwise distinct.
pub open spec fn unique_names(fields: Seq<FieldV>) -> bool {
    forall|i: int, j: int| 0 <= i < j < fields.len() ==> fields[i].name != fields[j].name
}

/// An ordered sequence of fields with pairwise-distinct names.
#[derive(Debug)]
pub struct ColumnSchema {
    pub fields: Vec<Field>,
}

impl View for ColumnSchema {
    type V = Seq<FieldV>;

    open spec fn view(&self) -> Seq<FieldV> {
        self.fields@.map_values(|f: Field| f@)
    }
}

impl Clone for ColumnSchema {
    fn clone(&self) -> (r: Self)
        ensures
            r@ == self@,
    {
        let mut fields: Vec<Field> = Vec::new();
        let n = self.fields.len();
        let mut i: usize = 0;
        while i < n
            invariant
                i <= n == self.fields@.len(),
                fields@.len() == i,
                forall|t: int| 0 <= t < i ==> #[trigger] fields@[t]@ == self.fields@[t]@,
            decreases n - i,
        {
            fields.push(self.fields[i].clone());
            i += 1;
        }
        let r = ColumnSchema { fields };
        proof {
            assert(r@ =~~= self@);
        }
        r
    }
}

impl ColumnSchema {
    /// The schema invariant: names are unique within the schema.
    pub open spec fn wf(&self) -> bool {
        unique_names(self@)
    }

    /// Builds a schema from the given fields, validating that no two
    /// fields share one name. Returns the index of the second of a
    /// duplicated pair otherwise.
    pub fn from_fields(fields: Vec<Field>) -> (r: Result<ColumnSchema, SchemaError>)
        ensures
            r matches Ok(s) ==> s@ == fields@.map_values(|f: Field| f@) && s.wf(),
            r is Ok <==> unique_names(fields@.map_values(|f: Field| f@)),
            r matches Err(e) ==> e matches SchemaError::DuplicateFieldName(j)
                && 0 <= j < fields@.len()
                && exists|i: int| 0 <= i < j && #[trigger] fields@[i]@.name == fields@[j as int]@.name,
    {
        let ghost fs = fields@.map_values(|f: Field| f@);
        let n = fields.len();
        let mut j: usize = 1;
        while j < n
            invariant
                n == fields@.len(),
                fs == fields@.map_values(|f: Field| f@),
                forall|a: int, b: int| 0 <= a < b < j ==> fs[a].name != fs[b].name,
            decreases n - j,
        {
            let mut i: usize = 0;
            while i < j
                invariant
                    i <= j < n == fields@.len(),
                    fs == fields@.map_values(|f: Field| f@),
                    forall|a: int, b: int| 0 <= a < b < j ==> fs[a].name != fs[b].name,
                    forall|a: int| 0 <= a < i ==> fs[a].name != fs[j as int].name,
                decreases j - i,
            {
                if fields[i].name == fields[j].name {
                    proof {
                        assert(fs[i as int].name == fs[j as int].name);
                        assert(!unique_names(fs));
                    }
                    return Err(SchemaError::DuplicateFieldName(j));
                }
                i += 1;
            }
            j += 1;
        }
        Ok(ColumnSchema { fields })
    }

    /// The number of columns.
    pub fn len(&self) -> (n: usize)
        ensures
            n == self@.len(),
    {
        self.fields.len()
    }

    /// The field at a column position.
    pub fn field(&self, i: usize) -> (f: &Field)
        requires
            i < self@.len(),
        ensures
            f@ == self@[i as int],
    {
        &self.fields[i]
    }

    /// All fields in column order.
    pub fn fields(&self) -> (fs: &Vec<Field>)
        ensures
            fs@.map_values(|f: Field| f@) == self@,
    {
        &self.fields
    }
}

} // verus!
