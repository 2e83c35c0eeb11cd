//! The field schema of a type, as the generator receives it.

use vstd::prelude::*;

verus! {

/// How the fields of a type are declared.
#[derive(Clone, Copy, Debug, PartialEq, Eq, Structural)]
pub enum Shape {
    /// A struct with named fields in braces, possibly none.
    NamedFields,
    /// A struct with positional fields.
    TupleFields,
    /// A struct without a field list.
    Unit,
    /// An enumeration.
    Enumeration,
    /// A union.
    Union,
}

impl Shape {
    /// Only a record of named fields can have a builder.
    pub open spec fn supported(self) -> bool {
        self == Shape::NamedFields
    }

    pub fn is_supported(self) -> (res: bool)
        ensures
            res == self.supported(),
    {
        match self {
            Shape::NamedFields => true,
            _ => false,
        }
    }
}

/// One field of a record, as mathematics sees it: its name and the text of
/// its type.
pub struct FieldModel {
    pub name: Seq<char>,
    pub ty: Seq<char>,
}

/// A type's schema, as mathematics sees it.
pub struct SchemaModel {
    pub name: Seq<char>,
    pub shape: Shape,
    pub fields: Seq<FieldModel>,
}

/// The names of `fields`, in order.
pub open spec fn names_of(fields: Seq<FieldModel>) -> Seq<Seq<char>> {
    Seq::new(fields.len(), |i: int| fields[i].name)
}

/// No name stands at two positions of `names`.
pub open spec fn distinct(names: Seq<Seq<char>>) -> bool {
    forall|i: int, j: int| 0 <= i < j < names.len() ==> names[i] != names[j]
}

impl SchemaModel {
    /// The field names are unique.
    pub open spec fn wf(self) -> bool {
        distinct(names_of(self.fields))
    }
}

/// One field of a record: its name and the text of its type.
#[derive(Clone, Debug, PartialEq, Eq)]
pub struct FieldSchema {
    pub name: String,
    pub ty: String,
}

impl View for FieldSchema {
    type V = FieldModel;

    open spec fn view(&self) -> FieldModel {
        FieldModel { name: self.name@, ty: self.ty@ }
    }
}

impl FieldSchema {
    pub fn new(name: &str, ty: &str) -> (res: FieldSchema)
        ensures
            res@ == (FieldModel { name: name@, ty: ty@ }),
    {
        FieldSchema { name: name.to_owned(), ty: ty.to_owned() }
    }
}

/// The views of `fields`, in order.
pub open spec fn field_models(fields: Seq<FieldSchema>) -> Seq<FieldModel> {
    Seq::new(fields.len(), |i: int| fields[i]@)
}

/// The schema of one type: its name, how its fields are declared, and, for a
/// record of named fields, the fields in declaration order.
#[derive(Clone, Debug, PartialEq, Eq)]
pub struct StructSchema {
    pub name: String,
    pub shape: Shape,
    pub fields: Vec<FieldSchema>,
}

impl View for StructSchema {
    type V = SchemaModel;

    open spec fn view(&self) -> SchemaModel {
        SchemaModel { name: self.name@, shape: self.shape, fields: field_models(self.fields@) }
    }
}

impl StructSchema {
    /// The schema of a record of named fields.
    pub fn record(name: &str, fields: Vec<FieldSchema>) -> (res: StructSchema)
        ensures
            res@ == (SchemaModel {
                name: name@,
                shape: Shape::NamedFields,
                fields: field_models(fields@),
            }),
    {
        StructSchema { name: name.to_owned(), shape: Shape::NamedFields, fields }
    }

    /// The schema of a type that declares no named fields.
    pub fn without_fields(name: &str, shape: Shape) -> (res: StructSchema)
        ensures
            res@ == (SchemaModel { name: name@, shape, fields: Seq::empty() }),
    {
        let res = StructSchema { name: name.to_owned(), shape, fields: Vec::new() };
        assert(field_models(res.fields@) =~= Seq::empty());
        res
    }

    /// Whether the field names are unique.
    pub fn has_unique_names(&self) -> (res: bool)
        ensures
            res == self@.wf(),
    {
        let n = self.fields.len();
        let ghost names = names_of(self@.fields);
        let mut j: usize = 0;
        while j < n
            invariant
                n == self.fields.len(),
                names == names_of(self@.fields),
                0 <= j <= n,
                forall|a: int, b: int| 0 <= a < b < j ==> names[a] != names[b],
            decreases n - j,
        {
            let mut i: usize = 0;
            while i < j
                invariant
                    n == self.fields.len(),
                    names == names_of(self@.fields),
                    0 <= i <= j < n,
                    forall|a: int| 0 <= a < i ==> names[a] != names[j as int],
                decreases j - i,
            {
                if self.fields[i].name == self.fields[j].name {
                    assert(names[i as int] == names[j as int]);
                    return false;
                }
                i += 1;
            }
            j += 1;
        }
        true
    }
}

} // verus!
