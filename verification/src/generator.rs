//! The generator: from a type's schema to the declarations of its builder.
//!
//! The declarations come in four groups, each in the declaration order of the
//! schema's fields: the slots of the builder type, one setter per field, the
//! steps of the assembly operation `build`, and the slot initialisers of the
//! factory operation `builder`.

use crate::schema::{field_models, names_of, FieldModel, FieldSchema, SchemaModel, Shape, StructSchema};
use vstd::prelude::*;
use vstd::string::*;

verus! {

/// The declarations of a builder, as mathematics sees them.
pub struct CodeModel {
    /// The name of the type that the builder assembles.
    pub target: Seq<char>,
    /// The name of the builder type.
    pub builder: Seq<char>,
    /// The slots of the builder type: a slot is named as its field and holds
    /// either nothing or a value of the field's type.
    pub slots: Seq<FieldModel>,
    /// The setters: a setter is named as its field and takes a value of the
    /// field's type.
    pub setters: Seq<FieldModel>,
    /// The fields that `build` inspects, in the order in which it does so.
    pub assembly: Seq<Seq<char>>,
    /// The slots that `builder` initialises to absent.
    pub factory: Seq<Seq<char>>,
}

impl CodeModel {
    /// The four groups speak of the same fields in the same order, and the
    /// builder is named after its target.
    pub open spec fn wf(self) -> bool {
        &&& self.builder == builder_name(self.target)
        &&& self.setters == self.slots
        &&& self.assembly == names_of(self.slots)
        &&& self.factory == names_of(self.slots)
    }
}

/// The name of the builder of the type named `target`.
pub open spec fn builder_name(target: Seq<char>) -> Seq<char> {
    target + "Builder"@
}

/// The declarations that the generator emits for a record with this schema.
pub open spec fn generated_code(schema: SchemaModel) -> CodeModel {
    CodeModel {
        target: schema.name,
        builder: builder_name(schema.name),
        slots: schema.fields,
        setters: schema.fields,
        assembly: names_of(schema.fields),
        factory: names_of(schema.fields),
    }
}

/// What the generator returns for this schema: the declarations for a record
/// of named fields, the rejected shape for any other type.
pub open spec fn generation(schema: SchemaModel) -> Result<CodeModel, Shape> {
    if schema.shape.supported() {
        Ok(generated_code(schema))
    } else {
        Err(schema.shape)
    }
}

/// The views of `texts`, in order.
pub open spec fn text_views(texts: Seq<String>) -> Seq<Seq<char>> {
    Seq::new(texts.len(), |i: int| texts[i]@)
}

/// The declarations of the builder of one record type.
#[derive(Clone, Debug, PartialEq, Eq)]
pub struct GeneratedBuilderCode {
    /// The name of the type that the builder assembles.
    pub target: String,
    /// The name of the builder type.
    pub builder: String,
    /// The slots of the builder type, each with the name and the type of its
    /// field.
    pub slots: Vec<FieldSchema>,
    /// The setters, each with the name and the type of its field.
    pub setters: Vec<FieldSchema>,
    /// The fields that `build` inspects, in the order in which it does so.
    pub assembly: Vec<String>,
    /// The slots that `builder` initialises to absent.
    pub factory: Vec<String>,
}

impl View for GeneratedBuilderCode {
    type V = CodeModel;

    open spec fn view(&self) -> CodeModel {
        CodeModel {
            target: self.target@,
            builder: self.builder@,
            slots: field_models(self.slots@),
            setters: field_models(self.setters@),
            assembly: text_views(self.assembly@),
            factory: text_views(self.factory@),
        }
    }
}

/// The type is no record of named fields, so that it can have no builder.
#[derive(Clone, Debug, PartialEq, Eq)]
pub struct UnsupportedShapeError {
    /// The name of the rejected type.
    pub target: String,
    /// How the rejected type declares its fields.
    pub shape: Shape,
}

/// `res` is what the generator returns for `schema`.
pub open spec fn is_generated(
    schema: SchemaModel,
    res: Result<GeneratedBuilderCode, UnsupportedShapeError>,
) -> bool {
    match res {
        Ok(code) => generation(schema) == Ok::<CodeModel, Shape>(code@),
        Err(e) => generation(schema) == Err::<CodeModel, Shape>(e.shape) && e.target@ == schema.name,
    }
}

impl UnsupportedShapeError {
    /// The text of the error.
    pub fn message(&self) -> (res: String)
        ensures
            res@ == "Builder only supported for structs"@,
    {
        "Builder only supported for structs".to_owned()
    }
}

/// The name of the builder type of `target`.
pub fn builder_name_for(target: &str) -> (res: String)
    ensures
        res@ == builder_name(target@),
{
    let mut name = target.to_owned();
    name.append("Builder");
    name
}

/// One declaration per field, with the field's name and type.
fn field_declarations(fields: &Vec<FieldSchema>) -> (res: Vec<FieldSchema>)
    ensures
        field_models(res@) == field_models(fields@),
{
    let mut out: Vec<FieldSchema> = Vec::new();
    let mut i: usize = 0;
    while i < fields.len()
        invariant
            0 <= i <= fields.len(),
            out.len() == i,
            forall|k: int| 0 <= k < i ==> out[k]@ == fields[k]@,
        decreases fields.len() - i,
    {
        let field = &fields[i];
        out.push(FieldSchema { name: field.name.clone(), ty: field.ty.clone() });
        i += 1;
    }
    assert(field_models(out@) =~= field_models(fields@));
    out
}

/// The names of the fields, in order.
fn field_names(fields: &Vec<FieldSchema>) -> (res: Vec<String>)
    ensures
        text_views(res@) == names_of(field_models(fields@)),
{
    let mut out: Vec<String> = Vec::new();
    let mut i: usize = 0;
    while i < fields.len()
        invariant
            0 <= i <= fields.len(),
            out.len() == i,
            forall|k: int| 0 <= k < i ==> out[k]@ == fields[k].name@,
        decreases fields.len() - i,
    {
        out.push(fields[i].name.clone());
        i += 1;
    }
    assert(text_views(out@) =~= names_of(field_models(fields@)));
    out
}

/// Emits the declarations of the builder of the type that `schema` describes.
///
/// Fails, before anything is emitted, unless the type is a record of named
/// fields. The field names are taken as they are: the generator neither
/// reorders fields nor removes duplicates.
pub fn generate(schema: &StructSchema) -> (res: Result<GeneratedBuilderCode, UnsupportedShapeError>)
    ensures
        is_generated(schema@, res),
{
    if !schema.shape.is_supported() {
        return Err(UnsupportedShapeError { target: schema.name.clone(), shape: schema.shape });
    }
    let code = GeneratedBuilderCode {
        target: schema.name.clone(),
        builder: builder_name_for(schema.name.as_str()),
        slots: field_declarations(&schema.fields),
        setters: field_declarations(&schema.fields),
        assembly: field_names(&schema.fields),
        factory: field_names(&schema.fields),
    };
    Ok(code)
}

} // verus!
