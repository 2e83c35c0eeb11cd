use builder::generator::{builder_name_for, generate, GeneratedBuilderCode, UnsupportedShapeError};
use builder::schema::{FieldSchema, Shape, StructSchema};

fn user_schema() -> StructSchema {
    StructSchema::record(
        "User",
        vec![FieldSchema::new("id", "i64"), FieldSchema::new("name", "String")],
    )
}

fn names(fields: &[FieldSchema]) -> Vec<&str> {
    fields.iter().map(|f| f.name.as_str()).collect()
}

#[test]
fn record_schema_is_accepted() {
    let code = generate(&user_schema()).unwrap();
    assert_eq!(code.target, "User");
    assert_eq!(code.builder, "UserBuilder");
}

#[test]
fn one_slot_per_field_in_declaration_order() {
    let schema = user_schema();
    let code = generate(&schema).unwrap();
    assert_eq!(code.slots.len(), 2);
    assert_eq!(code.slots, schema.fields);
    assert_eq!(names(&code.slots), vec!["id", "name"]);
    assert_eq!(code.slots[0].ty, "i64");
    assert_eq!(code.slots[1].ty, "String");
}

#[test]
fn one_setter_per_field_with_the_type_of_the_field() {
    let schema = user_schema();
    let code = generate(&schema).unwrap();
    assert_eq!(code.setters, schema.fields);
}

#[test]
fn assembly_and_factory_follow_declaration_order() {
    let code = generate(&user_schema()).unwrap();
    assert_eq!(code.assembly, vec!["id".to_string(), "name".to_string()]);
    assert_eq!(code.factory, vec!["id".to_string(), "name".to_string()]);
}

#[test]
fn order_of_fields_is_kept_not_sorted() {
    let schema = StructSchema::record(
        "Point",
        vec![
            FieldSchema::new("z", "u8"),
            FieldSchema::new("a", "u8"),
            FieldSchema::new("m", "u8"),
        ],
    );
    let code = generate(&schema).unwrap();
    assert_eq!(names(&code.slots), vec!["z", "a", "m"]);
    assert_eq!(code.assembly, vec!["z".to_string(), "a".to_string(), "m".to_string()]);
}

#[test]
fn record_without_fields_is_accepted() {
    let code = generate(&StructSchema::record("Empty", vec![])).unwrap();
    assert_eq!(code.builder, "EmptyBuilder");
    assert!(code.slots.is_empty());
    assert!(code.setters.is_empty());
    assert!(code.assembly.is_empty());
    assert!(code.factory.is_empty());
}

#[test]
fn tuple_struct_is_rejected() {
    let schema = StructSchema::without_fields("Pair", Shape::TupleFields);
    assert_eq!(
        generate(&schema),
        Err(UnsupportedShapeError { target: "Pair".to_string(), shape: Shape::TupleFields })
    );
}

#[test]
fn enumeration_is_rejected() {
    let schema = StructSchema::without_fields("Colour", Shape::Enumeration);
    let err = generate(&schema).unwrap_err();
    assert_eq!(err.shape, Shape::Enumeration);
    assert_eq!(err.target, "Colour");
}

#[test]
fn unit_struct_and_union_are_rejected() {
    let unit = generate(&StructSchema::without_fields("Marker", Shape::Unit));
    assert_eq!(unit.unwrap_err().shape, Shape::Unit);
    let union = generate(&StructSchema::without_fields("Bits", Shape::Union));
    assert_eq!(union.unwrap_err().shape, Shape::Union);
}

#[test]
fn rejected_shape_wins_over_listed_fields() {
    let schema = StructSchema {
        name: "Odd".to_string(),
        shape: Shape::Enumeration,
        fields: vec![FieldSchema::new("x", "u8")],
    };
    assert!(generate(&schema).is_err());
}

#[test]
fn unsupported_shape_message() {
    let err = generate(&StructSchema::without_fields("Pair", Shape::TupleFields)).unwrap_err();
    assert_eq!(err.message(), "Builder only supported for structs");
}

#[test]
fn only_named_fields_are_supported() {
    assert!(Shape::NamedFields.is_supported());
    assert!(!Shape::TupleFields.is_supported());
    assert!(!Shape::Unit.is_supported());
    assert!(!Shape::Enumeration.is_supported());
    assert!(!Shape::Union.is_supported());
}

#[test]
fn builder_is_named_after_its_target() {
    assert_eq!(builder_name_for("Command"), "CommandBuilder");
    assert_eq!(builder_name_for(""), "Builder");
}

#[test]
fn generation_is_deterministic() {
    let first: GeneratedBuilderCode = generate(&user_schema()).unwrap();
    let second: GeneratedBuilderCode = generate(&user_schema().clone()).unwrap();
    assert_eq!(first, second);
    assert_eq!(first.render(), second.render());
}

#[test]
fn different_schemas_give_different_declarations() {
    let other = StructSchema::record(
        "User",
        vec![FieldSchema::new("name", "String"), FieldSchema::new("id", "i64")],
    );
    assert_ne!(generate(&user_schema()).unwrap(), generate(&other).unwrap());
}

#[test]
fn generator_does_not_remove_duplicates() {
    let schema = StructSchema::record(
        "Twice",
        vec![FieldSchema::new("x", "u8"), FieldSchema::new("x", "u16")],
    );
    assert!(!schema.has_unique_names());
    let code = generate(&schema).unwrap();
    assert_eq!(code.slots.len(), 2);
    assert_eq!(code.slots[1].ty, "u16");
}

#[test]
fn unique_names_are_recognised() {
    assert!(user_schema().has_unique_names());
    assert!(StructSchema::record("Empty", vec![]).has_unique_names());
    let far_apart = StructSchema::record(
        "Far",
        vec![
            FieldSchema::new("a", "u8"),
            FieldSchema::new("b", "u8"),
            FieldSchema::new("c", "u8"),
            FieldSchema::new("a", "u8"),
        ],
    );
    assert!(!far_apart.has_unique_names());
}

#[test]
fn field_schema_holds_name_and_type() {
    let field = FieldSchema::new("executable", "Vec<String>");
    assert_eq!(field.name, "executable");
    assert_eq!(field.ty, "Vec<String>");
}
