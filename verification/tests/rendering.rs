use builder::generator::generate;
use builder::schema::{FieldSchema, StructSchema};

fn user_code() -> builder::generator::GeneratedBuilderCode {
    generate(&StructSchema::record(
        "User",
        vec![FieldSchema::new("id", "i64"), FieldSchema::new("name", "String")],
    ))
    .unwrap()
}

#[test]
fn builder_type_has_one_optional_slot_per_field() {
    assert_eq!(
        user_code().render_builder_type(),
        "pub struct UserBuilder {\n    id: std::option::Option<i64>,\n    name: std::option::Option<String>,\n}\n\n"
    );
}

#[test]
fn setters_store_and_hand_back_the_builder() {
    assert_eq!(
        user_code().render_setters(),
        "    pub fn id(&mut self, id: i64) -> &mut Self {\n        self.id = Some(id);\n        self\n    }\n\n    pub fn name(&mut self, name: String) -> &mut Self {\n        self.name = Some(name);\n        self\n    }\n\n"
    );
}

#[test]
fn build_takes_the_fields_in_declaration_order() {
    assert_eq!(
        user_code().render_build(),
        "    fn build(&self) -> Result<User, Box<dyn std::error::Error>> {\n        Ok(User {\n            id: self.id.clone().ok_or(\"id is not set\")?,\n            name: self.name.clone().ok_or(\"name is not set\")?,\n        })\n    }\n"
    );
}

#[test]
fn factory_initialises_every_slot_absent() {
    assert_eq!(
        user_code().render_factory(),
        "impl User {\n    pub fn builder() -> UserBuilder {\n        UserBuilder {\n            id: None,\n            name: None,\n        }\n    }\n}\n"
    );
}

#[test]
fn whole_text_is_the_four_groups_in_order() {
    let code = user_code();
    let expected = format!(
        "{}impl UserBuilder {{\n{}{}}}\n\n{}",
        code.render_builder_type(),
        code.render_setters(),
        code.render_build(),
        code.render_factory()
    );
    assert_eq!(code.render(), expected);
}

#[test]
fn whole_text_of_a_record_with_one_field() {
    let code = generate(&StructSchema::record("Job", vec![FieldSchema::new("args", "Vec<String>")]))
        .unwrap();
    let expected = "\
pub struct JobBuilder {
    args: std::option::Option<Vec<String>>,
}

impl JobBuilder {
    pub fn args(&mut self, args: Vec<String>) -> &mut Self {
        self.args = Some(args);
        self
    }

    fn build(&self) -> Result<Job, Box<dyn std::error::Error>> {
        Ok(Job {
            args: self.args.clone().ok_or(\"args is not set\")?,
        })
    }
}

impl Job {
    pub fn builder() -> JobBuilder {
        JobBuilder {
            args: None,
        }
    }
}
";
    assert_eq!(code.render(), expected);
}

#[test]
fn whole_text_of_a_record_without_fields() {
    let code = generate(&StructSchema::record("Empty", vec![])).unwrap();
    let expected = "\
pub struct EmptyBuilder {
}

impl EmptyBuilder {
    fn build(&self) -> Result<Empty, Box<dyn std::error::Error>> {
        Ok(Empty {
        })
    }
}

impl Empty {
    pub fn builder() -> EmptyBuilder {
        EmptyBuilder {
        }
    }
}
";
    assert_eq!(code.render(), expected);
}

#[test]
fn text_mentions_each_field_in_every_group() {
    let text = user_code().render();
    assert_eq!(text.matches("std::option::Option<").count(), 2);
    assert_eq!(text.matches("pub fn ").count(), 3);
    assert_eq!(text.matches(" is not set").count(), 2);
    assert_eq!(text.matches(": None,").count(), 2);
}
