//! The source text of the declarations of a builder.

use crate::generator::{CodeModel, GeneratedBuilderCode};
use crate::schema::{FieldModel, FieldSchema};
use vstd::prelude::*;
use vstd::string::*;

verus! {

/// The texts of `parts`, one after the other.
pub open spec fn concat(parts: Seq<Seq<char>>) -> Seq<char>
    decreases parts.len(),
{
    if parts.len() == 0 {
        Seq::empty()
    } else {
        concat(parts.drop_last()) + parts.last()
    }
}

/// The declaration of one slot of the builder type.
pub open spec fn slot_line(field: FieldModel) -> Seq<char> {
    "    "@ + field.name + ": std::option::Option<"@ + field.ty + ">,\n"@
}

/// The declaration of the setter of one field.
pub open spec fn setter_text(field: FieldModel) -> Seq<char> {
    "    pub fn "@ + field.name + "(&mut self, "@ + field.name + ": "@ + field.ty
        + ") -> &mut Self {\n        self."@ + field.name + " = Some("@ + field.name
        + ");\n        self\n    }\n\n"@
}

/// The step of `build` that takes one field from its slot.
pub open spec fn step_line(name: Seq<char>) -> Seq<char> {
    "            "@ + name + ": self."@ + name + ".clone().ok_or(\""@ + name
        + " is not set\")?,\n"@
}

/// The initialiser of one slot in `builder`.
pub open spec fn init_line(name: Seq<char>) -> Seq<char> {
    "            "@ + name + ": None,\n"@
}

/// The declaration of the builder type.
pub open spec fn builder_type_text(code: CodeModel) -> Seq<char> {
    "pub struct "@ + code.builder + " {\n"@ + concat(
        Seq::new(code.slots.len(), |i: int| slot_line(code.slots[i])),
    ) + "}\n\n"@
}

/// The declarations of the setters.
pub open spec fn setters_text(code: CodeModel) -> Seq<char> {
    concat(Seq::new(code.setters.len(), |i: int| setter_text(code.setters[i])))
}

/// The declaration of the assembly operation.
pub open spec fn build_text(code: CodeModel) -> Seq<char> {
    "    fn build(&self) -> Result<"@ + code.target
        + ", Box<dyn std::error::Error>> {\n        Ok("@ + code.target + " {\n"@ + concat(
        Seq::new(code.assembly.len(), |i: int| step_line(code.assembly[i])),
    ) + "        })\n    }\n"@
}

/// The declaration of the factory operation, on the assembled type.
pub open spec fn factory_text(code: CodeModel) -> Seq<char> {
    "impl "@ + code.target + " {\n    pub fn builder() -> "@ + code.builder + " {\n        "@
        + code.builder + " {\n"@ + concat(
        Seq::new(code.factory.len(), |i: int| init_line(code.factory[i])),
    ) + "        }\n    }\n}\n"@
}

/// The source text of all the declarations: the builder type, its setters and
/// its assembly operation in one `impl` block, and the factory operation.
pub open spec fn rendered(code: CodeModel) -> Seq<char> {
    builder_type_text(code) + "impl "@ + code.builder + " {\n"@ + setters_text(code) + build_text(
        code,
    ) + "}\n\n"@ + factory_text(code)
}

/// Adding a part at the end adds its text at the end.
pub proof fn lemma_concat_push(parts: Seq<Seq<char>>, part: Seq<char>)
    ensures
        concat(parts.push(part)) == concat(parts) + part,
{
    assert(parts.push(part).drop_last() =~= parts);
}

fn slot_line_text(field: &FieldSchema) -> (res: String)
    ensures
        res@ == slot_line(field@),
{
    let mut line = "    ".to_owned();
    line.append(field.name.as_str());
    line.append(": std::option::Option<");
    line.append(field.ty.as_str());
    line.append(">,\n");
    line
}

fn setter_source(field: &FieldSchema) -> (res: String)
    ensures
        res@ == setter_text(field@),
{
    let mut text = "    pub fn ".to_owned();
    text.append(field.name.as_str());
    text.append("(&mut self, ");
    text.append(field.name.as_str());
    text.append(": ");
    text.append(field.ty.as_str());
    text.append(") -> &mut Self {\n        self.");
    text.append(field.name.as_str());
    text.append(" = Some(");
    text.append(field.name.as_str());
    text.append(");\n        self\n    }\n\n");
    text
}

fn step_line_text(name: &String) -> (res: String)
    ensures
        res@ == step_line(name@),
{
    let mut line = "            ".to_owned();
    line.append(name.as_str());
    line.append(": self.");
    line.append(name.as_str());
    line.append(".clone().ok_or(\"");
    line.append(name.as_str());
    line.append(" is not set\")?,\n");
    line
}

fn init_line_text(name: &String) -> (res: String)
    ensures
        res@ == init_line(name@),
{
    let mut line = "            ".to_owned();
    line.append(name.as_str());
    line.append(": None,\n");
    line
}

impl GeneratedBuilderCode {
    /// The source text of the builder type.
    pub fn render_builder_type(&self) -> (res: String)
        ensures
            res@ == builder_type_text(self@),
    {
        let ghost lines = Seq::new(self@.slots.len(), |i: int| slot_line(self@.slots[i]));
        let mut body = String::new();
        let mut i: usize = 0;
        while i < self.slots.len()
            invariant
                0 <= i <= self.slots.len(),
                lines == Seq::new(self@.slots.len(), |i: int| slot_line(self@.slots[i])),
                body@ == concat(lines.take(i as int)),
            decreases self.slots.len() - i,
        {
            let line = slot_line_text(&self.slots[i]);
            body.append(line.as_str());
            proof {
                lemma_concat_push(lines.take(i as int), lines[i as int]);
                assert(lines.take(i as int).push(lines[i as int]) =~= lines.take(i + 1));
            }
            i += 1;
        }
        assert(lines.take(i as int) =~= lines);
        let mut text = "pub struct ".to_owned();
        text.append(self.builder.as_str());
        text.append(" {\n");
        text.append(body.as_str());
        text.append("}\n\n");
        text
    }

    /// The source text of the setters.
    pub fn render_setters(&self) -> (res: String)
        ensures
            res@ == setters_text(self@),
    {
        let ghost parts = Seq::new(self@.setters.len(), |i: int| setter_text(self@.setters[i]));
        let mut body = String::new();
        let mut i: usize = 0;
        while i < self.setters.len()
            invariant
                0 <= i <= self.setters.len(),
                parts == Seq::new(self@.setters.len(), |i: int| setter_text(self@.setters[i])),
                body@ == concat(parts.take(i as int)),
            decreases self.setters.len() - i,
        {
            let part = setter_source(&self.setters[i]);
            body.append(part.as_str());
            proof {
                lemma_concat_push(parts.take(i as int), parts[i as int]);
                assert(parts.take(i as int).push(parts[i as int]) =~= parts.take(i + 1));
            }
            i += 1;
        }
        assert(parts.take(i as int) =~= parts);
        body
    }

    /// The source text of the assembly operation.
    pub fn render_build(&self) -> (res: String)
        ensures
            res@ == build_text(self@),
    {
        let ghost lines = Seq::new(self@.assembly.len(), |i: int| step_line(self@.assembly[i]));
        let mut body = String::new();
        let mut i: usize = 0;
        while i < self.assembly.len()
            invariant
                0 <= i <= self.assembly.len(),
                lines == Seq::new(self@.assembly.len(), |i: int| step_line(self@.assembly[i])),
                body@ == concat(lines.take(i as int)),
            decreases self.assembly.len() - i,
        {
            let line = step_line_text(&self.assembly[i]);
            body.append(line.as_str());
            proof {
                lemma_concat_push(lines.take(i as int), lines[i as int]);
                assert(lines.take(i as int).push(lines[i as int]) =~= lines.take(i + 1));
            }
            i += 1;
        }
        assert(lines.take(i as int) =~= lines);
        let mut text = "    fn build(&self) -> Result<".to_owned();
        text.append(self.target.as_str());
        text.append(", Box<dyn std::error::Error>> {\n        Ok(");
        text.append(self.target.as_str());
        text.append(" {\n");
        text.append(body.as_str());
        text.append("        })\n    }\n");
        text
    }

    /// The source text of the factory operation.
    pub fn render_factory(&self) -> (res: String)
        ensures
            res@ == factory_text(self@),
    {
        let ghost lines = Seq::new(self@.factory.len(), |i: int| init_line(self@.factory[i]));
        let mut body = String::new();
        let mut i: usize = 0;
        while i < self.factory.len()
            invariant
                0 <= i <= self.factory.len(),
                lines == Seq::new(self@.factory.len(), |i: int| init_line(self@.factory[i])),
                body@ == concat(lines.take(i as int)),
            decreases self.factory.len() - i,
        {
            let line = init_line_text(&self.factory[i]);
            body.append(line.as_str());
            proof {
                lemma_concat_push(lines.take(i as int), lines[i as int]);
                assert(lines.take(i as int).push(lines[i as int]) =~= lines.take(i + 1));
            }
            i += 1;
        }
        assert(lines.take(i as int) =~= lines);
        let mut text = "impl ".to_owned();
        text.append(self.target.as_str());
        text.append(" {\n    pub fn builder() -> ");
        text.append(self.builder.as_str());
        text.append(" {\n        ");
        text.append(self.builder.as_str());
        text.append(" {\n");
        text.append(body.as_str());
        text.append("        }\n    }\n}\n");
        text
    }

    /// The source text of all the declarations.
    pub fn render(&self) -> (res: String)
        ensures
            res@ == rendered(self@),
    {
        let mut text = self.render_builder_type();
        text.append("impl ");
        text.append(self.builder.as_str());
        text.append(" {\n");
        text.append(self.render_setters().as_str());
        text.append(self.render_build().as_str());
        text.append("}\n\n");
        text.append(self.render_factory().as_str());
        text
    }
}

} // verus!
