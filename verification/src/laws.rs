//! What holds of every schema, of the declarations emitted for it, and of
//! every builder instance.

use crate::generator::{
    generated_code, generation, is_generated, GeneratedBuilderCode, UnsupportedShapeError,
};
use crate::render::rendered;
use crate::runtime::{
    is_first, lemma_first_absent, lemma_first_is_unique, lemma_slot_of, BuilderModel, RecordModel,
    ValueModel,
};
use crate::schema::{distinct, SchemaModel, StructSchema};
use vstd::prelude::*;

verus! {

/// Generation succeeds exactly for a record of named fields. The declarations
/// are then consistent with each other and hold one slot per field, named and
/// typed as the field, in declaration order; and the builder that the factory
/// operation returns has these slots, every one of them absent.
pub proof fn lemma_one_slot_per_field(schema: SchemaModel)
    ensures
        generation(schema) is Ok <==> schema.shape.supported(),
        generation(schema) matches Ok(code) ==> {
            let fresh = BuilderModel::fresh(code.target, code.factory);
            &&& code.wf()
            &&& code.slots.len() == schema.fields.len()
            &&& forall|i: int| 0 <= i < schema.fields.len() ==> code.slots[i] == schema.fields[i]
            &&& fresh.wf()
            &&& fresh.slots.len() == schema.fields.len()
            &&& forall|i: int|
                0 <= i < schema.fields.len() ==> fresh.names[i] == schema.fields[i].name
                    && fresh.slots[i] is None
        },
{
}

/// The builder that the factory operation returns has a setter for the name
/// of every field, and for no other name.
pub proof fn lemma_setters_are_the_fields(schema: SchemaModel, name: Seq<char>)
    ensures
        BuilderModel::fresh(generated_code(schema).target, generated_code(schema).factory).has_setter(
            name,
        ) <==> exists|i: int| 0 <= i < schema.fields.len() && schema.fields[i].name == name,
{
    let names = generated_code(schema).factory;
    if names.contains(name) {
        let i = choose|i: int| 0 <= i < names.len() && names[i] == name;
        assert(schema.fields[i].name == name);
    }
    if exists|i: int| 0 <= i < schema.fields.len() && schema.fields[i].name == name {
        let i = choose|i: int| 0 <= i < schema.fields.len() && schema.fields[i].name == name;
        assert(names[i] == name);
    }
}

/// Two runs of the generator on schemas with the same name, shape and fields
/// both fail, with the same error, or both succeed, with the same declarations
/// and the same source text.
pub proof fn lemma_generation_is_deterministic(
    first: StructSchema,
    second: StructSchema,
    first_result: Result<GeneratedBuilderCode, UnsupportedShapeError>,
    second_result: Result<GeneratedBuilderCode, UnsupportedShapeError>,
)
    requires
        first@ == second@,
        is_generated(first@, first_result),
        is_generated(second@, second_result),
    ensures
        first_result is Ok <==> second_result is Ok,
        first_result is Ok ==> first_result->Ok_0@ == second_result->Ok_0@ && rendered(
            first_result->Ok_0@,
        ) == rendered(second_result->Ok_0@),
        first_result is Err ==> first_result->Err_0.shape == second_result->Err_0.shape
            && first_result->Err_0.target@ == second_result->Err_0.target@,
{
}

/// With unique names, the setter of the field at `i` fills slot `i` and no
/// other.
pub proof fn lemma_set_fills_own_slot(b: BuilderModel, i: int, value: ValueModel)
    requires
        b.wf(),
        distinct(b.names),
        0 <= i < b.names.len(),
    ensures
        b.has_setter(b.names[i]),
        b.set(b.names[i], value).wf(),
        b.set(b.names[i], value).names == b.names,
        b.set(b.names[i], value).target == b.target,
        b.set(b.names[i], value).slots == b.slots.update(i, Some(value)),
{
    assert(is_first(b.names, b.names[i], i));
    lemma_slot_of(b, b.names[i], i);
}

/// A setter leaves no slot absent that was present: a slot goes from absent
/// to present, never back.
pub proof fn lemma_set_keeps_present(b: BuilderModel, name: Seq<char>, value: ValueModel, j: int)
    requires
        b.wf(),
        b.has_setter(name),
        0 <= j < b.slots.len(),
        b.slots[j] is Some,
    ensures
        b.set(name, value).slots[j] is Some,
        b.set(name, value).slots[b.slot_of(name)] == Some(value),
{
    let i = choose|i: int| 0 <= i < b.names.len() && b.names[i] == name;
    let k = first_position(b.names, name, i);
    lemma_slot_of(b, name, k);
}

/// The first position of `name` in `names`, where `i` is a position of it.
proof fn first_position(names: Seq<Seq<char>>, name: Seq<char>, i: int) -> (k: int)
    requires
        0 <= i < names.len(),
        names[i] == name,
    ensures
        is_first(names, name, k),
    decreases i,
{
    if exists|j: int| 0 <= j < i && names[j] == name {
        let j = choose|j: int| 0 <= j < i && names[j] == name;
        first_position(names, name, j)
    } else {
        i
    }
}

/// Where every other slot is present, calling the setter of the field at `i`
/// with `value` and then assembling gives a record whose field `i` is `value`
/// and whose other fields are what their slots held.
pub proof fn lemma_set_then_build(b: BuilderModel, i: int, value: ValueModel)
    requires
        b.wf(),
        distinct(b.names),
        0 <= i < b.names.len(),
        forall|j: int| 0 <= j < b.slots.len() && j != i ==> b.slots[j] is Some,
    ensures
        b.set(b.names[i], value).assemble() is Ok,
        ({
            let record = b.set(b.names[i], value).assemble()->Ok_0;
            &&& record.target == b.target
            &&& record.names == b.names
            &&& record.values.len() == b.names.len()
            &&& record.values[i] == value
            &&& forall|j: int|
                0 <= j < b.slots.len() && j != i ==> record.values[j] == b.slots[j]->0
        }),
{
    lemma_set_fills_own_slot(b, i, value);
}

/// The last write wins: a second call of the same setter leaves the builder
/// as if only the second had been made, and the slot is present after each.
pub proof fn lemma_last_write_wins(b: BuilderModel, i: int, first: ValueModel, second: ValueModel)
    requires
        b.wf(),
        distinct(b.names),
        0 <= i < b.names.len(),
    ensures
        b.set(b.names[i], first).slots[i] == Some(first),
        b.set(b.names[i], first).set(b.names[i], second).slots[i] == Some(second),
        b.set(b.names[i], first).set(b.names[i], second) == b.set(b.names[i], second),
{
    let once = b.set(b.names[i], first);
    lemma_set_fills_own_slot(b, i, first);
    lemma_set_fills_own_slot(once, i, second);
    lemma_set_fills_own_slot(b, i, second);
    assert(once.set(b.names[i], second).slots =~= b.set(b.names[i], second).slots);
}

/// Assembling a builder on which no setter was called, for a type with at
/// least one field, fails and names the first field in declaration order.
pub proof fn lemma_fresh_build_names_first_field(target: Seq<char>, names: Seq<Seq<char>>)
    requires
        names.len() >= 1,
    ensures
        BuilderModel::fresh(target, names).assemble() == Err::<RecordModel, Seq<char>>(
            names[0],
        ),
{
    lemma_first_absent(BuilderModel::fresh(target, names), 0);
}

/// Assembling fails exactly where a slot is absent, and then names the first
/// absent slot in declaration order, however many are absent.
pub proof fn lemma_build_names_first_absent(b: BuilderModel, i: int)
    requires
        b.wf(),
        0 <= i < b.slots.len(),
        b.slots[i] is None,
        forall|j: int| 0 <= j < i ==> b.slots[j] is Some,
    ensures
        b.assemble() == Err::<RecordModel, Seq<char>>(b.names[i]),
{
    lemma_first_absent(b, i);
}

/// Assembling a builder whose slots are all present never fails, and gives a
/// record with the builder's field names and, for every field, the value that
/// its slot holds.
pub proof fn lemma_complete_build_succeeds(b: BuilderModel)
    requires
        b.wf(),
        b.complete(),
    ensures
        b.assemble() is Ok,
        ({
            let record = b.assemble()->Ok_0;
            &&& record.target == b.target
            &&& record.names == b.names
            &&& record.values.len() == b.names.len()
            &&& forall|i: int| 0 <= i < b.slots.len() ==> b.slots[i] == Some(record.values[i])
        }),
{
}

/// With unique names, the record of a complete builder holds under the name
/// of each field the value of that field's slot.
pub proof fn lemma_record_field(b: BuilderModel, i: int)
    requires
        b.wf(),
        distinct(b.names),
        b.complete(),
        0 <= i < b.names.len(),
    ensures
        b.assemble() == Ok::<RecordModel, Seq<char>>(b.record()),
        b.record().field(b.names[i]) == b.slots[i],
{
    let names = b.record().names;
    assert(is_first(names, b.names[i], i));
    lemma_first_is_unique(names, b.names[i], i, choose|k: int| is_first(names, b.names[i], k));
}

/// One call of a setter: its name and the value handed to it.
pub struct SetterCall {
    pub name: Seq<char>,
    pub value: ValueModel,
}

/// The builder after the setter calls `calls`, made in order.
pub open spec fn after_calls(b: BuilderModel, calls: Seq<SetterCall>) -> BuilderModel
    decreases calls.len(),
{
    if calls.len() == 0 {
        b
    } else {
        after_calls(b, calls.drop_last()).set(calls.last().name, calls.last().value)
    }
}

/// The call at `k` is the last call of the setter named `name`.
pub open spec fn is_last_call(calls: Seq<SetterCall>, name: Seq<char>, k: int) -> bool {
    &&& 0 <= k < calls.len()
    &&& calls[k].name == name
    &&& forall|j: int| k < j < calls.len() ==> calls[j].name != name
}

/// After any run of setter calls, a slot whose setter was called holds the
/// value of the last such call, and a slot whose setter was not called is as
/// it was.
pub proof fn lemma_slot_after_calls(b: BuilderModel, calls: Seq<SetterCall>, i: int)
    requires
        b.wf(),
        distinct(b.names),
        0 <= i < b.names.len(),
        forall|k: int| 0 <= k < calls.len() ==> b.has_setter(#[trigger] calls[k].name),
    ensures
        after_calls(b, calls).wf(),
        after_calls(b, calls).names == b.names,
        after_calls(b, calls).target == b.target,
        forall|k: int|
            is_last_call(calls, b.names[i], k) ==> after_calls(b, calls).slots[i] == Some(
                calls[k].value,
            ),
        (forall|k: int| 0 <= k < calls.len() ==> calls[k].name != b.names[i]) ==> after_calls(
            b,
            calls,
        ).slots[i] == b.slots[i],
    decreases calls.len(),
{
    if calls.len() > 0 {
        let init = calls.drop_last();
        let call = calls.last();
        let before = after_calls(b, init);
        lemma_slot_after_calls(b, init, i);
        assert(b.has_setter(calls[calls.len() - 1].name));
        let p = choose|p: int| 0 <= p < b.names.len() && b.names[p] == call.name;
        lemma_set_fills_own_slot(before, p, call.value);
        if p == i {
            assert forall|k: int| is_last_call(calls, b.names[i], k) implies after_calls(
                b,
                calls,
            ).slots[i] == Some(calls[k].value) by {
                if k < calls.len() - 1 {
                    assert(calls[calls.len() - 1].name != b.names[i]);
                }
            }
        } else {
            assert(call.name != b.names[i]);
            assert forall|k: int| is_last_call(calls, b.names[i], k) implies after_calls(
                b,
                calls,
            ).slots[i] == Some(calls[k].value) by {
                assert(k < calls.len() - 1);
                assert(is_last_call(init, b.names[i], k)) by {
                    assert forall|j: int| k < j < init.len() implies init[j].name != b.names[i] by {
                        assert(calls[j].name != b.names[i]);
                    }
                }
                assert(init[k] == calls[k]);
            }
            if forall|k: int| 0 <= k < calls.len() ==> calls[k].name != b.names[i] {
                assert forall|k: int| 0 <= k < init.len() implies init[k].name != b.names[i] by {
                    assert(calls[k].name != b.names[i]);
                }
            }
        }
    }
}

/// Assembling after setter calls that reach every field, on a builder fresh
/// from the factory or not, never fails, and every field of the record is the
/// value of the last call of its setter. `last[i]` is the position of the last
/// call of the setter of the field at `i`.
pub proof fn lemma_build_after_calls(b: BuilderModel, calls: Seq<SetterCall>, last: Seq<int>)
    requires
        b.wf(),
        distinct(b.names),
        forall|k: int| 0 <= k < calls.len() ==> b.has_setter(#[trigger] calls[k].name),
        last.len() == b.names.len(),
        forall|i: int| 0 <= i < b.names.len() ==> is_last_call(calls, b.names[i], #[trigger] last[i]),
    ensures
        after_calls(b, calls).assemble() is Ok,
        ({
            let record = after_calls(b, calls).assemble()->Ok_0;
            &&& record.target == b.target
            &&& record.names == b.names
            &&& record.values.len() == b.names.len()
            &&& forall|i: int|
                0 <= i < b.names.len() ==> record.values[i] == calls[#[trigger] last[i]].value
        }),
{
    let done = after_calls(b, calls);
    if b.names.len() == 0 {
        if calls.len() > 0 {
            assert(b.has_setter(calls[0].name));
        }
        assert(done.slots =~= b.slots);
    } else {
        lemma_slot_after_calls(b, calls, 0);
    }
    assert forall|i: int| 0 <= i < b.names.len() implies done.wf() && done.names == b.names
        && done.target == b.target && done.slots[i] == Some(calls[last[i]].value) by {
        lemma_slot_after_calls(b, calls, i);
        assert(is_last_call(calls, b.names[i], last[i]));
    }
    lemma_complete_build_succeeds(done);
}

} // verus!
