//! What a generated builder does when it runs: an instance of the builder
//! type holds one slot per field, a setter fills the slot of its field, and
//! `build` assembles a record from the slots or names the first that is empty.

use crate::generator::{text_views, GeneratedBuilderCode};
use vstd::prelude::*;
use vstd::string::*;

verus! {

/// A value that a field can hold, as mathematics sees it.
pub enum ValueModel {
    Int(int),
    Bool(bool),
    Text(Seq<char>),
}

/// A value that a field can hold. The model does not hold a value against the
/// text of its field's type: that is left to the compiler of the emitted code.
#[derive(Debug, PartialEq, Eq)]
pub enum Value {
    Int(i64),
    Bool(bool),
    Text(String),
}

impl View for Value {
    type V = ValueModel;

    open spec fn view(&self) -> ValueModel {
        match self {
            Value::Int(i) => ValueModel::Int(*i as int),
            Value::Bool(b) => ValueModel::Bool(*b),
            Value::Text(s) => ValueModel::Text(s@),
        }
    }
}

impl Clone for Value {
    fn clone(&self) -> (res: Value)
        ensures
            res == *self,
    {
        match self {
            Value::Int(i) => Value::Int(*i),
            Value::Bool(b) => Value::Bool(*b),
            Value::Text(s) => Value::Text(s.clone()),
        }
    }
}

/// The views of `values`, in order.
pub open spec fn value_views(values: Seq<Value>) -> Seq<ValueModel> {
    Seq::new(values.len(), |i: int| values[i]@)
}

/// `i` is the first position of `name` in `names`.
pub open spec fn is_first(names: Seq<Seq<char>>, name: Seq<char>, i: int) -> bool {
    &&& 0 <= i < names.len()
    &&& names[i] == name
    &&& forall|j: int| 0 <= j < i ==> names[j] != name
}

/// `i` is the first empty position of `slots`.
pub open spec fn is_first_absent(slots: Seq<Option<ValueModel>>, i: int) -> bool {
    &&& 0 <= i < slots.len()
    &&& slots[i] is None
    &&& forall|j: int| 0 <= j < i ==> slots[j] is Some
}

/// An instance of the assembled type, as mathematics sees it.
pub struct RecordModel {
    pub target: Seq<char>,
    pub names: Seq<Seq<char>>,
    pub values: Seq<ValueModel>,
}

/// An instance of a builder type, as mathematics sees it: the name of the
/// type that it assembles, and the slots with their names in declaration
/// order.
pub struct BuilderModel {
    pub target: Seq<char>,
    pub names: Seq<Seq<char>>,
    pub slots: Seq<Option<ValueModel>>,
}

impl BuilderModel {
    /// Every slot has a name.
    pub open spec fn wf(self) -> bool {
        self.names.len() == self.slots.len()
    }

    /// What the factory operation returns: every slot absent.
    pub open spec fn fresh(target: Seq<char>, names: Seq<Seq<char>>) -> BuilderModel {
        BuilderModel { target, names, slots: Seq::new(names.len(), |i: int| None) }
    }

    /// There is a setter of this name.
    pub open spec fn has_setter(self, name: Seq<char>) -> bool {
        self.names.contains(name)
    }

    /// The slot that the setter named `name` fills.
    pub open spec fn slot_of(self, name: Seq<char>) -> int {
        choose|i: int| is_first(self.names, name, i)
    }

    /// The builder after the setter named `name` has stored `value`.
    pub open spec fn set(self, name: Seq<char>, value: ValueModel) -> BuilderModel {
        BuilderModel { slots: self.slots.update(self.slot_of(name), Some(value)), ..self }
    }

    /// Every slot is present.
    pub open spec fn complete(self) -> bool {
        forall|i: int| 0 <= i < self.slots.len() ==> self.slots[i] is Some
    }

    /// The first slot that is absent.
    pub open spec fn first_absent(self) -> int {
        choose|i: int| is_first_absent(self.slots, i)
    }

    /// The record that a complete builder assembles.
    pub open spec fn record(self) -> RecordModel {
        RecordModel {
            target: self.target,
            names: self.names,
            values: Seq::new(self.slots.len(), |i: int| self.slots[i]->0),
        }
    }

    /// What `build` returns: the record where every slot is present, else the
    /// name of the first absent slot in declaration order.
    pub open spec fn assemble(self) -> Result<RecordModel, Seq<char>> {
        if self.complete() {
            Ok(self.record())
        } else {
            Err(self.names[self.first_absent()])
        }
    }
}

/// `name` has at most one first position.
pub proof fn lemma_first_is_unique(names: Seq<Seq<char>>, name: Seq<char>, i: int, k: int)
    requires
        is_first(names, name, i),
        is_first(names, name, k),
    ensures
        i == k,
{
    if i < k {
        assert(names[i] != name);
    } else if k < i {
        assert(names[k] != name);
    }
}

/// The setter of a name that stands first at `i` fills slot `i`.
pub proof fn lemma_slot_of(b: BuilderModel, name: Seq<char>, i: int)
    requires
        is_first(b.names, name, i),
    ensures
        b.slot_of(name) == i,
{
    lemma_first_is_unique(b.names, name, i, b.slot_of(name));
}

/// The first absent slot, where `i` is one.
pub proof fn lemma_first_absent(b: BuilderModel, i: int)
    requires
        is_first_absent(b.slots, i),
    ensures
        b.first_absent() == i,
        !b.complete(),
{
    let k = b.first_absent();
    if i < k {
        assert(b.slots[i] is Some);
    } else if k < i {
        assert(b.slots[k] is Some);
    }
}

/// An instance of the assembled type: its fields in declaration order.
#[derive(Clone, Debug, PartialEq, Eq)]
pub struct Record {
    pub target: String,
    pub names: Vec<String>,
    pub values: Vec<Value>,
}

impl View for Record {
    type V = RecordModel;

    open spec fn view(&self) -> RecordModel {
        RecordModel {
            target: self.target@,
            names: text_views(self.names@),
            values: value_views(self.values@),
        }
    }
}

impl RecordModel {
    /// The value of the field named `name`, where the record has one with a
    /// value.
    pub open spec fn field(self, name: Seq<char>) -> Option<ValueModel> {
        let i = choose|i: int| is_first(self.names, name, i);
        if self.names.contains(name) && i < self.values.len() {
            Some(self.values[i])
        } else {
            None
        }
    }
}

impl Record {
    /// The value of the field named `name`, where the record has one.
    pub fn get(&self, name: &str) -> (res: Option<&Value>)
        ensures
            match res {
                Some(value) => self@.field(name@) == Some(value@),
                None => self@.field(name@) == None::<ValueModel>,
            },
    {
        let key: String = name.to_owned();
        let mut i: usize = 0;
        while i < self.names.len()
            invariant
                0 <= i <= self.names.len(),
                key@ == name@,
                forall|j: int| 0 <= j < i ==> self@.names[j] != name@,
            decreases self.names.len() - i,
        {
            if self.names[i] == key {
                proof {
                    assert(is_first(self@.names, name@, i as int));
                    lemma_first_is_unique(
                        self@.names,
                        name@,
                        i as int,
                        choose|k: int| is_first(self@.names, name@, k),
                    );
                }
                if i < self.values.len() {
                    return Some(&self.values[i]);
                }
                return None;
            }
            i += 1;
        }
        None
    }
}

/// `build` found a slot absent.
#[derive(Clone, Debug, PartialEq, Eq)]
pub struct MissingFieldError {
    /// The first absent field in declaration order.
    pub field: String,
}

/// The text of the error that names `field`.
pub open spec fn missing_message(field: Seq<char>) -> Seq<char> {
    field + " is not set"@
}

impl MissingFieldError {
    /// The text of the error.
    pub fn message(&self) -> (res: String)
        ensures
            res@ == missing_message(self.field@),
    {
        let mut text = self.field.clone();
        text.append(" is not set");
        text
    }
}

/// One slot of a builder instance: the name of its field, and its value
/// where it is present.
struct Slot {
    name: String,
    value: Option<Value>,
}

/// An instance of a builder type.
pub struct Builder {
    target: String,
    slots: Vec<Slot>,
}

/// What is stored in `slot`.
spec fn stored(slot: Slot) -> Option<ValueModel> {
    match slot.value {
        Some(v) => Some(v@),
        None => None,
    }
}

impl View for Builder {
    type V = BuilderModel;

    closed spec fn view(&self) -> BuilderModel {
        BuilderModel {
            target: self.target@,
            names: Seq::new(self.slots@.len(), |i: int| self.slots@[i].name@),
            slots: Seq::new(self.slots@.len(), |i: int| stored(self.slots@[i])),
        }
    }
}

impl Builder {
    /// Every slot of a builder instance has a name.
    pub proof fn lemma_wf(&self)
        ensures
            self@.wf(),
    {
    }

    /// The position of the first slot named `name`, if there is one.
    pub fn slot_index(&self, name: &str) -> (res: Option<usize>)
        ensures
            match res {
                Some(i) => is_first(self@.names, name@, i as int),
                None => !self@.has_setter(name@),
            },
    {
        let key: String = name.to_owned();
        let mut i: usize = 0;
        while i < self.slots.len()
            invariant
                0 <= i <= self.slots.len(),
                key@ == name@,
                forall|j: int| 0 <= j < i ==> self@.names[j] != name@,
            decreases self.slots.len() - i,
        {
            if self.slots[i].name == key {
                return Some(i);
            }
            i += 1;
        }
        None
    }

    /// Whether the builder has a setter of this name.
    pub fn has_setter(&self, name: &str) -> (res: bool)
        ensures
            res == self@.has_setter(name@),
    {
        self.slot_index(name).is_some()
    }

    /// Whether the slot of the setter named `name` is present.
    pub fn is_set(&self, name: &str) -> (res: bool)
        ensures
            res == (self@.has_setter(name@) && self@.slots[self@.slot_of(name@)] is Some),
    {
        match self.slot_index(name) {
            Some(i) => {
                proof {
                    lemma_slot_of(self@, name@, i as int);
                }
                self.slots[i].value.is_some()
            },
            None => false,
        }
    }

    /// The setter named `name`: stores `value` as present in the slot of that
    /// field, whatever the slot held, and hands the builder back for the next
    /// call.
    pub fn set(&mut self, name: &str, value: Value) -> (ret: &mut Self)
        requires
            old(self)@.has_setter(name@),
        ensures
            ret@ == old(self)@.set(name@, value@),
            *final(self) == *final(ret),
    {
        match self.slot_index(name) {
            Some(i) => {
                proof {
                    lemma_slot_of(self@, name@, i as int);
                }
                let slot = Slot { name: self.slots[i].name.clone(), value: Some(value) };
                self.slots.set(i, slot);
                assert(self@.names =~= old(self)@.names);
                assert(self@.slots =~= old(self)@.slots.update(i as int, Some(value@)));
            },
            None => {},
        }
        self
    }

    /// The assembly operation: a record of the slots' values where every slot
    /// is present, else the error that names the first absent slot in
    /// declaration order. The builder stays as it is.
    pub fn build(&self) -> (res: Result<Record, MissingFieldError>)
        ensures
            match res {
                Ok(record) => self@.assemble() == Ok::<RecordModel, Seq<char>>(record@),
                Err(e) => self@.assemble() == Err::<RecordModel, Seq<char>>(e.field@),
            },
    {
        let n = self.slots.len();
        let mut names: Vec<String> = Vec::new();
        let mut values: Vec<Value> = Vec::new();
        let mut i: usize = 0;
        while i < n
            invariant
                n == self.slots.len(),
                0 <= i <= n,
                names.len() == i,
                values.len() == i,
                forall|j: int| 0 <= j < i ==> self.slots[j].value is Some,
                forall|j: int| 0 <= j < i ==> names[j]@ == self.slots[j].name@,
                forall|j: int| 0 <= j < i ==> values[j] == self.slots[j].value->0,
            decreases n - i,
        {
            match &self.slots[i].value {
                None => {
                    proof {
                        assert(is_first_absent(self@.slots, i as int));
                        lemma_first_absent(self@, i as int);
                    }
                    return Err(MissingFieldError { field: self.slots[i].name.clone() });
                },
                Some(value) => {
                    names.push(self.slots[i].name.clone());
                    values.push(value.clone());
                },
            }
            i += 1;
        }
        let record = Record { target: self.target.clone(), names, values };
        proof {
            assert(self@.complete());
            assert(record@.names =~= self@.names);
            assert(record@.values =~= self@.record().values);
        }
        Ok(record)
    }
}

impl GeneratedBuilderCode {
    /// The factory operation: a new builder instance with every slot absent.
    pub fn builder(&self) -> (res: Builder)
        ensures
            res@ == BuilderModel::fresh(self@.target, self@.factory),
    {
        let n = self.factory.len();
        let mut slots: Vec<Slot> = Vec::new();
        let mut i: usize = 0;
        while i < n
            invariant
                n == self.factory.len(),
                0 <= i <= n,
                slots.len() == i,
                forall|j: int| 0 <= j < i ==> slots[j].name@ == self.factory[j]@,
                forall|j: int| 0 <= j < i ==> slots[j].value is None,
            decreases n - i,
        {
            slots.push(Slot { name: self.factory[i].clone(), value: None });
            i += 1;
        }
        let res = Builder { target: self.target.clone(), slots };
        proof {
            assert(res@.names =~= self@.factory);
            assert(res@.slots =~= BuilderModel::fresh(self@.target, self@.factory).slots);
        }
        res
    }
}

} // verus!
