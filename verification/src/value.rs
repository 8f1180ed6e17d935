//! Runtime configuration values and their mathematical models.

use vstd::prelude::*;

verus! {

/// The closed set of primitive kinds a configuration field may have.
#[derive(Clone, Copy, PartialEq, Eq, Structural, Debug)]
pub enum TypeTag {
    StringKind,
    IntegerKind,
    BooleanKind,
}

/// A concrete value held by one configuration field.
#[derive(Debug, PartialEq, Eq)]
pub enum Value {
    VStr(String),
    VInt(i64),
    VBool(bool),
}

/// The mathematical model of a [`Value`].
pub enum ValueModel {
    Str(Seq<char>),
    Int(int),
    Bool(bool),
}

impl View for Value {
    type V = ValueModel;

    open spec fn view(&self) -> ValueModel {
        match self {
            Value::VStr(s) => ValueModel::Str(s@),
            Value::VInt(i) => ValueModel::Int(*i as int),
            Value::VBool(b) => ValueModel::Bool(*b),
        }
    }
}

impl DeepView for Value {
    type V = ValueModel;

    open spec fn deep_view(&self) -> ValueModel {
        self.view()
    }
}

/// The kind a model value belongs to.
pub open spec fn kind_of(v: ValueModel) -> TypeTag {
    match v {
        ValueModel::Str(_) => TypeTag::StringKind,
        ValueModel::Int(_) => TypeTag::IntegerKind,
        ValueModel::Bool(_) => TypeTag::BooleanKind,
    }
}

impl Value {
    /// An owned copy whose model is the same.
    pub fn duplicate(&self) -> (r: Value)
        ensures
            r == *self,
    {
        match self {
            Value::VStr(s) => Value::VStr(s.clone()),
            Value::VInt(i) => Value::VInt(*i),
            Value::VBool(b) => Value::VBool(*b),
        }
    }
}

/// One top-level entry of a decoded configuration file, before it is checked
/// against the schema. Entries of a kind the schema cannot declare (floats,
/// dates, arrays, nested tables) are carried as [`Raw::ROther`].
#[derive(Debug, PartialEq, Eq)]
pub enum Raw {
    RStr(String),
    RInt(i64),
    RBool(bool),
    ROther,
}

/// The mathematical model of a [`Raw`] entry.
pub enum RawModel {
    Str(Seq<char>),
    Int(int),
    Bool(bool),
    Other,
}

impl View for Raw {
    type V = RawModel;

    open spec fn view(&self) -> RawModel {
        match self {
            Raw::RStr(s) => RawModel::Str(s@),
            Raw::RInt(i) => RawModel::Int(*i as int),
            Raw::RBool(b) => RawModel::Bool(*b),
            Raw::ROther => RawModel::Other,
        }
    }
}

impl DeepView for Raw {
    type V = RawModel;

    open spec fn deep_view(&self) -> RawModel {
        self.view()
    }
}

/// A raw file entry is accepted for a field exactly when its kind is the
/// declared kind of the field; every `i64` file integer is representable.
pub open spec fn raw_to_value(r: RawModel, k: TypeTag) -> Option<ValueModel> {
    match (r, k) {
        (RawModel::Str(s), TypeTag::StringKind) => Some(ValueModel::Str(s)),
        (RawModel::Int(i), TypeTag::IntegerKind) => Some(ValueModel::Int(i)),
        (RawModel::Bool(b), TypeTag::BooleanKind) => Some(ValueModel::Bool(b)),
        _ => None,
    }
}

/// Executable counterpart of [`raw_to_value`].
pub fn raw_as_value(r: &Raw, k: TypeTag) -> (o: Option<Value>)
    ensures
        o.deep_view() == raw_to_value(r@, k),
{
    match (r, k) {
        (Raw::RStr(s), TypeTag::StringKind) => Some(Value::VStr(s.clone())),
        (Raw::RInt(i), TypeTag::IntegerKind) => Some(Value::VInt(*i)),
        (Raw::RBool(b), TypeTag::BooleanKind) => Some(Value::VBool(*b)),
        _ => None,
    }
}

} // verus!
