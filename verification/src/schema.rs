//! The schema descriptor: a static, per-configuration-type description of
//! fields, consumed read-only by the assembly engine.

use vstd::prelude::*;

use crate::value::TypeTag;

verus! {

/// One declared field: its name, whether a value is required, and the kind
/// of value it holds.
#[derive(Debug)]
pub struct FieldSpec {
    pub name: String,
    pub required: bool,
    pub kind: TypeTag,
}

/// The mathematical model of a [`FieldSpec`].
pub struct FieldModel {
    pub name: Seq<char>,
    pub required: bool,
    pub kind: TypeTag,
}

impl View for FieldSpec {
    type V = FieldModel;

    open spec fn view(&self) -> FieldModel {
        FieldModel { name: self.name@, required: self.required, kind: self.kind }
    }
}

impl DeepView for FieldSpec {
    type V = FieldModel;

    open spec fn deep_view(&self) -> FieldModel {
        self.view()
    }
}

impl FieldSpec {
    /// A fresh field declaration.
    pub fn new(name: String, required: bool, kind: TypeTag) -> (r: FieldSpec)
        ensures
            r@ == (FieldModel { name: name@, required, kind }),
    {
        FieldSpec { name, required, kind }
    }
}

/// No two fields share a name.
pub open spec fn names_unique(fields: Seq<FieldModel>) -> bool {
    forall|i: int, j: int|
        0 <= i < j < fields.len() ==> fields[i].name != fields[j].name
}

/// The position of the first field named `name` at or after `i`; the schema
/// length when there is none.
pub open spec fn field_index_from(schema: Seq<FieldModel>, name: Seq<char>, i: int) -> int
    decreases schema.len() - i,
{
    if i < 0 || i >= schema.len() {
        schema.len() as int
    } else if schema[i].name == name {
        i
    } else {
        field_index_from(schema, name, i + 1)
    }
}

/// The position of the first field named `name`; the schema length when
/// there is none.
pub open spec fn field_index(schema: Seq<FieldModel>, name: Seq<char>) -> int {
    field_index_from(schema, name, 0)
}

proof fn lemma_field_index_from(schema: Seq<FieldModel>, j: int, i: int)
    requires
        names_unique(schema),
        0 <= i <= j < schema.len(),
    ensures
        field_index_from(schema, schema[j].name, i) == j,
    decreases j - i,
{
    if i < j {
        assert(schema[i].name != schema[j].name);
        lemma_field_index_from(schema, j, i + 1);
    }
}

/// With unique names, the position of a field's name is the field's own.
pub proof fn lemma_field_index(schema: Seq<FieldModel>, j: int)
    requires
        names_unique(schema),
        0 <= j < schema.len(),
    ensures
        field_index(schema, schema[j].name) == j,
{
    lemma_field_index_from(schema, j, 0);
}

/// An ordered description of the fields of one configuration type.
/// Built once by [`SchemaDescriptor::describe`], immutable thereafter;
/// its field names are unique.
#[derive(Debug)]
pub struct SchemaDescriptor {
    fields: Vec<FieldSpec>,
}

impl View for SchemaDescriptor {
    type V = Seq<FieldModel>;

    closed spec fn view(&self) -> Seq<FieldModel> {
        self.fields.deep_view()
    }
}

impl SchemaDescriptor {
    /// Field names are unique within the descriptor.
    pub open spec fn wf(&self) -> bool {
        names_unique(self@)
    }

    /// Builds the descriptor for a configuration type from its field list,
    /// in declaration order. Fails exactly when two fields share a name:
    /// such a declaration is a definition-time error, never ignored.
    pub fn describe(fields: Vec<FieldSpec>) -> (r: Option<SchemaDescriptor>)
        ensures
            r is Some <==> names_unique(fields.deep_view()),
            r matches Some(s) ==> s@ == fields.deep_view() && s.wf(),
    {
        let n = fields.len();
        for i in 0..n
            invariant
                n == fields.len(),
                forall|p: int, q: int|
                    0 <= p < q < fields.len() && p < i ==> fields.deep_view()[p].name
                        != fields.deep_view()[q].name,
        {
            for j in (i + 1)..n
                invariant
                    n == fields.len(),
                    i < n,
                    forall|p: int, q: int|
                        0 <= p < q < fields.len() && p < i ==> fields.deep_view()[p].name
                            != fields.deep_view()[q].name,
                    forall|q: int|
                        i < q < j ==> fields.deep_view()[i as int].name != fields.deep_view()[q].name,
            {
                if fields[i].name == fields[j].name {
                    assert(fields.deep_view()[i as int].name == fields.deep_view()[j as int].name);
                    assert(!names_unique(fields.deep_view()));
                    return None;
                }
            }
        }
        Some(SchemaDescriptor { fields })
    }

    /// The number of declared fields.
    pub fn len(&self) -> (n: usize)
        ensures
            n == self@.len(),
    {
        self.fields.len()
    }

    /// The field at position `i`, in declaration order.
    pub fn field(&self, i: usize) -> (f: &FieldSpec)
        requires
            i < self@.len(),
        ensures
            f@ == self@[i as int],
    {
        &self.fields[i]
    }
}

} // verus!
